//! Errors of the credit-account state machine.
use vstd::prelude::*;

verus! {

#[derive(Debug, Clone, Copy, PartialEq, Eq)]
pub enum CreditError {
    /// account has no trusted issuer with this identity
    WrongIssuer,
    /// claim is for a different counterparty
    WrongCounterparty,
    /// the supplied authenticated identity does not match the issuer
    UnauthenticatedIssuer,
    /// the supplied authenticated identity does not match the counterparty
    UnauthenticatedCounterparty,
    /// issuer policy has expired
    PolicyExpired,
    /// receipt has expired
    ReceiptExpired,
    /// receipt was issued in the future
    ReceiptNotYetValid,
    /// receipt id is empty
    MissingReceiptId,
    /// receipt id was reused with different contents
    ReceiptConflict,
    /// backing deposit id is empty
    MissingDepositId,
    /// backing deposit id was reused with different contents
    DepositConflict,
    /// backed settlement id is empty
    MissingBackedSettlementId,
    /// backed settlement has expired
    BackedSettlementExpired,
    /// backed settlement id was reused with different contents
    BackedSettlementConflict,
    /// closed-loop consumption id is empty
    MissingClosedLoopConsumptionId,
    /// closed-loop consumption id was reused with different contents
    ClosedLoopConsumptionConflict,
    /// peer credit is not a backed settlement class
    UnsupportedBackingClass,
    /// receipt does not describe useful service
    NoUsefulService,
    /// amount must be greater than zero
    ZeroAmount,
    /// arithmetic overflow
    ArithmeticOverflow,
    /// credit account revision overflow
    RevisionOverflow,
    /// issuer peer-credit exposure exceeded
    IssuerExposureExceeded,
    /// aggregate peer-credit exposure exceeded
    TotalExposureExceeded,
    /// offline peer-credit exposure exceeded
    OfflineExposureExceeded,
    /// deposit- or reserve-backed value requires live proof verification
    BackingVerificationRequired,
    /// issuer does not have enough available closed-loop backing
    InsufficientClosedLoopBacking,
    /// issuer does not have enough available withdrawable reserve
    InsufficientAvailableReserve,
    /// issuer does not have enough externally redeemable reserve
    InsufficientRedeemableReserve,
    /// issuer closed-loop exposure exceeded
    ClosedLoopExposureExceeded,
    /// issuer withdrawable exposure exceeded
    WithdrawableExposureExceeded,
    /// peer-credit balance is insufficient
    InsufficientPeerCredit,
    /// novation has expired
    NovationExpired,
    /// novation id is empty
    MissingNovationId,
    /// novation id was reused with different contents
    NovationConflict,
    /// novation must change issuer
    SameIssuerNovation,
    /// settlement has expired
    SettlementExpired,
    /// settlement id is empty
    MissingSettlementId,
    /// settlement payout destination is empty
    MissingPayoutDestination,
    /// settlement id was reused with different contents
    SettlementConflict,
    /// settlement completion conflicts with the recorded fee
    SettlementCompletionConflict,
    /// settlement backend fee exceeded its authorized maximum
    SettlementFeeExceeded,
    /// settlement was already cancelled
    SettlementCancelled,
    /// settlement was already completed
    SettlementCompleted,
    /// unknown settlement id
    UnknownSettlement,
    /// account policy lists an issuer more than once
    DuplicateIssuer,
    /// account has no issuers
    NoIssuers,
    /// account policy is invalid
    InvalidPolicy,
    /// unsupported credit account snapshot version
    UnsupportedSnapshotVersion,
    /// credit account snapshot is invalid: {0}
    InvalidSnapshot(&'static str),
    /// an internal conservation invariant was violated
    ConservationViolation,
}

} // verus!
