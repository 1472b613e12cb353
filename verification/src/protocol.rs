//! Protocol records exchanged with the credit account.
use vstd::prelude::*;
use crate::text::same_text;

verus! {

/// The backing and redemption capability of value issued for useful service.
#[derive(Debug, Clone, Copy, PartialEq, Eq, Structural)]
pub enum ValueClass {
    /// Relationship-local, unbacked credit. It is never externally redeemable.
    PeerCredit,
    /// Deposit-backed value usable inside the issuer's economy, without cashout.
    ClosedLoopDeposit,
    /// Reserve-backed sats that may authorize an external Cashu or LN settlement.
    ReserveBackedWithdrawable,
}

/// Whether accepting a claim required live issuer/proof verification.
#[derive(Debug, Clone, Copy, PartialEq, Eq, Structural)]
pub enum AcceptanceMode {
    Online,
    OfflineDeferred,
}

#[derive(Debug, Clone, Copy, PartialEq, Eq, Structural)]
pub enum ReceiptApplication {
    Applied,
    AlreadyApplied,
}

/// Counterparty-local trust policy across all accepted issuers.
#[derive(Debug, PartialEq, Eq)]
pub struct AccountPolicy {
    pub counterparty: String,
    /// Aggregate cap for unbacked peer credit across every trusted issuer.
    pub max_total_peer_credit_sat: u64,
    pub issuers: Vec<IssuerPolicy>,
}

/// An unsigned, application-neutral acknowledgement of useful service.
///
/// The issuer is the transfer initiator or sponsor and the peer-credit payer;
/// the counterparty is the provider being paid. Signatures stay outside the claim.
#[derive(Debug, PartialEq, Eq)]
pub struct ServiceReceiptClaim {
    pub receipt_id: String,
    pub issuer: String,
    pub counterparty: String,
    pub service: String,
    pub resource: String,
    pub useful_service_units: u64,
    pub amount_sat: u64,
    pub value_class: ValueClass,
    pub issued_at_unix: u64,
    pub expires_at_unix: u64,
}

impl ServiceReceiptClaim {
    /// The two records carry the same contents.
    pub open spec fn same(&self, other: &Self) -> bool {
        self.receipt_id@ == other.receipt_id@
        && self.issuer@ == other.issuer@
        && self.counterparty@ == other.counterparty@
        && self.service@ == other.service@
        && self.resource@ == other.resource@
        && self.useful_service_units == other.useful_service_units
        && self.amount_sat == other.amount_sat
        && self.value_class == other.value_class
        && self.issued_at_unix == other.issued_at_unix
        && self.expires_at_unix == other.expires_at_unix
    }

    pub fn same_as(&self, other: &Self) -> (r: bool)
        ensures
            r == self.same(other),
    {
        same_text(self.receipt_id.as_str(), other.receipt_id.as_str())
            && same_text(self.issuer.as_str(), other.issuer.as_str())
            && same_text(self.counterparty.as_str(), other.counterparty.as_str())
            && same_text(self.service.as_str(), other.service.as_str())
            && same_text(self.resource.as_str(), other.resource.as_str())
            && self.useful_service_units == other.useful_service_units
            && self.amount_sat == other.amount_sat
            && self.value_class == other.value_class
            && self.issued_at_unix == other.issued_at_unix
            && self.expires_at_unix == other.expires_at_unix
    }
}

impl Clone for ServiceReceiptClaim {
    fn clone(&self) -> (r: Self)
        ensures
            r == *self,
    {
        ServiceReceiptClaim {
            receipt_id: self.receipt_id.clone(),
            issuer: self.issuer.clone(),
            counterparty: self.counterparty.clone(),
            service: self.service.clone(),
            resource: self.resource.clone(),
            useful_service_units: self.useful_service_units,
            amount_sat: self.amount_sat,
            value_class: self.value_class,
            issued_at_unix: self.issued_at_unix,
            expires_at_unix: self.expires_at_unix,
        }
    }
}

/// Per-issuer limits selected by the counterparty accepting value.
#[derive(Debug, PartialEq, Eq)]
pub struct IssuerPolicy {
    pub issuer: String,
    pub max_peer_credit_sat: u64,
    pub max_offline_peer_credit_sat: u64,
    pub max_closed_loop_sat: u64,
    pub max_withdrawable_sat: u64,
    pub expires_at_unix: Option<u64>,
}

impl IssuerPolicy {
    /// The two records carry the same contents.
    pub open spec fn same(&self, other: &Self) -> bool {
        self.issuer@ == other.issuer@
        && self.max_peer_credit_sat == other.max_peer_credit_sat
        && self.max_offline_peer_credit_sat == other.max_offline_peer_credit_sat
        && self.max_closed_loop_sat == other.max_closed_loop_sat
        && self.max_withdrawable_sat == other.max_withdrawable_sat
        && self.expires_at_unix == other.expires_at_unix
    }

    pub fn same_as(&self, other: &Self) -> (r: bool)
        ensures
            r == self.same(other),
    {
        same_text(self.issuer.as_str(), other.issuer.as_str())
            && self.max_peer_credit_sat == other.max_peer_credit_sat
            && self.max_offline_peer_credit_sat == other.max_offline_peer_credit_sat
            && self.max_closed_loop_sat == other.max_closed_loop_sat
            && self.max_withdrawable_sat == other.max_withdrawable_sat
            && self.expires_at_unix == other.expires_at_unix
    }
}

impl Clone for IssuerPolicy {
    fn clone(&self) -> (r: Self)
        ensures
            r == *self,
    {
        IssuerPolicy {
            issuer: self.issuer.clone(),
            max_peer_credit_sat: self.max_peer_credit_sat,
            max_offline_peer_credit_sat: self.max_offline_peer_credit_sat,
            max_closed_loop_sat: self.max_closed_loop_sat,
            max_withdrawable_sat: self.max_withdrawable_sat,
            expires_at_unix: self.expires_at_unix,
        }
    }
}

/// Shift an existing unbacked liability to another trusted peer issuer.
///
/// Novation never creates withdrawable value and never reduces aggregate peer-credit exposure.
#[derive(Debug, PartialEq, Eq)]
pub struct CreditNovation {
    pub novation_id: String,
    pub counterparty: String,
    pub from_issuer: String,
    pub to_issuer: String,
    pub amount_sat: u64,
    pub expires_at_unix: u64,
}

impl CreditNovation {
    /// The two records carry the same contents.
    pub open spec fn same(&self, other: &Self) -> bool {
        self.novation_id@ == other.novation_id@
        && self.counterparty@ == other.counterparty@
        && self.from_issuer@ == other.from_issuer@
        && self.to_issuer@ == other.to_issuer@
        && self.amount_sat == other.amount_sat
        && self.expires_at_unix == other.expires_at_unix
    }

    pub fn same_as(&self, other: &Self) -> (r: bool)
        ensures
            r == self.same(other),
    {
        same_text(self.novation_id.as_str(), other.novation_id.as_str())
            && same_text(self.counterparty.as_str(), other.counterparty.as_str())
            && same_text(self.from_issuer.as_str(), other.from_issuer.as_str())
            && same_text(self.to_issuer.as_str(), other.to_issuer.as_str())
            && self.amount_sat == other.amount_sat
            && self.expires_at_unix == other.expires_at_unix
    }
}

impl Clone for CreditNovation {
    fn clone(&self) -> (r: Self)
        ensures
            r == *self,
    {
        CreditNovation {
            novation_id: self.novation_id.clone(),
            counterparty: self.counterparty.clone(),
            from_issuer: self.from_issuer.clone(),
            to_issuer: self.to_issuer.clone(),
            amount_sat: self.amount_sat,
            expires_at_unix: self.expires_at_unix,
        }
    }
}

/// A deposit already verified by the Cashu or Lightning adapter.
///
/// `deposit_id` is the adapter's stable quote, payment, or operation ID.
#[derive(Debug, PartialEq, Eq)]
pub struct BackingDeposit {
    pub deposit_id: String,
    pub issuer: String,
    pub amount_sat: u64,
    pub value_class: ValueClass,
}

impl BackingDeposit {
    /// The two records carry the same contents.
    pub open spec fn same(&self, other: &Self) -> bool {
        self.deposit_id@ == other.deposit_id@
        && self.issuer@ == other.issuer@
        && self.amount_sat == other.amount_sat
        && self.value_class == other.value_class
    }

    pub fn same_as(&self, other: &Self) -> (r: bool)
        ensures
            r == self.same(other),
    {
        same_text(self.deposit_id.as_str(), other.deposit_id.as_str())
            && same_text(self.issuer.as_str(), other.issuer.as_str())
            && self.amount_sat == other.amount_sat
            && self.value_class == other.value_class
    }
}

impl Clone for BackingDeposit {
    fn clone(&self) -> (r: Self)
        ensures
            r == *self,
    {
        BackingDeposit {
            deposit_id: self.deposit_id.clone(),
            issuer: self.issuer.clone(),
            amount_sat: self.amount_sat,
            value_class: self.value_class,
        }
    }
}

/// Replace peer credit with a verified backed liability from an accepted issuer.
#[derive(Debug, PartialEq, Eq)]
pub struct BackedCreditSettlement {
    pub settlement_id: String,
    pub counterparty: String,
    pub from_issuer: String,
    pub backing_issuer: String,
    pub amount_sat: u64,
    pub value_class: ValueClass,
    pub expires_at_unix: u64,
}

impl BackedCreditSettlement {
    /// The two records carry the same contents.
    pub open spec fn same(&self, other: &Self) -> bool {
        self.settlement_id@ == other.settlement_id@
        && self.counterparty@ == other.counterparty@
        && self.from_issuer@ == other.from_issuer@
        && self.backing_issuer@ == other.backing_issuer@
        && self.amount_sat == other.amount_sat
        && self.value_class == other.value_class
        && self.expires_at_unix == other.expires_at_unix
    }

    pub fn same_as(&self, other: &Self) -> (r: bool)
        ensures
            r == self.same(other),
    {
        same_text(self.settlement_id.as_str(), other.settlement_id.as_str())
            && same_text(self.counterparty.as_str(), other.counterparty.as_str())
            && same_text(self.from_issuer.as_str(), other.from_issuer.as_str())
            && same_text(self.backing_issuer.as_str(), other.backing_issuer.as_str())
            && self.amount_sat == other.amount_sat
            && self.value_class == other.value_class
            && self.expires_at_unix == other.expires_at_unix
    }
}

impl Clone for BackedCreditSettlement {
    fn clone(&self) -> (r: Self)
        ensures
            r == *self,
    {
        BackedCreditSettlement {
            settlement_id: self.settlement_id.clone(),
            counterparty: self.counterparty.clone(),
            from_issuer: self.from_issuer.clone(),
            backing_issuer: self.backing_issuer.clone(),
            amount_sat: self.amount_sat,
            value_class: self.value_class,
            expires_at_unix: self.expires_at_unix,
        }
    }
}

/// Idempotent spend of closed-loop value for a named issuer service.
#[derive(Debug, PartialEq, Eq)]
pub struct ClosedLoopConsumption {
    pub consumption_id: String,
    pub issuer: String,
    pub counterparty: String,
    pub resource: String,
    pub amount_sat: u64,
}

impl ClosedLoopConsumption {
    /// The two records carry the same contents.
    pub open spec fn same(&self, other: &Self) -> bool {
        self.consumption_id@ == other.consumption_id@
        && self.issuer@ == other.issuer@
        && self.counterparty@ == other.counterparty@
        && self.resource@ == other.resource@
        && self.amount_sat == other.amount_sat
    }

    pub fn same_as(&self, other: &Self) -> (r: bool)
        ensures
            r == self.same(other),
    {
        same_text(self.consumption_id.as_str(), other.consumption_id.as_str())
            && same_text(self.issuer.as_str(), other.issuer.as_str())
            && same_text(self.counterparty.as_str(), other.counterparty.as_str())
            && same_text(self.resource.as_str(), other.resource.as_str())
            && self.amount_sat == other.amount_sat
    }
}

impl Clone for ClosedLoopConsumption {
    fn clone(&self) -> (r: Self)
        ensures
            r == *self,
    {
        ClosedLoopConsumption {
            consumption_id: self.consumption_id.clone(),
            issuer: self.issuer.clone(),
            counterparty: self.counterparty.clone(),
            resource: self.resource.clone(),
            amount_sat: self.amount_sat,
        }
    }
}

/// Unsigned request by the counterparty to consume withdrawable backing.
#[derive(Debug, PartialEq, Eq)]
pub struct ExternalSettlementRequest {
    pub settlement_id: String,
    pub issuer: String,
    pub counterparty: String,
    pub payout_destination: String,
    pub amount_sat: u64,
    pub max_fee_sat: u64,
    pub expires_at_unix: u64,
}

impl ExternalSettlementRequest {
    /// The two records carry the same contents.
    pub open spec fn same(&self, other: &Self) -> bool {
        self.settlement_id@ == other.settlement_id@
        && self.issuer@ == other.issuer@
        && self.counterparty@ == other.counterparty@
        && self.payout_destination@ == other.payout_destination@
        && self.amount_sat == other.amount_sat
        && self.max_fee_sat == other.max_fee_sat
        && self.expires_at_unix == other.expires_at_unix
    }

    pub fn same_as(&self, other: &Self) -> (r: bool)
        ensures
            r == self.same(other),
    {
        same_text(self.settlement_id.as_str(), other.settlement_id.as_str())
            && same_text(self.issuer.as_str(), other.issuer.as_str())
            && same_text(self.counterparty.as_str(), other.counterparty.as_str())
            && same_text(self.payout_destination.as_str(), other.payout_destination.as_str())
            && self.amount_sat == other.amount_sat
            && self.max_fee_sat == other.max_fee_sat
            && self.expires_at_unix == other.expires_at_unix
    }
}

impl Clone for ExternalSettlementRequest {
    fn clone(&self) -> (r: Self)
        ensures
            r == *self,
    {
        ExternalSettlementRequest {
            settlement_id: self.settlement_id.clone(),
            issuer: self.issuer.clone(),
            counterparty: self.counterparty.clone(),
            payout_destination: self.payout_destination.clone(),
            amount_sat: self.amount_sat,
            max_fee_sat: self.max_fee_sat,
            expires_at_unix: self.expires_at_unix,
        }
    }
}

/// Idempotent authority for an external settlement backend.
///
/// `reserved_sat` is the principal plus the fee ceiling reserved before backend execution.
#[derive(Debug, PartialEq, Eq)]
pub struct ExternalSettlementAuthorization {
    pub settlement_id: String,
    pub issuer: String,
    pub counterparty: String,
    pub payout_destination: String,
    pub amount_sat: u64,
    pub max_fee_sat: u64,
    pub reserved_sat: u64,
    pub authorized_at_unix: u64,
    pub expires_at_unix: u64,
}

impl ExternalSettlementAuthorization {
    /// The two records carry the same contents.
    pub open spec fn same(&self, other: &Self) -> bool {
        self.settlement_id@ == other.settlement_id@
        && self.issuer@ == other.issuer@
        && self.counterparty@ == other.counterparty@
        && self.payout_destination@ == other.payout_destination@
        && self.amount_sat == other.amount_sat
        && self.max_fee_sat == other.max_fee_sat
        && self.reserved_sat == other.reserved_sat
        && self.authorized_at_unix == other.authorized_at_unix
        && self.expires_at_unix == other.expires_at_unix
    }

    pub fn same_as(&self, other: &Self) -> (r: bool)
        ensures
            r == self.same(other),
    {
        same_text(self.settlement_id.as_str(), other.settlement_id.as_str())
            && same_text(self.issuer.as_str(), other.issuer.as_str())
            && same_text(self.counterparty.as_str(), other.counterparty.as_str())
            && same_text(self.payout_destination.as_str(), other.payout_destination.as_str())
            && self.amount_sat == other.amount_sat
            && self.max_fee_sat == other.max_fee_sat
            && self.reserved_sat == other.reserved_sat
            && self.authorized_at_unix == other.authorized_at_unix
            && self.expires_at_unix == other.expires_at_unix
    }
}

impl Clone for ExternalSettlementAuthorization {
    fn clone(&self) -> (r: Self)
        ensures
            r == *self,
    {
        ExternalSettlementAuthorization {
            settlement_id: self.settlement_id.clone(),
            issuer: self.issuer.clone(),
            counterparty: self.counterparty.clone(),
            payout_destination: self.payout_destination.clone(),
            amount_sat: self.amount_sat,
            max_fee_sat: self.max_fee_sat,
            reserved_sat: self.reserved_sat,
            authorized_at_unix: self.authorized_at_unix,
            expires_at_unix: self.expires_at_unix,
        }
    }
}

} // verus!
