//! The abstract state of a credit account and what each operation does to it.
use vstd::prelude::*;
use crate::error::CreditError;
use crate::ledger::{ClosedLoopLedger, PeerCreditLedger, WithdrawableReserveLedger};
use crate::protocol::{
    AcceptanceMode, BackedCreditSettlement, BackingDeposit, ClosedLoopConsumption,
    CreditNovation, ExternalSettlementAuthorization, ExternalSettlementRequest, IssuerPolicy,
    ReceiptApplication, ServiceReceiptClaim, ValueClass,
};
use crate::text::is_blank;

verus! {

/// One peer-credit movement, in the order it was applied.
#[derive(Debug, PartialEq, Eq)]
pub enum PeerCreditEvent {
    Receipt { revision: u64, receipt_id: String, mode: AcceptanceMode },
    Novation { revision: u64, novation_id: String },
    BackedSettlement { revision: u64, settlement_id: String },
}

impl PeerCreditEvent {
    pub open spec fn spec_revision(&self) -> u64 {
        match self {
            PeerCreditEvent::Receipt { revision, .. } => *revision,
            PeerCreditEvent::Novation { revision, .. } => *revision,
            PeerCreditEvent::BackedSettlement { revision, .. } => *revision,
        }
    }

    pub fn revision(&self) -> (r: u64)
        ensures
            r == self.spec_revision(),
    {
        match self {
            PeerCreditEvent::Receipt { revision, .. } => *revision,
            PeerCreditEvent::Novation { revision, .. } => *revision,
            PeerCreditEvent::BackedSettlement { revision, .. } => *revision,
        }
    }
}

impl Clone for PeerCreditEvent {
    fn clone(&self) -> (r: Self)
        ensures
            r == *self,
    {
        match self {
            PeerCreditEvent::Receipt { revision, receipt_id, mode } => PeerCreditEvent::Receipt {
                revision: *revision,
                receipt_id: receipt_id.clone(),
                mode: *mode,
            },
            PeerCreditEvent::Novation { revision, novation_id } => PeerCreditEvent::Novation {
                revision: *revision,
                novation_id: novation_id.clone(),
            },
            PeerCreditEvent::BackedSettlement { revision, settlement_id } =>
                PeerCreditEvent::BackedSettlement {
                revision: *revision,
                settlement_id: settlement_id.clone(),
            },
        }
    }
}

/// Policy and ledgers of one trusted issuer.
#[derive(Debug, PartialEq, Eq)]
pub struct IssuerState {
    pub policy: IssuerPolicy,
    pub peer_credit: PeerCreditLedger,
    pub closed_loop: ClosedLoopLedger,
    pub withdrawable: WithdrawableReserveLedger,
}

impl Clone for IssuerState {
    fn clone(&self) -> (r: Self)
        ensures
            r == *self,
    {
        IssuerState {
            policy: self.policy.clone(),
            peer_credit: self.peer_credit,
            closed_loop: self.closed_loop,
            withdrawable: self.withdrawable,
        }
    }
}

impl IssuerState {
    pub open spec fn fresh(policy: IssuerPolicy) -> Self {
        IssuerState {
            policy,
            peer_credit: PeerCreditLedger::zero(),
            closed_loop: ClosedLoopLedger::zero(),
            withdrawable: WithdrawableReserveLedger::zero(),
        }
    }

    /// `PolicyExpired` once the issuer policy's expiry has passed.
    pub open spec fn spec_ensure_active(self, now_unix: u64) -> Result<(), CreditError> {
        if self.policy.expires_at_unix is Some && self.policy.expires_at_unix->0 <= now_unix {
            Err(CreditError::PolicyExpired)
        } else {
            Ok(())
        }
    }

    pub fn ensure_active(&self, now_unix: u64) -> (r: Result<(), CreditError>)
        ensures
            r == self.spec_ensure_active(now_unix),
    {
        match self.policy.expires_at_unix {
            Some(expires) => {
                if expires <= now_unix {
                    return Err(CreditError::PolicyExpired);
                }
                Ok(())
            },
            None => Ok(()),
        }
    }
}

#[derive(Debug, Clone, Copy, PartialEq, Eq, Structural)]
pub enum SettlementState {
    Pending,
    Completed { fee_sat: u64 },
    Cancelled,
}

/// An external settlement with its saved authorization and progress.
#[derive(Debug, PartialEq, Eq)]
pub struct SettlementRecord {
    pub request: ExternalSettlementRequest,
    pub authorization: ExternalSettlementAuthorization,
    pub state: SettlementState,
}

impl Clone for SettlementRecord {
    fn clone(&self) -> (r: Self)
        ensures
            r == *self,
    {
        SettlementRecord {
            request: self.request.clone(),
            authorization: self.authorization.clone(),
            state: self.state,
        }
    }
}

/// The abstract state of a credit account.
pub struct AccountView {
    pub revision: u64,
    pub counterparty: Seq<char>,
    pub max_total_peer_credit_sat: u64,
    pub total_peer_credit_sat: u64,
    pub issuers: Map<Seq<char>, IssuerState>,
    pub applied_receipts: Map<Seq<char>, ServiceReceiptClaim>,
    pub peer_credit_events: Seq<PeerCreditEvent>,
    pub novations: Map<Seq<char>, CreditNovation>,
    pub backing_deposits: Map<(Seq<char>, Seq<char>), BackingDeposit>,
    pub backed_settlements: Map<Seq<char>, BackedCreditSettlement>,
    pub closed_loop_consumptions: Map<Seq<char>, ClosedLoopConsumption>,
    pub settlements: Map<Seq<char>, SettlementRecord>,
}

/// The issuers an account starts with, processed in policy order.
pub open spec fn issuers_from_policies(ps: Seq<IssuerPolicy>) -> Result<
    Map<Seq<char>, IssuerState>,
    CreditError,
>
    decreases ps.len(),
{
    if ps.len() == 0 {
        Ok(Map::empty())
    } else {
        match issuers_from_policies(ps.drop_last()) {
            Err(e) => Err(e),
            Ok(m) => {
                let p = ps.last();
                if is_blank(p.issuer@) || p.max_offline_peer_credit_sat > p.max_peer_credit_sat {
                    Err(CreditError::InvalidPolicy)
                } else if m.contains_key(p.issuer@) {
                    Err(CreditError::DuplicateIssuer)
                } else {
                    Ok(m.insert(p.issuer@, IssuerState::fresh(p)))
                }
            },
        }
    }
}

/// A fresh account for a policy, or why the policy is refused.
pub open spec fn spec_new_account(
    counterparty: Seq<char>,
    max_total_peer_credit_sat: u64,
    issuers: Seq<IssuerPolicy>,
) -> Result<AccountView, CreditError> {
    if is_blank(counterparty) {
        Err(CreditError::InvalidPolicy)
    } else if issuers.len() == 0 {
        Err(CreditError::NoIssuers)
    } else {
        match issuers_from_policies(issuers) {
            Err(e) => Err(e),
            Ok(m) => Ok(
                AccountView {
                    revision: 0,
                    counterparty,
                    max_total_peer_credit_sat,
                    total_peer_credit_sat: 0,
                    issuers: m,
                    applied_receipts: Map::empty(),
                    peer_credit_events: Seq::empty(),
                    novations: Map::empty(),
                    backing_deposits: Map::empty(),
                    backed_settlements: Map::empty(),
                    closed_loop_consumptions: Map::empty(),
                    settlements: Map::empty(),
                },
            ),
        }
    }
}

impl AccountView {
    pub open spec fn issuer(self, issuer: Seq<char>) -> Result<IssuerState, CreditError> {
        if self.issuers.contains_key(issuer) {
            Ok(self.issuers[issuer])
        } else {
            Err(CreditError::WrongIssuer)
        }
    }

    pub open spec fn next_revision(self) -> Result<u64, CreditError> {
        if self.revision == u64::MAX {
            Err(CreditError::RevisionOverflow)
        } else {
            Ok((self.revision + 1) as u64)
        }
    }

    pub open spec fn with_peer_credit(self, issuer: Seq<char>, l: PeerCreditLedger) -> Self {
        AccountView {
            issuers: self.issuers.insert(issuer, IssuerState { peer_credit: l, ..self.issuers[issuer] }),
            ..self
        }
    }

    pub open spec fn with_closed_loop(self, issuer: Seq<char>, l: ClosedLoopLedger) -> Self {
        AccountView {
            issuers: self.issuers.insert(issuer, IssuerState { closed_loop: l, ..self.issuers[issuer] }),
            ..self
        }
    }

    pub open spec fn with_withdrawable(self, issuer: Seq<char>, l: WithdrawableReserveLedger) -> Self {
        AccountView {
            issuers: self.issuers.insert(
                issuer,
                IssuerState { withdrawable: l, ..self.issuers[issuer] },
            ),
            ..self
        }
    }

    // ----- backing deposits -----
    pub open spec fn validate_backing_deposit(self, d: BackingDeposit, auth: Seq<char>) -> Result<
        (),
        CreditError,
    > {
        if d.issuer@ != auth {
            Err(CreditError::UnauthenticatedIssuer)
        } else if !self.issuers.contains_key(d.issuer@) {
            Err(CreditError::WrongIssuer)
        } else if is_blank(d.deposit_id@) {
            Err(CreditError::MissingDepositId)
        } else if d.amount_sat == 0 {
            Err(CreditError::ZeroAmount)
        } else if d.value_class == ValueClass::PeerCredit {
            Err(CreditError::UnsupportedBackingClass)
        } else {
            Ok(())
        }
    }

    pub open spec fn record_backing_deposit(self, d: BackingDeposit, auth: Seq<char>) -> Result<
        (AccountView, ReceiptApplication),
        CreditError,
    > {
        let key = (d.issuer@, d.deposit_id@);
        match self.validate_backing_deposit(d, auth) {
            Err(e) => Err(e),
            Ok(_) => if self.backing_deposits.contains_key(key) {
                if self.backing_deposits[key].same(&d) {
                    Ok((self, ReceiptApplication::AlreadyApplied))
                } else {
                    Err(CreditError::DepositConflict)
                }
            } else {
                match self.next_revision() {
                    Err(e) => Err(e),
                    Ok(rev) => {
                        let st = self.issuers[d.issuer@];
                        let moved = if d.value_class == ValueClass::ClosedLoopDeposit {
                            match st.closed_loop.spec_deposit(d.amount_sat) {
                                Err(e) => Err(e),
                                Ok(l) => Ok(self.with_closed_loop(d.issuer@, l)),
                            }
                        } else {
                            match st.withdrawable.spec_deposit(d.amount_sat) {
                                Err(e) => Err(e),
                                Ok(l) => Ok(self.with_withdrawable(d.issuer@, l)),
                            }
                        };
                        match moved {
                            Err(e) => Err(e),
                            Ok(v) => Ok(
                                (
                                    AccountView {
                                        backing_deposits: v.backing_deposits.insert(key, d),
                                        revision: rev,
                                        ..v
                                    },
                                    ReceiptApplication::Applied,
                                ),
                            ),
                        }
                    },
                }
            }
        }
    }

    // ----- receipts -----
    pub open spec fn validate_receipt_identity(self, c: ServiceReceiptClaim, auth: Seq<char>) -> Result<
        (),
        CreditError,
    > {
        if c.counterparty@ != self.counterparty {
            Err(CreditError::WrongCounterparty)
        } else if c.issuer@ != auth {
            Err(CreditError::UnauthenticatedIssuer)
        } else if !self.issuers.contains_key(c.issuer@) {
            Err(CreditError::WrongIssuer)
        } else if is_blank(c.receipt_id@) {
            Err(CreditError::MissingReceiptId)
        } else {
            Ok(())
        }
    }

    /// The checks after identity, for a receipt not seen before.
    pub open spec fn validate_receipt_terms(self, c: ServiceReceiptClaim, now: u64) -> Result<
        (),
        CreditError,
    > {
        match self.issuers[c.issuer@].spec_ensure_active(now) {
            Err(e) => Err(e),
            Ok(_) => if c.expires_at_unix <= now {
                Err(CreditError::ReceiptExpired)
            } else if c.issued_at_unix > now {
                Err(CreditError::ReceiptNotYetValid)
            } else if is_blank(c.service@) || is_blank(c.resource@) || c.useful_service_units
                == 0 {
                Err(CreditError::NoUsefulService)
            } else if c.amount_sat == 0 {
                Err(CreditError::ZeroAmount)
            } else {
                Ok(())
            },
        }
    }

    pub open spec fn apply_peer_credit(self, c: ServiceReceiptClaim, mode: AcceptanceMode) -> Result<
        AccountView,
        CreditError,
    > {
        let st = self.issuers[c.issuer@];
        match st.peer_credit.spec_credit(c.amount_sat, mode == AcceptanceMode::OfflineDeferred) {
            Err(e) => Err(e),
            Ok(l) => if l.outstanding_sat > st.policy.max_peer_credit_sat {
                Err(CreditError::IssuerExposureExceeded)
            } else if l.offline_outstanding_sat > st.policy.max_offline_peer_credit_sat {
                Err(CreditError::OfflineExposureExceeded)
            } else if self.total_peer_credit_sat + c.amount_sat > u64::MAX {
                Err(CreditError::ArithmeticOverflow)
            } else if self.total_peer_credit_sat + c.amount_sat > self.max_total_peer_credit_sat {
                Err(CreditError::TotalExposureExceeded)
            } else {
                Ok(
                    AccountView {
                        total_peer_credit_sat: (self.total_peer_credit_sat + c.amount_sat) as u64,
                        ..self.with_peer_credit(c.issuer@, l)
                    },
                )
            },
        }
    }

    pub open spec fn apply_closed_loop(self, issuer: Seq<char>, amount: u64) -> Result<
        AccountView,
        CreditError,
    > {
        let st = self.issuers[issuer];
        if st.closed_loop.claimable_sat + amount > u64::MAX {
            Err(CreditError::ArithmeticOverflow)
        } else if st.closed_loop.claimable_sat + amount > st.policy.max_closed_loop_sat {
            Err(CreditError::ClosedLoopExposureExceeded)
        } else {
            match st.closed_loop.spec_allocate(amount) {
                Err(e) => Err(e),
                Ok(l) => Ok(self.with_closed_loop(issuer, l)),
            }
        }
    }

    pub open spec fn withdrawable_capacity(self, issuer: Seq<char>, amount: u64) -> Result<
        (),
        CreditError,
    > {
        let st = self.issuers[issuer];
        let l = st.withdrawable;
        if l.redeemable_sat + l.pending_external_sat > u64::MAX || l.redeemable_sat
            + l.pending_external_sat + amount > u64::MAX {
            Err(CreditError::ArithmeticOverflow)
        } else if l.redeemable_sat + l.pending_external_sat + amount > st.policy.max_withdrawable_sat {
            Err(CreditError::WithdrawableExposureExceeded)
        } else {
            Ok(())
        }
    }

    pub open spec fn apply_withdrawable(self, issuer: Seq<char>, amount: u64) -> Result<
        AccountView,
        CreditError,
    > {
        match self.withdrawable_capacity(issuer, amount) {
            Err(e) => Err(e),
            Ok(_) => match self.issuers[issuer].withdrawable.spec_allocate(amount) {
                Err(e) => Err(e),
                Ok(l) => Ok(self.with_withdrawable(issuer, l)),
            },
        }
    }

    pub open spec fn apply_receipt(
        self,
        c: ServiceReceiptClaim,
        auth: Seq<char>,
        mode: AcceptanceMode,
        now: u64,
    ) -> Result<(AccountView, ReceiptApplication), CreditError> {
        match self.validate_receipt_identity(c, auth) {
            Err(e) => Err(e),
            Ok(_) => if self.applied_receipts.contains_key(c.receipt_id@) {
                if self.applied_receipts[c.receipt_id@].same(&c) {
                    Ok((self, ReceiptApplication::AlreadyApplied))
                } else {
                    Err(CreditError::ReceiptConflict)
                }
            } else {
                match self.validate_receipt_terms(c, now) {
                    Err(e) => Err(e),
                    Ok(_) => match self.next_revision() {
                        Err(e) => Err(e),
                        Ok(rev) => {
                            let moved = if c.value_class == ValueClass::PeerCredit {
                                self.apply_peer_credit(c, mode)
                            } else if mode == AcceptanceMode::OfflineDeferred {
                                Err(CreditError::BackingVerificationRequired)
                            } else if c.value_class == ValueClass::ClosedLoopDeposit {
                                self.apply_closed_loop(c.issuer@, c.amount_sat)
                            } else {
                                self.apply_withdrawable(c.issuer@, c.amount_sat)
                            };
                            match moved {
                                Err(e) => Err(e),
                                Ok(v) => Ok(
                                    (
                                        AccountView {
                                            peer_credit_events: if c.value_class
                                                == ValueClass::PeerCredit {
                                                v.peer_credit_events.push(
                                                    PeerCreditEvent::Receipt {
                                                        revision: rev,
                                                        receipt_id: c.receipt_id,
                                                        mode,
                                                    },
                                                )
                                            } else {
                                                v.peer_credit_events
                                            },
                                            applied_receipts: v.applied_receipts.insert(
                                                c.receipt_id@,
                                                c,
                                            ),
                                            revision: rev,
                                            ..v
                                        },
                                        ReceiptApplication::Applied,
                                    ),
                                ),
                            }
                        },
                    },
                }
            }
        }
    }

    // ----- novation -----
    pub open spec fn validate_novation_identity(self, n: CreditNovation, auth: Seq<char>) -> Result<
        (),
        CreditError,
    > {
        if n.counterparty@ != self.counterparty {
            Err(CreditError::WrongCounterparty)
        } else if n.to_issuer@ != auth {
            Err(CreditError::UnauthenticatedIssuer)
        } else if n.from_issuer@ == n.to_issuer@ {
            Err(CreditError::SameIssuerNovation)
        } else if is_blank(n.novation_id@) {
            Err(CreditError::MissingNovationId)
        } else if !self.issuers.contains_key(n.from_issuer@) || !self.issuers.contains_key(
            n.to_issuer@,
        ) {
            Err(CreditError::WrongIssuer)
        } else {
            Ok(())
        }
    }

    pub open spec fn validate_novation_terms(self, n: CreditNovation, now: u64) -> Result<
        (),
        CreditError,
    > {
        if n.expires_at_unix <= now {
            Err(CreditError::NovationExpired)
        } else if n.amount_sat == 0 {
            Err(CreditError::ZeroAmount)
        } else {
            match self.issuers[n.from_issuer@].spec_ensure_active(now) {
                Err(e) => Err(e),
                Ok(_) => self.issuers[n.to_issuer@].spec_ensure_active(now),
            }
        }
    }

    pub open spec fn novate_peer_credit(self, n: CreditNovation, auth: Seq<char>, now: u64) -> Result<
        AccountView,
        CreditError,
    > {
        match self.validate_novation_identity(n, auth) {
            Err(e) => Err(e),
            Ok(_) => if self.novations.contains_key(n.novation_id@) {
                if self.novations[n.novation_id@].same(&n) {
                    Ok(self)
                } else {
                    Err(CreditError::NovationConflict)
                }
            } else {
                match self.validate_novation_terms(n, now) {
                    Err(e) => Err(e),
                    Ok(_) => match self.next_revision() {
                        Err(e) => Err(e),
                        Ok(rev) => {
                            let from = self.issuers[n.from_issuer@];
                            let to = self.issuers[n.to_issuer@];
                            match from.peer_credit.spec_debit(n.amount_sat) {
                                Err(e) => Err(e),
                                Ok(source) => match to.peer_credit.spec_credit(n.amount_sat, false) {
                                    Err(e) => Err(e),
                                    Ok(target) => if target.outstanding_sat
                                        > to.policy.max_peer_credit_sat {
                                        Err(CreditError::IssuerExposureExceeded)
                                    } else {
                                        let v = self.with_peer_credit(
                                            n.from_issuer@,
                                            source,
                                        ).with_peer_credit(n.to_issuer@, target);
                                        Ok(
                                            AccountView {
                                                peer_credit_events: v.peer_credit_events.push(
                                                    PeerCreditEvent::Novation {
                                                        revision: rev,
                                                        novation_id: n.novation_id,
                                                    },
                                                ),
                                                novations: v.novations.insert(n.novation_id@, n),
                                                revision: rev,
                                                ..v
                                            },
                                        )
                                    },
                                },
                            }
                        },
                    },
                }
            }
        }
    }

    // ----- backed settlement -----
    pub open spec fn validate_backed_identity(self, s: BackedCreditSettlement, auth: Seq<char>) -> Result<
        (),
        CreditError,
    > {
        if s.counterparty@ != self.counterparty {
            Err(CreditError::WrongCounterparty)
        } else if s.backing_issuer@ != auth {
            Err(CreditError::UnauthenticatedIssuer)
        } else if !self.issuers.contains_key(s.from_issuer@) || !self.issuers.contains_key(
            s.backing_issuer@,
        ) {
            Err(CreditError::WrongIssuer)
        } else if is_blank(s.settlement_id@) {
            Err(CreditError::MissingBackedSettlementId)
        } else {
            Ok(())
        }
    }

    pub open spec fn validate_backed_terms(self, s: BackedCreditSettlement, now: u64) -> Result<
        (),
        CreditError,
    > {
        match self.issuers[s.from_issuer@].spec_ensure_active(now) {
            Err(e) => Err(e),
            Ok(_) => match self.issuers[s.backing_issuer@].spec_ensure_active(now) {
                Err(e) => Err(e),
                Ok(_) => if s.expires_at_unix <= now {
                    Err(CreditError::BackedSettlementExpired)
                } else if s.amount_sat == 0 {
                    Err(CreditError::ZeroAmount)
                } else if s.value_class == ValueClass::PeerCredit {
                    Err(CreditError::UnsupportedBackingClass)
                } else {
                    Ok(())
                },
            },
        }
    }

    pub open spec fn settle_peer_credit_with_backing(
        self,
        s: BackedCreditSettlement,
        auth: Seq<char>,
        now: u64,
    ) -> Result<(AccountView, ReceiptApplication), CreditError> {
        match self.validate_backed_identity(s, auth) {
            Err(e) => Err(e),
            Ok(_) => if self.backed_settlements.contains_key(s.settlement_id@) {
                if self.backed_settlements[s.settlement_id@].same(&s) {
                    Ok((self, ReceiptApplication::AlreadyApplied))
                } else {
                    Err(CreditError::BackedSettlementConflict)
                }
            } else {
                match self.validate_backed_terms(s, now) {
                    Err(e) => Err(e),
                    Ok(_) => match self.next_revision() {
                        Err(e) => Err(e),
                        Ok(rev) => match self.issuers[s.from_issuer@].peer_credit.spec_debit(
                            s.amount_sat,
                        ) {
                            Err(e) => Err(e),
                            Ok(source) => if s.amount_sat > self.total_peer_credit_sat {
                                Err(CreditError::ConservationViolation)
                            } else {
                                let backed = if s.value_class == ValueClass::ClosedLoopDeposit {
                                    self.apply_closed_loop(s.backing_issuer@, s.amount_sat)
                                } else {
                                    self.apply_withdrawable(s.backing_issuer@, s.amount_sat)
                                };
                                match backed {
                                    Err(e) => Err(e),
                                    Ok(v1) => {
                                        let v = v1.with_peer_credit(s.from_issuer@, source);
                                        Ok(
                                            (
                                                AccountView {
                                                    total_peer_credit_sat: (self.total_peer_credit_sat
                                                        - s.amount_sat) as u64,
                                                    peer_credit_events: v.peer_credit_events.push(
                                                        PeerCreditEvent::BackedSettlement {
                                                            revision: rev,
                                                            settlement_id: s.settlement_id,
                                                        },
                                                    ),
                                                    backed_settlements: v.backed_settlements.insert(
                                                        s.settlement_id@,
                                                        s,
                                                    ),
                                                    revision: rev,
                                                    ..v
                                                },
                                                ReceiptApplication::Applied,
                                            ),
                                        )
                                    },
                                }
                            },
                        },
                    },
                }
            }
        }
    }

    // ----- closed-loop consumption -----
    pub open spec fn validate_consumption(self, c: ClosedLoopConsumption, auth: Seq<char>) -> Result<
        (),
        CreditError,
    > {
        if c.counterparty@ != self.counterparty {
            Err(CreditError::WrongCounterparty)
        } else if c.counterparty@ != auth {
            Err(CreditError::UnauthenticatedCounterparty)
        } else if !self.issuers.contains_key(c.issuer@) {
            Err(CreditError::WrongIssuer)
        } else if is_blank(c.consumption_id@) {
            Err(CreditError::MissingClosedLoopConsumptionId)
        } else if is_blank(c.resource@) {
            Err(CreditError::NoUsefulService)
        } else if c.amount_sat == 0 {
            Err(CreditError::ZeroAmount)
        } else {
            Ok(())
        }
    }

    pub open spec fn consume_closed_loop(self, c: ClosedLoopConsumption, auth: Seq<char>) -> Result<
        (AccountView, ReceiptApplication),
        CreditError,
    > {
        match self.validate_consumption(c, auth) {
            Err(e) => Err(e),
            Ok(_) => if self.closed_loop_consumptions.contains_key(c.consumption_id@) {
                if self.closed_loop_consumptions[c.consumption_id@].same(&c) {
                    Ok((self, ReceiptApplication::AlreadyApplied))
                } else {
                    Err(CreditError::ClosedLoopConsumptionConflict)
                }
            } else {
                match self.next_revision() {
                    Err(e) => Err(e),
                    Ok(rev) => match self.issuers[c.issuer@].closed_loop.spec_consume(
                        c.amount_sat,
                    ) {
                        Err(e) => Err(e),
                        Ok(l) => {
                            let v = self.with_closed_loop(c.issuer@, l);
                            Ok(
                                (
                                    AccountView {
                                        closed_loop_consumptions: v.closed_loop_consumptions.insert(
                                            c.consumption_id@,
                                            c,
                                        ),
                                        revision: rev,
                                        ..v
                                    },
                                    ReceiptApplication::Applied,
                                ),
                            )
                        },
                    },
                }
            }
        }
    }

    // ----- external settlement -----
    pub open spec fn validate_settlement_identity(
        self,
        r: ExternalSettlementRequest,
        auth: Seq<char>,
    ) -> Result<(), CreditError> {
        if r.counterparty@ != self.counterparty {
            Err(CreditError::WrongCounterparty)
        } else if r.counterparty@ != auth {
            Err(CreditError::UnauthenticatedCounterparty)
        } else if !self.issuers.contains_key(r.issuer@) {
            Err(CreditError::WrongIssuer)
        } else if is_blank(r.settlement_id@) {
            Err(CreditError::MissingSettlementId)
        } else {
            Ok(())
        }
    }

    pub open spec fn validate_settlement_terms(self, r: ExternalSettlementRequest, now: u64) -> Result<
        (),
        CreditError,
    > {
        match self.issuers[r.issuer@].spec_ensure_active(now) {
            Err(e) => Err(e),
            Ok(_) => if r.expires_at_unix <= now {
                Err(CreditError::SettlementExpired)
            } else if r.amount_sat == 0 {
                Err(CreditError::ZeroAmount)
            } else if is_blank(r.payout_destination@) {
                Err(CreditError::MissingPayoutDestination)
            } else {
                Ok(())
            },
        }
    }

    /// The authorization granted for a request at a time.
    pub open spec fn authorization_for(r: ExternalSettlementRequest, now: u64) -> ExternalSettlementAuthorization {
        ExternalSettlementAuthorization {
            settlement_id: r.settlement_id,
            issuer: r.issuer,
            counterparty: r.counterparty,
            payout_destination: r.payout_destination,
            amount_sat: r.amount_sat,
            max_fee_sat: r.max_fee_sat,
            reserved_sat: (r.amount_sat + r.max_fee_sat) as u64,
            authorized_at_unix: now,
            expires_at_unix: r.expires_at_unix,
        }
    }

    pub open spec fn authorize_external_settlement(
        self,
        r: ExternalSettlementRequest,
        auth: Seq<char>,
        now: u64,
    ) -> Result<(AccountView, ExternalSettlementAuthorization), CreditError> {
        match self.validate_settlement_identity(r, auth) {
            Err(e) => Err(e),
            Ok(_) => if self.settlements.contains_key(r.settlement_id@) {
                let existing = self.settlements[r.settlement_id@];
                if !existing.request.same(&r) {
                    Err(CreditError::SettlementConflict)
                } else {
                    match existing.state {
                        SettlementState::Pending => Ok((self, existing.authorization)),
                        SettlementState::Completed { .. } => Err(CreditError::SettlementCompleted),
                        SettlementState::Cancelled => Err(CreditError::SettlementCancelled),
                    }
                }
            } else {
                match self.validate_settlement_terms(r, now) {
                    Err(e) => Err(e),
                    Ok(_) => match self.next_revision() {
                        Err(e) => Err(e),
                        Ok(rev) => if r.amount_sat + r.max_fee_sat > u64::MAX {
                            Err(CreditError::ArithmeticOverflow)
                        } else {
                            let reserved = (r.amount_sat + r.max_fee_sat) as u64;
                            match self.issuers[r.issuer@].withdrawable.spec_authorize(reserved) {
                                Err(e) => Err(e),
                                Ok(l) => {
                                    let a = Self::authorization_for(r, now);
                                    let v = self.with_withdrawable(r.issuer@, l);
                                    Ok(
                                        (
                                            AccountView {
                                                settlements: v.settlements.insert(
                                                    r.settlement_id@,
                                                    SettlementRecord {
                                                        request: r,
                                                        authorization: a,
                                                        state: SettlementState::Pending,
                                                    },
                                                ),
                                                revision: rev,
                                                ..v
                                            },
                                            a,
                                        ),
                                    )
                                },
                            }
                        },
                    },
                }
            }
        }
    }

    pub open spec fn complete_external_settlement(self, id: Seq<char>, fee: u64) -> Result<
        AccountView,
        CreditError,
    > {
        if !self.settlements.contains_key(id) {
            Err(CreditError::UnknownSettlement)
        } else {
            let record = self.settlements[id];
            match record.state {
                SettlementState::Completed { fee_sat } => if fee_sat == fee {
                    Ok(self)
                } else {
                    Err(CreditError::SettlementCompletionConflict)
                },
                SettlementState::Cancelled => Err(CreditError::SettlementCancelled),
                SettlementState::Pending => if fee > record.request.max_fee_sat {
                    Err(CreditError::SettlementFeeExceeded)
                } else {
                    match self.next_revision() {
                        Err(e) => Err(e),
                        Ok(rev) => if record.request.amount_sat + fee > u64::MAX {
                            Err(CreditError::ArithmeticOverflow)
                        } else {
                            let spent = (record.request.amount_sat + fee) as u64;
                            let unused = (record.request.max_fee_sat - fee) as u64;
                            let issuer = record.request.issuer@;
                            match self.issuer(issuer) {
                                Err(e) => Err(e),
                                Ok(st) => match st.withdrawable.spec_complete(spent) {
                                    Err(e) => Err(e),
                                    Ok(l1) => {
                                        let l2 = if unused > 0 {
                                            l1.spec_cancel(unused)
                                        } else {
                                            Ok(l1)
                                        };
                                        match l2 {
                                            Err(e) => Err(e),
                                            Ok(l) => {
                                                let v = self.with_withdrawable(issuer, l);
                                                Ok(
                                                    AccountView {
                                                        settlements: v.settlements.insert(
                                                            id,
                                                            SettlementRecord {
                                                                state: SettlementState::Completed {
                                                                    fee_sat: fee,
                                                                },
                                                                ..record
                                                            },
                                                        ),
                                                        revision: rev,
                                                        ..v
                                                    },
                                                )
                                            },
                                        }
                                    },
                                },
                            }
                        },
                    }
                },
            }
        }
    }

    pub open spec fn cancel_external_settlement(self, id: Seq<char>) -> Result<
        AccountView,
        CreditError,
    > {
        if !self.settlements.contains_key(id) {
            Err(CreditError::UnknownSettlement)
        } else {
            let record = self.settlements[id];
            match record.state {
                SettlementState::Cancelled => Ok(self),
                SettlementState::Completed { .. } => Err(CreditError::SettlementCompleted),
                SettlementState::Pending => match self.next_revision() {
                    Err(e) => Err(e),
                    Ok(rev) => {
                        let issuer = record.request.issuer@;
                        match self.issuer(issuer) {
                            Err(e) => Err(e),
                            Ok(st) => match st.withdrawable.spec_cancel(
                                record.authorization.reserved_sat,
                            ) {
                                Err(e) => Err(e),
                                Ok(l) => {
                                    let v = self.with_withdrawable(issuer, l);
                                    Ok(
                                        AccountView {
                                            settlements: v.settlements.insert(
                                                id,
                                                SettlementRecord {
                                                    state: SettlementState::Cancelled,
                                                    ..record
                                                },
                                            ),
                                            revision: rev,
                                            ..v
                                        },
                                    )
                                },
                            },
                        }
                    },
                },
            }
        }
    }
}

} // verus!
