//! The three per-issuer ledgers and their conserving movements.
use vstd::prelude::*;
use crate::error::CreditError;

verus! {

/// Unbacked, non-redeemable relationship credit issued by one peer.
#[derive(Debug, Clone, Copy, PartialEq, Eq, Structural)]
pub struct PeerCreditLedger {
    pub outstanding_sat: u64,
    pub offline_outstanding_sat: u64,
}

/// Deposit-backed value that can circulate or buy issuer service, but cannot cash out.
#[derive(Debug, Clone, Copy, PartialEq, Eq, Structural)]
pub struct ClosedLoopLedger {
    pub total_deposited_sat: u64,
    pub available_backing_sat: u64,
    pub claimable_sat: u64,
    pub consumed_sat: u64,
}

/// Reserve-backed sats that may leave through an external settlement backend.
#[derive(Debug, Clone, Copy, PartialEq, Eq, Structural)]
pub struct WithdrawableReserveLedger {
    pub total_deposited_sat: u64,
    pub available_sat: u64,
    pub redeemable_sat: u64,
    pub pending_external_sat: u64,
    pub settled_external_sat: u64,
}

impl Default for PeerCreditLedger {
    fn default() -> (l: Self)
        ensures
            l == PeerCreditLedger::zero(),
    {
        PeerCreditLedger { outstanding_sat: 0, offline_outstanding_sat: 0 }
    }
}

impl Default for ClosedLoopLedger {
    fn default() -> (l: Self)
        ensures
            l == ClosedLoopLedger::zero(),
    {
        ClosedLoopLedger {
            total_deposited_sat: 0,
            available_backing_sat: 0,
            claimable_sat: 0,
            consumed_sat: 0,
        }
    }
}

impl Default for WithdrawableReserveLedger {
    fn default() -> (l: Self)
        ensures
            l == WithdrawableReserveLedger::zero(),
    {
        WithdrawableReserveLedger {
            total_deposited_sat: 0,
            available_sat: 0,
            redeemable_sat: 0,
            pending_external_sat: 0,
            settled_external_sat: 0,
        }
    }
}

impl PeerCreditLedger {
    pub open spec fn zero() -> Self {
        PeerCreditLedger { outstanding_sat: 0, offline_outstanding_sat: 0 }
    }

    /// Add unbacked credit; offline acceptance also counts toward the offline exposure.
    pub open spec fn spec_credit(self, amount: u64, offline: bool) -> Result<Self, CreditError> {
        if self.outstanding_sat + amount > u64::MAX {
            Err(CreditError::ArithmeticOverflow)
        } else if offline && self.offline_outstanding_sat + amount > u64::MAX {
            Err(CreditError::ArithmeticOverflow)
        } else {
            Ok(
                PeerCreditLedger {
                    outstanding_sat: (self.outstanding_sat + amount) as u64,
                    offline_outstanding_sat: if offline {
                        (self.offline_outstanding_sat + amount) as u64
                    } else {
                        self.offline_outstanding_sat
                    },
                },
            )
        }
    }

    /// Remove credit; the offline part never exceeds what remains outstanding.
    pub open spec fn spec_debit(self, amount: u64) -> Result<Self, CreditError> {
        if amount > self.outstanding_sat {
            Err(CreditError::InsufficientPeerCredit)
        } else {
            let outstanding = (self.outstanding_sat - amount) as u64;
            Ok(
                PeerCreditLedger {
                    outstanding_sat: outstanding,
                    offline_outstanding_sat: if self.offline_outstanding_sat <= outstanding {
                        self.offline_outstanding_sat
                    } else {
                        outstanding
                    },
                },
            )
        }
    }

    pub fn outstanding_sat(&self) -> (r: u64)
        ensures
            r == self.outstanding_sat,
    {
        self.outstanding_sat
    }

    pub fn offline_outstanding_sat(&self) -> (r: u64)
        ensures
            r == self.offline_outstanding_sat,
    {
        self.offline_outstanding_sat
    }

    pub fn credit(&mut self, amount: u64, offline: bool) -> (r: Result<(), CreditError>)
        ensures
            match old(self).spec_credit(amount, offline) {
                Ok(l) => r is Ok && *final(self) == l,
                Err(e) => r == Err::<(), CreditError>(e) && *final(self) == *old(self),
            },
    {
        let outstanding = match self.outstanding_sat.checked_add(amount) {
            Some(v) => v,
            None => return Err(CreditError::ArithmeticOverflow),
        };
        let offline_outstanding = if offline {
            match self.offline_outstanding_sat.checked_add(amount) {
                Some(v) => v,
                None => return Err(CreditError::ArithmeticOverflow),
            }
        } else {
            self.offline_outstanding_sat
        };
        self.outstanding_sat = outstanding;
        self.offline_outstanding_sat = offline_outstanding;
        Ok(())
    }

    pub fn debit(&mut self, amount: u64) -> (r: Result<(), CreditError>)
        ensures
            match old(self).spec_debit(amount) {
                Ok(l) => r is Ok && *final(self) == l,
                Err(e) => r == Err::<(), CreditError>(e) && *final(self) == *old(self),
            },
    {
        if amount > self.outstanding_sat {
            return Err(CreditError::InsufficientPeerCredit);
        }
        self.outstanding_sat = self.outstanding_sat - amount;
        if self.offline_outstanding_sat > self.outstanding_sat {
            self.offline_outstanding_sat = self.outstanding_sat;
        }
        Ok(())
    }
}

impl ClosedLoopLedger {
    pub open spec fn zero() -> Self {
        ClosedLoopLedger {
            total_deposited_sat: 0,
            available_backing_sat: 0,
            claimable_sat: 0,
            consumed_sat: 0,
        }
    }

    /// Every deposited sat is available, claimable, or consumed.
    pub open spec fn conserved(self) -> bool {
        self.available_backing_sat + self.claimable_sat + self.consumed_sat
            == self.total_deposited_sat
    }

    pub open spec fn spec_deposit(self, amount: u64) -> Result<Self, CreditError> {
        if self.total_deposited_sat + amount > u64::MAX || self.available_backing_sat + amount
            > u64::MAX {
            Err(CreditError::ArithmeticOverflow)
        } else {
            Ok(
                ClosedLoopLedger {
                    total_deposited_sat: (self.total_deposited_sat + amount) as u64,
                    available_backing_sat: (self.available_backing_sat + amount) as u64,
                    ..self
                },
            )
        }
    }

    /// Move available backing to the counterparty's claimable balance.
    pub open spec fn spec_allocate(self, amount: u64) -> Result<Self, CreditError> {
        if amount > self.available_backing_sat {
            Err(CreditError::InsufficientClosedLoopBacking)
        } else if self.claimable_sat + amount > u64::MAX {
            Err(CreditError::ArithmeticOverflow)
        } else {
            Ok(
                ClosedLoopLedger {
                    available_backing_sat: (self.available_backing_sat - amount) as u64,
                    claimable_sat: (self.claimable_sat + amount) as u64,
                    ..self
                },
            )
        }
    }

    /// Spend claimable value on issuer service.
    pub open spec fn spec_consume(self, amount: u64) -> Result<Self, CreditError> {
        if amount > self.claimable_sat {
            Err(CreditError::InsufficientClosedLoopBacking)
        } else if self.consumed_sat + amount > u64::MAX {
            Err(CreditError::ArithmeticOverflow)
        } else {
            Ok(
                ClosedLoopLedger {
                    claimable_sat: (self.claimable_sat - amount) as u64,
                    consumed_sat: (self.consumed_sat + amount) as u64,
                    ..self
                },
            )
        }
    }

    pub fn total_deposited_sat(&self) -> (r: u64)
        ensures
            r == self.total_deposited_sat,
    {
        self.total_deposited_sat
    }

    pub fn available_backing_sat(&self) -> (r: u64)
        ensures
            r == self.available_backing_sat,
    {
        self.available_backing_sat
    }

    pub fn claimable_sat(&self) -> (r: u64)
        ensures
            r == self.claimable_sat,
    {
        self.claimable_sat
    }

    pub fn consumed_sat(&self) -> (r: u64)
        ensures
            r == self.consumed_sat,
    {
        self.consumed_sat
    }

    /// The conserved total, or why the ledger does not add up.
    pub fn conserved_sat(&self) -> (r: Result<u64, CreditError>)
        ensures
            self.available_backing_sat + self.claimable_sat + self.consumed_sat > u64::MAX ==> r
                == Err::<u64, CreditError>(CreditError::ArithmeticOverflow),
            self.available_backing_sat + self.claimable_sat + self.consumed_sat <= u64::MAX ==> r
                == if self.conserved() {
                Ok::<u64, CreditError>(self.total_deposited_sat)
            } else {
                Err(CreditError::ConservationViolation)
            },
    {
        let accounted = match self.available_backing_sat.checked_add(self.claimable_sat) {
            Some(v) => match v.checked_add(self.consumed_sat) {
                Some(w) => w,
                None => return Err(CreditError::ArithmeticOverflow),
            },
            None => return Err(CreditError::ArithmeticOverflow),
        };
        if accounted != self.total_deposited_sat {
            return Err(CreditError::ConservationViolation);
        }
        Ok(accounted)
    }

    pub fn deposit(&mut self, amount: u64) -> (r: Result<(), CreditError>)
        ensures
            match old(self).spec_deposit(amount) {
                Ok(l) => r is Ok && *final(self) == l,
                Err(e) => r == Err::<(), CreditError>(e) && *final(self) == *old(self),
            },
    {
        let total = match self.total_deposited_sat.checked_add(amount) {
            Some(v) => v,
            None => return Err(CreditError::ArithmeticOverflow),
        };
        let available = match self.available_backing_sat.checked_add(amount) {
            Some(v) => v,
            None => return Err(CreditError::ArithmeticOverflow),
        };
        self.total_deposited_sat = total;
        self.available_backing_sat = available;
        Ok(())
    }

    pub fn allocate(&mut self, amount: u64) -> (r: Result<(), CreditError>)
        ensures
            match old(self).spec_allocate(amount) {
                Ok(l) => r is Ok && *final(self) == l,
                Err(e) => r == Err::<(), CreditError>(e) && *final(self) == *old(self),
            },
    {
        if amount > self.available_backing_sat {
            return Err(CreditError::InsufficientClosedLoopBacking);
        }
        let claimable = match self.claimable_sat.checked_add(amount) {
            Some(v) => v,
            None => return Err(CreditError::ArithmeticOverflow),
        };
        self.available_backing_sat = self.available_backing_sat - amount;
        self.claimable_sat = claimable;
        Ok(())
    }

    pub fn consume(&mut self, amount: u64) -> (r: Result<(), CreditError>)
        ensures
            match old(self).spec_consume(amount) {
                Ok(l) => r is Ok && *final(self) == l,
                Err(e) => r == Err::<(), CreditError>(e) && *final(self) == *old(self),
            },
    {
        if amount > self.claimable_sat {
            return Err(CreditError::InsufficientClosedLoopBacking);
        }
        let consumed = match self.consumed_sat.checked_add(amount) {
            Some(v) => v,
            None => return Err(CreditError::ArithmeticOverflow),
        };
        self.claimable_sat = self.claimable_sat - amount;
        self.consumed_sat = consumed;
        Ok(())
    }
}

impl WithdrawableReserveLedger {
    pub open spec fn zero() -> Self {
        WithdrawableReserveLedger {
            total_deposited_sat: 0,
            available_sat: 0,
            redeemable_sat: 0,
            pending_external_sat: 0,
            settled_external_sat: 0,
        }
    }

    /// Every deposited sat is available, redeemable, pending payout, or paid out.
    pub open spec fn conserved(self) -> bool {
        self.available_sat + self.redeemable_sat + self.pending_external_sat
            + self.settled_external_sat == self.total_deposited_sat
    }

    pub open spec fn spec_deposit(self, amount: u64) -> Result<Self, CreditError> {
        if self.total_deposited_sat + amount > u64::MAX || self.available_sat + amount > u64::MAX {
            Err(CreditError::ArithmeticOverflow)
        } else {
            Ok(
                WithdrawableReserveLedger {
                    total_deposited_sat: (self.total_deposited_sat + amount) as u64,
                    available_sat: (self.available_sat + amount) as u64,
                    ..self
                },
            )
        }
    }

    /// Move available reserve to the counterparty's redeemable balance.
    pub open spec fn spec_allocate(self, amount: u64) -> Result<Self, CreditError> {
        if amount > self.available_sat {
            Err(CreditError::InsufficientAvailableReserve)
        } else if self.redeemable_sat + amount > u64::MAX {
            Err(CreditError::ArithmeticOverflow)
        } else {
            Ok(
                WithdrawableReserveLedger {
                    available_sat: (self.available_sat - amount) as u64,
                    redeemable_sat: (self.redeemable_sat + amount) as u64,
                    ..self
                },
            )
        }
    }

    /// Reserve redeemable sats for an external payout.
    pub open spec fn spec_authorize(self, amount: u64) -> Result<Self, CreditError> {
        if amount > self.redeemable_sat {
            Err(CreditError::InsufficientRedeemableReserve)
        } else if self.pending_external_sat + amount > u64::MAX {
            Err(CreditError::ArithmeticOverflow)
        } else {
            Ok(
                WithdrawableReserveLedger {
                    redeemable_sat: (self.redeemable_sat - amount) as u64,
                    pending_external_sat: (self.pending_external_sat + amount) as u64,
                    ..self
                },
            )
        }
    }

    /// Record reserved sats as paid out.
    pub open spec fn spec_complete(self, amount: u64) -> Result<Self, CreditError> {
        if amount > self.pending_external_sat {
            Err(CreditError::ConservationViolation)
        } else if self.settled_external_sat + amount > u64::MAX {
            Err(CreditError::ArithmeticOverflow)
        } else {
            Ok(
                WithdrawableReserveLedger {
                    pending_external_sat: (self.pending_external_sat - amount) as u64,
                    settled_external_sat: (self.settled_external_sat + amount) as u64,
                    ..self
                },
            )
        }
    }

    /// Return reserved sats to the redeemable balance.
    pub open spec fn spec_cancel(self, amount: u64) -> Result<Self, CreditError> {
        if amount > self.pending_external_sat {
            Err(CreditError::ConservationViolation)
        } else if self.redeemable_sat + amount > u64::MAX {
            Err(CreditError::ArithmeticOverflow)
        } else {
            Ok(
                WithdrawableReserveLedger {
                    pending_external_sat: (self.pending_external_sat - amount) as u64,
                    redeemable_sat: (self.redeemable_sat + amount) as u64,
                    ..self
                },
            )
        }
    }

    pub fn total_deposited_sat(&self) -> (r: u64)
        ensures
            r == self.total_deposited_sat,
    {
        self.total_deposited_sat
    }

    pub fn available_sat(&self) -> (r: u64)
        ensures
            r == self.available_sat,
    {
        self.available_sat
    }

    pub fn redeemable_sat(&self) -> (r: u64)
        ensures
            r == self.redeemable_sat,
    {
        self.redeemable_sat
    }

    pub fn pending_external_sat(&self) -> (r: u64)
        ensures
            r == self.pending_external_sat,
    {
        self.pending_external_sat
    }

    pub fn settled_external_sat(&self) -> (r: u64)
        ensures
            r == self.settled_external_sat,
    {
        self.settled_external_sat
    }

    /// The conserved total, or why the ledger does not add up.
    pub fn conserved_sat(&self) -> (r: Result<u64, CreditError>)
        ensures
            self.available_sat + self.redeemable_sat + self.pending_external_sat
                + self.settled_external_sat > u64::MAX ==> r == Err::<u64, CreditError>(
                CreditError::ArithmeticOverflow,
            ),
            self.available_sat + self.redeemable_sat + self.pending_external_sat
                + self.settled_external_sat <= u64::MAX ==> r == if self.conserved() {
                Ok::<u64, CreditError>(self.total_deposited_sat)
            } else {
                Err(CreditError::ConservationViolation)
            },
    {
        let a = match self.available_sat.checked_add(self.redeemable_sat) {
            Some(v) => v,
            None => return Err(CreditError::ArithmeticOverflow),
        };
        let b = match a.checked_add(self.pending_external_sat) {
            Some(v) => v,
            None => return Err(CreditError::ArithmeticOverflow),
        };
        let accounted = match b.checked_add(self.settled_external_sat) {
            Some(v) => v,
            None => return Err(CreditError::ArithmeticOverflow),
        };
        if accounted != self.total_deposited_sat {
            return Err(CreditError::ConservationViolation);
        }
        Ok(accounted)
    }

    pub fn deposit(&mut self, amount: u64) -> (r: Result<(), CreditError>)
        ensures
            match old(self).spec_deposit(amount) {
                Ok(l) => r is Ok && *final(self) == l,
                Err(e) => r == Err::<(), CreditError>(e) && *final(self) == *old(self),
            },
    {
        let total = match self.total_deposited_sat.checked_add(amount) {
            Some(v) => v,
            None => return Err(CreditError::ArithmeticOverflow),
        };
        let available = match self.available_sat.checked_add(amount) {
            Some(v) => v,
            None => return Err(CreditError::ArithmeticOverflow),
        };
        self.total_deposited_sat = total;
        self.available_sat = available;
        Ok(())
    }

    pub fn allocate(&mut self, amount: u64) -> (r: Result<(), CreditError>)
        ensures
            match old(self).spec_allocate(amount) {
                Ok(l) => r is Ok && *final(self) == l,
                Err(e) => r == Err::<(), CreditError>(e) && *final(self) == *old(self),
            },
    {
        if amount > self.available_sat {
            return Err(CreditError::InsufficientAvailableReserve);
        }
        let redeemable = match self.redeemable_sat.checked_add(amount) {
            Some(v) => v,
            None => return Err(CreditError::ArithmeticOverflow),
        };
        self.available_sat = self.available_sat - amount;
        self.redeemable_sat = redeemable;
        Ok(())
    }

    pub fn authorize(&mut self, amount: u64) -> (r: Result<(), CreditError>)
        ensures
            match old(self).spec_authorize(amount) {
                Ok(l) => r is Ok && *final(self) == l,
                Err(e) => r == Err::<(), CreditError>(e) && *final(self) == *old(self),
            },
    {
        if amount > self.redeemable_sat {
            return Err(CreditError::InsufficientRedeemableReserve);
        }
        let pending = match self.pending_external_sat.checked_add(amount) {
            Some(v) => v,
            None => return Err(CreditError::ArithmeticOverflow),
        };
        self.redeemable_sat = self.redeemable_sat - amount;
        self.pending_external_sat = pending;
        Ok(())
    }

    pub fn complete(&mut self, amount: u64) -> (r: Result<(), CreditError>)
        ensures
            match old(self).spec_complete(amount) {
                Ok(l) => r is Ok && *final(self) == l,
                Err(e) => r == Err::<(), CreditError>(e) && *final(self) == *old(self),
            },
    {
        if amount > self.pending_external_sat {
            return Err(CreditError::ConservationViolation);
        }
        let settled = match self.settled_external_sat.checked_add(amount) {
            Some(v) => v,
            None => return Err(CreditError::ArithmeticOverflow),
        };
        self.pending_external_sat = self.pending_external_sat - amount;
        self.settled_external_sat = settled;
        Ok(())
    }

    pub fn cancel(&mut self, amount: u64) -> (r: Result<(), CreditError>)
        ensures
            match old(self).spec_cancel(amount) {
                Ok(l) => r is Ok && *final(self) == l,
                Err(e) => r == Err::<(), CreditError>(e) && *final(self) == *old(self),
            },
    {
        if amount > self.pending_external_sat {
            return Err(CreditError::ConservationViolation);
        }
        let redeemable = match self.redeemable_sat.checked_add(amount) {
            Some(v) => v,
            None => return Err(CreditError::ArithmeticOverflow),
        };
        self.pending_external_sat = self.pending_external_sat - amount;
        self.redeemable_sat = redeemable;
        Ok(())
    }
}

/// Every closed-loop movement keeps the ledger conserved: what is deposited is
/// always exactly what is available, claimable, or consumed.
pub proof fn law_closed_loop_conservation(l: ClosedLoopLedger, amount: u64)
    requires
        l.conserved(),
    ensures
        l.spec_deposit(amount) matches Ok(n) ==> n.conserved(),
        l.spec_allocate(amount) matches Ok(n) ==> n.conserved(),
        l.spec_consume(amount) matches Ok(n) ==> n.conserved(),
{
}

/// Every reserve movement keeps the ledger conserved: what is deposited is
/// always exactly what is available, redeemable, pending, or settled.
pub proof fn law_withdrawable_conservation(l: WithdrawableReserveLedger, amount: u64)
    requires
        l.conserved(),
    ensures
        l.spec_deposit(amount) matches Ok(n) ==> n.conserved(),
        l.spec_allocate(amount) matches Ok(n) ==> n.conserved(),
        l.spec_authorize(amount) matches Ok(n) ==> n.conserved(),
        l.spec_complete(amount) matches Ok(n) ==> n.conserved(),
        l.spec_cancel(amount) matches Ok(n) ==> n.conserved(),
{
}

/// Peer-credit movements never let the offline exposure exceed the outstanding
/// total.
pub proof fn law_peer_credit_offline_bounded(l: PeerCreditLedger, amount: u64, offline: bool)
    requires
        l.offline_outstanding_sat <= l.outstanding_sat,
    ensures
        l.spec_credit(amount, offline) matches Ok(n) ==> n.offline_outstanding_sat
            <= n.outstanding_sat,
        l.spec_debit(amount) matches Ok(n) ==> n.offline_outstanding_sat <= n.outstanding_sat,
{
}

} // verus!
