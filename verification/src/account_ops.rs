//! The mutating operations of a credit account. Each one either applies
//! exactly the transition its model gives, or fails and changes nothing.
use vstd::prelude::*;
use crate::account::CreditAccount;
use crate::error::CreditError;
use crate::laws::{law_call_keeps_invariant, AccountCall};
use crate::ledger::{ClosedLoopLedger, PeerCreditLedger, WithdrawableReserveLedger};
use crate::model::{AccountView, IssuerState, PeerCreditEvent};
use crate::protocol::{
    AcceptanceMode, BackedCreditSettlement, BackingDeposit, ClosedLoopConsumption,
    CreditNovation, ReceiptApplication, ServiceReceiptClaim, ValueClass,
};
use crate::text::{is_blank_text, same_text};

verus! {

impl CreditAccount {
    pub(crate) fn next_revision(&self) -> (r: Result<u64, CreditError>)
        ensures
            r == self@.next_revision(),
    {
        proof {
            self.lemma_view();
        }
        match self.revision.checked_add(1) {
            Some(v) => Ok(v),
            None => Err(CreditError::RevisionOverflow),
        }
    }

    /// Replace the state of the issuer at position `i`.
    pub(crate) fn set_issuer_at(&mut self, i: usize, st: IssuerState)
        requires
            i < old(self).issuers.pairs().len(),
        ensures
            final(self)@ == (AccountView {
                issuers: old(self)@.issuers.insert(old(self).issuers.pairs()[i as int].0, st),
                ..old(self)@
            }),
            final(self).issuers.pairs().len() == old(self).issuers.pairs().len(),
            forall|j: int|
                0 <= j < old(self).issuers.pairs().len() ==> #[trigger] final(self).issuers.pairs()[j].0 == old(self).issuers.pairs()[j].0,
            final(self).issuers.pairs()[i as int].1 == st,
            final(self).settlements == old(self).settlements,
            final(self).backing_deposits == old(self).backing_deposits,
            final(self).applied_receipts == old(self).applied_receipts,
            final(self).novations == old(self).novations,
            final(self).revision == old(self).revision,
    {
        proof {
            old(self).lemma_view();
        }
        self.issuers.update_at(i, st);
        proof {
            self.lemma_view();
        }
    }

    fn find_deposit(&self, issuer: &str, id: &str) -> (r: Option<&BackingDeposit>)
        ensures
            r is Some <==> self@.backing_deposits.contains_key((issuer@, id@)),
            r matches Some(d) ==> *d == self@.backing_deposits[(issuer@, id@)],
    {
        proof {
            self.lemma_view();
        }
        self.backing_deposits.get(issuer, id)
    }

    fn insert_deposit(&mut self, d: BackingDeposit)
        requires
            !old(self)@.backing_deposits.contains_key((d.issuer@, d.deposit_id@)),
        ensures
            final(self)@ == (AccountView {
                backing_deposits: old(self)@.backing_deposits.insert(
                    (d.issuer@, d.deposit_id@),
                    d,
                ),
                ..old(self)@
            }),
            final(self).issuers == old(self).issuers,
    {
        proof {
            old(self).lemma_view();
        }
        self.backing_deposits.insert(d);
        proof {
            self.lemma_view();
        }
    }

    /// Record verified backing exactly once using the adapter's stable operation ID.
    pub fn record_backing_deposit(&mut self, deposit: &BackingDeposit, authenticated_issuer: &str) -> (r:
        Result<ReceiptApplication, CreditError>)
        ensures
            old(self)@.inv() ==> final(self)@.inv(),
            match old(self)@.record_backing_deposit(*deposit, authenticated_issuer@) {
                Ok((v, a)) => r == Ok::<ReceiptApplication, CreditError>(a) && final(self)@ == v,
                Err(e) => r == Err::<ReceiptApplication, CreditError>(e) && final(self)@ == old(self)@,
            },
    {
        proof {
            self.lemma_view();
            if self@.inv() {
                law_call_keeps_invariant(
                    self@,
                    AccountCall::RecordBackingDeposit(*deposit, authenticated_issuer@),
                );
            }
        }
        if !same_text(deposit.issuer.as_str(), authenticated_issuer) {
            return Err(CreditError::UnauthenticatedIssuer);
        }
        let i = self.issuer_pos(deposit.issuer.as_str())?;
        if is_blank_text(deposit.deposit_id.as_str()) {
            return Err(CreditError::MissingDepositId);
        }
        if deposit.amount_sat == 0 {
            return Err(CreditError::ZeroAmount);
        }
        if deposit.value_class == ValueClass::PeerCredit {
            return Err(CreditError::UnsupportedBackingClass);
        }
        match self.find_deposit(deposit.issuer.as_str(), deposit.deposit_id.as_str()) {
            Some(existing) => {
                if existing.same_as(deposit) {
                    return Ok(ReceiptApplication::AlreadyApplied);
                } else {
                    return Err(CreditError::DepositConflict);
                }
            },
            None => {},
        }
        let revision = self.next_revision()?;
        let mut st = self.issuers.value_at(i).clone();
        if deposit.value_class == ValueClass::ClosedLoopDeposit {
            let mut l = st.closed_loop;
            l.deposit(deposit.amount_sat)?;
            st.closed_loop = l;
        } else {
            let mut l = st.withdrawable;
            l.deposit(deposit.amount_sat)?;
            st.withdrawable = l;
        }
        self.set_issuer_at(i, st);
        self.insert_deposit(deposit.clone());
        proof {
            self.lemma_view();
        }
        self.revision = revision;
        proof {
            self.lemma_view();
        }
        Ok(ReceiptApplication::Applied)
    }

    fn check_receipt_identity(&self, claim: &ServiceReceiptClaim, authenticated_issuer: &str) -> (r:
        Result<usize, CreditError>)
        ensures
            match self@.validate_receipt_identity(*claim, authenticated_issuer@) {
                Ok(_) => r matches Ok(i) && i < self.issuers.pairs().len()
                    && self.issuers.pairs()[i as int].0 == claim.issuer@
                    && self.issuers.pairs()[i as int].1 == self@.issuers[claim.issuer@],
                Err(e) => r == Err::<usize, CreditError>(e),
            },
    {
        proof {
            self.lemma_view();
        }
        if !same_text(claim.counterparty.as_str(), self.counterparty.as_str()) {
            return Err(CreditError::WrongCounterparty);
        }
        if !same_text(claim.issuer.as_str(), authenticated_issuer) {
            return Err(CreditError::UnauthenticatedIssuer);
        }
        let i = self.issuer_pos(claim.issuer.as_str())?;
        if is_blank_text(claim.receipt_id.as_str()) {
            return Err(CreditError::MissingReceiptId);
        }
        Ok(i)
    }

    fn check_receipt_terms(&self, st: &IssuerState, claim: &ServiceReceiptClaim, now_unix: u64) -> (r:
        Result<(), CreditError>)
        requires
            self@.issuers.contains_key(claim.issuer@),
            *st == self@.issuers[claim.issuer@],
        ensures
            r == self@.validate_receipt_terms(*claim, now_unix),
    {
        st.ensure_active(now_unix)?;
        if claim.expires_at_unix <= now_unix {
            return Err(CreditError::ReceiptExpired);
        }
        if claim.issued_at_unix > now_unix {
            return Err(CreditError::ReceiptNotYetValid);
        }
        if is_blank_text(claim.service.as_str()) || is_blank_text(claim.resource.as_str())
            || claim.useful_service_units == 0 {
            return Err(CreditError::NoUsefulService);
        }
        if claim.amount_sat == 0 {
            return Err(CreditError::ZeroAmount);
        }
        Ok(())
    }

    /// The peer ledger and aggregate total after crediting a receipt, without applying them.
    fn peer_credit_after(&self, st: &IssuerState, claim: &ServiceReceiptClaim, mode: AcceptanceMode) -> (r:
        Result<(PeerCreditLedger, u64), CreditError>)
        requires
            self@.issuers.contains_key(claim.issuer@),
            *st == self@.issuers[claim.issuer@],
        ensures
            match self@.apply_peer_credit(*claim, mode) {
                Ok(v) => r matches Ok((l, t)) && v == (AccountView {
                    total_peer_credit_sat: t,
                    ..self@.with_peer_credit(claim.issuer@, l)
                }),
                Err(e) => r == Err::<(PeerCreditLedger, u64), CreditError>(e),
            },
    {
        let mut ledger = st.peer_credit;
        ledger.credit(claim.amount_sat, mode == AcceptanceMode::OfflineDeferred)?;
        if ledger.outstanding_sat > st.policy.max_peer_credit_sat {
            return Err(CreditError::IssuerExposureExceeded);
        }
        if ledger.offline_outstanding_sat > st.policy.max_offline_peer_credit_sat {
            return Err(CreditError::OfflineExposureExceeded);
        }
        proof {
            self.lemma_view();
        }
        let total = match self.total_peer_credit_sat.checked_add(claim.amount_sat) {
            Some(t) => t,
            None => return Err(CreditError::ArithmeticOverflow),
        };
        if total > self.max_total_peer_credit_sat {
            return Err(CreditError::TotalExposureExceeded);
        }
        Ok((ledger, total))
    }

    /// The closed-loop ledger after allocating backing for `amount`.
    fn closed_loop_after(&self, st: &IssuerState, issuer: &str, amount: u64) -> (r: Result<
        ClosedLoopLedger,
        CreditError,
    >)
        requires
            self@.issuers.contains_key(issuer@),
            *st == self@.issuers[issuer@],
        ensures
            match self@.apply_closed_loop(issuer@, amount) {
                Ok(v) => r matches Ok(l) && v == self@.with_closed_loop(issuer@, l),
                Err(e) => r == Err::<ClosedLoopLedger, CreditError>(e),
            },
    {
        let mut ledger = st.closed_loop;
        let resulting = match ledger.claimable_sat.checked_add(amount) {
            Some(v) => v,
            None => return Err(CreditError::ArithmeticOverflow),
        };
        if resulting > st.policy.max_closed_loop_sat {
            return Err(CreditError::ClosedLoopExposureExceeded);
        }
        ledger.allocate(amount)?;
        Ok(ledger)
    }

    fn ensure_withdrawable_capacity(&self, st: &IssuerState, issuer: &str, amount: u64) -> (r:
        Result<(), CreditError>)
        requires
            self@.issuers.contains_key(issuer@),
            *st == self@.issuers[issuer@],
        ensures
            r == self@.withdrawable_capacity(issuer@, amount),
    {
        let l = st.withdrawable;
        let exposure = match l.redeemable_sat.checked_add(l.pending_external_sat) {
            Some(v) => match v.checked_add(amount) {
                Some(w) => w,
                None => return Err(CreditError::ArithmeticOverflow),
            },
            None => return Err(CreditError::ArithmeticOverflow),
        };
        if exposure > st.policy.max_withdrawable_sat {
            return Err(CreditError::WithdrawableExposureExceeded);
        }
        Ok(())
    }

    /// The reserve ledger after allocating `amount` to the counterparty.
    fn withdrawable_after(&self, st: &IssuerState, issuer: &str, amount: u64) -> (r: Result<
        WithdrawableReserveLedger,
        CreditError,
    >)
        requires
            self@.issuers.contains_key(issuer@),
            *st == self@.issuers[issuer@],
        ensures
            match self@.apply_withdrawable(issuer@, amount) {
                Ok(v) => r matches Ok(l) && v == self@.with_withdrawable(issuer@, l),
                Err(e) => r == Err::<WithdrawableReserveLedger, CreditError>(e),
            },
    {
        self.ensure_withdrawable_capacity(st, issuer, amount)?;
        let mut ledger = st.withdrawable;
        ledger.allocate(amount)?;
        Ok(ledger)
    }

    /// Apply a receipt after the caller verified its signature and supplies the signer identity.
    pub fn apply_receipt(
        &mut self,
        claim: &ServiceReceiptClaim,
        authenticated_issuer: &str,
        mode: AcceptanceMode,
        now_unix: u64,
    ) -> (r: Result<ReceiptApplication, CreditError>)
        ensures
            old(self)@.inv() ==> final(self)@.inv(),
            match old(self)@.apply_receipt(*claim, authenticated_issuer@, mode, now_unix) {
                Ok((v, a)) => r == Ok::<ReceiptApplication, CreditError>(a) && final(self)@ == v,
                Err(e) => r == Err::<ReceiptApplication, CreditError>(e) && final(self)@ == old(self)@,
            },
    {
        proof {
            self.lemma_view();
            if self@.inv() {
                law_call_keeps_invariant(
                    self@,
                    AccountCall::ApplyReceipt(*claim, authenticated_issuer@, mode, now_unix),
                );
            }
        }
        let i = self.check_receipt_identity(claim, authenticated_issuer)?;
        match self.applied_receipts.get(claim.receipt_id.as_str()) {
            Some(existing) => {
                if existing.same_as(claim) {
                    return Ok(ReceiptApplication::AlreadyApplied);
                } else {
                    return Err(CreditError::ReceiptConflict);
                }
            },
            None => {},
        }
        let st = self.issuers.value_at(i).clone();
        self.check_receipt_terms(&st, claim, now_unix)?;
        let revision = self.next_revision()?;
        if claim.value_class == ValueClass::PeerCredit {
            let (l, total) = self.peer_credit_after(&st, claim, mode)?;
            let mut nst = st;
            nst.peer_credit = l;
            self.set_issuer_at(i, nst);
            proof {
                self.lemma_view();
            }
            self.total_peer_credit_sat = total;
        } else {
            if mode == AcceptanceMode::OfflineDeferred {
                return Err(CreditError::BackingVerificationRequired);
            }
            if claim.value_class == ValueClass::ClosedLoopDeposit {
                let l = self.closed_loop_after(&st, claim.issuer.as_str(), claim.amount_sat)?;
                let mut nst = st;
                nst.closed_loop = l;
                self.set_issuer_at(i, nst);
            } else {
                let l = self.withdrawable_after(&st, claim.issuer.as_str(), claim.amount_sat)?;
                let mut nst = st;
                nst.withdrawable = l;
                self.set_issuer_at(i, nst);
            }
        }
        proof {
            self.lemma_view();
        }
        if claim.value_class == ValueClass::PeerCredit {
            self.peer_credit_events.push(
                PeerCreditEvent::Receipt { revision, receipt_id: claim.receipt_id.clone(), mode },
            );
        }
        proof {
            self.lemma_view();
        }
        self.applied_receipts.insert(claim.receipt_id.clone(), claim.clone());
        self.revision = revision;
        proof {
            self.lemma_view();
        }
        Ok(ReceiptApplication::Applied)
    }

    /// Move unbacked exposure to another verified peer issuer without reducing it.
    pub fn novate_peer_credit(
        &mut self,
        novation: &CreditNovation,
        authenticated_to_issuer: &str,
        now_unix: u64,
    ) -> (r: Result<(), CreditError>)
        ensures
            old(self)@.inv() ==> final(self)@.inv(),
            match old(self)@.novate_peer_credit(*novation, authenticated_to_issuer@, now_unix) {
                Ok(v) => r is Ok && final(self)@ == v,
                Err(e) => r == Err::<(), CreditError>(e) && final(self)@ == old(self)@,
            },
    {
        proof {
            self.lemma_view();
            if self@.inv() {
                law_call_keeps_invariant(
                    self@,
                    AccountCall::NovatePeerCredit(*novation, authenticated_to_issuer@, now_unix),
                );
            }
        }
        if !same_text(novation.counterparty.as_str(), self.counterparty.as_str()) {
            return Err(CreditError::WrongCounterparty);
        }
        if !same_text(novation.to_issuer.as_str(), authenticated_to_issuer) {
            return Err(CreditError::UnauthenticatedIssuer);
        }
        if same_text(novation.from_issuer.as_str(), novation.to_issuer.as_str()) {
            return Err(CreditError::SameIssuerNovation);
        }
        if is_blank_text(novation.novation_id.as_str()) {
            return Err(CreditError::MissingNovationId);
        }
        let fi = self.issuer_pos(novation.from_issuer.as_str())?;
        let ti = self.issuer_pos(novation.to_issuer.as_str())?;
        match self.novations.get(novation.novation_id.as_str()) {
            Some(existing) => {
                if existing.same_as(novation) {
                    return Ok(());
                } else {
                    return Err(CreditError::NovationConflict);
                }
            },
            None => {},
        }
        if novation.expires_at_unix <= now_unix {
            return Err(CreditError::NovationExpired);
        }
        if novation.amount_sat == 0 {
            return Err(CreditError::ZeroAmount);
        }
        let from = self.issuers.value_at(fi).clone();
        let to = self.issuers.value_at(ti).clone();
        from.ensure_active(now_unix)?;
        to.ensure_active(now_unix)?;
        let revision = self.next_revision()?;
        let mut source = from.peer_credit;
        let mut target = to.peer_credit;
        source.debit(novation.amount_sat)?;
        target.credit(novation.amount_sat, false)?;
        if target.outstanding_sat > to.policy.max_peer_credit_sat {
            return Err(CreditError::IssuerExposureExceeded);
        }
        let mut nfrom = from;
        nfrom.peer_credit = source;
        self.set_issuer_at(fi, nfrom);
        let mut nto = to;
        nto.peer_credit = target;
        self.set_issuer_at(ti, nto);
        proof {
            self.lemma_view();
        }
        self.peer_credit_events.push(
            PeerCreditEvent::Novation { revision, novation_id: novation.novation_id.clone() },
        );
        self.novations.insert(novation.novation_id.clone(), novation.clone());
        self.revision = revision;
        proof {
            self.lemma_view();
        }
        Ok(())
    }

    /// Replace peer credit with a verified, issuer-authenticated backed liability.
    #[verifier::rlimit(40)]
    pub fn settle_peer_credit_with_backing(
        &mut self,
        settlement: &BackedCreditSettlement,
        authenticated_backing_issuer: &str,
        now_unix: u64,
    ) -> (r: Result<ReceiptApplication, CreditError>)
        ensures
            old(self)@.inv() ==> final(self)@.inv(),
            match old(self)@.settle_peer_credit_with_backing(
                *settlement,
                authenticated_backing_issuer@,
                now_unix,
            ) {
                Ok((v, a)) => r == Ok::<ReceiptApplication, CreditError>(a) && final(self)@ == v,
                Err(e) => r == Err::<ReceiptApplication, CreditError>(e) && final(self)@ == old(self)@,
            },
    {
        proof {
            self.lemma_view();
        }
        if !same_text(settlement.counterparty.as_str(), self.counterparty.as_str()) {
            return Err(CreditError::WrongCounterparty);
        }
        if !same_text(settlement.backing_issuer.as_str(), authenticated_backing_issuer) {
            return Err(CreditError::UnauthenticatedIssuer);
        }
        let fi = self.issuer_pos(settlement.from_issuer.as_str())?;
        let bi = self.issuer_pos(settlement.backing_issuer.as_str())?;
        if is_blank_text(settlement.settlement_id.as_str()) {
            return Err(CreditError::MissingBackedSettlementId);
        }
        match self.backed_settlements.get(settlement.settlement_id.as_str()) {
            Some(existing) => {
                if existing.same_as(settlement) {
                    return Ok(ReceiptApplication::AlreadyApplied);
                } else {
                    return Err(CreditError::BackedSettlementConflict);
                }
            },
            None => {},
        }
        let from = self.issuers.value_at(fi).clone();
        let backing = self.issuers.value_at(bi).clone();
        from.ensure_active(now_unix)?;
        backing.ensure_active(now_unix)?;
        if settlement.expires_at_unix <= now_unix {
            return Err(CreditError::BackedSettlementExpired);
        }
        if settlement.amount_sat == 0 {
            return Err(CreditError::ZeroAmount);
        }
        if settlement.value_class == ValueClass::PeerCredit {
            return Err(CreditError::UnsupportedBackingClass);
        }
        let revision = self.next_revision()?;
        let mut source = from.peer_credit;
        source.debit(settlement.amount_sat)?;
        if settlement.amount_sat > self.total_peer_credit_sat {
            return Err(CreditError::ConservationViolation);
        }
        let remaining = self.total_peer_credit_sat - settlement.amount_sat;
        if settlement.value_class == ValueClass::ClosedLoopDeposit {
            let l = self.closed_loop_after(
                &backing,
                settlement.backing_issuer.as_str(),
                settlement.amount_sat,
            )?;
            let mut nb = backing;
            nb.closed_loop = l;
            self.set_issuer_at(bi, nb);
        } else {
            let l = self.withdrawable_after(
                &backing,
                settlement.backing_issuer.as_str(),
                settlement.amount_sat,
            )?;
            let mut nb = backing;
            nb.withdrawable = l;
            self.set_issuer_at(bi, nb);
        }
        proof {
            use_type_invariant(&self.issuers);
            self.issuers.lemma_facts();
            self.lemma_view();
            assert(self.issuers.pairs()[fi as int].0 == settlement.from_issuer@);
            assert(self.issuers.pairs()[fi as int].1 == self@.issuers[settlement.from_issuer@]);
        }
        let mut nf = self.issuers.value_at(fi).clone();
        nf.peer_credit = source;
        self.set_issuer_at(fi, nf);
        proof {
            self.lemma_view();
        }
        self.total_peer_credit_sat = remaining;
        self.peer_credit_events.push(
            PeerCreditEvent::BackedSettlement {
                revision,
                settlement_id: settlement.settlement_id.clone(),
            },
        );
        self.backed_settlements.insert(settlement.settlement_id.clone(), settlement.clone());
        self.revision = revision;
        proof {
            self.lemma_view();
            if old(self)@.inv() {
                law_call_keeps_invariant(
                    old(self)@,
                    AccountCall::SettlePeerCreditWithBacking(
                        *settlement,
                        authenticated_backing_issuer@,
                        now_unix,
                    ),
                );
            }
        }
        Ok(ReceiptApplication::Applied)
    }

    /// Consume closed-loop value once for a named issuer service.
    pub fn consume_closed_loop(
        &mut self,
        consumption: &ClosedLoopConsumption,
        authenticated_counterparty: &str,
    ) -> (r: Result<ReceiptApplication, CreditError>)
        ensures
            old(self)@.inv() ==> final(self)@.inv(),
            match old(self)@.consume_closed_loop(*consumption, authenticated_counterparty@) {
                Ok((v, a)) => r == Ok::<ReceiptApplication, CreditError>(a) && final(self)@ == v,
                Err(e) => r == Err::<ReceiptApplication, CreditError>(e) && final(self)@ == old(self)@,
            },
    {
        proof {
            self.lemma_view();
            if self@.inv() {
                law_call_keeps_invariant(
                    self@,
                    AccountCall::ConsumeClosedLoop(*consumption, authenticated_counterparty@),
                );
            }
        }
        if !same_text(consumption.counterparty.as_str(), self.counterparty.as_str()) {
            return Err(CreditError::WrongCounterparty);
        }
        if !same_text(consumption.counterparty.as_str(), authenticated_counterparty) {
            return Err(CreditError::UnauthenticatedCounterparty);
        }
        let i = self.issuer_pos(consumption.issuer.as_str())?;
        if is_blank_text(consumption.consumption_id.as_str()) {
            return Err(CreditError::MissingClosedLoopConsumptionId);
        }
        if is_blank_text(consumption.resource.as_str()) {
            return Err(CreditError::NoUsefulService);
        }
        if consumption.amount_sat == 0 {
            return Err(CreditError::ZeroAmount);
        }
        match self.closed_loop_consumptions.get(consumption.consumption_id.as_str()) {
            Some(existing) => {
                if existing.same_as(consumption) {
                    return Ok(ReceiptApplication::AlreadyApplied);
                } else {
                    return Err(CreditError::ClosedLoopConsumptionConflict);
                }
            },
            None => {},
        }
        let revision = self.next_revision()?;
        let mut st = self.issuers.value_at(i).clone();
        let mut l = st.closed_loop;
        l.consume(consumption.amount_sat)?;
        st.closed_loop = l;
        self.set_issuer_at(i, st);
        proof {
            self.lemma_view();
        }
        self.closed_loop_consumptions.insert(
            consumption.consumption_id.clone(),
            consumption.clone(),
        );
        self.revision = revision;
        proof {
            self.lemma_view();
        }
        Ok(ReceiptApplication::Applied)
    }
}

} // verus!
