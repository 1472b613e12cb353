//! External settlement: reserve, complete, or release withdrawable reserve.
use vstd::prelude::*;
use crate::account::CreditAccount;
use crate::error::CreditError;
use crate::laws::{law_call_keeps_invariant, AccountCall};
use crate::model::{SettlementRecord, SettlementState};
use crate::protocol::{ExternalSettlementAuthorization, ExternalSettlementRequest};
use crate::text::{is_blank_text, same_text};

verus! {

impl CreditAccount {
    /// Reserve externally redeemable sats under an authenticated, idempotent request.
    pub fn authorize_external_settlement(
        &mut self,
        request: &ExternalSettlementRequest,
        authenticated_counterparty: &str,
        now_unix: u64,
    ) -> (r: Result<ExternalSettlementAuthorization, CreditError>)
        ensures
            old(self)@.inv() ==> final(self)@.inv(),
            match old(self)@.authorize_external_settlement(
                *request,
                authenticated_counterparty@,
                now_unix,
            ) {
                Ok((v, a)) => r == Ok::<ExternalSettlementAuthorization, CreditError>(a)
                    && final(self)@ == v,
                Err(e) => r == Err::<ExternalSettlementAuthorization, CreditError>(e) && final(self)@
                    == old(self)@,
            },
    {
        proof {
            self.lemma_view();
            if self@.inv() {
                law_call_keeps_invariant(
                    self@,
                    AccountCall::AuthorizeExternalSettlement(
                    *request,
                    authenticated_counterparty@,
                    now_unix,
                ),
                );
            }
        }
        if !same_text(request.counterparty.as_str(), self.counterparty.as_str()) {
            return Err(CreditError::WrongCounterparty);
        }
        if !same_text(request.counterparty.as_str(), authenticated_counterparty) {
            return Err(CreditError::UnauthenticatedCounterparty);
        }
        let i = self.issuer_pos(request.issuer.as_str())?;
        if is_blank_text(request.settlement_id.as_str()) {
            return Err(CreditError::MissingSettlementId);
        }
        match self.settlements.get(request.settlement_id.as_str()) {
            Some(existing) => {
                if !existing.request.same_as(request) {
                    return Err(CreditError::SettlementConflict);
                }
                return match existing.state {
                    SettlementState::Pending => Ok(existing.authorization.clone()),
                    SettlementState::Completed { .. } => Err(CreditError::SettlementCompleted),
                    SettlementState::Cancelled => Err(CreditError::SettlementCancelled),
                };
            },
            None => {},
        }
        let mut st = self.issuers.value_at(i).clone();
        st.ensure_active(now_unix)?;
        if request.expires_at_unix <= now_unix {
            return Err(CreditError::SettlementExpired);
        }
        if request.amount_sat == 0 {
            return Err(CreditError::ZeroAmount);
        }
        if is_blank_text(request.payout_destination.as_str()) {
            return Err(CreditError::MissingPayoutDestination);
        }
        let revision = self.next_revision()?;
        let reserved_sat = match request.amount_sat.checked_add(request.max_fee_sat) {
            Some(v) => v,
            None => return Err(CreditError::ArithmeticOverflow),
        };
        let mut l = st.withdrawable;
        l.authorize(reserved_sat)?;
        st.withdrawable = l;
        self.set_issuer_at(i, st);
        let authorization = ExternalSettlementAuthorization {
            settlement_id: request.settlement_id.clone(),
            issuer: request.issuer.clone(),
            counterparty: request.counterparty.clone(),
            payout_destination: request.payout_destination.clone(),
            amount_sat: request.amount_sat,
            max_fee_sat: request.max_fee_sat,
            reserved_sat,
            authorized_at_unix: now_unix,
            expires_at_unix: request.expires_at_unix,
        };
        proof {
            self.lemma_view();
        }
        self.settlements.insert(
            request.settlement_id.clone(),
            SettlementRecord {
                request: request.clone(),
                authorization: authorization.clone(),
                state: SettlementState::Pending,
            },
        );
        self.revision = revision;
        proof {
            self.lemma_view();
        }
        Ok(authorization)
    }

    /// Record a settlement as paid with the verified backend fee, refunding the
    /// unused part of the fee reservation.
    pub fn complete_external_settlement(&mut self, settlement_id: &str, actual_fee_sat: u64) -> (r:
        Result<(), CreditError>)
        ensures
            old(self)@.inv() ==> final(self)@.inv(),
            match old(self)@.complete_external_settlement(settlement_id@, actual_fee_sat) {
                Ok(v) => r is Ok && final(self)@ == v,
                Err(e) => r == Err::<(), CreditError>(e) && final(self)@ == old(self)@,
            },
    {
        proof {
            self.lemma_view();
            use_type_invariant(&self.settlements);
            self.settlements.lemma_facts();
        }
        let si = match self.settlements.index_of(settlement_id) {
            Some(si) => si,
            None => return Err(CreditError::UnknownSettlement),
        };
        let record = self.settlements.value_at(si).clone();
        match record.state {
            SettlementState::Completed { fee_sat } => {
                return if fee_sat == actual_fee_sat {
                    Ok(())
                } else {
                    Err(CreditError::SettlementCompletionConflict)
                };
            },
            SettlementState::Cancelled => return Err(CreditError::SettlementCancelled),
            SettlementState::Pending => {},
        }
        if actual_fee_sat > record.request.max_fee_sat {
            return Err(CreditError::SettlementFeeExceeded);
        }
        let revision = self.next_revision()?;
        let spent_sat = match record.request.amount_sat.checked_add(actual_fee_sat) {
            Some(v) => v,
            None => return Err(CreditError::ArithmeticOverflow),
        };
        let unused_fee_sat = record.request.max_fee_sat - actual_fee_sat;
        let i = self.issuer_pos(record.request.issuer.as_str())?;
        let mut st = self.issuers.value_at(i).clone();
        let mut ledger = st.withdrawable;
        ledger.complete(spent_sat)?;
        if unused_fee_sat > 0 {
            ledger.cancel(unused_fee_sat)?;
        }
        st.withdrawable = ledger;
        self.set_issuer_at(i, st);
        proof {
            self.lemma_view();
        }
        let updated = SettlementRecord {
            request: record.request,
            authorization: record.authorization,
            state: SettlementState::Completed { fee_sat: actual_fee_sat },
        };
        self.settlements.update_at(si, updated);
        self.revision = revision;
        proof {
            self.lemma_view();
            if old(self)@.inv() {
                law_call_keeps_invariant(
                    old(self)@,
                    AccountCall::CompleteExternalSettlement(settlement_id@, actual_fee_sat),
                );
            }
        }
        Ok(())
    }

    /// Release a reservation only after the backend proves no irreversible
    /// payment was attempted. An unknown or in-flight backend result must be
    /// recovered and completed instead; cancelling it could release backing
    /// after value already left the wallet.
    pub fn cancel_external_settlement(&mut self, settlement_id: &str) -> (r: Result<(), CreditError>)
        ensures
            old(self)@.inv() ==> final(self)@.inv(),
            match old(self)@.cancel_external_settlement(settlement_id@) {
                Ok(v) => r is Ok && final(self)@ == v,
                Err(e) => r == Err::<(), CreditError>(e) && final(self)@ == old(self)@,
            },
    {
        proof {
            self.lemma_view();
            use_type_invariant(&self.settlements);
            self.settlements.lemma_facts();
        }
        let si = match self.settlements.index_of(settlement_id) {
            Some(si) => si,
            None => return Err(CreditError::UnknownSettlement),
        };
        let record = self.settlements.value_at(si).clone();
        match record.state {
            SettlementState::Cancelled => return Ok(()),
            SettlementState::Completed { .. } => return Err(CreditError::SettlementCompleted),
            SettlementState::Pending => {},
        }
        let revision = self.next_revision()?;
        let i = self.issuer_pos(record.request.issuer.as_str())?;
        let mut st = self.issuers.value_at(i).clone();
        let mut ledger = st.withdrawable;
        ledger.cancel(record.authorization.reserved_sat)?;
        st.withdrawable = ledger;
        self.set_issuer_at(i, st);
        proof {
            self.lemma_view();
        }
        let updated = SettlementRecord {
            request: record.request,
            authorization: record.authorization,
            state: SettlementState::Cancelled,
        };
        self.settlements.update_at(si, updated);
        self.revision = revision;
        proof {
            self.lemma_view();
            if old(self)@.inv() {
                law_call_keeps_invariant(
                    old(self)@,
                    AccountCall::CancelExternalSettlement(settlement_id@),
                );
            }
        }
        Ok(())
    }
}

} // verus!
