//! Saving a live account as a snapshot and restoring one from it.
use vstd::prelude::*;
use crate::account::CreditAccount;
use crate::deposits::{deposits_map, lemma_adjacent_sorted, DepositTable};
use crate::error::CreditError;
use crate::idmap::IdMap;
use crate::model::{AccountView, IssuerState, PeerCreditEvent, SettlementRecord};
use crate::protocol::{
    BackedCreditSettlement, ClosedLoopConsumption, CreditNovation, ServiceReceiptClaim,
};
use crate::snapshot_laws::law_valid_snapshot_invariant;
use crate::snapshot_model::{CreditAccountSnapshotV1, SNAPSHOT_VERSION};

verus! {

impl CreditAccountSnapshotV1 {
    /// The account state this snapshot describes.
    pub open spec fn account_view(&self) -> AccountView {
        AccountView {
            revision: self.revision,
            counterparty: self.counterparty@,
            max_total_peer_credit_sat: self.max_total_peer_credit_sat,
            total_peer_credit_sat: self.total_peer_credit_sat,
            issuers: self.issuers@,
            applied_receipts: self.applied_receipts@,
            peer_credit_events: self.peer_credit_events@,
            novations: self.novations@,
            backing_deposits: deposits_map(self.backing_deposits@),
            backed_settlements: self.backed_settlements@,
            closed_loop_consumptions: self.closed_loop_consumptions@,
            settlements: self.settlements@,
        }
    }
}

fn copy_issuers(m: &IdMap<IssuerState>) -> (r: IdMap<IssuerState>)
    ensures
        r.pairs() == m.pairs(),
{
    let r = m.duplicate();
    assert forall|i: int| 0 <= i < m.pairs().len() implies #[trigger] r.pairs()[i] == m.pairs()[i] by {
        assert(r.pairs()[i].0 == m.pairs()[i].0);
        assert(cloned::<IssuerState>(m.pairs()[i].1, r.pairs()[i].1));
    }
    assert(r.pairs() =~= m.pairs());
    r
}

fn copy_receipts(m: &IdMap<ServiceReceiptClaim>) -> (r: IdMap<ServiceReceiptClaim>)
    ensures
        r.pairs() == m.pairs(),
{
    let r = m.duplicate();
    assert forall|i: int| 0 <= i < m.pairs().len() implies #[trigger] r.pairs()[i] == m.pairs()[i] by {
        assert(r.pairs()[i].0 == m.pairs()[i].0);
        assert(cloned::<ServiceReceiptClaim>(m.pairs()[i].1, r.pairs()[i].1));
    }
    assert(r.pairs() =~= m.pairs());
    r
}

fn copy_novations(m: &IdMap<CreditNovation>) -> (r: IdMap<CreditNovation>)
    ensures
        r.pairs() == m.pairs(),
{
    let r = m.duplicate();
    assert forall|i: int| 0 <= i < m.pairs().len() implies #[trigger] r.pairs()[i] == m.pairs()[i] by {
        assert(r.pairs()[i].0 == m.pairs()[i].0);
        assert(cloned::<CreditNovation>(m.pairs()[i].1, r.pairs()[i].1));
    }
    assert(r.pairs() =~= m.pairs());
    r
}

fn copy_backed(m: &IdMap<BackedCreditSettlement>) -> (r: IdMap<BackedCreditSettlement>)
    ensures
        r.pairs() == m.pairs(),
{
    let r = m.duplicate();
    assert forall|i: int| 0 <= i < m.pairs().len() implies #[trigger] r.pairs()[i] == m.pairs()[i] by {
        assert(r.pairs()[i].0 == m.pairs()[i].0);
        assert(cloned::<BackedCreditSettlement>(m.pairs()[i].1, r.pairs()[i].1));
    }
    assert(r.pairs() =~= m.pairs());
    r
}

fn copy_consumptions(m: &IdMap<ClosedLoopConsumption>) -> (r: IdMap<ClosedLoopConsumption>)
    ensures
        r.pairs() == m.pairs(),
{
    let r = m.duplicate();
    assert forall|i: int| 0 <= i < m.pairs().len() implies #[trigger] r.pairs()[i] == m.pairs()[i] by {
        assert(r.pairs()[i].0 == m.pairs()[i].0);
        assert(cloned::<ClosedLoopConsumption>(m.pairs()[i].1, r.pairs()[i].1));
    }
    assert(r.pairs() =~= m.pairs());
    r
}

fn copy_settlements(m: &IdMap<SettlementRecord>) -> (r: IdMap<SettlementRecord>)
    ensures
        r.pairs() == m.pairs(),
{
    let r = m.duplicate();
    assert forall|i: int| 0 <= i < m.pairs().len() implies #[trigger] r.pairs()[i] == m.pairs()[i] by {
        assert(r.pairs()[i].0 == m.pairs()[i].0);
        assert(cloned::<SettlementRecord>(m.pairs()[i].1, r.pairs()[i].1));
    }
    assert(r.pairs() =~= m.pairs());
    r
}

fn copy_events(v: &Vec<PeerCreditEvent>) -> (r: Vec<PeerCreditEvent>)
    ensures
        r@ == v@,
{
    let r = v.clone();
    assert forall|i: int| 0 <= i < v.len() implies #[trigger] r@[i] == v@[i] by {
        assert(cloned::<PeerCreditEvent>(v[i], r[i]));
    }
    assert(r@ =~= v@);
    r
}

impl CreditAccount {
    /// The authoritative, versioned snapshot of this account.
    pub fn snapshot(&self) -> (s: CreditAccountSnapshotV1)
        ensures
            s.version == SNAPSHOT_VERSION,
            s.account_view() == self@,
            s.issuers.pairs() == self.issuer_pairs(),
            s.applied_receipts.pairs() == self.receipt_pairs(),
            s.novations.pairs() == self.novation_pairs(),
            s.backing_deposits@ == self.deposit_items(),
            s.backed_settlements.pairs() == self.backed_pairs(),
            s.closed_loop_consumptions.pairs() == self.consumption_pairs(),
            s.settlements.pairs() == self.settlement_pairs(),
    {
        proof {
            self.lemma_view();
        }
        let s = CreditAccountSnapshotV1 {
            version: SNAPSHOT_VERSION,
            revision: self.revision,
            counterparty: self.counterparty.clone(),
            max_total_peer_credit_sat: self.max_total_peer_credit_sat,
            total_peer_credit_sat: self.total_peer_credit_sat,
            issuers: copy_issuers(&self.issuers),
            applied_receipts: copy_receipts(&self.applied_receipts),
            peer_credit_events: copy_events(&self.peer_credit_events),
            novations: copy_novations(&self.novations),
            backing_deposits: self.backing_deposits(),
            backed_settlements: copy_backed(&self.backed_settlements),
            closed_loop_consumptions: copy_consumptions(&self.closed_loop_consumptions),
            settlements: copy_settlements(&self.settlements),
        };
        s
    }

    /// Restore an account from a snapshot, validating all of it first.
    ///
    /// This does not re-authenticate historical signatures, proofs, or payments.
    pub fn from_snapshot(snapshot: CreditAccountSnapshotV1) -> (r: Result<CreditAccount, CreditError>)
        ensures
            r is Err ==> r == Err::<CreditAccount, CreditError>(snapshot.validation()->Err_0),
            r is Ok <==> snapshot.validation() is Ok,
            snapshot.version != SNAPSHOT_VERSION ==> r == Err::<CreditAccount, CreditError>(
                CreditError::UnsupportedSnapshotVersion,
            ),
            snapshot.version == SNAPSHOT_VERSION ==> (r is Ok <==> snapshot.valid_body()),
            snapshot.version == SNAPSHOT_VERSION && r is Err ==> r->Err_0 is InvalidSnapshot,
            r matches Ok(a) ==> {
                &&& a@ == snapshot.account_view()
                &&& a.issuer_pairs() == snapshot.issuers.pairs()
                &&& a.receipt_pairs() == snapshot.applied_receipts.pairs()
                &&& a.novation_pairs() == snapshot.novations.pairs()
                &&& a.deposit_items() == snapshot.backing_deposits@
                &&& a.backed_pairs() == snapshot.backed_settlements.pairs()
                &&& a.consumption_pairs() == snapshot.closed_loop_consumptions.pairs()
                &&& a.settlement_pairs() == snapshot.settlements.pairs()
                &&& a@.inv()
            },
    {
        match snapshot.validate() {
            Err(e) => {
                return Err(e);
            },
            Ok(()) => {},
        }
        proof {
            lemma_adjacent_sorted(snapshot.backing_deposits@);
            use_type_invariant(&snapshot.issuers);
            use_type_invariant(&snapshot.applied_receipts);
            use_type_invariant(&snapshot.novations);
            use_type_invariant(&snapshot.backed_settlements);
            use_type_invariant(&snapshot.closed_loop_consumptions);
            use_type_invariant(&snapshot.settlements);
            law_valid_snapshot_invariant(snapshot);
        }
        let ghost s0 = snapshot;
        let CreditAccountSnapshotV1 {
            version: _,
            revision,
            counterparty,
            max_total_peer_credit_sat,
            total_peer_credit_sat,
            issuers,
            applied_receipts,
            peer_credit_events,
            novations,
            backing_deposits,
            backed_settlements,
            closed_loop_consumptions,
            settlements,
        } = snapshot;
        let a = CreditAccount {
            revision,
            counterparty,
            max_total_peer_credit_sat,
            total_peer_credit_sat,
            issuers,
            applied_receipts,
            peer_credit_events,
            novations,
            backing_deposits: DepositTable::from_sorted(backing_deposits),
            backed_settlements,
            closed_loop_consumptions,
            settlements,
        };
        proof {
            a.lemma_view();
            assert(a@ == s0.account_view());
        }
        Ok(a)
    }
}

} // verus!
