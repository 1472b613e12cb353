//! What makes a credit-account snapshot valid: well-formed records, conserved
//! ledgers whose totals agree with the retained operations, a peer-credit
//! event log that replays to the stored peer ledgers, and a revision equal to
//! the number of applied mutations.
use vstd::prelude::*;
use crate::deposits::{deposit_key, key_lt};
use crate::idmap::IdMap;
use crate::ledger::PeerCreditLedger;
use crate::model::{
    AccountView, IssuerState, PeerCreditEvent, SettlementRecord, SettlementState,
};
use crate::protocol::{
    AcceptanceMode, BackedCreditSettlement, BackingDeposit, ClosedLoopConsumption,
    CreditNovation, ServiceReceiptClaim, ValueClass,
};
use crate::text::is_blank;

verus! {

/// The only snapshot schema version this library reads and writes.
pub const SNAPSHOT_VERSION: u32 = 1;

/// Authoritative, versioned representation of one credit account.
///
/// Restoration always goes through [`CreditAccount::from_snapshot`], which
/// validates the whole snapshot before building live state.
#[derive(Debug, PartialEq, Eq)]
pub struct CreditAccountSnapshotV1 {
    pub version: u32,
    pub revision: u64,
    pub counterparty: String,
    pub max_total_peer_credit_sat: u64,
    pub total_peer_credit_sat: u64,
    pub issuers: IdMap<IssuerState>,
    pub applied_receipts: IdMap<ServiceReceiptClaim>,
    pub peer_credit_events: Vec<PeerCreditEvent>,
    pub novations: IdMap<CreditNovation>,
    pub backing_deposits: Vec<BackingDeposit>,
    pub backed_settlements: IdMap<BackedCreditSettlement>,
    pub closed_loop_consumptions: IdMap<ClosedLoopConsumption>,
    pub settlements: IdMap<SettlementRecord>,
}

/// Sum of what `f` gives for each element.
pub open spec fn sum_of<V>(s: Seq<V>, f: spec_fn(V) -> int) -> int
    decreases s.len(),
{
    if s.len() == 0 {
        0
    } else {
        sum_of(s.drop_last(), f) + f(s.last())
    }
}

pub proof fn lemma_sum_of_step<V>(s: Seq<V>, f: spec_fn(V) -> int, j: int)
    requires
        0 <= j < s.len(),
    ensures
        sum_of(s.take(j + 1), f) == sum_of(s.take(j), f) + f(s[j]),
{
    assert(s.take(j + 1).drop_last() =~= s.take(j));
}

pub proof fn lemma_sum_of_prefix_le<V>(s: Seq<V>, f: spec_fn(V) -> int, j: int)
    requires
        0 <= j <= s.len(),
        forall|x: V| #[trigger] f(x) >= 0,
    ensures
        sum_of(s.take(j), f) <= sum_of(s, f),
        sum_of(s.take(j), f) >= 0,
    decreases s.len() - j,
{
    lemma_sum_of_nonneg(s.take(j), f);
    if j < s.len() {
        lemma_sum_of_step(s, f, j);
        lemma_sum_of_prefix_le(s, f, j + 1);
    } else {
        assert(s.take(j) =~= s);
        lemma_sum_of_nonneg(s, f);
    }
}

pub proof fn lemma_sum_of_nonneg<V>(s: Seq<V>, f: spec_fn(V) -> int)
    requires
        forall|x: V| #[trigger] f(x) >= 0,
    ensures
        sum_of(s, f) >= 0,
    decreases s.len(),
{
    if s.len() > 0 {
        lemma_sum_of_nonneg(s.drop_last(), f);
    }
}

pub open spec fn receipt_amount(issuer: Seq<char>, class: ValueClass) -> spec_fn((Seq<char>, ServiceReceiptClaim)) -> int {
    |e: (Seq<char>, ServiceReceiptClaim)| if e.1.issuer@ == issuer && e.1.value_class == class { e.1.amount_sat as int } else { 0 }
}

pub open spec fn receipt_sum(p: Seq<(Seq<char>, ServiceReceiptClaim)>, issuer: Seq<char>, class: ValueClass) -> int {
    sum_of(p, receipt_amount(issuer, class))
}

pub open spec fn novation_to_amount(issuer: Seq<char>) -> spec_fn((Seq<char>, CreditNovation)) -> int {
    |e: (Seq<char>, CreditNovation)| if e.1.to_issuer@ == issuer { e.1.amount_sat as int } else { 0 }
}

pub open spec fn novation_to_sum(p: Seq<(Seq<char>, CreditNovation)>, issuer: Seq<char>) -> int {
    sum_of(p, novation_to_amount(issuer))
}

pub open spec fn novation_from_amount(issuer: Seq<char>) -> spec_fn((Seq<char>, CreditNovation)) -> int {
    |e: (Seq<char>, CreditNovation)| if e.1.from_issuer@ == issuer { e.1.amount_sat as int } else { 0 }
}

pub open spec fn novation_from_sum(p: Seq<(Seq<char>, CreditNovation)>, issuer: Seq<char>) -> int {
    sum_of(p, novation_from_amount(issuer))
}

pub open spec fn deposit_amount(issuer: Seq<char>, class: ValueClass) -> spec_fn(BackingDeposit) -> int {
    |e: BackingDeposit| if e.issuer@ == issuer && e.value_class == class { e.amount_sat as int } else { 0 }
}

pub open spec fn deposit_sum(p: Seq<BackingDeposit>, issuer: Seq<char>, class: ValueClass) -> int {
    sum_of(p, deposit_amount(issuer, class))
}

pub open spec fn backed_from_amount(issuer: Seq<char>) -> spec_fn((Seq<char>, BackedCreditSettlement)) -> int {
    |e: (Seq<char>, BackedCreditSettlement)| if e.1.from_issuer@ == issuer { e.1.amount_sat as int } else { 0 }
}

pub open spec fn backed_from_sum(p: Seq<(Seq<char>, BackedCreditSettlement)>, issuer: Seq<char>) -> int {
    sum_of(p, backed_from_amount(issuer))
}

pub open spec fn backed_backing_amount(issuer: Seq<char>, class: ValueClass) -> spec_fn((Seq<char>, BackedCreditSettlement)) -> int {
    |e: (Seq<char>, BackedCreditSettlement)| if e.1.backing_issuer@ == issuer && e.1.value_class == class { e.1.amount_sat as int } else { 0 }
}

pub open spec fn backed_backing_sum(p: Seq<(Seq<char>, BackedCreditSettlement)>, issuer: Seq<char>, class: ValueClass) -> int {
    sum_of(p, backed_backing_amount(issuer, class))
}

pub open spec fn consumption_amount(issuer: Seq<char>) -> spec_fn((Seq<char>, ClosedLoopConsumption)) -> int {
    |e: (Seq<char>, ClosedLoopConsumption)| if e.1.issuer@ == issuer { e.1.amount_sat as int } else { 0 }
}

pub open spec fn consumption_sum(p: Seq<(Seq<char>, ClosedLoopConsumption)>, issuer: Seq<char>) -> int {
    sum_of(p, consumption_amount(issuer))
}

pub open spec fn pending_amount(issuer: Seq<char>) -> spec_fn((Seq<char>, SettlementRecord)) -> int {
    |e: (Seq<char>, SettlementRecord)| if e.1.request.issuer@ == issuer && e.1.state == SettlementState::Pending { e.1.request.amount_sat + e.1.request.max_fee_sat } else { 0 }
}

/// Reserved sats of pending external settlements of an issuer.
pub open spec fn pending_sum(p: Seq<(Seq<char>, SettlementRecord)>, issuer: Seq<char>) -> int {
    sum_of(p, pending_amount(issuer))
}

pub open spec fn settled_amount(issuer: Seq<char>) -> spec_fn((Seq<char>, SettlementRecord)) -> int {
    |e: (Seq<char>, SettlementRecord)| if e.1.request.issuer@ == issuer && e.1.state is Completed { e.1.request.amount_sat + e.1.state->fee_sat } else { 0 }
}

/// Principal plus actual fee of completed external settlements of an issuer.
pub open spec fn settled_sum(p: Seq<(Seq<char>, SettlementRecord)>, issuer: Seq<char>) -> int {
    sum_of(p, settled_amount(issuer))
}

pub open spec fn finished_one() -> spec_fn((Seq<char>, SettlementRecord)) -> int {
    |e: (Seq<char>, SettlementRecord)| if e.1.state == SettlementState::Pending { 0 } else { 1 }
}

/// Settlements that are completed or cancelled.
pub open spec fn finished_count(p: Seq<(Seq<char>, SettlementRecord)>) -> int {
    sum_of(p, finished_one())
}

pub open spec fn peer_receipt_one() -> spec_fn((Seq<char>, ServiceReceiptClaim)) -> int {
    |e: (Seq<char>, ServiceReceiptClaim)| if e.1.value_class == ValueClass::PeerCredit { 1 } else { 0 }
}

pub open spec fn peer_receipt_count(p: Seq<(Seq<char>, ServiceReceiptClaim)>) -> int {
    sum_of(p, peer_receipt_one())
}

pub open spec fn outstanding_amount() -> spec_fn((Seq<char>, IssuerState)) -> int {
    |e: (Seq<char>, IssuerState)| e.1.peer_credit.outstanding_sat as int
}

pub open spec fn outstanding_sum(p: Seq<(Seq<char>, IssuerState)>) -> int {
    sum_of(p, outstanding_amount())
}

pub open spec fn receipt_event_one() -> spec_fn(PeerCreditEvent) -> int {
    |e: PeerCreditEvent| if e is Receipt { 1 } else { 0 }
}

pub open spec fn receipt_event_count(p: Seq<PeerCreditEvent>) -> int {
    sum_of(p, receipt_event_one())
}

pub open spec fn novation_event_one() -> spec_fn(PeerCreditEvent) -> int {
    |e: PeerCreditEvent| if e is Novation { 1 } else { 0 }
}

pub open spec fn novation_event_count(p: Seq<PeerCreditEvent>) -> int {
    sum_of(p, novation_event_one())
}

pub open spec fn backed_event_one() -> spec_fn(PeerCreditEvent) -> int {
    |e: PeerCreditEvent| if e is BackedSettlement { 1 } else { 0 }
}

pub open spec fn backed_event_count(p: Seq<PeerCreditEvent>) -> int {
    sum_of(p, backed_event_one())
}

impl CreditAccountSnapshotV1 {
    pub open spec fn has_issuer(&self, issuer: Seq<char>) -> bool {
        self.issuers@.contains_key(issuer)
    }

    pub open spec fn issuer_ok(&self, id: Seq<char>, st: IssuerState) -> bool {
        let p = st.policy;
        let w = st.withdrawable;
        &&& !is_blank(id)
        &&& p.issuer@ == id
        &&& p.max_offline_peer_credit_sat <= p.max_peer_credit_sat
        &&& st.peer_credit.offline_outstanding_sat <= st.peer_credit.outstanding_sat
        &&& st.peer_credit.outstanding_sat <= p.max_peer_credit_sat
        &&& st.peer_credit.offline_outstanding_sat <= p.max_offline_peer_credit_sat
        &&& st.closed_loop.claimable_sat <= p.max_closed_loop_sat
        &&& w.redeemable_sat + w.pending_external_sat <= p.max_withdrawable_sat
        &&& st.closed_loop.conserved()
        &&& w.conserved()
    }

    pub open spec fn receipt_ok(&self, key: Seq<char>, c: ServiceReceiptClaim) -> bool {
        &&& key == c.receipt_id@
        &&& !is_blank(key)
        &&& c.counterparty@ == self.counterparty@
        &&& !is_blank(c.service@)
        &&& !is_blank(c.resource@)
        &&& c.useful_service_units != 0
        &&& c.amount_sat != 0
        &&& c.issued_at_unix < c.expires_at_unix
        &&& self.has_issuer(c.issuer@)
    }

    pub open spec fn novation_ok(&self, key: Seq<char>, n: CreditNovation) -> bool {
        &&& key == n.novation_id@
        &&& !is_blank(key)
        &&& n.counterparty@ == self.counterparty@
        &&& n.from_issuer@ != n.to_issuer@
        &&& n.amount_sat != 0
        &&& self.has_issuer(n.from_issuer@)
        &&& self.has_issuer(n.to_issuer@)
    }

    pub open spec fn deposit_ok(&self, d: BackingDeposit) -> bool {
        &&& !is_blank(d.deposit_id@)
        &&& d.amount_sat != 0
        &&& self.has_issuer(d.issuer@)
        &&& d.value_class != ValueClass::PeerCredit
    }

    pub open spec fn backed_ok(&self, key: Seq<char>, b: BackedCreditSettlement) -> bool {
        &&& key == b.settlement_id@
        &&& !is_blank(key)
        &&& b.counterparty@ == self.counterparty@
        &&& b.amount_sat != 0
        &&& self.has_issuer(b.from_issuer@)
        &&& self.has_issuer(b.backing_issuer@)
        &&& b.value_class != ValueClass::PeerCredit
    }

    pub open spec fn consumption_ok(&self, key: Seq<char>, c: ClosedLoopConsumption) -> bool {
        &&& key == c.consumption_id@
        &&& !is_blank(key)
        &&& c.counterparty@ == self.counterparty@
        &&& !is_blank(c.resource@)
        &&& c.amount_sat != 0
        &&& self.has_issuer(c.issuer@)
    }

    pub open spec fn settlement_ok(&self, key: Seq<char>, rec: SettlementRecord) -> bool {
        let r = rec.request;
        let a = rec.authorization;
        &&& r.amount_sat + r.max_fee_sat <= u64::MAX
        &&& key == r.settlement_id@
        &&& !is_blank(key)
        &&& r.counterparty@ == self.counterparty@
        &&& !is_blank(r.payout_destination@)
        &&& r.amount_sat != 0
        &&& a.same(&AccountView::authorization_for(r, a.authorized_at_unix))
        &&& a.authorized_at_unix < a.expires_at_unix
        &&& self.has_issuer(r.issuer@)
        &&& (rec.state matches SettlementState::Completed { fee_sat } ==> fee_sat <= r.max_fee_sat)
    }

    pub open spec fn records_ok(&self) -> bool {
        let d = self.backing_deposits@;
        &&& forall|j: int|
            0 <= j < self.issuers.pairs().len() ==> self.issuer_ok(
                #[trigger] self.issuers.pairs()[j].0,
                self.issuers.pairs()[j].1,
            )
        &&& forall|j: int|
            0 <= j < self.applied_receipts.pairs().len() ==> self.receipt_ok(
                #[trigger] self.applied_receipts.pairs()[j].0,
                self.applied_receipts.pairs()[j].1,
            )
        &&& forall|j: int|
            0 <= j < self.novations.pairs().len() ==> self.novation_ok(
                #[trigger] self.novations.pairs()[j].0,
                self.novations.pairs()[j].1,
            )
        &&& forall|j: int| 0 <= j < d.len() ==> self.deposit_ok(#[trigger] d[j])
        &&& forall|j: int|
            0 < j < d.len() ==> key_lt(deposit_key(d[j - 1]), deposit_key(#[trigger] d[j]))
        &&& forall|j: int|
            0 <= j < self.backed_settlements.pairs().len() ==> self.backed_ok(
                #[trigger] self.backed_settlements.pairs()[j].0,
                self.backed_settlements.pairs()[j].1,
            )
        &&& forall|j: int|
            0 <= j < self.closed_loop_consumptions.pairs().len() ==> self.consumption_ok(
                #[trigger] self.closed_loop_consumptions.pairs()[j].0,
                self.closed_loop_consumptions.pairs()[j].1,
            )
        &&& forall|j: int|
            0 <= j < self.settlements.pairs().len() ==> self.settlement_ok(
                #[trigger] self.settlements.pairs()[j].0,
                self.settlements.pairs()[j].1,
            )
    }

    /// One event applied to the replayed peer ledgers; `None` when it cannot apply.
    pub open spec fn event_step(&self, m: Map<Seq<char>, PeerCreditLedger>, e: PeerCreditEvent) -> Option<
        Map<Seq<char>, PeerCreditLedger>,
    > {
        match e {
            PeerCreditEvent::Receipt { receipt_id, mode, .. } => {
                let id = receipt_id@;
                if !self.applied_receipts@.contains_key(id) {
                    None
                } else {
                    let c = self.applied_receipts@[id];
                    if c.value_class != ValueClass::PeerCredit || !m.contains_key(c.issuer@) {
                        None
                    } else {
                        match m[c.issuer@].spec_credit(
                            c.amount_sat,
                            mode == AcceptanceMode::OfflineDeferred,
                        ) {
                            Ok(l) => Some(m.insert(c.issuer@, l)),
                            Err(_) => None,
                        }
                    }
                }
            },
            PeerCreditEvent::Novation { novation_id, .. } => {
                let id = novation_id@;
                if !self.novations@.contains_key(id) {
                    None
                } else {
                    let n = self.novations@[id];
                    if !m.contains_key(n.from_issuer@) {
                        None
                    } else {
                        match m[n.from_issuer@].spec_debit(n.amount_sat) {
                            Err(_) => None,
                            Ok(src) => {
                                let m1 = m.insert(n.from_issuer@, src);
                                if !m1.contains_key(n.to_issuer@) {
                                    None
                                } else {
                                    match m1[n.to_issuer@].spec_credit(n.amount_sat, false) {
                                        Ok(dst) => Some(m1.insert(n.to_issuer@, dst)),
                                        Err(_) => None,
                                    }
                                }
                            },
                        }
                    }
                }
            },
            PeerCreditEvent::BackedSettlement { settlement_id, .. } => {
                let id = settlement_id@;
                if !self.backed_settlements@.contains_key(id) {
                    None
                } else {
                    let b = self.backed_settlements@[id];
                    if !m.contains_key(b.from_issuer@) {
                        None
                    } else {
                        match m[b.from_issuer@].spec_debit(b.amount_sat) {
                            Ok(l) => Some(m.insert(b.from_issuer@, l)),
                            Err(_) => None,
                        }
                    }
                }
            },
        }
    }

    /// The peer ledgers every issuer starts from.
    pub open spec fn initial_ledgers(&self) -> Map<Seq<char>, PeerCreditLedger> {
        self.issuers@.map_values(|st: IssuerState| PeerCreditLedger::zero())
    }

    /// Replay of a prefix of the event log.
    pub open spec fn replay(&self, evs: Seq<PeerCreditEvent>) -> Option<Map<Seq<char>, PeerCreditLedger>>
        decreases evs.len(),
    {
        if evs.len() == 0 {
            Some(self.initial_ledgers())
        } else {
            match self.replay(evs.drop_last()) {
                None => None,
                Some(m) => self.event_step(m, evs.last()),
            }
        }
    }

    pub open spec fn event_id(e: PeerCreditEvent) -> Seq<char> {
        match e {
            PeerCreditEvent::Receipt { receipt_id, .. } => receipt_id@,
            PeerCreditEvent::Novation { novation_id, .. } => novation_id@,
            PeerCreditEvent::BackedSettlement { settlement_id, .. } => settlement_id@,
        }
    }

    pub open spec fn same_kind(a: PeerCreditEvent, b: PeerCreditEvent) -> bool {
        (a is Receipt && b is Receipt) || (a is Novation && b is Novation) || (
        a is BackedSettlement && b is BackedSettlement)
    }

    pub open spec fn events_ok(&self) -> bool {
        let evs = self.peer_credit_events@;
        &&& forall|j: int|
            0 <= j < evs.len() ==> 0 < (#[trigger] evs[j]).spec_revision() <= self.revision
        &&& forall|a: int, b: int|
            0 <= a < b < evs.len() ==> (#[trigger] evs[a]).spec_revision() < (
            #[trigger] evs[b]).spec_revision()
        &&& forall|a: int, b: int|
            0 <= a < b < evs.len() && Self::same_kind(#[trigger] evs[a], #[trigger] evs[b])
                ==> Self::event_id(evs[a]) != Self::event_id(evs[b])
        &&& self.replay(evs) is Some
        &&& forall|j: int|
            0 <= j < self.issuers.pairs().len() ==> self.replay(evs)->0[#[trigger] self.issuers.pairs()[j].0]
                == self.issuers.pairs()[j].1.peer_credit
        &&& receipt_event_count(evs) == peer_receipt_count(self.applied_receipts.pairs())
        &&& novation_event_count(evs) == self.novations.pairs().len()
        &&& backed_event_count(evs) == self.backed_settlements.pairs().len()
    }

    /// What the retained operations say an issuer's ledgers must hold.
    pub open spec fn issuer_totals_ok(&self, id: Seq<char>, st: IssuerState) -> bool {
        let r = self.applied_receipts.pairs();
        let n = self.novations.pairs();
        let d = self.backing_deposits@;
        let b = self.backed_settlements.pairs();
        let c = self.closed_loop_consumptions.pairs();
        let x = self.settlements.pairs();
        let credits = receipt_sum(r, id, ValueClass::PeerCredit) + novation_to_sum(n, id);
        let debits = novation_from_sum(n, id) + backed_from_sum(b, id);
        let closed_dep = deposit_sum(d, id, ValueClass::ClosedLoopDeposit);
        let with_dep = deposit_sum(d, id, ValueClass::ReserveBackedWithdrawable);
        let closed_alloc = receipt_sum(r, id, ValueClass::ClosedLoopDeposit) + backed_backing_sum(
            b,
            id,
            ValueClass::ClosedLoopDeposit,
        );
        let with_alloc = receipt_sum(r, id, ValueClass::ReserveBackedWithdrawable)
            + backed_backing_sum(b, id, ValueClass::ReserveBackedWithdrawable);
        let consumed = consumption_sum(c, id);
        let pending = pending_sum(x, id);
        let settled = settled_sum(x, id);
        &&& credits <= u64::MAX
        &&& debits <= u64::MAX
        &&& closed_dep <= u64::MAX
        &&& with_dep <= u64::MAX
        &&& closed_alloc <= u64::MAX
        &&& with_alloc <= u64::MAX
        &&& consumed <= u64::MAX
        &&& pending <= u64::MAX
        &&& settled <= u64::MAX
        &&& closed_dep == st.closed_loop.total_deposited_sat
        &&& with_dep == st.withdrawable.total_deposited_sat
        &&& credits - debits == st.peer_credit.outstanding_sat
        &&& closed_alloc == st.closed_loop.claimable_sat + st.closed_loop.consumed_sat
        &&& consumed == st.closed_loop.consumed_sat
        &&& with_alloc == st.withdrawable.redeemable_sat + st.withdrawable.pending_external_sat
            + st.withdrawable.settled_external_sat
        &&& pending == st.withdrawable.pending_external_sat
        &&& settled == st.withdrawable.settled_external_sat
    }

    pub open spec fn totals_ok(&self) -> bool {
        &&& forall|j: int|
            0 <= j < self.issuers.pairs().len() ==> self.issuer_totals_ok(
                #[trigger] self.issuers.pairs()[j].0,
                self.issuers.pairs()[j].1,
            )
        &&& outstanding_sum(self.issuers.pairs()) == self.total_peer_credit_sat
        &&& self.total_peer_credit_sat <= self.max_total_peer_credit_sat
    }

    /// One revision per applied operation, plus one per finished external settlement.
    pub open spec fn revision_ok(&self) -> bool {
        self.revision == self.applied_receipts.pairs().len() + self.novations.pairs().len()
            + self.backing_deposits@.len() + self.backed_settlements.pairs().len()
            + self.closed_loop_consumptions.pairs().len() + self.settlements.pairs().len()
            + finished_count(self.settlements.pairs())
    }

    /// Everything a snapshot of the current version must satisfy.
    pub open spec fn valid_body(&self) -> bool {
        &&& !is_blank(self.counterparty@)
        &&& self.issuers.pairs().len() > 0
        &&& self.records_ok()
        &&& self.events_ok()
        &&& self.totals_ok()
        &&& self.revision_ok()
    }
}

} // verus!
