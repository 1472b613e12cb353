//! Snapshots stay restorable: starting from a valid snapshot, every
//! operation the account applies leads to a snapshot that validates again,
//! as long as the cumulative totals it records fit in a `u64`.
use vstd::prelude::*;
use crate::deposits::{lemma_deposits_map_at, sorted_deposits};
use crate::error::CreditError;
use crate::exposure::{lemma_map_total_remove, map_total, outstanding_of, reserved_at};
use crate::laws::{issuer_inv, settlement_record_ok};
use crate::idmap::{lemma_pairs_map_at, lemma_pairs_map_keys, pairs_map, sorted_keys};
use crate::model::{
    issuers_from_policies, spec_new_account, AccountView, IssuerState, PeerCreditEvent,
    SettlementRecord, SettlementState,
};
use crate::pairs::{
    lemma_deposits_insert, lemma_deposits_unique, lemma_pairs_insert, lemma_pairs_same_keys,
    lemma_pairs_unique, lemma_pairs_update, lemma_sum_insert, lemma_sum_pointwise, lemma_sum_push,
    lemma_sum_update, lemma_sum_zero,
};
use crate::protocol::{
    AcceptanceMode, BackedCreditSettlement, BackingDeposit, ClosedLoopConsumption, CreditNovation,
    ExternalSettlementRequest, IssuerPolicy, ReceiptApplication, ServiceReceiptClaim, ValueClass,
};
use crate::snapshot_model::{
    backed_backing_amount, backed_backing_sum, backed_event_one, backed_from_amount,
    backed_from_sum, consumption_amount, consumption_sum, deposit_amount, deposit_sum,
    finished_one, novation_event_one, novation_from_amount, novation_from_sum, novation_to_amount,
    novation_to_sum, outstanding_amount, peer_receipt_one, pending_amount, pending_sum,
    receipt_amount, receipt_event_one, receipt_sum, settled_amount, settled_sum, sum_of,
    CreditAccountSnapshotV1,
};
use crate::text::{is_blank, lemma_text_lt_facts, text_lt};

verus! {

/// The key-sorted tables that every snapshot the library writes has.
pub open spec fn tables_sorted(s: CreditAccountSnapshotV1) -> bool {
    &&& s.issuers.wf()
    &&& s.applied_receipts.wf()
    &&& s.novations.wf()
    &&& s.backed_settlements.wf()
    &&& s.closed_loop_consumptions.wf()
    &&& s.settlements.wf()
    &&& sorted_deposits(s.backing_deposits@)
}

/// The maps a replay reads, grown only by new keys, with the same issuers.
pub open spec fn maps_extend(s: CreditAccountSnapshotV1, s1: CreditAccountSnapshotV1) -> bool {
    &&& s1.issuers@.dom() == s.issuers@.dom()
    &&& forall|k: Seq<char>|
        #[trigger] s.applied_receipts@.contains_key(k) ==> s1.applied_receipts@.contains_key(k)
            && s1.applied_receipts@[k] == s.applied_receipts@[k]
    &&& forall|k: Seq<char>|
        #[trigger] s.novations@.contains_key(k) ==> s1.novations@.contains_key(k)
            && s1.novations@[k] == s.novations@[k]
    &&& forall|k: Seq<char>|
        #[trigger] s.backed_settlements@.contains_key(k) ==> s1.backed_settlements@.contains_key(k)
            && s1.backed_settlements@[k] == s.backed_settlements@[k]
}

/// Whether the record an event names is present.
pub open spec fn event_known(s: CreditAccountSnapshotV1, e: PeerCreditEvent) -> bool {
    match e {
        PeerCreditEvent::Receipt { receipt_id, .. } => s.applied_receipts@.contains_key(receipt_id@),
        PeerCreditEvent::Novation { novation_id, .. } => s.novations@.contains_key(novation_id@),
        PeerCreditEvent::BackedSettlement { settlement_id, .. } => s.backed_settlements@.contains_key(
            settlement_id@,
        ),
    }
}

/// Replaying events against grown maps gives the same ledgers.
pub proof fn lemma_replay_extend(
    s: CreditAccountSnapshotV1,
    s1: CreditAccountSnapshotV1,
    evs: Seq<PeerCreditEvent>,
)
    requires
        maps_extend(s, s1),
        s.replay(evs) is Some,
    ensures
        s1.replay(evs) == s.replay(evs),
    decreases evs.len(),
{
    if evs.len() == 0 {
        assert(s1.initial_ledgers() =~= s.initial_ledgers());
    } else {
        lemma_replay_extend(s, s1, evs.drop_last());
        let e = evs.last();
        match e {
            PeerCreditEvent::Receipt { receipt_id, .. } => {
                assert(s.applied_receipts@.contains_key(receipt_id@));
            },
            PeerCreditEvent::Novation { novation_id, .. } => {
                assert(s.novations@.contains_key(novation_id@));
            },
            PeerCreditEvent::BackedSettlement { settlement_id, .. } => {
                assert(s.backed_settlements@.contains_key(settlement_id@));
            },
        }
    }
}

/// A successful replay names only present records and keeps the issuers.
pub proof fn lemma_replay_facts(s: CreditAccountSnapshotV1, evs: Seq<PeerCreditEvent>)
    requires
        s.replay(evs) is Some,
    ensures
        forall|j: int| 0 <= j < evs.len() ==> event_known(s, #[trigger] evs[j]),
        s.replay(evs)->0.dom() == s.issuers@.dom(),
    decreases evs.len(),
{
    if evs.len() == 0 {
        assert(s.initial_ledgers().dom() =~= s.issuers@.dom());
    } else {
        lemma_replay_facts(s, evs.drop_last());
        let m = s.replay(evs.drop_last())->0;
        assert forall|j: int| 0 <= j < evs.len() implies event_known(s, #[trigger] evs[j]) by {
            if j < evs.len() - 1 {
                assert(evs[j] == evs.drop_last()[j]);
            }
        }
        match evs.last() {
            PeerCreditEvent::Receipt { receipt_id, .. } => {
                let c = s.applied_receipts@[receipt_id@];
                assert(s.replay(evs)->0.dom() =~= m.dom());
            },
            PeerCreditEvent::Novation { novation_id, .. } => {
                assert(s.replay(evs)->0.dom() =~= m.dom());
            },
            PeerCreditEvent::BackedSettlement { settlement_id, .. } => {
                assert(s.replay(evs)->0.dom() =~= m.dom());
            },
        }
    }
}

/// Two snapshots with the same tables, events, deposits and figures are
/// equally valid.
pub proof fn lemma_valid_same_parts(s: CreditAccountSnapshotV1, s1: CreditAccountSnapshotV1)
    requires
        s.valid_body(),
        s1.revision == s.revision,
        s1.counterparty@ == s.counterparty@,
        s1.max_total_peer_credit_sat == s.max_total_peer_credit_sat,
        s1.total_peer_credit_sat == s.total_peer_credit_sat,
        s1.issuers.pairs() == s.issuers.pairs(),
        s1.applied_receipts.pairs() == s.applied_receipts.pairs(),
        s1.peer_credit_events@ == s.peer_credit_events@,
        s1.novations.pairs() == s.novations.pairs(),
        s1.backing_deposits@ == s.backing_deposits@,
        s1.backed_settlements.pairs() == s.backed_settlements.pairs(),
        s1.closed_loop_consumptions.pairs() == s.closed_loop_consumptions.pairs(),
        s1.settlements.pairs() == s.settlements.pairs(),
    ensures
        s1.valid_body(),
{
    assert(s1.issuers@ == s.issuers@);
    assert(s1.applied_receipts@ == s.applied_receipts@);
    assert(s1.novations@ == s.novations@);
    assert(s1.backed_settlements@ == s.backed_settlements@);
    assert(s1.closed_loop_consumptions@ == s.closed_loop_consumptions@);
    assert(s1.settlements@ == s.settlements@);
    lemma_replay_extend(s, s1, s.peer_credit_events@);
    assert(s1.records_ok());
    assert(s1.events_ok());
    assert(s1.totals_ok());
    assert(s1.revision_ok());
}

/// The tables of a sorted snapshot are determined by its account state.
pub proof fn lemma_same_view_same_parts(s: CreditAccountSnapshotV1, s1: CreditAccountSnapshotV1)
    requires
        tables_sorted(s),
        tables_sorted(s1),
        s1.account_view() == s.account_view(),
    ensures
        s1.issuers.pairs() == s.issuers.pairs(),
        s1.applied_receipts.pairs() == s.applied_receipts.pairs(),
        s1.novations.pairs() == s.novations.pairs(),
        s1.backing_deposits@ == s.backing_deposits@,
        s1.backed_settlements.pairs() == s.backed_settlements.pairs(),
        s1.closed_loop_consumptions.pairs() == s.closed_loop_consumptions.pairs(),
        s1.settlements.pairs() == s.settlements.pairs(),
{
    lemma_pairs_unique(s1.issuers.pairs(), s.issuers.pairs());
    lemma_pairs_unique(s1.applied_receipts.pairs(), s.applied_receipts.pairs());
    lemma_pairs_unique(s1.novations.pairs(), s.novations.pairs());
    lemma_pairs_unique(s1.backed_settlements.pairs(), s.backed_settlements.pairs());
    lemma_pairs_unique(s1.closed_loop_consumptions.pairs(), s.closed_loop_consumptions.pairs());
    lemma_pairs_unique(s1.settlements.pairs(), s.settlements.pairs());
    lemma_deposits_unique(s1.backing_deposits@, s.backing_deposits@);
}

/// The cumulative totals a snapshot records for an issuer all fit in a `u64`.
pub open spec fn issuer_sums_fit(s: CreditAccountSnapshotV1, id: Seq<char>) -> bool {
    let r = s.applied_receipts.pairs();
    let n = s.novations.pairs();
    let d = s.backing_deposits@;
    let b = s.backed_settlements.pairs();
    let c = s.closed_loop_consumptions.pairs();
    let x = s.settlements.pairs();
    &&& receipt_sum(r, id, ValueClass::PeerCredit) + novation_to_sum(n, id) <= u64::MAX
    &&& novation_from_sum(n, id) + backed_from_sum(b, id) <= u64::MAX
    &&& deposit_sum(d, id, ValueClass::ClosedLoopDeposit) <= u64::MAX
    &&& deposit_sum(d, id, ValueClass::ReserveBackedWithdrawable) <= u64::MAX
    &&& receipt_sum(r, id, ValueClass::ClosedLoopDeposit) + backed_backing_sum(
        b,
        id,
        ValueClass::ClosedLoopDeposit,
    ) <= u64::MAX
    &&& receipt_sum(r, id, ValueClass::ReserveBackedWithdrawable) + backed_backing_sum(
        b,
        id,
        ValueClass::ReserveBackedWithdrawable,
    ) <= u64::MAX
    &&& consumption_sum(c, id) <= u64::MAX
    &&& pending_sum(x, id) <= u64::MAX
    &&& settled_sum(x, id) <= u64::MAX
}

/// Every issuer's cumulative totals fit in a `u64`.
pub open spec fn sums_fit(s: CreditAccountSnapshotV1) -> bool {
    forall|k: Seq<char>| s.issuers@.contains_key(k) ==> issuer_sums_fit(s, k)
}

/// Two positions of a key-sorted table hold different keys.
proof fn lemma_keys_distinct<V>(p: Seq<(Seq<char>, V)>, i: int, j: int)
    requires
        sorted_keys(p),
        0 <= i < p.len(),
        0 <= j < p.len(),
        i != j,
    ensures
        p[i].0 != p[j].0,
{
    lemma_text_lt_facts();
    if i < j {
        assert(text_lt(p[i].0, p[j].0));
    } else {
        assert(text_lt(p[j].0, p[i].0));
    }
}

/// What a newly applied receipt does to the account it is applied to.
pub open spec fn receipt_applied(
    s: CreditAccountSnapshotV1,
    c: ServiceReceiptClaim,
    auth: Seq<char>,
    mode: AcceptanceMode,
    now: u64,
    s1: CreditAccountSnapshotV1,
) -> bool {
    s.account_view().apply_receipt(c, auth, mode, now) == Ok::<
        (AccountView, ReceiptApplication),
        CreditError,
    >((s1.account_view(), ReceiptApplication::Applied))
}

/// Applying a receipt to the account of a valid snapshot yields an account
/// whose snapshot is valid again, provided its cumulative totals fit.
#[verifier::spinoff_prover]
#[verifier::rlimit(40)]
pub proof fn law_receipt_keeps_snapshot_valid(
    s: CreditAccountSnapshotV1,
    c: ServiceReceiptClaim,
    auth: Seq<char>,
    mode: AcceptanceMode,
    now: u64,
    s1: CreditAccountSnapshotV1,
)
    requires
        s.valid_body(),
        tables_sorted(s),
        tables_sorted(s1),
        s.account_view().apply_receipt(c, auth, mode, now) is Ok,
        s1.account_view() == s.account_view().apply_receipt(c, auth, mode, now)->Ok_0.0,
        sums_fit(s1),
    ensures
        s1.valid_body(),
{
    let v = s.account_view();
    let (v1, a) = v.apply_receipt(c, auth, mode, now)->Ok_0;
    if a == ReceiptApplication::AlreadyApplied {
        lemma_same_view_same_parts(s, s1);
        lemma_valid_same_parts(s, s1);
        return;
    }
    assert(receipt_applied(s, c, auth, mode, now, s1));
    let id = c.receipt_id@;
    let iss = c.issuer@;
    let st1 = s1.issuers@[iss];
    lemma_pairs_map_keys(s.issuers.pairs());
    lemma_pairs_map_keys(s1.issuers.pairs());
    assert(s1.issuers@ == s.issuers@.insert(iss, st1));
    let ii = lemma_pairs_update(s.issuers.pairs(), s1.issuers.pairs(), iss, st1);
    let ri = lemma_pairs_insert(s.applied_receipts.pairs(), s1.applied_receipts.pairs(), id, c);
    lemma_pairs_unique(s1.novations.pairs(), s.novations.pairs());
    lemma_pairs_unique(s1.backed_settlements.pairs(), s.backed_settlements.pairs());
    lemma_pairs_unique(s1.closed_loop_consumptions.pairs(), s.closed_loop_consumptions.pairs());
    lemma_pairs_unique(s1.settlements.pairs(), s.settlements.pairs());
    lemma_deposits_unique(s1.backing_deposits@, s.backing_deposits@);
    assert(s.issuer_ok(s.issuers.pairs()[ii].0, s.issuers.pairs()[ii].1));
    assert(s1.issuer_ok(iss, st1));
    assert(s1.receipt_ok(id, c));
    assert(s1.issuers@.dom() =~= s.issuers@.dom());
    receipt_records(s, s1, c, ii, ri, st1);
    receipt_events(s, c, auth, mode, now, s1, ii, ri);
    receipt_totals(s, c, auth, mode, now, s1, ii, ri);
}

proof fn receipt_records(
    s: CreditAccountSnapshotV1,
    s1: CreditAccountSnapshotV1,
    c: ServiceReceiptClaim,
    ii: int,
    ri: int,
    st1: IssuerState,
)
    requires
        s.records_ok(),
        s1.counterparty@ == s.counterparty@,
        s1.issuers@.dom() == s.issuers@.dom(),
        0 <= ii < s.issuers.pairs().len(),
        s.issuers.pairs()[ii].0 == c.issuer@,
        s1.issuers.pairs() == s.issuers.pairs().update(ii, (c.issuer@, st1)),
        0 <= ri <= s.applied_receipts.pairs().len(),
        s1.applied_receipts.pairs() == s.applied_receipts.pairs().insert(ri, (c.receipt_id@, c)),
        s1.novations.pairs() == s.novations.pairs(),
        s1.backed_settlements.pairs() == s.backed_settlements.pairs(),
        s1.closed_loop_consumptions.pairs() == s.closed_loop_consumptions.pairs(),
        s1.settlements.pairs() == s.settlements.pairs(),
        s1.backing_deposits@ == s.backing_deposits@,
        s1.issuer_ok(c.issuer@, st1),
        s1.receipt_ok(c.receipt_id@, c),
    ensures
        s1.records_ok(),
{
    let p = s1.issuers.pairs();
    assert forall|j: int| 0 <= j < p.len() implies s1.issuer_ok(#[trigger] p[j].0, p[j].1) by {
        if j != ii {
            assert(p[j] == s.issuers.pairs()[j]);
            assert(s.issuer_ok(s.issuers.pairs()[j].0, s.issuers.pairs()[j].1));
        }
    }
    let r = s1.applied_receipts.pairs();
    let r0 = s.applied_receipts.pairs();
    assert forall|j: int| 0 <= j < r.len() implies s1.receipt_ok(#[trigger] r[j].0, r[j].1) by {
        if j < ri {
            assert(r[j] == r0[j]);
            assert(s.receipt_ok(r0[j].0, r0[j].1));
        } else if j > ri {
            assert(r[j] == r0[j - 1]);
            assert(s.receipt_ok(r0[j - 1].0, r0[j - 1].1));
        }
    }
    let n = s1.novations.pairs();
    assert forall|j: int| 0 <= j < n.len() implies s1.novation_ok(#[trigger] n[j].0, n[j].1) by {
        assert(s.novation_ok(n[j].0, n[j].1));
    }
    let d = s1.backing_deposits@;
    assert forall|j: int| 0 <= j < d.len() implies s1.deposit_ok(#[trigger] d[j]) by {
        assert(s.deposit_ok(d[j]));
    }
    let b = s1.backed_settlements.pairs();
    assert forall|j: int| 0 <= j < b.len() implies s1.backed_ok(#[trigger] b[j].0, b[j].1) by {
        assert(s.backed_ok(b[j].0, b[j].1));
    }
    let k = s1.closed_loop_consumptions.pairs();
    assert forall|j: int| 0 <= j < k.len() implies s1.consumption_ok(#[trigger] k[j].0, k[j].1) by {
        assert(s.consumption_ok(k[j].0, k[j].1));
    }
    let x = s1.settlements.pairs();
    assert forall|j: int| 0 <= j < x.len() implies s1.settlement_ok(#[trigger] x[j].0, x[j].1) by {
        assert(s.settlement_ok(x[j].0, x[j].1));
    }
}

proof fn receipt_events(
    s: CreditAccountSnapshotV1,
    c: ServiceReceiptClaim,
    auth: Seq<char>,
    mode: AcceptanceMode,
    now: u64,
    s1: CreditAccountSnapshotV1,
    ii: int,
    ri: int,
)
    requires
        s.valid_body(),
        tables_sorted(s),
        tables_sorted(s1),
        receipt_applied(s, c, auth, mode, now, s1),
        0 <= ii < s.issuers.pairs().len(),
        s.issuers.pairs()[ii].0 == c.issuer@,
        s1.issuers.pairs() == s.issuers.pairs().update(ii, (c.issuer@, s1.issuers@[c.issuer@])),
        0 <= ri <= s.applied_receipts.pairs().len(),
        s1.applied_receipts.pairs() == s.applied_receipts.pairs().insert(ri, (c.receipt_id@, c)),
        s1.novations.pairs() == s.novations.pairs(),
        s1.backed_settlements.pairs() == s.backed_settlements.pairs(),
    ensures
        s1.events_ok(),
{
    let iss = c.issuer@;
    let id = c.receipt_id@;
    let evs = s.peer_credit_events@;
    let evs1 = s1.peer_credit_events@;
    let p = s.issuers.pairs();
    let p1 = s1.issuers.pairs();
    let st = s.issuers@[iss];
    let st1 = s1.issuers@[iss];
    lemma_pairs_map_at(p, ii);
    lemma_replay_facts(s, evs);
    assert(s1.issuers@.dom() =~= s.issuers@.dom());
    assert(maps_extend(s, s1));
    lemma_replay_extend(s, s1, evs);
    let m = s.replay(evs)->0;
    assert(m[iss] == st.peer_credit);
    lemma_sum_insert(s.applied_receipts.pairs(), ri, (id, c), peer_receipt_one());
    lemma_sum_push(evs, PeerCreditEvent::Receipt { revision: s1.revision, receipt_id: c.receipt_id, mode }, receipt_event_one());
    lemma_sum_push(evs, PeerCreditEvent::Receipt { revision: s1.revision, receipt_id: c.receipt_id, mode }, novation_event_one());
    lemma_sum_push(evs, PeerCreditEvent::Receipt { revision: s1.revision, receipt_id: c.receipt_id, mode }, backed_event_one());
    if c.value_class == ValueClass::PeerCredit {
        assert(evs1.drop_last() =~= evs);
        let m1 = s1.replay(evs1)->0;
        assert(m1 == m.insert(iss, st1.peer_credit));
        assert forall|j: int| 0 <= j < p1.len() implies m1[#[trigger] p1[j].0] == p1[j].1.peer_credit by {
            if j != ii {
                lemma_keys_distinct(p, j, ii);
            }
        }
        assert forall|a: int, b: int|
            0 <= a < b < evs1.len() && CreditAccountSnapshotV1::same_kind(#[trigger] evs1[a], #[trigger] evs1[b])
                implies CreditAccountSnapshotV1::event_id(evs1[a]) != CreditAccountSnapshotV1::event_id(evs1[b]) by {
            if b < evs.len() {
                assert(evs1[a] == evs[a] && evs1[b] == evs[b]);
            } else {
                assert(evs1[a] == evs[a]);
                assert(event_known(s, evs[a]));
            }
        }
        assert forall|a: int, b: int| 0 <= a < b < evs1.len() implies (#[trigger] evs1[a]).spec_revision() < (
            #[trigger] evs1[b]).spec_revision() by {
            if b < evs.len() {
                assert(evs1[a] == evs[a] && evs1[b] == evs[b]);
            } else {
                assert(evs1[a] == evs[a]);
            }
        }
        assert forall|j: int| 0 <= j < evs1.len() implies 0 < (#[trigger] evs1[j]).spec_revision() <= s1.revision by {
            if j < evs.len() {
                assert(evs1[j] == evs[j]);
            }
        }
    } else {
        assert(evs1 == evs);
        assert forall|j: int| 0 <= j < p1.len() implies m[#[trigger] p1[j].0] == p1[j].1.peer_credit by {
            if j != ii {
                assert(p1[j] == p[j]);
            }
        }
    }
}

proof fn receipt_totals(
    s: CreditAccountSnapshotV1,
    c: ServiceReceiptClaim,
    auth: Seq<char>,
    mode: AcceptanceMode,
    now: u64,
    s1: CreditAccountSnapshotV1,
    ii: int,
    ri: int,
)
    requires
        s.valid_body(),
        tables_sorted(s),
        tables_sorted(s1),
        sums_fit(s1),
        receipt_applied(s, c, auth, mode, now, s1),
        0 <= ii < s.issuers.pairs().len(),
        s.issuers.pairs()[ii].0 == c.issuer@,
        s1.issuers.pairs() == s.issuers.pairs().update(ii, (c.issuer@, s1.issuers@[c.issuer@])),
        0 <= ri <= s.applied_receipts.pairs().len(),
        s1.applied_receipts.pairs() == s.applied_receipts.pairs().insert(ri, (c.receipt_id@, c)),
        s1.novations.pairs() == s.novations.pairs(),
        s1.backed_settlements.pairs() == s.backed_settlements.pairs(),
        s1.closed_loop_consumptions.pairs() == s.closed_loop_consumptions.pairs(),
        s1.settlements.pairs() == s.settlements.pairs(),
        s1.backing_deposits@ == s.backing_deposits@,
    ensures
        s1.totals_ok(),
{
    let iss = c.issuer@;
    let id = c.receipt_id@;
    let p = s.issuers.pairs();
    let p1 = s1.issuers.pairs();
    let r = s.applied_receipts.pairs();
    let r1 = s1.applied_receipts.pairs();
    let st = s.issuers@[iss];
    let st1 = s1.issuers@[iss];
    lemma_pairs_map_at(p, ii);
    lemma_pairs_map_keys(p1);
    assert forall|k: Seq<char>, cl: ValueClass| #[trigger] receipt_sum(r1, k, cl) == receipt_sum(r, k, cl)
        + receipt_amount(k, cl)((id, c)) by {
        lemma_sum_insert(r, ri, (id, c), receipt_amount(k, cl));
    }
    assert forall|j: int| 0 <= j < p1.len() implies s1.issuer_totals_ok(#[trigger] p1[j].0, p1[j].1) by {
        let k = p1[j].0;
        assert(s.issuer_totals_ok(p[j].0, p[j].1));
        assert(s1.issuers@.contains_key(k));
        assert(issuer_sums_fit(s1, k));
        assert(receipt_sum(r1, k, ValueClass::PeerCredit) == receipt_sum(r, k, ValueClass::PeerCredit)
            + receipt_amount(k, ValueClass::PeerCredit)((id, c)));
        assert(receipt_sum(r1, k, ValueClass::ClosedLoopDeposit) == receipt_sum(r, k, ValueClass::ClosedLoopDeposit)
            + receipt_amount(k, ValueClass::ClosedLoopDeposit)((id, c)));
        assert(receipt_sum(r1, k, ValueClass::ReserveBackedWithdrawable) == receipt_sum(
            r,
            k,
            ValueClass::ReserveBackedWithdrawable,
        ) + receipt_amount(k, ValueClass::ReserveBackedWithdrawable)((id, c)));
        if j != ii {
            lemma_keys_distinct(p, j, ii);
            assert(p1[j] == p[j]);
        }
    }
    lemma_sum_update(p, ii, (iss, st1), outstanding_amount());
}

/// The record checks of the tables an operation leaves alone carry over to a
/// snapshot with the same counterparty and issuers.
proof fn records_frame(s: CreditAccountSnapshotV1, s1: CreditAccountSnapshotV1)
    requires
        s.records_ok(),
        s1.counterparty@ == s.counterparty@,
        s1.issuers@.dom() == s.issuers@.dom(),
    ensures
        s1.applied_receipts.pairs() == s.applied_receipts.pairs() ==> forall|j: int|
            0 <= j < s1.applied_receipts.pairs().len() ==> s1.receipt_ok(
                #[trigger] s1.applied_receipts.pairs()[j].0,
                s1.applied_receipts.pairs()[j].1,
            ),
        s1.novations.pairs() == s.novations.pairs() ==> forall|j: int|
            0 <= j < s1.novations.pairs().len() ==> s1.novation_ok(
                #[trigger] s1.novations.pairs()[j].0,
                s1.novations.pairs()[j].1,
            ),
        s1.backing_deposits@ == s.backing_deposits@ ==> forall|j: int|
            0 <= j < s1.backing_deposits@.len() ==> s1.deposit_ok(#[trigger] s1.backing_deposits@[j]),
        s1.backed_settlements.pairs() == s.backed_settlements.pairs() ==> forall|j: int|
            0 <= j < s1.backed_settlements.pairs().len() ==> s1.backed_ok(
                #[trigger] s1.backed_settlements.pairs()[j].0,
                s1.backed_settlements.pairs()[j].1,
            ),
        s1.closed_loop_consumptions.pairs() == s.closed_loop_consumptions.pairs() ==> forall|j: int|
            0 <= j < s1.closed_loop_consumptions.pairs().len() ==> s1.consumption_ok(
                #[trigger] s1.closed_loop_consumptions.pairs()[j].0,
                s1.closed_loop_consumptions.pairs()[j].1,
            ),
        s1.settlements.pairs() == s.settlements.pairs() ==> forall|j: int|
            0 <= j < s1.settlements.pairs().len() ==> s1.settlement_ok(
                #[trigger] s1.settlements.pairs()[j].0,
                s1.settlements.pairs()[j].1,
            ),
{
    if s1.applied_receipts.pairs() == s.applied_receipts.pairs() {
        let r = s1.applied_receipts.pairs();
        assert forall|j: int| 0 <= j < r.len() implies s1.receipt_ok(#[trigger] r[j].0, r[j].1) by {
            assert(s.receipt_ok(r[j].0, r[j].1));
        }
    }
    if s1.novations.pairs() == s.novations.pairs() {
        let n = s1.novations.pairs();
        assert forall|j: int| 0 <= j < n.len() implies s1.novation_ok(#[trigger] n[j].0, n[j].1) by {
            assert(s.novation_ok(n[j].0, n[j].1));
        }
    }
    if s1.backing_deposits@ == s.backing_deposits@ {
        let d = s1.backing_deposits@;
        assert forall|j: int| 0 <= j < d.len() implies s1.deposit_ok(#[trigger] d[j]) by {
            assert(s.deposit_ok(d[j]));
        }
    }
    if s1.backed_settlements.pairs() == s.backed_settlements.pairs() {
        let b = s1.backed_settlements.pairs();
        assert forall|j: int| 0 <= j < b.len() implies s1.backed_ok(#[trigger] b[j].0, b[j].1) by {
            assert(s.backed_ok(b[j].0, b[j].1));
        }
    }
    if s1.closed_loop_consumptions.pairs() == s.closed_loop_consumptions.pairs() {
        let k = s1.closed_loop_consumptions.pairs();
        assert forall|j: int| 0 <= j < k.len() implies s1.consumption_ok(#[trigger] k[j].0, k[j].1) by {
            assert(s.consumption_ok(k[j].0, k[j].1));
        }
    }
    if s1.settlements.pairs() == s.settlements.pairs() {
        let x = s1.settlements.pairs();
        assert forall|j: int| 0 <= j < x.len() implies s1.settlement_ok(#[trigger] x[j].0, x[j].1) by {
            assert(s.settlement_ok(x[j].0, x[j].1));
        }
    }
}

/// An operation that leaves the event log, the tables it replays and every
/// peer ledger alone keeps the log consistent.
proof fn events_frame(s: CreditAccountSnapshotV1, s1: CreditAccountSnapshotV1)
    requires
        s.events_ok(),
        tables_sorted(s),
        s.revision <= s1.revision,
        s1.peer_credit_events@ == s.peer_credit_events@,
        s1.issuers@.dom() == s.issuers@.dom(),
        s1.applied_receipts.pairs() == s.applied_receipts.pairs(),
        s1.novations.pairs() == s.novations.pairs(),
        s1.backed_settlements.pairs() == s.backed_settlements.pairs(),
        s1.issuers.pairs().len() == s.issuers.pairs().len(),
        forall|j: int|
            0 <= j < s.issuers.pairs().len() ==> (#[trigger] s1.issuers.pairs()[j]).0
                == s.issuers.pairs()[j].0 && s1.issuers.pairs()[j].1.peer_credit
                == s.issuers.pairs()[j].1.peer_credit,
    ensures
        s1.events_ok(),
{
    let evs = s.peer_credit_events@;
    assert(maps_extend(s, s1));
    lemma_replay_extend(s, s1, evs);
    let p1 = s1.issuers.pairs();
    assert forall|j: int| 0 <= j < p1.len() implies s1.replay(evs)->0[#[trigger] p1[j].0]
        == p1[j].1.peer_credit by {
        assert(s1.issuers.pairs()[j].0 == s.issuers.pairs()[j].0);
    }
}

/// What recording a new backing deposit does to the account.
pub open spec fn deposit_recorded(
    s: CreditAccountSnapshotV1,
    d: BackingDeposit,
    auth: Seq<char>,
    s1: CreditAccountSnapshotV1,
) -> bool {
    s.account_view().record_backing_deposit(d, auth) == Ok::<
        (AccountView, ReceiptApplication),
        CreditError,
    >((s1.account_view(), ReceiptApplication::Applied))
}

/// Recording a backing deposit on the account of a valid snapshot yields an
/// account whose snapshot is valid again, provided its cumulative totals fit.
#[verifier::spinoff_prover]
#[verifier::rlimit(40)]
pub proof fn law_deposit_keeps_snapshot_valid(
    s: CreditAccountSnapshotV1,
    d: BackingDeposit,
    auth: Seq<char>,
    s1: CreditAccountSnapshotV1,
)
    requires
        s.valid_body(),
        tables_sorted(s),
        tables_sorted(s1),
        s.account_view().record_backing_deposit(d, auth) is Ok,
        s1.account_view() == s.account_view().record_backing_deposit(d, auth)->Ok_0.0,
        sums_fit(s1),
    ensures
        s1.valid_body(),
{
    let v = s.account_view();
    let (v1, a) = v.record_backing_deposit(d, auth)->Ok_0;
    if a == ReceiptApplication::AlreadyApplied {
        lemma_same_view_same_parts(s, s1);
        lemma_valid_same_parts(s, s1);
        return;
    }
    assert(deposit_recorded(s, d, auth, s1));
    let iss = d.issuer@;
    let p = s.issuers.pairs();
    let p1 = s1.issuers.pairs();
    let st = s.issuers@[iss];
    let st1 = s1.issuers@[iss];
    lemma_pairs_map_keys(p);
    lemma_pairs_map_keys(p1);
    assert(s1.issuers@ == s.issuers@.insert(iss, st1));
    assert(s1.issuers@.dom() =~= s.issuers@.dom());
    lemma_pairs_same_keys(p, p1);
    let di = lemma_deposits_insert(s.backing_deposits@, s1.backing_deposits@, d);
    lemma_pairs_unique(s1.applied_receipts.pairs(), s.applied_receipts.pairs());
    lemma_pairs_unique(s1.novations.pairs(), s.novations.pairs());
    lemma_pairs_unique(s1.backed_settlements.pairs(), s.backed_settlements.pairs());
    lemma_pairs_unique(s1.closed_loop_consumptions.pairs(), s.closed_loop_consumptions.pairs());
    lemma_pairs_unique(s1.settlements.pairs(), s.settlements.pairs());
    // records
    records_frame(s, s1);
    assert forall|j: int| 0 <= j < p1.len() implies s1.issuer_ok(#[trigger] p1[j].0, p1[j].1) by {
        assert(s.issuer_ok(p[j].0, p[j].1));
    }
    let ds = s.backing_deposits@;
    let ds1 = s1.backing_deposits@;
    assert forall|j: int| 0 <= j < ds1.len() implies s1.deposit_ok(#[trigger] ds1[j]) by {
        if j < di {
            assert(ds1[j] == ds[j]);
            assert(s.deposit_ok(ds[j]));
        } else if j > di {
            assert(ds1[j] == ds[j - 1]);
            assert(s.deposit_ok(ds[j - 1]));
        }
    }
    assert(s1.records_ok());
    // events
    events_frame(s, s1);
    // totals
    assert forall|k: Seq<char>, cl: ValueClass| #[trigger] deposit_sum(ds1, k, cl) == deposit_sum(ds, k, cl)
        + deposit_amount(k, cl)(d) by {
        lemma_sum_insert(ds, di, d, deposit_amount(k, cl));
    }
    assert forall|j: int| 0 <= j < p1.len() implies s1.issuer_totals_ok(#[trigger] p1[j].0, p1[j].1) by {
        let k = p1[j].0;
        assert(s.issuer_totals_ok(p[j].0, p[j].1));
        assert(issuer_sums_fit(s1, k));
        assert(deposit_sum(ds1, k, ValueClass::ClosedLoopDeposit) == deposit_sum(ds, k, ValueClass::ClosedLoopDeposit)
            + deposit_amount(k, ValueClass::ClosedLoopDeposit)(d));
        assert(deposit_sum(ds1, k, ValueClass::ReserveBackedWithdrawable) == deposit_sum(
            ds,
            k,
            ValueClass::ReserveBackedWithdrawable,
        ) + deposit_amount(k, ValueClass::ReserveBackedWithdrawable)(d));
    }
    assert forall|j: int| 0 <= j < p.len() implies outstanding_amount()(#[trigger] p[j]) == outstanding_amount()(
        p1[j],
    ) by {
        assert(p1[j] == (p[j].0, s1.issuers@[p[j].0]));
    }
    lemma_sum_pointwise(p, p1, outstanding_amount());
    assert(s1.totals_ok());
    assert(s1.revision_ok());
}

/// What recording a new closed-loop consumption does to the account.
pub open spec fn consumption_recorded(
    s: CreditAccountSnapshotV1,
    c: ClosedLoopConsumption,
    auth: Seq<char>,
    s1: CreditAccountSnapshotV1,
) -> bool {
    s.account_view().consume_closed_loop(c, auth) == Ok::<
        (AccountView, ReceiptApplication),
        CreditError,
    >((s1.account_view(), ReceiptApplication::Applied))
}

/// Consuming closed-loop value on the account of a valid snapshot yields an
/// account whose snapshot is valid again, provided its cumulative totals fit.
#[verifier::spinoff_prover]
#[verifier::rlimit(40)]
pub proof fn law_consumption_keeps_snapshot_valid(
    s: CreditAccountSnapshotV1,
    c: ClosedLoopConsumption,
    auth: Seq<char>,
    s1: CreditAccountSnapshotV1,
)
    requires
        s.valid_body(),
        tables_sorted(s),
        tables_sorted(s1),
        s.account_view().consume_closed_loop(c, auth) is Ok,
        s1.account_view() == s.account_view().consume_closed_loop(c, auth)->Ok_0.0,
        sums_fit(s1),
    ensures
        s1.valid_body(),
{
    let v = s.account_view();
    let (v1, a) = v.consume_closed_loop(c, auth)->Ok_0;
    if a == ReceiptApplication::AlreadyApplied {
        lemma_same_view_same_parts(s, s1);
        lemma_valid_same_parts(s, s1);
        return;
    }
    assert(consumption_recorded(s, c, auth, s1));
    let iss = c.issuer@;
    let id = c.consumption_id@;
    let p = s.issuers.pairs();
    let p1 = s1.issuers.pairs();
    let st1 = s1.issuers@[iss];
    lemma_pairs_map_keys(p);
    lemma_pairs_map_keys(p1);
    assert(s1.issuers@ == s.issuers@.insert(iss, st1));
    assert(s1.issuers@.dom() =~= s.issuers@.dom());
    lemma_pairs_same_keys(p, p1);
    let x = s.closed_loop_consumptions.pairs();
    let x1 = s1.closed_loop_consumptions.pairs();
    let ci = lemma_pairs_insert(x, x1, id, c);
    lemma_pairs_unique(s1.applied_receipts.pairs(), s.applied_receipts.pairs());
    lemma_pairs_unique(s1.novations.pairs(), s.novations.pairs());
    lemma_pairs_unique(s1.backed_settlements.pairs(), s.backed_settlements.pairs());
    lemma_pairs_unique(s1.settlements.pairs(), s.settlements.pairs());
    lemma_deposits_unique(s1.backing_deposits@, s.backing_deposits@);
    // records
    records_frame(s, s1);
    assert forall|j: int| 0 <= j < p1.len() implies s1.issuer_ok(#[trigger] p1[j].0, p1[j].1) by {
        assert(s.issuer_ok(p[j].0, p[j].1));
    }
    assert forall|j: int| 0 <= j < x1.len() implies s1.consumption_ok(#[trigger] x1[j].0, x1[j].1) by {
        if j < ci {
            assert(x1[j] == x[j]);
            assert(s.consumption_ok(x[j].0, x[j].1));
        } else if j > ci {
            assert(x1[j] == x[j - 1]);
            assert(s.consumption_ok(x[j - 1].0, x[j - 1].1));
        }
    }
    assert(s1.records_ok());
    // events
    events_frame(s, s1);
    // totals
    assert forall|k: Seq<char>| #[trigger] consumption_sum(x1, k) == consumption_sum(x, k)
        + consumption_amount(k)((id, c)) by {
        lemma_sum_insert(x, ci, (id, c), consumption_amount(k));
    }
    assert forall|j: int| 0 <= j < p1.len() implies s1.issuer_totals_ok(#[trigger] p1[j].0, p1[j].1) by {
        let k = p1[j].0;
        assert(s.issuer_totals_ok(p[j].0, p[j].1));
        assert(issuer_sums_fit(s1, k));
        assert(consumption_sum(x1, k) == consumption_sum(x, k) + consumption_amount(k)((id, c)));
    }
    assert forall|j: int| 0 <= j < p.len() implies outstanding_amount()(#[trigger] p[j]) == outstanding_amount()(
        p1[j],
    ) by {
        assert(p1[j] == (p[j].0, s1.issuers@[p[j].0]));
    }
    lemma_sum_pointwise(p, p1, outstanding_amount());
    assert(s1.totals_ok());
    assert(s1.revision_ok());
}

/// Authorizing an external settlement on the account of a valid snapshot
/// yields an account whose snapshot is valid again, provided its cumulative
/// totals fit.
#[verifier::spinoff_prover]
#[verifier::rlimit(40)]
pub proof fn law_authorization_keeps_snapshot_valid(
    s: CreditAccountSnapshotV1,
    r: ExternalSettlementRequest,
    auth: Seq<char>,
    now: u64,
    s1: CreditAccountSnapshotV1,
)
    requires
        s.valid_body(),
        tables_sorted(s),
        tables_sorted(s1),
        s.account_view().authorize_external_settlement(r, auth, now) is Ok,
        s1.account_view() == s.account_view().authorize_external_settlement(r, auth, now)->Ok_0.0,
        sums_fit(s1),
    ensures
        s1.valid_body(),
{
    let v = s.account_view();
    let id = r.settlement_id@;
    if v.settlements.contains_key(id) {
        lemma_same_view_same_parts(s, s1);
        lemma_valid_same_parts(s, s1);
        return;
    }
    let iss = r.issuer@;
    let rec = SettlementRecord {
        request: r,
        authorization: AccountView::authorization_for(r, now),
        state: SettlementState::Pending,
    };
    let p = s.issuers.pairs();
    let p1 = s1.issuers.pairs();
    let st1 = s1.issuers@[iss];
    lemma_pairs_map_keys(p);
    lemma_pairs_map_keys(p1);
    assert(s1.issuers@ == s.issuers@.insert(iss, st1));
    assert(s1.issuers@.dom() =~= s.issuers@.dom());
    lemma_pairs_same_keys(p, p1);
    let x = s.settlements.pairs();
    let x1 = s1.settlements.pairs();
    assert(s1.settlements@ == s.settlements@.insert(id, rec));
    let xi = lemma_pairs_insert(x, x1, id, rec);
    lemma_pairs_unique(s1.applied_receipts.pairs(), s.applied_receipts.pairs());
    lemma_pairs_unique(s1.novations.pairs(), s.novations.pairs());
    lemma_pairs_unique(s1.backed_settlements.pairs(), s.backed_settlements.pairs());
    lemma_pairs_unique(s1.closed_loop_consumptions.pairs(), s.closed_loop_consumptions.pairs());
    lemma_deposits_unique(s1.backing_deposits@, s.backing_deposits@);
    // records
    records_frame(s, s1);
    assert forall|j: int| 0 <= j < p1.len() implies s1.issuer_ok(#[trigger] p1[j].0, p1[j].1) by {
        assert(s.issuer_ok(p[j].0, p[j].1));
    }
    assert(s1.settlement_ok(id, rec));
    assert forall|j: int| 0 <= j < x1.len() implies s1.settlement_ok(#[trigger] x1[j].0, x1[j].1) by {
        if j < xi {
            assert(x1[j] == x[j]);
            assert(s.settlement_ok(x[j].0, x[j].1));
        } else if j > xi {
            assert(x1[j] == x[j - 1]);
            assert(s.settlement_ok(x[j - 1].0, x[j - 1].1));
        }
    }
    assert(s1.records_ok());
    // events
    events_frame(s, s1);
    // totals
    assert forall|k: Seq<char>| #[trigger] pending_sum(x1, k) == pending_sum(x, k) + pending_amount(k)(
        (id, rec),
    ) by {
        lemma_sum_insert(x, xi, (id, rec), pending_amount(k));
    }
    assert forall|k: Seq<char>| #[trigger] settled_sum(x1, k) == settled_sum(x, k) + settled_amount(k)(
        (id, rec),
    ) by {
        lemma_sum_insert(x, xi, (id, rec), settled_amount(k));
    }
    lemma_sum_insert(x, xi, (id, rec), finished_one());
    assert forall|j: int| 0 <= j < p1.len() implies s1.issuer_totals_ok(#[trigger] p1[j].0, p1[j].1) by {
        let k = p1[j].0;
        assert(s.issuer_totals_ok(p[j].0, p[j].1));
        assert(issuer_sums_fit(s1, k));
        assert(pending_sum(x1, k) == pending_sum(x, k) + pending_amount(k)((id, rec)));
        assert(settled_sum(x1, k) == settled_sum(x, k) + settled_amount(k)((id, rec)));
    }
    assert forall|j: int| 0 <= j < p.len() implies outstanding_amount()(#[trigger] p[j]) == outstanding_amount()(
        p1[j],
    ) by {
        assert(p1[j] == (p[j].0, s1.issuers@[p[j].0]));
    }
    lemma_sum_pointwise(p, p1, outstanding_amount());
    assert(s1.totals_ok());
    assert(s1.revision_ok());
}

/// Completing a pending external settlement on the account of a valid
/// snapshot yields an account whose snapshot is valid again, provided its
/// cumulative totals fit.
#[verifier::spinoff_prover]
#[verifier::rlimit(40)]
pub proof fn law_completion_keeps_snapshot_valid(
    s: CreditAccountSnapshotV1,
    id: Seq<char>,
    fee: u64,
    s1: CreditAccountSnapshotV1,
)
    requires
        s.valid_body(),
        tables_sorted(s),
        tables_sorted(s1),
        s.account_view().complete_external_settlement(id, fee) is Ok,
        s1.account_view() == s.account_view().complete_external_settlement(id, fee)->Ok_0,
        sums_fit(s1),
    ensures
        s1.valid_body(),
{
    let v = s.account_view();
    let old_rec = v.settlements[id];
    if old_rec.state != SettlementState::Pending {
        lemma_same_view_same_parts(s, s1);
        lemma_valid_same_parts(s, s1);
        return;
    }
    let rec = SettlementRecord { state: SettlementState::Completed { fee_sat: fee }, ..old_rec };
    let iss = old_rec.request.issuer@;
    let p = s.issuers.pairs();
    let p1 = s1.issuers.pairs();
    let st1 = s1.issuers@[iss];
    lemma_pairs_map_keys(p);
    lemma_pairs_map_keys(p1);
    assert(s1.issuers@ == s.issuers@.insert(iss, st1));
    assert(s1.issuers@.dom() =~= s.issuers@.dom());
    lemma_pairs_same_keys(p, p1);
    let x = s.settlements.pairs();
    let x1 = s1.settlements.pairs();
    assert(s1.settlements@ == s.settlements@.insert(id, rec));
    let xi = lemma_pairs_update(x, x1, id, rec);
    lemma_pairs_map_at(x, xi);
    assert(x[xi].1 == old_rec);
    assert(s.settlement_ok(x[xi].0, x[xi].1));
    lemma_pairs_unique(s1.applied_receipts.pairs(), s.applied_receipts.pairs());
    lemma_pairs_unique(s1.novations.pairs(), s.novations.pairs());
    lemma_pairs_unique(s1.backed_settlements.pairs(), s.backed_settlements.pairs());
    lemma_pairs_unique(s1.closed_loop_consumptions.pairs(), s.closed_loop_consumptions.pairs());
    lemma_deposits_unique(s1.backing_deposits@, s.backing_deposits@);
    // records
    records_frame(s, s1);
    assert forall|j: int| 0 <= j < p1.len() implies s1.issuer_ok(#[trigger] p1[j].0, p1[j].1) by {
        assert(s.issuer_ok(p[j].0, p[j].1));
    }
    assert forall|j: int| 0 <= j < x1.len() implies s1.settlement_ok(#[trigger] x1[j].0, x1[j].1) by {
        if j != xi {
            assert(x1[j] == x[j]);
            assert(s.settlement_ok(x[j].0, x[j].1));
        }
    }
    assert(s1.records_ok());
    // events
    events_frame(s, s1);
    // totals
    assert forall|k: Seq<char>| #[trigger] pending_sum(x1, k) == pending_sum(x, k) - pending_amount(k)(
        x[xi],
    ) + pending_amount(k)((id, rec)) by {
        lemma_sum_update(x, xi, (id, rec), pending_amount(k));
    }
    assert forall|k: Seq<char>| #[trigger] settled_sum(x1, k) == settled_sum(x, k) - settled_amount(k)(
        x[xi],
    ) + settled_amount(k)((id, rec)) by {
        lemma_sum_update(x, xi, (id, rec), settled_amount(k));
    }
    lemma_sum_update(x, xi, (id, rec), finished_one());
    assert forall|j: int| 0 <= j < p1.len() implies s1.issuer_totals_ok(#[trigger] p1[j].0, p1[j].1) by {
        let k = p1[j].0;
        assert(s.issuer_totals_ok(p[j].0, p[j].1));
        assert(issuer_sums_fit(s1, k));
        assert(pending_sum(x1, k) == pending_sum(x, k) - pending_amount(k)(x[xi]) + pending_amount(k)(
            (id, rec),
        ));
        assert(settled_sum(x1, k) == settled_sum(x, k) - settled_amount(k)(x[xi]) + settled_amount(k)(
            (id, rec),
        ));
    }
    assert forall|j: int| 0 <= j < p.len() implies outstanding_amount()(#[trigger] p[j]) == outstanding_amount()(
        p1[j],
    ) by {
        assert(p1[j] == (p[j].0, s1.issuers@[p[j].0]));
    }
    lemma_sum_pointwise(p, p1, outstanding_amount());
    assert(s1.totals_ok());
    assert(s1.revision_ok());
}

/// Cancelling a pending external settlement on the account of a valid
/// snapshot yields an account whose snapshot is valid again, provided its
/// cumulative totals fit.
#[verifier::spinoff_prover]
#[verifier::rlimit(40)]
pub proof fn law_cancellation_keeps_snapshot_valid(
    s: CreditAccountSnapshotV1,
    id: Seq<char>,
    s1: CreditAccountSnapshotV1,
)
    requires
        s.valid_body(),
        tables_sorted(s),
        tables_sorted(s1),
        s.account_view().cancel_external_settlement(id) is Ok,
        s1.account_view() == s.account_view().cancel_external_settlement(id)->Ok_0,
        sums_fit(s1),
    ensures
        s1.valid_body(),
{
    let v = s.account_view();
    let old_rec = v.settlements[id];
    if old_rec.state != SettlementState::Pending {
        lemma_same_view_same_parts(s, s1);
        lemma_valid_same_parts(s, s1);
        return;
    }
    let rec = SettlementRecord { state: SettlementState::Cancelled, ..old_rec };
    let iss = old_rec.request.issuer@;
    let p = s.issuers.pairs();
    let p1 = s1.issuers.pairs();
    let st1 = s1.issuers@[iss];
    lemma_pairs_map_keys(p);
    lemma_pairs_map_keys(p1);
    assert(s1.issuers@ == s.issuers@.insert(iss, st1));
    assert(s1.issuers@.dom() =~= s.issuers@.dom());
    lemma_pairs_same_keys(p, p1);
    let x = s.settlements.pairs();
    let x1 = s1.settlements.pairs();
    assert(s1.settlements@ == s.settlements@.insert(id, rec));
    let xi = lemma_pairs_update(x, x1, id, rec);
    lemma_pairs_map_at(x, xi);
    assert(x[xi].1 == old_rec);
    assert(s.settlement_ok(x[xi].0, x[xi].1));
    lemma_pairs_unique(s1.applied_receipts.pairs(), s.applied_receipts.pairs());
    lemma_pairs_unique(s1.novations.pairs(), s.novations.pairs());
    lemma_pairs_unique(s1.backed_settlements.pairs(), s.backed_settlements.pairs());
    lemma_pairs_unique(s1.closed_loop_consumptions.pairs(), s.closed_loop_consumptions.pairs());
    lemma_deposits_unique(s1.backing_deposits@, s.backing_deposits@);
    // records
    records_frame(s, s1);
    assert forall|j: int| 0 <= j < p1.len() implies s1.issuer_ok(#[trigger] p1[j].0, p1[j].1) by {
        assert(s.issuer_ok(p[j].0, p[j].1));
    }
    assert forall|j: int| 0 <= j < x1.len() implies s1.settlement_ok(#[trigger] x1[j].0, x1[j].1) by {
        if j != xi {
            assert(x1[j] == x[j]);
            assert(s.settlement_ok(x[j].0, x[j].1));
        }
    }
    assert(s1.records_ok());
    // events
    events_frame(s, s1);
    // totals
    assert forall|k: Seq<char>| #[trigger] pending_sum(x1, k) == pending_sum(x, k) - pending_amount(k)(
        x[xi],
    ) + pending_amount(k)((id, rec)) by {
        lemma_sum_update(x, xi, (id, rec), pending_amount(k));
    }
    assert forall|k: Seq<char>| #[trigger] settled_sum(x1, k) == settled_sum(x, k) - settled_amount(k)(
        x[xi],
    ) + settled_amount(k)((id, rec)) by {
        lemma_sum_update(x, xi, (id, rec), settled_amount(k));
    }
    lemma_sum_update(x, xi, (id, rec), finished_one());
    assert forall|j: int| 0 <= j < p1.len() implies s1.issuer_totals_ok(#[trigger] p1[j].0, p1[j].1) by {
        let k = p1[j].0;
        assert(s.issuer_totals_ok(p[j].0, p[j].1));
        assert(issuer_sums_fit(s1, k));
        assert(pending_sum(x1, k) == pending_sum(x, k) - pending_amount(k)(x[xi]) + pending_amount(k)(
            (id, rec),
        ));
        assert(settled_sum(x1, k) == settled_sum(x, k) - settled_amount(k)(x[xi]) + settled_amount(k)(
            (id, rec),
        ));
    }
    assert forall|j: int| 0 <= j < p.len() implies outstanding_amount()(#[trigger] p[j]) == outstanding_amount()(
        p1[j],
    ) by {
        assert(p1[j] == (p[j].0, s1.issuers@[p[j].0]));
    }
    lemma_sum_pointwise(p, p1, outstanding_amount());
    assert(s1.totals_ok());
    assert(s1.revision_ok());
}

/// What applying a new novation does to the account.
pub open spec fn novation_applied(
    s: CreditAccountSnapshotV1,
    n: CreditNovation,
    auth: Seq<char>,
    now: u64,
    s1: CreditAccountSnapshotV1,
) -> bool {
    &&& s.account_view().novate_peer_credit(n, auth, now) == Ok::<AccountView, CreditError>(
        s1.account_view(),
    )
    &&& !s.novations@.contains_key(n.novation_id@)
}

/// Novating peer credit on the account of a valid snapshot yields an account
/// whose snapshot is valid again, provided its cumulative totals fit.
#[verifier::spinoff_prover]
#[verifier::rlimit(40)]
pub proof fn law_novation_keeps_snapshot_valid(
    s: CreditAccountSnapshotV1,
    n: CreditNovation,
    auth: Seq<char>,
    now: u64,
    s1: CreditAccountSnapshotV1,
)
    requires
        s.valid_body(),
        tables_sorted(s),
        tables_sorted(s1),
        s.account_view().novate_peer_credit(n, auth, now) is Ok,
        s1.account_view() == s.account_view().novate_peer_credit(n, auth, now)->Ok_0,
        sums_fit(s1),
    ensures
        s1.valid_body(),
{
    let v = s.account_view();
    let id = n.novation_id@;
    if v.novations.contains_key(id) {
        lemma_same_view_same_parts(s, s1);
        lemma_valid_same_parts(s, s1);
        return;
    }
    assert(novation_applied(s, n, auth, now, s1));
    let f = n.from_issuer@;
    let t = n.to_issuer@;
    let p = s.issuers.pairs();
    let p1 = s1.issuers.pairs();
    let stf1 = s1.issuers@[f];
    let stt1 = s1.issuers@[t];
    lemma_pairs_map_keys(p);
    lemma_pairs_map_keys(p1);
    assert(s1.issuers@ == s.issuers@.insert(f, stf1).insert(t, stt1));
    assert(s1.issuers@.dom() =~= s.issuers@.dom());
    lemma_pairs_same_keys(p, p1);
    let fi = choose|j: int| 0 <= j < p.len() && #[trigger] p[j].0 == f;
    let ti = choose|j: int| 0 <= j < p.len() && #[trigger] p[j].0 == t;
    let x = s.novations.pairs();
    let x1 = s1.novations.pairs();
    let xi = lemma_pairs_insert(x, x1, id, n);
    lemma_pairs_unique(s1.applied_receipts.pairs(), s.applied_receipts.pairs());
    lemma_pairs_unique(s1.backed_settlements.pairs(), s.backed_settlements.pairs());
    lemma_pairs_unique(s1.closed_loop_consumptions.pairs(), s.closed_loop_consumptions.pairs());
    lemma_pairs_unique(s1.settlements.pairs(), s.settlements.pairs());
    lemma_deposits_unique(s1.backing_deposits@, s.backing_deposits@);
    // records
    records_frame(s, s1);
    assert(s.issuer_ok(p[fi].0, p[fi].1));
    assert(s.issuer_ok(p[ti].0, p[ti].1));
    assert forall|j: int| 0 <= j < p1.len() implies s1.issuer_ok(#[trigger] p1[j].0, p1[j].1) by {
        assert(s.issuer_ok(p[j].0, p[j].1));
    }
    assert(s1.novation_ok(id, n));
    assert forall|j: int| 0 <= j < x1.len() implies s1.novation_ok(#[trigger] x1[j].0, x1[j].1) by {
        if j < xi {
            assert(x1[j] == x[j]);
            assert(s.novation_ok(x[j].0, x[j].1));
        } else if j > xi {
            assert(x1[j] == x[j - 1]);
            assert(s.novation_ok(x[j - 1].0, x[j - 1].1));
        }
    }
    assert(s1.records_ok());
    // events
    novation_events(s, n, auth, now, s1, fi, ti, xi);
    // totals
    assert forall|k: Seq<char>| #[trigger] novation_to_sum(x1, k) == novation_to_sum(x, k)
        + novation_to_amount(k)((id, n)) by {
        lemma_sum_insert(x, xi, (id, n), novation_to_amount(k));
    }
    assert forall|k: Seq<char>| #[trigger] novation_from_sum(x1, k) == novation_from_sum(x, k)
        + novation_from_amount(k)((id, n)) by {
        lemma_sum_insert(x, xi, (id, n), novation_from_amount(k));
    }
    assert forall|j: int| 0 <= j < p1.len() implies s1.issuer_totals_ok(#[trigger] p1[j].0, p1[j].1) by {
        let k = p1[j].0;
        assert(s.issuer_totals_ok(p[j].0, p[j].1));
        assert(issuer_sums_fit(s1, k));
        assert(novation_to_sum(x1, k) == novation_to_sum(x, k) + novation_to_amount(k)((id, n)));
        assert(novation_from_sum(x1, k) == novation_from_sum(x, k) + novation_from_amount(k)((id, n)));
    }
    let q = p.update(fi, (f, stf1));
    assert forall|j: int| 0 <= j < p1.len() implies #[trigger] p1[j] == q.update(ti, (t, stt1))[j] by {
        assert(p1[j] == (p[j].0, s1.issuers@[p[j].0]));
        if j != fi && j != ti {
            lemma_keys_distinct(p, j, fi);
            lemma_keys_distinct(p, j, ti);
        }
    }
    assert(p1 =~= q.update(ti, (t, stt1)));
    lemma_sum_update(p, fi, (f, stf1), outstanding_amount());
    lemma_sum_update(q, ti, (t, stt1), outstanding_amount());
    assert(s1.totals_ok());
    assert(s1.revision_ok());
}

proof fn novation_events(
    s: CreditAccountSnapshotV1,
    n: CreditNovation,
    auth: Seq<char>,
    now: u64,
    s1: CreditAccountSnapshotV1,
    fi: int,
    ti: int,
    xi: int,
)
    requires
        s.valid_body(),
        tables_sorted(s),
        tables_sorted(s1),
        novation_applied(s, n, auth, now, s1),
        0 <= fi < s.issuers.pairs().len(),
        0 <= ti < s.issuers.pairs().len(),
        s.issuers.pairs()[fi].0 == n.from_issuer@,
        s.issuers.pairs()[ti].0 == n.to_issuer@,
        s1.issuers.pairs().len() == s.issuers.pairs().len(),
        forall|j: int|
            0 <= j < s.issuers.pairs().len() ==> #[trigger] s1.issuers.pairs()[j] == (
            s.issuers.pairs()[j].0,
            s1.issuers@[s.issuers.pairs()[j].0],
        ),
        0 <= xi <= s.novations.pairs().len(),
        s1.novations.pairs() == s.novations.pairs().insert(xi, (n.novation_id@, n)),
        s1.applied_receipts.pairs() == s.applied_receipts.pairs(),
        s1.backed_settlements.pairs() == s.backed_settlements.pairs(),
    ensures
        s1.events_ok(),
{
    let f = n.from_issuer@;
    let t = n.to_issuer@;
    let id = n.novation_id@;
    let evs = s.peer_credit_events@;
    let evs1 = s1.peer_credit_events@;
    let p = s.issuers.pairs();
    let p1 = s1.issuers.pairs();
    lemma_pairs_map_keys(p);
    lemma_pairs_map_at(p, fi);
    lemma_pairs_map_at(p, ti);
    lemma_replay_facts(s, evs);
    assert(s1.issuers@.dom() =~= s.issuers@.dom());
    assert(maps_extend(s, s1));
    lemma_replay_extend(s, s1, evs);
    let m = s.replay(evs)->0;
    assert(m[f] == s.issuers@[f].peer_credit);
    assert(m[t] == s.issuers@[t].peer_credit);
    let e = PeerCreditEvent::Novation { revision: s1.revision, novation_id: n.novation_id };
    lemma_sum_push(evs, e, receipt_event_one());
    lemma_sum_push(evs, e, novation_event_one());
    lemma_sum_push(evs, e, backed_event_one());
    assert(evs1.drop_last() =~= evs);
    let m1 = s1.replay(evs1)->0;
    assert(m1 == m.insert(f, s1.issuers@[f].peer_credit).insert(t, s1.issuers@[t].peer_credit));
    assert forall|j: int| 0 <= j < p1.len() implies m1[#[trigger] p1[j].0] == p1[j].1.peer_credit by {
        assert(p1[j] == (p[j].0, s1.issuers@[p[j].0]));
        if j != fi && j != ti {
            lemma_keys_distinct(p, j, fi);
            lemma_keys_distinct(p, j, ti);
        }
    }
    assert forall|a: int, b: int|
        0 <= a < b < evs1.len() && CreditAccountSnapshotV1::same_kind(#[trigger] evs1[a], #[trigger] evs1[b])
            implies CreditAccountSnapshotV1::event_id(evs1[a]) != CreditAccountSnapshotV1::event_id(evs1[b]) by {
        if b < evs.len() {
            assert(evs1[a] == evs[a] && evs1[b] == evs[b]);
        } else {
            assert(evs1[a] == evs[a]);
            assert(event_known(s, evs[a]));
        }
    }
    assert forall|a: int, b: int| 0 <= a < b < evs1.len() implies (#[trigger] evs1[a]).spec_revision() < (
        #[trigger] evs1[b]).spec_revision() by {
        if b < evs.len() {
            assert(evs1[a] == evs[a] && evs1[b] == evs[b]);
        } else {
            assert(evs1[a] == evs[a]);
        }
    }
    assert forall|j: int| 0 <= j < evs1.len() implies 0 < (#[trigger] evs1[j]).spec_revision() <= s1.revision by {
        if j < evs.len() {
            assert(evs1[j] == evs[j]);
        }
    }
}

/// What applying a new backed settlement does to the account.
pub open spec fn backed_applied(
    s: CreditAccountSnapshotV1,
    b: BackedCreditSettlement,
    auth: Seq<char>,
    now: u64,
    s1: CreditAccountSnapshotV1,
) -> bool {
    s.account_view().settle_peer_credit_with_backing(b, auth, now) == Ok::<
        (AccountView, ReceiptApplication),
        CreditError,
    >((s1.account_view(), ReceiptApplication::Applied))
}

/// Settling peer credit against backing on the account of a valid snapshot
/// yields an account whose snapshot is valid again, provided its cumulative
/// totals fit.
#[verifier::spinoff_prover]
#[verifier::rlimit(40)]
pub proof fn law_backed_settlement_keeps_snapshot_valid(
    s: CreditAccountSnapshotV1,
    b: BackedCreditSettlement,
    auth: Seq<char>,
    now: u64,
    s1: CreditAccountSnapshotV1,
)
    requires
        s.valid_body(),
        tables_sorted(s),
        tables_sorted(s1),
        s.account_view().settle_peer_credit_with_backing(b, auth, now) is Ok,
        s1.account_view() == s.account_view().settle_peer_credit_with_backing(b, auth, now)->Ok_0.0,
        sums_fit(s1),
    ensures
        s1.valid_body(),
{
    let v = s.account_view();
    let (v1, a) = v.settle_peer_credit_with_backing(b, auth, now)->Ok_0;
    if a == ReceiptApplication::AlreadyApplied {
        lemma_same_view_same_parts(s, s1);
        lemma_valid_same_parts(s, s1);
        return;
    }
    assert(backed_applied(s, b, auth, now, s1));
    let id = b.settlement_id@;
    let f = b.from_issuer@;
    let g = b.backing_issuer@;
    let p = s.issuers.pairs();
    let p1 = s1.issuers.pairs();
    let stf1 = s1.issuers@[f];
    let stg1 = s1.issuers@[g];
    lemma_pairs_map_keys(p);
    lemma_pairs_map_keys(p1);
    assert(s1.issuers@ =~= s.issuers@.insert(g, stg1).insert(f, stf1));
    assert(s1.issuers@.dom() =~= s.issuers@.dom());
    lemma_pairs_same_keys(p, p1);
    let fi = choose|j: int| 0 <= j < p.len() && #[trigger] p[j].0 == f;
    let gi = choose|j: int| 0 <= j < p.len() && #[trigger] p[j].0 == g;
    let x = s.backed_settlements.pairs();
    let x1 = s1.backed_settlements.pairs();
    let xi = lemma_pairs_insert(x, x1, id, b);
    lemma_pairs_unique(s1.applied_receipts.pairs(), s.applied_receipts.pairs());
    lemma_pairs_unique(s1.novations.pairs(), s.novations.pairs());
    lemma_pairs_unique(s1.closed_loop_consumptions.pairs(), s.closed_loop_consumptions.pairs());
    lemma_pairs_unique(s1.settlements.pairs(), s.settlements.pairs());
    lemma_deposits_unique(s1.backing_deposits@, s.backing_deposits@);
    // records
    records_frame(s, s1);
    assert(s.issuer_ok(p[fi].0, p[fi].1));
    assert(s.issuer_ok(p[gi].0, p[gi].1));
    assert forall|j: int| 0 <= j < p1.len() implies s1.issuer_ok(#[trigger] p1[j].0, p1[j].1) by {
        assert(s.issuer_ok(p[j].0, p[j].1));
    }
    assert(s1.backed_ok(id, b));
    assert forall|j: int| 0 <= j < x1.len() implies s1.backed_ok(#[trigger] x1[j].0, x1[j].1) by {
        if j < xi {
            assert(x1[j] == x[j]);
            assert(s.backed_ok(x[j].0, x[j].1));
        } else if j > xi {
            assert(x1[j] == x[j - 1]);
            assert(s.backed_ok(x[j - 1].0, x[j - 1].1));
        }
    }
    assert(s1.records_ok());
    // events
    backed_events(s, b, auth, now, s1, fi, gi, xi);
    // totals
    assert forall|k: Seq<char>| #[trigger] backed_from_sum(x1, k) == backed_from_sum(x, k)
        + backed_from_amount(k)((id, b)) by {
        lemma_sum_insert(x, xi, (id, b), backed_from_amount(k));
    }
    assert forall|k: Seq<char>, cl: ValueClass| #[trigger] backed_backing_sum(x1, k, cl)
        == backed_backing_sum(x, k, cl) + backed_backing_amount(k, cl)((id, b)) by {
        lemma_sum_insert(x, xi, (id, b), backed_backing_amount(k, cl));
    }
    assert forall|j: int| 0 <= j < p1.len() implies s1.issuer_totals_ok(#[trigger] p1[j].0, p1[j].1) by {
        let k = p1[j].0;
        assert(s.issuer_totals_ok(p[j].0, p[j].1));
        assert(issuer_sums_fit(s1, k));
        assert(backed_from_sum(x1, k) == backed_from_sum(x, k) + backed_from_amount(k)((id, b)));
        assert(backed_backing_sum(x1, k, ValueClass::ClosedLoopDeposit) == backed_backing_sum(
            x,
            k,
            ValueClass::ClosedLoopDeposit,
        ) + backed_backing_amount(k, ValueClass::ClosedLoopDeposit)((id, b)));
        assert(backed_backing_sum(x1, k, ValueClass::ReserveBackedWithdrawable) == backed_backing_sum(
            x,
            k,
            ValueClass::ReserveBackedWithdrawable,
        ) + backed_backing_amount(k, ValueClass::ReserveBackedWithdrawable)((id, b)));
    }
    let q = p.update(gi, (g, stg1));
    assert forall|j: int| 0 <= j < p1.len() implies #[trigger] p1[j] == q.update(fi, (f, stf1))[j] by {
        assert(p1[j] == (p[j].0, s1.issuers@[p[j].0]));
        if j != fi && j != gi {
            lemma_keys_distinct(p, j, fi);
            lemma_keys_distinct(p, j, gi);
        }
        if j == gi && j != fi {
            lemma_keys_distinct(p, fi, gi);
        }
    }
    assert(p1 =~= q.update(fi, (f, stf1)));
    lemma_sum_update(p, gi, (g, stg1), outstanding_amount());
    lemma_sum_update(q, fi, (f, stf1), outstanding_amount());
    if fi != gi {
        lemma_keys_distinct(p, fi, gi);
    }
    assert(s1.totals_ok());
    assert(s1.revision_ok());
}

#[verifier::spinoff_prover]
#[verifier::rlimit(40)]
proof fn backed_events(
    s: CreditAccountSnapshotV1,
    b: BackedCreditSettlement,
    auth: Seq<char>,
    now: u64,
    s1: CreditAccountSnapshotV1,
    fi: int,
    gi: int,
    xi: int,
)
    requires
        s.valid_body(),
        tables_sorted(s),
        tables_sorted(s1),
        backed_applied(s, b, auth, now, s1),
        0 <= fi < s.issuers.pairs().len(),
        0 <= gi < s.issuers.pairs().len(),
        s.issuers.pairs()[fi].0 == b.from_issuer@,
        s.issuers.pairs()[gi].0 == b.backing_issuer@,
        s1.issuers.pairs().len() == s.issuers.pairs().len(),
        forall|j: int|
            0 <= j < s.issuers.pairs().len() ==> #[trigger] s1.issuers.pairs()[j] == (
            s.issuers.pairs()[j].0,
            s1.issuers@[s.issuers.pairs()[j].0],
        ),
        0 <= xi <= s.backed_settlements.pairs().len(),
        s1.backed_settlements.pairs() == s.backed_settlements.pairs().insert(xi, (b.settlement_id@, b)),
        s1.applied_receipts.pairs() == s.applied_receipts.pairs(),
        s1.novations.pairs() == s.novations.pairs(),
    ensures
        s1.events_ok(),
{
    let f = b.from_issuer@;
    let g = b.backing_issuer@;
    let evs = s.peer_credit_events@;
    let evs1 = s1.peer_credit_events@;
    let p = s.issuers.pairs();
    let p1 = s1.issuers.pairs();
    lemma_pairs_map_keys(p);
    lemma_pairs_map_at(p, fi);
    lemma_pairs_map_at(p, gi);
    lemma_replay_facts(s, evs);
    assert(s1.issuers@.dom() =~= s.issuers@.dom());
    assert(maps_extend(s, s1));
    lemma_replay_extend(s, s1, evs);
    let m = s.replay(evs)->0;
    assert(m[f] == s.issuers@[f].peer_credit);
    assert(m[g] == s.issuers@[g].peer_credit);
    let e = PeerCreditEvent::BackedSettlement { revision: s1.revision, settlement_id: b.settlement_id };
    lemma_sum_push(evs, e, receipt_event_one());
    lemma_sum_push(evs, e, novation_event_one());
    lemma_sum_push(evs, e, backed_event_one());
    assert(evs1.drop_last() =~= evs);
    let m1 = s1.replay(evs1)->0;
    assert(m1 == m.insert(f, s1.issuers@[f].peer_credit));
    assert forall|j: int| 0 <= j < p1.len() implies m1[#[trigger] p1[j].0] == p1[j].1.peer_credit by {
        assert(p1[j] == (p[j].0, s1.issuers@[p[j].0]));
        if j != fi {
            lemma_keys_distinct(p, j, fi);
            if j != gi {
                lemma_keys_distinct(p, j, gi);
            }
        }
    }
    assert forall|a: int, c: int|
        0 <= a < c < evs1.len() && CreditAccountSnapshotV1::same_kind(#[trigger] evs1[a], #[trigger] evs1[c])
            implies CreditAccountSnapshotV1::event_id(evs1[a]) != CreditAccountSnapshotV1::event_id(evs1[c]) by {
        if c < evs.len() {
            assert(evs1[a] == evs[a] && evs1[c] == evs[c]);
        } else {
            assert(evs1[a] == evs[a]);
            assert(event_known(s, evs[a]));
        }
    }
    assert forall|a: int, c: int| 0 <= a < c < evs1.len() implies (#[trigger] evs1[a]).spec_revision() < (
        #[trigger] evs1[c]).spec_revision() by {
        if c < evs.len() {
            assert(evs1[a] == evs[a] && evs1[c] == evs[c]);
        } else {
            assert(evs1[a] == evs[a]);
        }
    }
    assert forall|j: int| 0 <= j < evs1.len() implies 0 < (#[trigger] evs1[j]).spec_revision() <= s1.revision by {
        if j < evs.len() {
            assert(evs1[j] == evs[j]);
        }
    }
}

proof fn lemma_policy_issuers(ps: Seq<IssuerPolicy>)
    requires
        issuers_from_policies(ps) is Ok,
    ensures
        forall|k: Seq<char>|
            #[trigger] issuers_from_policies(ps)->Ok_0.contains_key(k) ==> {
                let st = issuers_from_policies(ps)->Ok_0[k];
                &&& st == IssuerState::fresh(st.policy)
                &&& st.policy.issuer@ == k
                &&& !is_blank(k)
                &&& st.policy.max_offline_peer_credit_sat <= st.policy.max_peer_credit_sat
            },
        ps.len() > 0 ==> issuers_from_policies(ps)->Ok_0.contains_key(ps.last().issuer@),
    decreases ps.len(),
{
    if ps.len() > 0 {
        lemma_policy_issuers(ps.drop_last());
    }
}

/// The snapshot of a newly opened account is valid.
#[verifier::spinoff_prover]
#[verifier::rlimit(40)]
pub proof fn law_new_account_snapshot_valid(
    counterparty: Seq<char>,
    max_total_peer_credit_sat: u64,
    issuers: Seq<IssuerPolicy>,
    s: CreditAccountSnapshotV1,
)
    requires
        spec_new_account(counterparty, max_total_peer_credit_sat, issuers) is Ok,
        s.account_view() == spec_new_account(counterparty, max_total_peer_credit_sat, issuers)->Ok_0,
        tables_sorted(s),
    ensures
        s.valid_body(),
{
    lemma_policy_issuers(issuers);
    let p = s.issuers.pairs();
    lemma_pairs_map_keys(p);
    lemma_pairs_map_keys(s.applied_receipts.pairs());
    lemma_pairs_map_keys(s.novations.pairs());
    lemma_pairs_map_keys(s.backed_settlements.pairs());
    lemma_pairs_map_keys(s.closed_loop_consumptions.pairs());
    lemma_pairs_map_keys(s.settlements.pairs());
    assert(s.applied_receipts.pairs().len() == 0);
    assert(s.novations.pairs().len() == 0);
    assert(s.backed_settlements.pairs().len() == 0);
    assert(s.closed_loop_consumptions.pairs().len() == 0);
    assert(s.settlements.pairs().len() == 0);
    if s.backing_deposits@.len() > 0 {
        lemma_deposits_map_at(s.backing_deposits@, 0);
    }
    assert(s.backing_deposits@.len() == 0);
    assert(s.issuers@.contains_key(issuers.last().issuer@));
    assert(p.len() > 0);
    assert forall|j: int| 0 <= j < p.len() implies s.issuer_ok(#[trigger] p[j].0, p[j].1) by {
        assert(s.issuers@.contains_key(p[j].0));
    }
    assert(s.records_ok());
    let evs = s.peer_credit_events@;
    assert(evs.len() == 0);
    assert(s.replay(evs) == Some(s.initial_ledgers()));
    assert forall|j: int| 0 <= j < p.len() implies s.replay(evs)->0[#[trigger] p[j].0]
        == p[j].1.peer_credit by {
        assert(s.issuers@.contains_key(p[j].0));
    }
    assert(s.events_ok());
    assert forall|j: int| 0 <= j < p.len() implies s.issuer_totals_ok(#[trigger] p[j].0, p[j].1) by {
        assert(s.issuers@.contains_key(p[j].0));
    }
    assert forall|j: int| 0 <= j < p.len() implies outstanding_amount()(#[trigger] p[j]) == 0 by {
        assert(s.issuers@.contains_key(p[j].0));
    }
    lemma_sum_zero(p, outstanding_amount());
    assert(s.totals_ok());
    assert(s.revision_ok());
}

/// A key-sorted table, as a map, totals what it sums to in order, for a
/// measure of its entries that reads only their values.
proof fn lemma_map_total_pairs<V>(
    p: Seq<(Seq<char>, V)>,
    f: spec_fn((Seq<char>, V)) -> int,
    g: spec_fn(V) -> int,
)
    requires
        sorted_keys(p),
        forall|e: (Seq<char>, V)| #[trigger] f(e) == g(e.1),
    ensures
        pairs_map(p).dom().finite(),
        map_total(pairs_map(p), g) == sum_of(p, f),
    decreases p.len(),
{
    lemma_pairs_map_keys(p);
    if p.len() == 0 {
        assert(pairs_map(p).dom() =~= Set::empty());
    } else {
        let q = p.drop_last();
        let last = p.len() - 1;
        assert(sorted_keys(q)) by {
            assert forall|i: int, j: int| 0 <= i < j < q.len() implies text_lt(
                #[trigger] q[i].0,
                #[trigger] q[j].0,
            ) by {
                assert(q[i] == p[i] && q[j] == p[j]);
            }
        }
        lemma_map_total_pairs(q, f, g);
        lemma_pairs_map_keys(q);
        lemma_text_lt_facts();
        let m = pairs_map(p);
        let k = p[last].0;
        assert(m.contains_key(k));
        lemma_map_total_remove(m, k, g);
        assert forall|x: Seq<char>| #[trigger] m.remove(k).contains_key(x) == pairs_map(q).contains_key(
            x,
        ) by {
            if m.remove(k).contains_key(x) {
                let i = choose|i: int| 0 <= i < p.len() && #[trigger] p[i].0 == x;
                assert(i != last);
                assert(q[i] == p[i]);
            }
            if pairs_map(q).contains_key(x) {
                let i = choose|i: int| 0 <= i < q.len() && #[trigger] q[i].0 == x;
                assert(q[i] == p[i]);
                assert(text_lt(p[i].0, p[last].0));
            }
        }
        assert forall|x: Seq<char>| #[trigger] pairs_map(q).contains_key(x) implies m.remove(k)[x]
            == pairs_map(q)[x] by {
            let i = choose|i: int| 0 <= i < q.len() && #[trigger] q[i].0 == x;
            assert(q[i] == p[i]);
        }
        assert(m.remove(k) =~= pairs_map(q));
        assert(f(p[last]) == g(p[last].1));
        assert(sum_of(p, f) == sum_of(q, f) + f(p[last]));
    }
}

/// A snapshot that validates describes an account inside every cap: each
/// issuer's offline credit within its outstanding credit, its outstanding
/// credit within the issuer cap, its offline credit within the offline cap,
/// its closed-loop and withdrawable reserves conserved and within their caps;
/// the aggregate peer credit within the account cap; and every stored
/// settlement holding the authorization its request was granted.
pub proof fn law_valid_snapshot_invariant(s: CreditAccountSnapshotV1)
    requires
        tables_sorted(s),
        s.valid_body(),
    ensures
        s.account_view().inv(),
{
    let p = s.issuers.pairs();
    let x = s.settlements.pairs();
    lemma_pairs_map_keys(p);
    lemma_pairs_map_keys(x);
    lemma_map_total_pairs(p, outstanding_amount(), outstanding_of());
    assert forall|k: Seq<char>| s.issuers@.contains_key(k) implies issuer_inv(#[trigger] s.issuers@[k]) by {
        let j = choose|j: int| 0 <= j < p.len() && #[trigger] p[j].0 == k;
        assert(s.issuer_ok(p[j].0, p[j].1));
    }
    assert forall|i: Seq<char>| s.issuers@.contains_key(i) implies (#[trigger] s.issuers@[i]).withdrawable.pending_external_sat
        == map_total(s.settlements@, reserved_at(i)) by {
        let j = choose|j: int| 0 <= j < p.len() && #[trigger] p[j].0 == i;
        assert(s.issuer_totals_ok(p[j].0, p[j].1));
        lemma_map_total_pairs(x, pending_amount(i), reserved_at(i));
    }
    assert forall|k: Seq<char>| s.settlements@.contains_key(k) implies settlement_record_ok(
        k,
        #[trigger] s.settlements@[k],
    ) by {
        let j = choose|j: int| 0 <= j < x.len() && #[trigger] x[j].0 == k;
        assert(s.settlement_ok(x[j].0, x[j].1));
    }
}

} // verus!
