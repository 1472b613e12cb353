//! Totals over the tables of an account, whatever order their entries are
//! taken in: the aggregate outstanding peer credit of the issuers, and the
//! sats an issuer has reserved for pending external settlements.
use vstd::prelude::*;
use crate::model::{IssuerState, SettlementRecord, SettlementState};

verus! {

/// A measure of every entry of a finite table, added up.
pub open spec fn map_total<V>(m: Map<Seq<char>, V>, f: spec_fn(V) -> int) -> int
    decreases m.dom().len(),
{
    if m.dom().finite() && m.dom().len() > 0 {
        let k = m.dom().choose();
        f(m[k]) + map_total(m.remove(k), f)
    } else {
        0
    }
}

/// An issuer's outstanding peer credit.
pub open spec fn outstanding_of() -> spec_fn(IssuerState) -> int {
    |st: IssuerState| st.peer_credit.outstanding_sat as int
}

/// What a settlement holds reserved at an issuer: its amount and maximum fee
/// while it is pending there, nothing otherwise.
pub open spec fn reserved_at(issuer: Seq<char>) -> spec_fn(SettlementRecord) -> int {
    |rec: SettlementRecord|
        if rec.request.issuer@ == issuer && rec.state == SettlementState::Pending {
            rec.request.amount_sat + rec.request.max_fee_sat
        } else {
            0
        }
}

/// The outstanding peer credit of every issuer of a finite table, added up.
pub open spec fn outstanding_total(m: Map<Seq<char>, IssuerState>) -> int {
    map_total(m, outstanding_of())
}

/// Any one entry can be taken out first.
pub proof fn lemma_map_total_remove<V>(m: Map<Seq<char>, V>, k: Seq<char>, f: spec_fn(V) -> int)
    requires
        m.dom().finite(),
        m.contains_key(k),
    ensures
        map_total(m, f) == f(m[k]) + map_total(m.remove(k), f),
    decreases m.dom().len(),
{
    let c = m.dom().choose();
    if c != k {
        assert(m.remove(c).contains_key(k));
        lemma_map_total_remove(m.remove(c), k, f);
        assert(m.remove(k).contains_key(c));
        lemma_map_total_remove(m.remove(k), c, f);
        assert(m.remove(c).remove(k) =~= m.remove(k).remove(c));
    }
}

/// Setting one entry changes the total by the change in that entry's
/// measure; a new entry adds its measure.
pub proof fn lemma_map_total_insert<V>(m: Map<Seq<char>, V>, k: Seq<char>, e: V, f: spec_fn(V) -> int)
    requires
        m.dom().finite(),
    ensures
        m.insert(k, e).dom().finite(),
        m.contains_key(k) ==> map_total(m.insert(k, e), f) == map_total(m, f) - f(m[k]) + f(e),
        !m.contains_key(k) ==> map_total(m.insert(k, e), f) == map_total(m, f) + f(e),
{
    let m1 = m.insert(k, e);
    lemma_map_total_remove(m1, k, f);
    if m.contains_key(k) {
        lemma_map_total_remove(m, k, f);
        assert(m1.remove(k) =~= m.remove(k));
    } else {
        assert(m1.remove(k) =~= m);
    }
}

/// Tables with the same keys and the same measure at each key have the same
/// total.
pub proof fn lemma_map_total_same<V>(m: Map<Seq<char>, V>, m1: Map<Seq<char>, V>, f: spec_fn(V) -> int)
    requires
        m.dom().finite(),
        m1.dom() == m.dom(),
        forall|k: Seq<char>| m.contains_key(k) ==> f(#[trigger] m1[k]) == f(m[k]),
    ensures
        map_total(m1, f) == map_total(m, f),
    decreases m.dom().len(),
{
    if m.dom().len() > 0 {
        let k = m.dom().choose();
        lemma_map_total_remove(m, k, f);
        lemma_map_total_remove(m1, k, f);
        assert(m1.remove(k).dom() =~= m.remove(k).dom());
        lemma_map_total_same(m.remove(k), m1.remove(k), f);
    } else {
        assert(m1.dom().len() == 0);
    }
}

/// A table whose entries all measure nothing totals nothing.
pub proof fn lemma_map_total_zero<V>(m: Map<Seq<char>, V>, f: spec_fn(V) -> int)
    requires
        m.dom().finite(),
        forall|k: Seq<char>| m.contains_key(k) ==> f(#[trigger] m[k]) == 0,
    ensures
        map_total(m, f) == 0,
    decreases m.dom().len(),
{
    if m.dom().len() > 0 {
        let k = m.dom().choose();
        lemma_map_total_remove(m, k, f);
        lemma_map_total_zero(m.remove(k), f);
    }
}

/// Every entry's measure is at most the total, when no measure is negative.
pub proof fn lemma_map_total_part<V>(m: Map<Seq<char>, V>, k: Seq<char>, f: spec_fn(V) -> int)
    requires
        m.dom().finite(),
        m.contains_key(k),
        forall|j: Seq<char>| m.contains_key(j) ==> f(#[trigger] m[j]) >= 0,
    ensures
        f(m[k]) <= map_total(m, f),
{
    lemma_map_total_remove(m, k, f);
    lemma_map_total_nonneg(m.remove(k), f);
}

/// A total of measures none of which is negative is not negative.
pub proof fn lemma_map_total_nonneg<V>(m: Map<Seq<char>, V>, f: spec_fn(V) -> int)
    requires
        m.dom().finite(),
        forall|j: Seq<char>| m.contains_key(j) ==> f(#[trigger] m[j]) >= 0,
    ensures
        map_total(m, f) >= 0,
    decreases m.dom().len(),
{
    if m.dom().len() > 0 {
        let k = m.dom().choose();
        lemma_map_total_remove(m, k, f);
        lemma_map_total_nonneg(m.remove(k), f);
    }
}

} // verus!
