//! Facts about key-sorted entry sequences: one sequence per map, and how
//! sums over entries change when an entry is added or replaced.
use vstd::prelude::*;
use crate::deposits::{
    deposit_key, deposits_map, key_lt, lemma_deposits_map_at, lemma_key_lt_facts, sorted_deposits,
};
use crate::idmap::{lemma_pairs_map_at, lemma_pairs_map_keys, pairs_map, sorted_keys};
use crate::protocol::BackingDeposit;
use crate::snapshot_model::sum_of;
use crate::text::{lemma_text_lt_facts, text_lt};

verus! {

/// Dropping the last entry of a sorted sequence drops its key from the map.
pub proof fn lemma_pairs_drop_last<V>(p: Seq<(Seq<char>, V)>)
    requires
        sorted_keys(p),
        p.len() > 0,
    ensures
        sorted_keys(p.drop_last()),
        pairs_map(p.drop_last()) == pairs_map(p).remove(p.last().0),
{
    let q = p.drop_last();
    let k = p.last().0;
    lemma_text_lt_facts();
    lemma_pairs_map_keys(p);
    lemma_pairs_map_keys(q);
    assert forall|key: Seq<char>| #[trigger] pairs_map(q).contains_key(key) == pairs_map(p).remove(
        k,
    ).contains_key(key) by {
        if pairs_map(q).contains_key(key) {
            let j = choose|j: int| 0 <= j < q.len() && q[j].0 == key;
            assert(p[j].0 == key);
            assert(text_lt(p[j].0, p[p.len() - 1].0));
        }
        if pairs_map(p).remove(k).contains_key(key) {
            let j = choose|j: int| 0 <= j < p.len() && #[trigger] p[j].0 == key;
            assert(j != p.len() - 1);
            assert(q[j].0 == key);
        }
    }
    assert forall|key: Seq<char>| #[trigger] pairs_map(q).contains_key(key) implies pairs_map(q)[key]
        == pairs_map(p).remove(k)[key] by {
        let j = choose|j: int| 0 <= j < q.len() && q[j].0 == key;
        lemma_pairs_map_at(q, j);
        lemma_pairs_map_at(p, j);
    }
    assert(pairs_map(q) =~= pairs_map(p).remove(k));
}

/// A map has one key-sorted entry sequence.
pub proof fn lemma_pairs_unique<V>(p: Seq<(Seq<char>, V)>, q: Seq<(Seq<char>, V)>)
    requires
        sorted_keys(p),
        sorted_keys(q),
        pairs_map(p) == pairs_map(q),
    ensures
        p == q,
    decreases p.len(),
{
    lemma_pairs_map_keys(p);
    lemma_pairs_map_keys(q);
    lemma_text_lt_facts();
    if p.len() == 0 {
        assert(q.len() == 0);
        assert(p =~= q);
    } else {
        assert(q.len() == p.len());
        let a = p.last().0;
        let b = q.last().0;
        assert(pairs_map(p).contains_key(a));
        let j = choose|j: int| 0 <= j < q.len() && #[trigger] q[j].0 == a;
        assert(pairs_map(q).contains_key(b));
        let i = choose|i: int| 0 <= i < p.len() && #[trigger] p[i].0 == b;
        if a != b {
            if j < q.len() - 1 {
                assert(text_lt(q[j].0, q[q.len() - 1].0));
            }
            if i < p.len() - 1 {
                assert(text_lt(p[i].0, p[p.len() - 1].0));
            }
            assert(false);
        }
        lemma_pairs_map_at(p, p.len() - 1);
        lemma_pairs_map_at(q, q.len() - 1);
        lemma_pairs_drop_last(p);
        lemma_pairs_drop_last(q);
        lemma_pairs_unique(p.drop_last(), q.drop_last());
        assert(p =~= q.drop_last().push(q.last()));
        assert(q =~= q.drop_last().push(q.last()));
    }
}

/// A sorted sequence with one new key added is the old one with the entry
/// inserted at some position.
pub proof fn lemma_pairs_insert<V>(p: Seq<(Seq<char>, V)>, q: Seq<(Seq<char>, V)>, k: Seq<char>, x: V) -> (i: int)
    requires
        sorted_keys(p),
        sorted_keys(q),
        !pairs_map(p).contains_key(k),
        pairs_map(q) == pairs_map(p).insert(k, x),
    ensures
        0 <= i <= p.len(),
        q == p.insert(i, (k, x)),
{
    lemma_text_lt_facts();
    lemma_pairs_map_keys(p);
    let i = choose_position(p, k);
    let r = p.insert(i, (k, x));
    assert(sorted_keys(r)) by {
        assert forall|a: int, b: int| 0 <= a < b < r.len() implies text_lt(
            #[trigger] r[a].0,
            #[trigger] r[b].0,
        ) by {
            if b < i {
            } else if b == i {
                assert(r[a] == p[a]);
            } else if a < i {
                assert(r[b] == p[b - 1]);
            } else if a == i {
                assert(r[b] == p[b - 1]);
                if b - 1 > i {
                    assert(text_lt(p[i].0, p[b - 1].0));
                }
                if p[b - 1].0 == k {
                    assert(pairs_map(p).contains_key(p[b - 1].0));
                }
            } else {
                assert(r[a] == p[a - 1] && r[b] == p[b - 1]);
            }
        }
    }
    assert(pairs_map(r) =~= pairs_map(p).insert(k, x)) by {
        lemma_pairs_map_keys(r);
        assert forall|key: Seq<char>| #[trigger] pairs_map(r).contains_key(key) == pairs_map(p).insert(
            k,
            x,
        ).contains_key(key) by {
            if pairs_map(r).contains_key(key) {
                let j = choose|j: int| 0 <= j < r.len() && r[j].0 == key;
                if j < i {
                    assert(p[j].0 == key);
                } else if j > i {
                    assert(p[j - 1].0 == key);
                }
            }
            if key == k {
                assert(r[i].0 == key);
            }
            if pairs_map(p).contains_key(key) {
                let j = choose|j: int| 0 <= j < p.len() && p[j].0 == key;
                if j < i {
                    assert(r[j].0 == key);
                } else {
                    assert(r[j + 1].0 == key);
                }
            }
        }
        assert forall|key: Seq<char>| #[trigger] pairs_map(r).contains_key(key) implies pairs_map(r)[key]
            == pairs_map(p).insert(k, x)[key] by {
            let j = choose|j: int| 0 <= j < r.len() && r[j].0 == key;
            lemma_pairs_map_at(r, j);
            if j < i {
                lemma_pairs_map_at(p, j);
            } else if j > i {
                lemma_pairs_map_at(p, j - 1);
            }
        }
    }
    lemma_pairs_unique(q, r);
    i
}

/// The position at which a key not in a sorted sequence belongs.
proof fn choose_position<V>(p: Seq<(Seq<char>, V)>, k: Seq<char>) -> (i: int)
    requires
        sorted_keys(p),
        !pairs_map(p).contains_key(k),
    ensures
        0 <= i <= p.len(),
        forall|j: int| 0 <= j < i ==> text_lt(#[trigger] p[j].0, k),
        forall|j: int| i <= j < p.len() ==> text_lt(k, #[trigger] p[j].0),
    decreases p.len(),
{
    lemma_text_lt_facts();
    lemma_pairs_map_keys(p);
    if p.len() == 0 {
        0
    } else {
        let last = p.last().0;
        assert(pairs_map(p).contains_key(last));
        if text_lt(last, k) {
            p.len() as int
        } else {
            assert(last != k);
            assert(text_lt(k, last));
            lemma_pairs_drop_last(p);
            let i = choose_position(p.drop_last(), k);
            assert forall|j: int| i <= j < p.len() implies text_lt(k, #[trigger] p[j].0) by {
                if j < p.len() - 1 {
                    assert(p[j] == p.drop_last()[j]);
                }
            }
            assert forall|j: int| 0 <= j < i implies text_lt(#[trigger] p[j].0, k) by {
                assert(p[j] == p.drop_last()[j]);
            }
            i
        }
    }
}

/// A sorted sequence whose map changed the value of one present key is the
/// old one with that entry replaced.
pub proof fn lemma_pairs_update<V>(p: Seq<(Seq<char>, V)>, q: Seq<(Seq<char>, V)>, k: Seq<char>, x: V) -> (i: int)
    requires
        sorted_keys(p),
        sorted_keys(q),
        pairs_map(p).contains_key(k),
        pairs_map(q) == pairs_map(p).insert(k, x),
    ensures
        0 <= i < p.len(),
        p[i].0 == k,
        q == p.update(i, (k, x)),
{
    lemma_text_lt_facts();
    lemma_pairs_map_keys(p);
    let i = choose|i: int| 0 <= i < p.len() && #[trigger] p[i].0 == k;
    let r = p.update(i, (k, x));
    assert(sorted_keys(r)) by {
        assert forall|a: int, b: int| 0 <= a < b < r.len() implies text_lt(
            #[trigger] r[a].0,
            #[trigger] r[b].0,
        ) by {
            assert(r[a].0 == p[a].0 && r[b].0 == p[b].0);
        }
    }
    assert(pairs_map(r) =~= pairs_map(p).insert(k, x)) by {
        lemma_pairs_map_keys(r);
        assert forall|key: Seq<char>| #[trigger] pairs_map(r).contains_key(key) == pairs_map(p).insert(
            k,
            x,
        ).contains_key(key) by {
            if pairs_map(r).contains_key(key) {
                let j = choose|j: int| 0 <= j < r.len() && r[j].0 == key;
                assert(p[j].0 == key);
            }
            if pairs_map(p).contains_key(key) {
                let j = choose|j: int| 0 <= j < p.len() && p[j].0 == key;
                assert(r[j].0 == key);
            }
        }
        assert forall|key: Seq<char>| #[trigger] pairs_map(r).contains_key(key) implies pairs_map(r)[key]
            == pairs_map(p).insert(k, x)[key] by {
            let j = choose|j: int| 0 <= j < r.len() && r[j].0 == key;
            lemma_pairs_map_at(r, j);
            if j != i {
                lemma_pairs_map_at(p, j);
            }
        }
    }
    lemma_pairs_unique(q, r);
    i
}

/// Adding one element adds its contribution to a sum.
pub proof fn lemma_sum_insert<A>(s: Seq<A>, i: int, e: A, f: spec_fn(A) -> int)
    requires
        0 <= i <= s.len(),
    ensures
        sum_of(s.insert(i, e), f) == sum_of(s, f) + f(e),
    decreases s.len(),
{
    if i == s.len() {
        assert(s.insert(i, e).drop_last() =~= s);
    } else {
        let t = s.insert(i, e);
        assert(t.drop_last() =~= s.drop_last().insert(i, e));
        assert(t.last() == s.last());
        lemma_sum_insert(s.drop_last(), i, e, f);
    }
}

/// Replacing one element replaces its contribution to a sum.
pub proof fn lemma_sum_update<A>(s: Seq<A>, i: int, e: A, f: spec_fn(A) -> int)
    requires
        0 <= i < s.len(),
    ensures
        sum_of(s.update(i, e), f) == sum_of(s, f) - f(s[i]) + f(e),
    decreases s.len(),
{
    let t = s.update(i, e);
    if i == s.len() - 1 {
        assert(t.drop_last() =~= s.drop_last());
    } else {
        assert(t.drop_last() =~= s.drop_last().update(i, e));
        lemma_sum_update(s.drop_last(), i, e, f);
    }
}

/// Appending one element adds its contribution to a sum.
pub proof fn lemma_sum_push<A>(s: Seq<A>, e: A, f: spec_fn(A) -> int)
    ensures
        sum_of(s.push(e), f) == sum_of(s, f) + f(e),
{
    assert(s.push(e).drop_last() =~= s);
}

/// A deposit map has one key-sorted deposit sequence.
pub proof fn lemma_deposits_unique(p: Seq<BackingDeposit>, q: Seq<BackingDeposit>)
    requires
        sorted_deposits(p),
        sorted_deposits(q),
        deposits_map(p) == deposits_map(q),
    ensures
        p == q,
    decreases p.len(),
{
    lemma_key_lt_facts();
    if p.len() == 0 {
        if q.len() > 0 {
            lemma_deposits_map_at(q, 0);
        }
        assert(p =~= q);
    } else if q.len() == 0 {
        lemma_deposits_map_at(p, 0);
    } else {
        let a = deposit_key(p.last());
        let b = deposit_key(q.last());
        lemma_deposits_map_at(p, p.len() - 1);
        lemma_deposits_map_at(q, q.len() - 1);
        let j = choose|j: int| 0 <= j < q.len() && deposit_key(q[j]) == a;
        let i = choose|i: int| 0 <= i < p.len() && deposit_key(p[i]) == b;
        if a != b {
            if j < q.len() - 1 {
                assert(key_lt(deposit_key(q[j]), deposit_key(q[q.len() - 1])));
            }
            if i < p.len() - 1 {
                assert(key_lt(deposit_key(p[i]), deposit_key(p[p.len() - 1])));
            }
            assert(false);
        }
        assert(p.last() == q.last());
        lemma_deposits_drop_last(p);
        lemma_deposits_drop_last(q);
        lemma_deposits_unique(p.drop_last(), q.drop_last());
        assert(p =~= q.drop_last().push(q.last()));
        assert(q =~= q.drop_last().push(q.last()));
    }
}

proof fn lemma_deposits_drop_last(p: Seq<BackingDeposit>)
    requires
        sorted_deposits(p),
        p.len() > 0,
    ensures
        sorted_deposits(p.drop_last()),
        deposits_map(p.drop_last()) == deposits_map(p).remove(deposit_key(p.last())),
{
    lemma_key_lt_facts();
    let q = p.drop_last();
    let k = deposit_key(p.last());
    assert(sorted_deposits(q)) by {
        assert forall|i: int, j: int| 0 <= i < j < q.len() implies key_lt(
            deposit_key(#[trigger] q[i]),
            deposit_key(#[trigger] q[j]),
        ) by {
            assert(q[i] == p[i] && q[j] == p[j]);
        }
    }
    assert forall|key: (Seq<char>, Seq<char>)| #[trigger] deposits_map(q).contains_key(key)
        == deposits_map(p).remove(k).contains_key(key) by {
        if deposits_map(q).contains_key(key) {
            let j = choose|j: int| 0 <= j < q.len() && deposit_key(q[j]) == key;
            assert(deposit_key(p[j]) == key);
            assert(key_lt(deposit_key(p[j]), deposit_key(p[p.len() - 1])));
        }
        if deposits_map(p).remove(k).contains_key(key) {
            let j = choose|j: int| 0 <= j < p.len() && deposit_key(p[j]) == key;
            assert(j != p.len() - 1);
            assert(deposit_key(q[j]) == key);
        }
    }
    assert forall|key: (Seq<char>, Seq<char>)| #[trigger] deposits_map(q).contains_key(key)
        implies deposits_map(q)[key] == deposits_map(p).remove(k)[key] by {
        let j = choose|j: int| 0 <= j < q.len() && deposit_key(q[j]) == key;
        lemma_deposits_map_at(q, j);
        lemma_deposits_map_at(p, j);
    }
    assert(deposits_map(q) =~= deposits_map(p).remove(k));
}

/// A sorted deposit sequence whose map gained one new key is the old
/// sequence with the new deposit inserted at one position.
pub proof fn lemma_deposits_insert(p: Seq<BackingDeposit>, q: Seq<BackingDeposit>, d: BackingDeposit) -> (i: int)
    requires
        sorted_deposits(p),
        sorted_deposits(q),
        !deposits_map(p).contains_key(deposit_key(d)),
        deposits_map(q) == deposits_map(p).insert(deposit_key(d), d),
    ensures
        0 <= i <= p.len(),
        q == p.insert(i, d),
{
    lemma_key_lt_facts();
    let k = deposit_key(d);
    let i = choose_deposit_position(p, k);
    let r = p.insert(i, d);
    assert(sorted_deposits(r)) by {
        assert forall|a: int, b: int| 0 <= a < b < r.len() implies key_lt(
            deposit_key(#[trigger] r[a]),
            deposit_key(#[trigger] r[b]),
        ) by {
            if b < i {
            } else if b == i {
                assert(r[a] == p[a]);
            } else if a < i {
                assert(r[b] == p[b - 1]);
            } else if a == i {
                assert(r[b] == p[b - 1]);
            } else {
                assert(r[a] == p[a - 1] && r[b] == p[b - 1]);
            }
        }
    }
    assert(deposits_map(r) =~= deposits_map(p).insert(k, d)) by {
        assert forall|key: (Seq<char>, Seq<char>)| #[trigger] deposits_map(r).contains_key(key)
            == deposits_map(p).insert(k, d).contains_key(key) by {
            if deposits_map(r).contains_key(key) {
                let j = choose|j: int| 0 <= j < r.len() && deposit_key(r[j]) == key;
                if j < i {
                    assert(deposit_key(p[j]) == key);
                } else if j > i {
                    assert(deposit_key(p[j - 1]) == key);
                }
            }
            if key == k {
                assert(deposit_key(r[i]) == key);
            }
            if deposits_map(p).contains_key(key) {
                let j = choose|j: int| 0 <= j < p.len() && deposit_key(p[j]) == key;
                if j < i {
                    assert(deposit_key(r[j]) == key);
                } else {
                    assert(deposit_key(r[j + 1]) == key);
                }
            }
        }
        assert forall|key: (Seq<char>, Seq<char>)| #[trigger] deposits_map(r).contains_key(key)
            implies deposits_map(r)[key] == deposits_map(p).insert(k, d)[key] by {
            let j = choose|j: int| 0 <= j < r.len() && deposit_key(r[j]) == key;
            lemma_deposits_map_at(r, j);
            if j < i {
                lemma_deposits_map_at(p, j);
            } else if j > i {
                lemma_deposits_map_at(p, j - 1);
            }
        }
    }
    lemma_deposits_unique(q, r);
    i
}

/// The position at which a deposit key not in a sorted sequence belongs.
proof fn choose_deposit_position(p: Seq<BackingDeposit>, k: (Seq<char>, Seq<char>)) -> (i: int)
    requires
        sorted_deposits(p),
        !deposits_map(p).contains_key(k),
    ensures
        0 <= i <= p.len(),
        forall|j: int| 0 <= j < i ==> key_lt(deposit_key(#[trigger] p[j]), k),
        forall|j: int| i <= j < p.len() ==> key_lt(k, deposit_key(#[trigger] p[j])),
    decreases p.len(),
{
    lemma_key_lt_facts();
    if p.len() == 0 {
        0
    } else {
        let last = deposit_key(p.last());
        lemma_deposits_map_at(p, p.len() - 1);
        if key_lt(last, k) {
            assert forall|j: int| 0 <= j < p.len() implies key_lt(deposit_key(#[trigger] p[j]), k) by {
                if j < p.len() - 1 {
                    assert(key_lt(deposit_key(p[j]), last));
                }
            }
            p.len() as int
        } else {
            assert(last != k);
            assert(key_lt(k, last));
            lemma_deposits_drop_last(p);
            let i = choose_deposit_position(p.drop_last(), k);
            assert forall|j: int| i <= j < p.len() implies key_lt(k, deposit_key(#[trigger] p[j])) by {
                if j < p.len() - 1 {
                    assert(p[j] == p.drop_last()[j]);
                }
            }
            assert forall|j: int| 0 <= j < i implies key_lt(deposit_key(#[trigger] p[j]), k) by {
                assert(p[j] == p.drop_last()[j]);
            }
            i
        }
    }
}

/// Two sorted sequences whose maps have the same keys hold those keys at the
/// same positions, each with the value its own map gives.
pub proof fn lemma_pairs_same_keys<V>(p: Seq<(Seq<char>, V)>, q: Seq<(Seq<char>, V)>)
    requires
        sorted_keys(p),
        sorted_keys(q),
        pairs_map(q).dom() == pairs_map(p).dom(),
    ensures
        q.len() == p.len(),
        forall|j: int| 0 <= j < p.len() ==> #[trigger] q[j] == (p[j].0, pairs_map(q)[p[j].0]),
{
    let r = Seq::new(p.len(), |j: int| (p[j].0, pairs_map(q)[p[j].0]));
    assert(sorted_keys(r)) by {
        assert forall|a: int, b: int| 0 <= a < b < r.len() implies text_lt(
            #[trigger] r[a].0,
            #[trigger] r[b].0,
        ) by {
            assert(text_lt(p[a].0, p[b].0));
        }
    }
    lemma_pairs_map_keys(p);
    lemma_pairs_map_keys(q);
    lemma_pairs_map_keys(r);
    assert(pairs_map(r) =~= pairs_map(q)) by {
        assert forall|k: Seq<char>| #[trigger] pairs_map(r).contains_key(k) == pairs_map(q).contains_key(k) by {
            if pairs_map(r).contains_key(k) {
                let j = choose|j: int| 0 <= j < r.len() && #[trigger] r[j].0 == k;
                assert(pairs_map(p).contains_key(p[j].0));
            }
            if pairs_map(q).contains_key(k) {
                assert(pairs_map(p).contains_key(k));
                let j = choose|j: int| 0 <= j < p.len() && #[trigger] p[j].0 == k;
                assert(r[j].0 == k);
            }
        }
        assert forall|k: Seq<char>| #[trigger] pairs_map(r).contains_key(k) implies pairs_map(r)[k]
            == pairs_map(q)[k] by {
            let j = choose|j: int| 0 <= j < r.len() && #[trigger] r[j].0 == k;
        }
    }
    lemma_pairs_unique(q, r);
}

/// Sequences whose elements agree under `f` position by position have the same sum.
pub proof fn lemma_sum_pointwise<A>(p: Seq<A>, q: Seq<A>, f: spec_fn(A) -> int)
    requires
        p.len() == q.len(),
        forall|j: int| 0 <= j < p.len() ==> f(#[trigger] p[j]) == f(q[j]),
    ensures
        sum_of(p, f) == sum_of(q, f),
    decreases p.len(),
{
    if p.len() > 0 {
        assert forall|j: int| 0 <= j < p.drop_last().len() implies f(#[trigger] p.drop_last()[j]) == f(
            q.drop_last()[j],
        ) by {
            assert(p.drop_last()[j] == p[j]);
            assert(q.drop_last()[j] == q[j]);
        }
        lemma_sum_pointwise(p.drop_last(), q.drop_last(), f);
        assert(f(p[p.len() - 1]) == f(q[p.len() - 1]));
    }
}

/// A sequence on which `f` is zero everywhere sums to zero.
pub proof fn lemma_sum_zero<A>(p: Seq<A>, f: spec_fn(A) -> int)
    requires
        forall|j: int| 0 <= j < p.len() ==> f(#[trigger] p[j]) == 0,
    ensures
        sum_of(p, f) == 0,
    decreases p.len(),
{
    if p.len() > 0 {
        assert forall|j: int| 0 <= j < p.drop_last().len() implies f(#[trigger] p.drop_last()[j]) == 0 by {
            assert(p.drop_last()[j] == p[j]);
        }
        lemma_sum_zero(p.drop_last(), f);
        assert(f(p[p.len() - 1]) == 0);
    }
}

} // verus!
