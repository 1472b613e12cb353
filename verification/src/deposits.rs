//! Backing deposits kept in (issuer, deposit id) order, the order in which a
//! `BTreeMap<(String, String), _>` is walked.
use vstd::prelude::*;
use crate::protocol::BackingDeposit;
use crate::text::{lemma_text_lt_facts, same_text, text_less, text_lt};

verus! {

/// Strict lexicographic order on (issuer, deposit id) keys.
pub open spec fn key_lt(a: (Seq<char>, Seq<char>), b: (Seq<char>, Seq<char>)) -> bool {
    text_lt(a.0, b.0) || (a.0 == b.0 && text_lt(a.1, b.1))
}

/// The key a deposit is recorded under.
pub open spec fn deposit_key(d: BackingDeposit) -> (Seq<char>, Seq<char>) {
    (d.issuer@, d.deposit_id@)
}

/// Keys strictly increasing, hence unique.
pub open spec fn sorted_deposits(s: Seq<BackingDeposit>) -> bool {
    forall|i: int, j: int|
        0 <= i < j < s.len() ==> key_lt(deposit_key(#[trigger] s[i]), deposit_key(#[trigger] s[j]))
}

/// The deposits a sequence holds, by key.
pub open spec fn deposits_map(s: Seq<BackingDeposit>) -> Map<(Seq<char>, Seq<char>), BackingDeposit> {
    Map::new(
        |k: (Seq<char>, Seq<char>)| exists|i: int| 0 <= i < s.len() && deposit_key(s[i]) == k,
        |k: (Seq<char>, Seq<char>)| s[choose|i: int| 0 <= i < s.len() && deposit_key(s[i]) == k],
    )
}

/// The key order is a strict total order.
pub proof fn lemma_key_lt_facts()
    ensures
        forall|a: (Seq<char>, Seq<char>)| !key_lt(a, a),
        forall|a: (Seq<char>, Seq<char>), b: (Seq<char>, Seq<char>), c: (Seq<char>, Seq<char>)|
            #![trigger key_lt(a, b), key_lt(b, c)]
            key_lt(a, b) && key_lt(b, c) ==> key_lt(a, c),
        forall|a: (Seq<char>, Seq<char>), b: (Seq<char>, Seq<char>)|
            #![trigger key_lt(a, b)]
            a != b ==> key_lt(a, b) || key_lt(b, a),
        forall|a: (Seq<char>, Seq<char>), b: (Seq<char>, Seq<char>)|
            #![trigger key_lt(a, b)]
            key_lt(a, b) ==> !key_lt(b, a),
{
    lemma_text_lt_facts();
    assert forall|a: (Seq<char>, Seq<char>), b: (Seq<char>, Seq<char>), c: (Seq<char>, Seq<char>)|
        key_lt(a, b) && key_lt(b, c) implies key_lt(a, c) by {
        if text_lt(a.0, b.0) && text_lt(b.0, c.0) {
            assert(text_lt(a.0, c.0));
        } else if a.0 == b.0 && text_lt(a.1, b.1) && b.0 == c.0 && text_lt(b.1, c.1) {
            assert(text_lt(a.1, c.1));
        }
    }
    assert forall|a: (Seq<char>, Seq<char>), b: (Seq<char>, Seq<char>)|
        a != b implies key_lt(a, b) || key_lt(b, a) by {
        if a.0 != b.0 {
            assert(text_lt(a.0, b.0) || text_lt(b.0, a.0));
        } else {
            assert(a.1 != b.1);
            assert(text_lt(a.1, b.1) || text_lt(b.1, a.1));
        }
    }
    assert forall|a: (Seq<char>, Seq<char>), b: (Seq<char>, Seq<char>)|
        key_lt(a, b) implies !key_lt(b, a) by {
        if text_lt(a.0, b.0) {
            assert(!text_lt(b.0, a.0));
        } else {
            assert(!text_lt(b.1, a.1));
        }
    }
}

/// A sequence whose neighbours are in key order is sorted throughout.
pub proof fn lemma_adjacent_sorted(s: Seq<BackingDeposit>)
    requires
        forall|j: int| 0 < j < s.len() ==> key_lt(deposit_key(s[j - 1]), deposit_key(#[trigger] s[j])),
    ensures
        sorted_deposits(s),
    decreases s.len(),
{
    if s.len() > 1 {
        let q = s.drop_last();
        assert forall|j: int| 0 < j < q.len() implies key_lt(
            deposit_key(q[j - 1]),
            deposit_key(#[trigger] q[j]),
        ) by {
            assert(q[j] == s[j]);
            assert(q[j - 1] == s[j - 1]);
        }
        lemma_adjacent_sorted(q);
        lemma_key_lt_facts();
        let n = s.len() - 1;
        assert(key_lt(deposit_key(s[n - 1]), deposit_key(s[n])));
        assert forall|i: int, j: int| 0 <= i < j < s.len() implies key_lt(
            deposit_key(#[trigger] s[i]),
            deposit_key(#[trigger] s[j]),
        ) by {
            if j < n {
                assert(q[i] == s[i] && q[j] == s[j]);
            } else if i < n - 1 {
                assert(q[i] == s[i] && q[n - 1] == s[n - 1]);
                assert(key_lt(deposit_key(s[i]), deposit_key(s[n - 1])));
            }
        }
    }
}

/// In a sorted sequence, each deposit is found under its own key.
pub proof fn lemma_deposits_map_at(s: Seq<BackingDeposit>, i: int)
    requires
        sorted_deposits(s),
        0 <= i < s.len(),
    ensures
        deposits_map(s).contains_key(deposit_key(s[i])),
        deposits_map(s)[deposit_key(s[i])] == s[i],
{
    lemma_key_lt_facts();
    let k = deposit_key(s[i]);
    assert(exists|j: int| 0 <= j < s.len() && deposit_key(s[j]) == k);
    let j = choose|j: int| 0 <= j < s.len() && deposit_key(s[j]) == k;
    if j < i {
        assert(key_lt(deposit_key(s[j]), deposit_key(s[i])));
    } else if i < j {
        assert(key_lt(deposit_key(s[i]), deposit_key(s[j])));
    }
}

/// A deposit table in ascending (issuer, deposit id) order.
#[derive(Debug, PartialEq, Eq)]
pub struct DepositTable {
    entries: Vec<BackingDeposit>,
}

/// Whether key `(a1, a2)` comes before key `(b1, b2)`.
fn key_less(a1: &str, a2: &str, b1: &str, b2: &str) -> (r: bool)
    ensures
        r == key_lt((a1@, a2@), (b1@, b2@)),
{
    text_less(a1, b1) || (same_text(a1, b1) && text_less(a2, b2))
}

impl DepositTable {
    /// The deposits in key order.
    pub closed spec fn items(&self) -> Seq<BackingDeposit> {
        self.entries@
    }

    #[verifier::type_invariant]
    pub open spec fn wf(&self) -> bool {
        sorted_deposits(self.items())
    }

    pub open spec fn view(&self) -> Map<(Seq<char>, Seq<char>), BackingDeposit> {
        deposits_map(self.items())
    }

    pub fn new() -> (t: Self)
        ensures
            t.items() == Seq::<BackingDeposit>::empty(),
            t@ == Map::<(Seq<char>, Seq<char>), BackingDeposit>::empty(),
    {
        let t = DepositTable { entries: Vec::new() };
        assert(t@ =~= Map::<(Seq<char>, Seq<char>), BackingDeposit>::empty());
        t
    }

    /// A table holding exactly the given deposits, which must be in key order.
    pub fn from_sorted(entries: Vec<BackingDeposit>) -> (t: Self)
        requires
            sorted_deposits(entries@),
        ensures
            t.items() == entries@,
    {
        DepositTable { entries }
    }

    /// The deposits in key order, cloned.
    pub fn to_vec(&self) -> (r: Vec<BackingDeposit>)
        ensures
            r@ == self.items(),
            sorted_deposits(r@),
    {
        proof {
            use_type_invariant(self);
        }
        let mut out: Vec<BackingDeposit> = Vec::new();
        let mut i: usize = 0;
        while i < self.entries.len()
            invariant
                i <= self.entries.len(),
                out@ == self.entries@.take(i as int),
            decreases self.entries.len() - i,
        {
            out.push(self.entries[i].clone());
            i = i + 1;
            assert(out@ =~= self.entries@.take(i as int));
        }
        assert(self.entries@.take(i as int) =~= self.entries@);
        out
    }

    /// The position of a key, or where it would go: every earlier key is smaller.
    fn locate(&self, issuer: &str, id: &str) -> (r: (usize, bool))
        ensures
            r.0 <= self.items().len(),
            forall|j: int|
                0 <= j < r.0 ==> key_lt(deposit_key(#[trigger] self.items()[j]), (issuer@, id@)),
            r.1 ==> r.0 < self.items().len() && deposit_key(self.items()[r.0 as int]) == (
            issuer@,
            id@,
            ),
            !r.1 ==> r.0 < self.items().len() ==> key_lt(
                (issuer@, id@),
                deposit_key(self.items()[r.0 as int]),
            ),
    {
        proof {
            lemma_key_lt_facts();
        }
        let mut i: usize = 0;
        while i < self.entries.len()
            invariant
                i <= self.entries.len(),
                forall|j: int|
                    0 <= j < i ==> key_lt(deposit_key(#[trigger] self.entries@[j]), (issuer@, id@)),
            decreases self.entries.len() - i,
        {
            let e = &self.entries[i];
            if key_less(e.issuer.as_str(), e.deposit_id.as_str(), issuer, id) {
                i = i + 1;
            } else {
                let eq = same_text(e.issuer.as_str(), issuer) && same_text(e.deposit_id.as_str(), id);
                proof {
                    lemma_key_lt_facts();
                    assert(deposit_key(*e) == (e.issuer@, e.deposit_id@));
                    assert(!key_lt(deposit_key(*e), (issuer@, id@)));
                    if !eq {
                        assert(deposit_key(*e) != (issuer@, id@));
                        assert(key_lt((issuer@, id@), deposit_key(*e)));
                    }
                }
                return (i, eq);
            }
        }
        (i, false)
    }

    /// The deposit recorded under (issuer, id), if any.
    pub fn get(&self, issuer: &str, id: &str) -> (r: Option<&BackingDeposit>)
        ensures
            r is Some <==> self@.contains_key((issuer@, id@)),
            r matches Some(d) ==> *d == self@[(issuer@, id@)],
    {
        proof {
            use_type_invariant(self);
            lemma_key_lt_facts();
        }
        let (i, found) = self.locate(issuer, id);
        if found {
            proof {
                lemma_deposits_map_at(self.items(), i as int);
            }
            Some(&self.entries[i])
        } else {
            proof {
                let k = (issuer@, id@);
                if self@.contains_key(k) {
                    let j = choose|j: int| 0 <= j < self.items().len() && deposit_key(self.items()[j]) == k;
                    if j < i {
                        assert(key_lt(deposit_key(self.items()[j]), k));
                    } else {
                        assert(key_lt(k, deposit_key(self.items()[i as int])));
                        if j > i {
                            assert(key_lt(
                                deposit_key(self.items()[i as int]),
                                deposit_key(self.items()[j]),
                            ));
                        }
                    }
                }
            }
            None
        }
    }

    /// Add a deposit under a key that is not yet present.
    pub fn insert(&mut self, d: BackingDeposit)
        requires
            !old(self)@.contains_key(deposit_key(d)),
        ensures
            final(self)@ == old(self)@.insert(deposit_key(d), d),
            final(self).items().len() == old(self).items().len() + 1,
    {
        proof {
            use_type_invariant(&*self);
            lemma_key_lt_facts();
        }
        let ghost k = deposit_key(d);
        let ghost old_items = self.items();
        let (i, found) = self.locate(d.issuer.as_str(), d.deposit_id.as_str());
        proof {
            if found {
                lemma_deposits_map_at(old_items, i as int);
            }
        }
        let mut entries = Vec::new();
        std::mem::swap(&mut entries, &mut self.entries);
        entries.insert(i, d);
        let ghost new_items = old_items.insert(i as int, d);
        assert(entries@ =~= new_items);
        assert(sorted_deposits(new_items)) by {
            assert forall|a: int, b: int| 0 <= a < b < new_items.len() implies key_lt(
                deposit_key(#[trigger] new_items[a]),
                deposit_key(#[trigger] new_items[b]),
            ) by {
                if b < i {
                } else if b == i {
                } else if a < i {
                    assert(new_items[b] == old_items[b - 1]);
                } else if a == i {
                    assert(new_items[b] == old_items[b - 1]);
                    if b - 1 > i {
                        assert(key_lt(deposit_key(old_items[i as int]), deposit_key(old_items[b - 1])));
                    }
                } else {
                    assert(new_items[a] == old_items[a - 1]);
                    assert(new_items[b] == old_items[b - 1]);
                }
            }
        }
        assert(deposits_map(new_items) =~= deposits_map(old_items).insert(k, d)) by {
            assert forall|key: (Seq<char>, Seq<char>)| #[trigger] deposits_map(new_items).contains_key(key)
                == deposits_map(old_items).insert(k, d).contains_key(key) by {
                if deposits_map(new_items).contains_key(key) {
                    let j = choose|j: int| 0 <= j < new_items.len() && deposit_key(new_items[j]) == key;
                    if j < i {
                        assert(deposit_key(old_items[j]) == key);
                    } else if j > i {
                        assert(deposit_key(old_items[j - 1]) == key);
                    }
                }
                if key == k {
                    assert(deposit_key(new_items[i as int]) == key);
                }
                if deposits_map(old_items).contains_key(key) {
                    let j = choose|j: int| 0 <= j < old_items.len() && deposit_key(old_items[j]) == key;
                    if j < i {
                        assert(deposit_key(new_items[j]) == key);
                    } else {
                        assert(deposit_key(new_items[j + 1]) == key);
                    }
                }
            }
            assert forall|key: (Seq<char>, Seq<char>)| #[trigger] deposits_map(new_items).contains_key(key)
                implies deposits_map(new_items)[key] == deposits_map(old_items).insert(k, d)[key] by {
                let j = choose|j: int| 0 <= j < new_items.len() && deposit_key(new_items[j]) == key;
                lemma_deposits_map_at(new_items, j);
                if j < i {
                    lemma_deposits_map_at(old_items, j);
                } else if j > i {
                    lemma_deposits_map_at(old_items, j - 1);
                }
            }
        }
        self.entries = entries;
    }
}

} // verus!
