//! A table keyed by text identifiers, kept in the order `String`'s `Ord`
//! gives, so that iteration is the stable ID order of a `BTreeMap<String, V>`.
use vstd::prelude::*;
use crate::text::{chars_of, chars_less, lemma_text_lt_facts, lemma_text_lt_total, text_lt};

verus! {

/// Keys strictly increasing, hence unique.
pub open spec fn sorted_keys<V>(p: Seq<(Seq<char>, V)>) -> bool {
    forall|i: int, j: int| 0 <= i < j < p.len() ==> text_lt(#[trigger] p[i].0, #[trigger] p[j].0)
}

/// The map a sorted sequence of entries stands for.
pub open spec fn pairs_map<V>(p: Seq<(Seq<char>, V)>) -> Map<Seq<char>, V> {
    Map::new(
        |k: Seq<char>| exists|i: int| 0 <= i < p.len() && p[i].0 == k,
        |k: Seq<char>| p[choose|i: int| 0 <= i < p.len() && p[i].0 == k].1,
    )
}

pub proof fn lemma_pairs_map_at<V>(p: Seq<(Seq<char>, V)>, i: int)
    requires
        sorted_keys(p),
        0 <= i < p.len(),
    ensures
        pairs_map(p).contains_key(p[i].0),
        pairs_map(p)[p[i].0] == p[i].1,
{
    lemma_text_lt_facts();
    let k = p[i].0;
    assert(exists|j: int| 0 <= j < p.len() && p[j].0 == k);
    let j = choose|j: int| 0 <= j < p.len() && p[j].0 == k;
    if j < i {
        assert(text_lt(p[j].0, p[i].0));
    } else if i < j {
        assert(text_lt(p[i].0, p[j].0));
    }
}

pub proof fn lemma_pairs_map_keys<V>(p: Seq<(Seq<char>, V)>)
    requires
        sorted_keys(p),
    ensures
        forall|i: int|
            0 <= i < p.len() ==> #[trigger] pairs_map(p).contains_key(p[i].0) && pairs_map(p)[p[i].0]
                == p[i].1,
        forall|k: Seq<char>|
            pairs_map(p).contains_key(k) ==> exists|i: int| 0 <= i < p.len() && #[trigger] p[i].0 == k,
        pairs_map(p).dom().finite(),
        pairs_map(p).dom().len() == p.len(),
    decreases p.len(),
{
    assert forall|i: int| 0 <= i < p.len() implies #[trigger] pairs_map(p).contains_key(p[i].0)
        && pairs_map(p)[p[i].0] == p[i].1 by {
        lemma_pairs_map_at(p, i);
    }
    if p.len() == 0 {
        assert(pairs_map(p).dom() =~= Set::empty());
    } else {
        let q = p.drop_last();
        assert(sorted_keys(q));
        lemma_pairs_map_keys(q);
        lemma_text_lt_facts();
        assert(pairs_map(p).dom() =~= pairs_map(q).dom().insert(p.last().0)) by {
            assert forall|k: Seq<char>| pairs_map(p).dom().contains(k) implies pairs_map(
                q,
            ).dom().insert(p.last().0).contains(k) by {
                let i = choose|i: int| 0 <= i < p.len() && p[i].0 == k;
                if i < p.len() - 1 {
                    assert(q[i].0 == k);
                }
            }
            assert forall|k: Seq<char>| pairs_map(q).dom().insert(p.last().0).contains(k) implies pairs_map(
                p,
            ).dom().contains(k) by {
                if k != p.last().0 {
                    let i = choose|i: int| 0 <= i < q.len() && q[i].0 == k;
                    assert(p[i].0 == k);
                } else {
                    assert(p[p.len() - 1].0 == k);
                }
            }
        }
        if pairs_map(q).dom().contains(p.last().0) {
            let i = choose|i: int| 0 <= i < q.len() && q[i].0 == p.last().0;
            assert(text_lt(p[i].0, p[p.len() - 1].0));
        }
    }
}

/// A text-keyed table in ascending key order.
#[derive(Debug, PartialEq, Eq)]
#[verifier::reject_recursive_types(V)]
pub struct IdMap<V> {
    entries: Vec<(String, V)>,
}

impl<V> IdMap<V> {
    /// The entries with their keys as character sequences, in key order.
    pub closed spec fn pairs(&self) -> Seq<(Seq<char>, V)> {
        self.entries@.map_values(|e: (String, V)| (e.0@, e.1))
    }

    #[verifier::type_invariant]
    pub open spec fn wf(&self) -> bool {
        sorted_keys(self.pairs())
    }

    pub open spec fn view(&self) -> Map<Seq<char>, V> {
        pairs_map(self.pairs())
    }

    pub proof fn lemma_facts(&self)
        requires
            self.wf(),
        ensures
            sorted_keys(self.pairs()),
            self@ == pairs_map(self.pairs()),
            forall|i: int|
                0 <= i < self.pairs().len() ==> #[trigger] self@.contains_key(self.pairs()[i].0)
                    && self@[self.pairs()[i].0] == self.pairs()[i].1,
            forall|k: Seq<char>|
                self@.contains_key(k) ==> exists|i: int|
                    0 <= i < self.pairs().len() && #[trigger] self.pairs()[i].0 == k,
            self@.dom().finite(),
            self@.dom().len() == self.pairs().len(),
    {
        lemma_pairs_map_keys(self.pairs());
        assert forall|i: int| 0 <= i < self.pairs().len() implies #[trigger] self@.contains_key(
            self.pairs()[i].0,
        ) && self@[self.pairs()[i].0] == self.pairs()[i].1 by {
            lemma_pairs_map_at(self.pairs(), i);
        }
    }

    pub fn new() -> (m: Self)
        ensures
            m.pairs() == Seq::<(Seq<char>, V)>::empty(),
            m@ == Map::<Seq<char>, V>::empty(),
    {
        let m = IdMap { entries: Vec::new() };
        assert(m.pairs() =~= Seq::<(Seq<char>, V)>::empty());
        assert(m@ =~= Map::<Seq<char>, V>::empty());
        m
    }

    pub fn len(&self) -> (n: usize)
        ensures
            n == self.pairs().len(),
            n == self@.dom().len(),
    {
        proof {
            use_type_invariant(self);
            self.lemma_facts();
        }
        self.entries.len()
    }

    /// The key at a position in key order.
    pub fn key_at(&self, i: usize) -> (k: &String)
        requires
            i < self.pairs().len(),
        ensures
            k@ == self.pairs()[i as int].0,
    {
        &self.entries[i].0
    }

    /// The value at a position in key order.
    pub fn value_at(&self, i: usize) -> (v: &V)
        requires
            i < self.pairs().len(),
        ensures
            *v == self.pairs()[i as int].1,
    {
        &self.entries[i].1
    }

    /// The position of a key, or where it would go: every earlier key is smaller.
    fn locate(&self, k: &Vec<char>) -> (r: (usize, bool))
        ensures
            r.0 <= self.pairs().len(),
            forall|j: int| 0 <= j < r.0 ==> text_lt(#[trigger] self.pairs()[j].0, k@),
            r.1 ==> r.0 < self.pairs().len() && self.pairs()[r.0 as int].0 == k@,
            !r.1 ==> r.0 < self.pairs().len() ==> text_lt(k@, self.pairs()[r.0 as int].0),
    {
        proof {
            use_type_invariant(self);
            lemma_text_lt_facts();
        }
        let mut i: usize = 0;
        while i < self.entries.len()
            invariant
                i <= self.entries.len(),
                self.pairs().len() == self.entries.len(),
                forall|j: int| 0 <= j < i ==> text_lt(#[trigger] self.pairs()[j].0, k@),
            decreases self.entries.len() - i,
        {
            let ek = chars_of(self.entries[i].0.as_str());
            assert(ek@ == self.pairs()[i as int].0);
            if chars_less(&ek, k) {
                i = i + 1;
            } else {
                let eq = !chars_less(k, &ek);
                proof {
                    lemma_text_lt_total(ek@, k@);
                }
                return (i, eq);
            }
        }
        (i, false)
    }

    /// The position of `k` in key order, if present.
    pub fn index_of(&self, k: &str) -> (r: Option<usize>)
        ensures
            r is Some <==> self@.contains_key(k@),
            r matches Some(i) ==> i < self.pairs().len() && self.pairs()[i as int].0 == k@,
    {
        proof {
            use_type_invariant(self);
            self.lemma_facts();
            lemma_text_lt_facts();
        }
        let kc = chars_of(k);
        let (i, found) = self.locate(&kc);
        if found {
            Some(i)
        } else {
            proof {
                if self@.contains_key(k@) {
                    let j = choose|j: int| 0 <= j < self.pairs().len() && self.pairs()[j].0 == k@;
                    if j < i {
                        assert(text_lt(self.pairs()[j].0, k@));
                    } else {
                        assert(text_lt(k@, self.pairs()[i as int].0));
                        if j > i {
                            assert(text_lt(self.pairs()[i as int].0, self.pairs()[j].0));
                        }
                    }
                }
            }
            None
        }
    }

    pub fn contains_key(&self, k: &str) -> (b: bool)
        ensures
            b == self@.contains_key(k@),
    {
        self.index_of(k).is_some()
    }

    pub fn get(&self, k: &str) -> (r: Option<&V>)
        ensures
            r is Some <==> self@.contains_key(k@),
            r matches Some(v) ==> *v == self@[k@],
    {
        proof {
            use_type_invariant(self);
            self.lemma_facts();
        }
        match self.index_of(k) {
            Some(i) => Some(&self.entries[i].1),
            None => None,
        }
    }

    /// Replace the value at a position in key order, keeping its key.
    pub fn update_at(&mut self, i: usize, v: V)
        requires
            i < old(self).pairs().len(),
        ensures
            final(self).pairs() == old(self).pairs().update(i as int, (old(self).pairs()[i as int].0, v)),
            final(self)@ == old(self)@.insert(old(self).pairs()[i as int].0, v),
    {
        proof {
            use_type_invariant(&*self);
            self.lemma_facts();
            lemma_text_lt_facts();
        }
        let ghost old_pairs = self.pairs();
        let ghost k = old_pairs[i as int].0;
        let mut entries = Vec::new();
        std::mem::swap(&mut entries, &mut self.entries);
        let (key, _old) = entries.remove(i);
        entries.insert(i, (key, v));
        let ghost new_pairs = old_pairs.update(i as int, (k, v));
        assert(entries@.map_values(|e: (String, V)| (e.0@, e.1)) =~= new_pairs);
        assert(sorted_keys(new_pairs));
        proof {
            lemma_pairs_map_keys(new_pairs);
            assert(pairs_map(new_pairs) =~= pairs_map(old_pairs).insert(k, v)) by {
                assert forall|key: Seq<char>| #[trigger] pairs_map(new_pairs).contains_key(key)
                    == pairs_map(old_pairs).insert(k, v).contains_key(key) by {
                    if pairs_map(new_pairs).contains_key(key) {
                        let j = choose|j: int| 0 <= j < new_pairs.len() && new_pairs[j].0 == key;
                        assert(old_pairs[j].0 == key);
                    }
                    if key == k {
                        assert(new_pairs[i as int].0 == key);
                    }
                    if pairs_map(old_pairs).contains_key(key) {
                        let j = choose|j: int| 0 <= j < old_pairs.len() && old_pairs[j].0 == key;
                        assert(new_pairs[j].0 == key);
                    }
                }
                assert forall|key: Seq<char>| #[trigger] pairs_map(new_pairs).contains_key(key)
                    implies pairs_map(new_pairs)[key] == pairs_map(old_pairs).insert(k, v)[key] by {
                    let j = choose|j: int| 0 <= j < new_pairs.len() && new_pairs[j].0 == key;
                    assert(pairs_map(new_pairs)[key] == new_pairs[j].1);
                    if j != i {
                        lemma_pairs_map_at(old_pairs, j);
                    }
                }
            }
        }
        self.entries = entries;
    }

    /// Remove a key, giving back its value.
    pub fn remove(&mut self, k: &str) -> (r: Option<V>)
        ensures
            final(self)@ == old(self)@.remove(k@),
            r is Some <==> old(self)@.contains_key(k@),
            r matches Some(v) ==> v == old(self)@[k@],
    {
        proof {
            use_type_invariant(&*self);
            self.lemma_facts();
            lemma_text_lt_facts();
        }
        let ghost old_pairs = self.pairs();
        match self.index_of(k) {
            None => {
                assert(old_pairs_map_same(self@, k@));
                None
            },
            Some(i) => {
                let mut entries = Vec::new();
                std::mem::swap(&mut entries, &mut self.entries);
                let (_key, v) = entries.remove(i);
                let ghost new_pairs = old_pairs.remove(i as int);
                assert(entries@.map_values(|e: (String, V)| (e.0@, e.1)) =~= new_pairs);
                assert(sorted_keys(new_pairs)) by {
                    assert forall|a: int, b: int| 0 <= a < b < new_pairs.len() implies text_lt(
                        #[trigger] new_pairs[a].0,
                        #[trigger] new_pairs[b].0,
                    ) by {
                        if b < i {
                        } else if a < i {
                            assert(new_pairs[b] == old_pairs[b + 1]);
                        } else {
                            assert(new_pairs[a] == old_pairs[a + 1]);
                            assert(new_pairs[b] == old_pairs[b + 1]);
                        }
                    }
                }
                proof {
                    lemma_pairs_map_keys(new_pairs);
                    lemma_pairs_map_at(old_pairs, i as int);
                    assert(pairs_map(new_pairs) =~= pairs_map(old_pairs).remove(k@)) by {
                        assert forall|key: Seq<char>| #[trigger] pairs_map(new_pairs).contains_key(key)
                            == pairs_map(old_pairs).remove(k@).contains_key(key) by {
                            if pairs_map(new_pairs).contains_key(key) {
                                let j = choose|j: int| 0 <= j < new_pairs.len() && new_pairs[j].0 == key;
                                if j < i {
                                    assert(old_pairs[j].0 == key);
                                    assert(text_lt(old_pairs[j].0, old_pairs[i as int].0));
                                } else {
                                    assert(old_pairs[j + 1].0 == key);
                                    assert(text_lt(old_pairs[i as int].0, old_pairs[j + 1].0));
                                }
                            }
                            if pairs_map(old_pairs).remove(k@).contains_key(key) {
                                let j = choose|j: int| 0 <= j < old_pairs.len() && old_pairs[j].0 == key;
                                if j < i {
                                    assert(new_pairs[j].0 == key);
                                } else {
                                    assert(j != i);
                                    assert(new_pairs[j - 1].0 == key);
                                }
                            }
                        }
                        assert forall|key: Seq<char>| #[trigger] pairs_map(new_pairs).contains_key(key)
                            implies pairs_map(new_pairs)[key] == pairs_map(old_pairs).remove(k@)[key] by {
                            let j = choose|j: int| 0 <= j < new_pairs.len() && new_pairs[j].0 == key;
                            assert(pairs_map(new_pairs)[key] == new_pairs[j].1);
                            if j < i {
                                lemma_pairs_map_at(old_pairs, j);
                            } else {
                                lemma_pairs_map_at(old_pairs, j + 1);
                            }
                        }
                    }
                }
                self.entries = entries;
                Some(v)
            },
        }
    }

    /// Insert or replace; reports whether the key was already present.
    pub fn insert(&mut self, k: String, v: V) -> (existed: bool)
        ensures
            final(self)@ == old(self)@.insert(k@, v),
            existed == old(self)@.contains_key(k@),
            existed ==> final(self).pairs().len() == old(self).pairs().len(),
            !existed ==> final(self).pairs().len() == old(self).pairs().len() + 1,
    {
        proof {
            use_type_invariant(&*self);
            self.lemma_facts();
            lemma_text_lt_facts();
        }
        let kc = chars_of(k.as_str());
        let (i, found) = self.locate(&kc);
        let ghost old_pairs = self.pairs();
        if found {
            let mut entries = Vec::new();
            std::mem::swap(&mut entries, &mut self.entries);
            entries.set(i, (k, v));
            let ghost new_pairs = old_pairs.update(i as int, (kc@, v));
            assert(entries@.map_values(|e: (String, V)| (e.0@, e.1)) =~= new_pairs);
            assert(sorted_keys(new_pairs));
            proof {
                lemma_pairs_map_keys(new_pairs);
                assert(pairs_map(new_pairs) =~= pairs_map(old_pairs).insert(kc@, v)) by {
                    assert forall|key: Seq<char>| #[trigger] pairs_map(new_pairs).contains_key(key)
                        == pairs_map(old_pairs).insert(kc@, v).contains_key(key) by {
                        if pairs_map(new_pairs).contains_key(key) {
                            let j = choose|j: int| 0 <= j < new_pairs.len() && new_pairs[j].0 == key;
                            if j != i {
                                assert(old_pairs[j].0 == key);
                            }
                        }
                        if key == kc@ {
                            assert(new_pairs[i as int].0 == key);
                        }
                        if pairs_map(old_pairs).contains_key(key) {
                            let j = choose|j: int| 0 <= j < old_pairs.len() && old_pairs[j].0 == key;
                            assert(new_pairs[j].0 == key);
                        }
                    }
                    assert forall|key: Seq<char>| #[trigger] pairs_map(new_pairs).contains_key(key)
                        implies pairs_map(new_pairs)[key] == pairs_map(old_pairs).insert(
                        kc@,
                        v,
                    )[key] by {
                        let j = choose|j: int| 0 <= j < new_pairs.len() && new_pairs[j].0 == key;
                        assert(pairs_map(new_pairs)[key] == new_pairs[j].1);
                        if j != i {
                            lemma_pairs_map_at(old_pairs, j);
                        }
                    }
                }
            }
            self.entries = entries;
            true
        } else {
            let mut entries = Vec::new();
            std::mem::swap(&mut entries, &mut self.entries);
            entries.insert(i, (k, v));
            let ghost new_pairs = old_pairs.insert(i as int, (kc@, v));
            assert(entries@.map_values(|e: (String, V)| (e.0@, e.1)) =~= new_pairs);
            assert(sorted_keys(new_pairs)) by {
                assert forall|a: int, b: int| 0 <= a < b < new_pairs.len() implies text_lt(
                    #[trigger] new_pairs[a].0,
                    #[trigger] new_pairs[b].0,
                ) by {
                    if b < i {
                    } else if b == i {
                    } else if a < i {
                        assert(new_pairs[b] == old_pairs[b - 1]);
                    } else if a == i {
                        assert(new_pairs[b] == old_pairs[b - 1]);
                        if b - 1 > i {
                            assert(text_lt(old_pairs[i as int].0, old_pairs[b - 1].0));
                        }
                    } else {
                        assert(new_pairs[a] == old_pairs[a - 1]);
                        assert(new_pairs[b] == old_pairs[b - 1]);
                    }
                }
            }
            proof {
                lemma_pairs_map_keys(new_pairs);
                assert(!pairs_map(old_pairs).contains_key(kc@)) by {
                    if pairs_map(old_pairs).contains_key(kc@) {
                        let j = choose|j: int| 0 <= j < old_pairs.len() && old_pairs[j].0 == kc@;
                        if j >= i {
                            if j > i {
                                assert(text_lt(old_pairs[i as int].0, old_pairs[j].0));
                            }
                        }
                    }
                }
                assert(pairs_map(new_pairs) =~= pairs_map(old_pairs).insert(kc@, v)) by {
                    assert forall|key: Seq<char>| #[trigger] pairs_map(new_pairs).contains_key(key)
                        == pairs_map(old_pairs).insert(kc@, v).contains_key(key) by {
                        if pairs_map(new_pairs).contains_key(key) {
                            let j = choose|j: int| 0 <= j < new_pairs.len() && new_pairs[j].0 == key;
                            if j < i {
                                assert(old_pairs[j].0 == key);
                            } else if j > i {
                                assert(old_pairs[j - 1].0 == key);
                            }
                        }
                        if key == kc@ {
                            assert(new_pairs[i as int].0 == key);
                        }
                        if pairs_map(old_pairs).contains_key(key) {
                            let j = choose|j: int| 0 <= j < old_pairs.len() && old_pairs[j].0 == key;
                            if j < i {
                                assert(new_pairs[j].0 == key);
                            } else {
                                assert(new_pairs[j + 1].0 == key);
                            }
                        }
                    }
                    assert forall|key: Seq<char>| #[trigger] pairs_map(new_pairs).contains_key(key)
                        implies pairs_map(new_pairs)[key] == pairs_map(old_pairs).insert(
                        kc@,
                        v,
                    )[key] by {
                        let j = choose|j: int| 0 <= j < new_pairs.len() && new_pairs[j].0 == key;
                        assert(pairs_map(new_pairs)[key] == new_pairs[j].1);
                        if j < i {
                            lemma_pairs_map_at(old_pairs, j);
                        } else if j > i {
                            lemma_pairs_map_at(old_pairs, j - 1);
                        }
                    }
                }
            }
            self.entries = entries;
            false
        }
    }
}

impl<V: Clone> IdMap<V> {
    /// A copy whose values are clones of this table's values.
    pub fn duplicate(&self) -> (r: Self)
        ensures
            r.pairs().len() == self.pairs().len(),
            forall|i: int|
                0 <= i < self.pairs().len() ==> #[trigger] r.pairs()[i].0 == self.pairs()[i].0
                    && cloned::<V>(self.pairs()[i].1, r.pairs()[i].1),
    {
        proof {
            use_type_invariant(self);
        }
        let mut entries: Vec<(String, V)> = Vec::new();
        let n = self.entries.len();
        let mut i: usize = 0;
        while i < n
            invariant
                n == self.entries.len(),
                n == self.pairs().len(),
                i <= n,
                entries@.len() == i,
                forall|j: int|
                    0 <= j < i ==> #[trigger] entries@[j].0@ == self.pairs()[j].0 && cloned::<V>(
                        self.pairs()[j].1,
                        entries@[j].1,
                    ),
            decreases n - i,
        {
            let k = self.entries[i].0.clone();
            let v = self.entries[i].1.clone();
            entries.push((k, v));
            i = i + 1;
        }
        let r = IdMap { entries };
        assert(r.pairs().len() == self.pairs().len());
        assert forall|a: int, b: int| 0 <= a < b < r.pairs().len() implies text_lt(
            #[trigger] r.pairs()[a].0,
            #[trigger] r.pairs()[b].0,
        ) by {
            assert(r.pairs()[a].0 == self.pairs()[a].0);
            assert(r.pairs()[b].0 == self.pairs()[b].0);
        }
        r
    }
}

spec fn old_pairs_map_same<V>(m: Map<Seq<char>, V>, k: Seq<char>) -> bool {
    !m.contains_key(k) ==> m.remove(k) =~= m
}

} // verus!
