//! A map keyed by strings, kept as a list of entries in insertion order.
//!
//! The launcher's JSON documents hold objects keyed by strings (feature
//! flags, dependency versions, loader versions). `StringMap` holds such an
//! object: no key occurs twice, and its view is the mathematical map from the
//! characters of each key to its value.
use vstd::prelude::*;

use crate::equality::{equal_by_eq, obeys_eq};
use crate::text::str_eq;

verus! {

/// The map that a list of entries with distinct keys describes.
pub open spec fn entries_map<V>(entries: Seq<(Seq<char>, V)>) -> Map<Seq<char>, V>
    decreases entries.len(),
{
    if entries.len() == 0 {
        Map::empty()
    } else {
        entries_map(entries.drop_last()).insert(entries.last().0, entries.last().1)
    }
}

/// No key occurs twice in the entries.
pub open spec fn keys_distinct<V>(entries: Seq<(Seq<char>, V)>) -> bool {
    forall|i: int, j: int|
        0 <= i < entries.len() && 0 <= j < entries.len() && i != j ==> #[trigger] entries[i].0
            != #[trigger] entries[j].0
}

/// A map from strings to values; the order of its entries is the order in
/// which their keys were first inserted.
pub struct StringMap<V> {
    entries: Vec<(String, V)>,
}

impl<V> StringMap<V> {
    /// The entries, each key taken by its characters, in order.
    pub closed spec fn pairs(&self) -> Seq<(Seq<char>, V)> {
        self.entries@.map_values(|e: (String, V)| (e.0@, e.1))
    }

    #[verifier::type_invariant]
    closed spec fn wf(self) -> bool {
        keys_distinct(self.pairs())
    }

    /// The keys in entry order.
    pub open spec fn key_seq(&self) -> Seq<Seq<char>> {
        self.pairs().map_values(|e: (Seq<char>, V)| e.0)
    }

    /// An empty map.
    pub fn new() -> (m: Self)
        ensures
            m.pairs() == Seq::<(Seq<char>, V)>::empty(),
            m@ == Map::<Seq<char>, V>::empty(),
    {
        let m = StringMap { entries: Vec::new() };
        assert(m.pairs() =~= Seq::<(Seq<char>, V)>::empty());
        m
    }

    /// The number of entries.
    pub fn len(&self) -> (n: usize)
        ensures
            n == self.pairs().len(),
            keys_distinct(self.pairs()),
            forall|k: Seq<char>|
                self@.contains_key(k) <==> exists|i: int|
                    0 <= i < self.pairs().len() && #[trigger] self.pairs()[i].0 == k,
            forall|i: int|
                0 <= i < self.pairs().len() ==> #[trigger] self@[self.pairs()[i].0]
                    == self.pairs()[i].1,
    {
        proof {
            use_type_invariant(self);
            lemma_entries_map(self.pairs());
        }
        self.entries.len()
    }

    /// The key of the entry at `i`.
    pub fn key_at(&self, i: usize) -> (k: &String)
        requires
            i < self.pairs().len(),
        ensures
            k@ == self.pairs()[i as int].0,
            self@.contains_key(k@),
            self@[k@] == self.pairs()[i as int].1,
    {
        proof {
            use_type_invariant(self);
            lemma_entries_map(self.pairs());
        }
        &self.entries[i].0
    }

    /// The value of the entry at `i`.
    pub fn value_at(&self, i: usize) -> (v: &V)
        requires
            i < self.pairs().len(),
        ensures
            *v == self.pairs()[i as int].1,
    {
        &self.entries[i].1
    }

    /// The index of the entry whose key is `key`.
    pub fn index_of(&self, key: &str) -> (r: Option<usize>)
        ensures
            match r {
                Some(i) => i < self.pairs().len() && self.pairs()[i as int].0 == key@,
                None => forall|i: int|
                    0 <= i < self.pairs().len() ==> #[trigger] self.pairs()[i].0 != key@,
            },
    {
        let mut i: usize = 0;
        while i < self.entries.len()
            invariant
                i <= self.entries.len(),
                self.pairs().len() == self.entries.len(),
                forall|j: int| 0 <= j < i ==> #[trigger] self.pairs()[j].0 != key@,
            decreases self.entries.len() - i,
        {
            if str_eq(self.entries[i].0.as_str(), key) {
                return Some(i);
            }
            i += 1;
        }
        None
    }

    /// The value stored under `key`.
    pub fn get(&self, key: &str) -> (r: Option<&V>)
        ensures
            match r {
                Some(v) => self@.contains_key(key@) && *v == self@[key@],
                None => !self@.contains_key(key@),
            },
    {
        proof {
            use_type_invariant(self);
            lemma_entries_map(self.pairs());
        }
        match self.index_of(key) {
            Some(i) => Some(&self.entries[i].1),
            None => None,
        }
    }

    /// Whether some entry has the key `key`.
    pub fn contains_key(&self, key: &str) -> (r: bool)
        ensures
            r == self@.contains_key(key@),
    {
        proof {
            use_type_invariant(self);
            lemma_entries_map(self.pairs());
        }
        self.index_of(key).is_some()
    }

    /// Stores `value` under `key`, keeping the position of an existing
    /// entry with that key, and gives back the value it held.
    pub fn insert(&mut self, key: String, value: V) -> (r: Option<V>)
        ensures
            final(self)@ == old(self)@.insert(key@, value),
            match r {
                Some(v) => old(self)@.contains_key(key@) && v == old(self)@[key@],
                None => !old(self)@.contains_key(key@),
            },
            old(self)@.contains_key(key@) ==> final(self).key_seq() == old(self).key_seq(),
            !old(self)@.contains_key(key@) ==> final(self).key_seq() == old(self).key_seq().push(
                key@,
            ),
    {
        proof {
            use_type_invariant(&*self);
            lemma_entries_map(self.pairs());
        }
        let ghost old_pairs = self.pairs();
        match self.index_of(key.as_str()) {
            Some(i) => {
                let mut entries: Vec<(String, V)> = Vec::new();
                std::mem::swap(&mut entries, &mut self.entries);
                let (k_old, v_old) = entries.remove(i);
                entries.insert(i, (key, value));
                let ghost new_pairs = entries@.map_values(|e: (String, V)| (e.0@, e.1));
                assert(new_pairs =~= old_pairs.update(i as int, (key@, value)));
                proof {
                    assert(keys_distinct(new_pairs));
                    lemma_entries_map(new_pairs);
                    let nm = entries_map(new_pairs);
                    let om = entries_map(old_pairs).insert(key@, value);
                    assert forall|k: Seq<char>| nm.contains_key(k) <==> om.contains_key(k) by {
                        if nm.contains_key(k) {
                            let j = choose|j: int| 0 <= j < new_pairs.len() && #[trigger] new_pairs[j].0 == k;
                            if j != i {
                                assert(old_pairs[j].0 == k);
                            }
                        }
                        if k == key@ {
                            assert(new_pairs[i as int].0 == k);
                        }
                        if om.contains_key(k) && k != key@ {
                            let j = choose|j: int| 0 <= j < old_pairs.len() && #[trigger] old_pairs[j].0 == k;
                            assert(new_pairs[j].0 == k);
                        }
                    }
                    assert forall|k: Seq<char>| nm.contains_key(k) implies nm[k] == om[k] by {
                        let j = choose|j: int| 0 <= j < new_pairs.len() && #[trigger] new_pairs[j].0 == k;
                        if j != i {
                            assert(old_pairs[j].0 == k);
                            assert(entries_map(old_pairs)[old_pairs[j].0] == old_pairs[j].1);
                        }
                    }
                    assert(nm =~= om);
                    assert(new_pairs.map_values(|e: (Seq<char>, V)| e.0) =~= old_pairs.map_values(
                        |e: (Seq<char>, V)| e.0,
                    ));
                }
                self.entries = entries;
                Some(v_old)
            },
            None => {
                let ghost k = key@;
                let mut entries: Vec<(String, V)> = Vec::new();
                std::mem::swap(&mut entries, &mut self.entries);
                entries.push((key, value));
                let ghost new_pairs = entries@.map_values(|e: (String, V)| (e.0@, e.1));
                assert(new_pairs =~= old_pairs.push((k, value)));
                assert(new_pairs.drop_last() =~= old_pairs);
                assert(new_pairs.map_values(|e: (Seq<char>, V)| e.0) =~= old_pairs.map_values(
                    |e: (Seq<char>, V)| e.0,
                ).push(k));
                self.entries = entries;
                None
            },
        }
    }
}

impl<V: Copy> StringMap<V> {
    /// An exact copy, for maps of plain values.
    pub fn copied(&self) -> (c: Self)
        ensures
            c.pairs() == self.pairs(),
            c@ == self@,
    {
        proof {
            use_type_invariant(self);
        }
        let mut entries: Vec<(String, V)> = Vec::new();
        let mut i: usize = 0;
        while i < self.entries.len()
            invariant
                i <= self.entries.len(),
                self.pairs().len() == self.entries.len(),
                entries@.map_values(|e: (String, V)| (e.0@, e.1)) == self.pairs().take(i as int),
            decreases self.entries.len() - i,
        {
            let k = self.entries[i].0.clone();
            let v = self.entries[i].1;
            let ghost before = entries@;
            entries.push((k, v));
            assert(entries@.map_values(|e: (String, V)| (e.0@, e.1)) =~= before.map_values(
                |e: (String, V)| (e.0@, e.1),
            ).push(self.pairs()[i as int]));
            assert(self.pairs().take(i + 1) =~= self.pairs().take(i as int).push(
                self.pairs()[i as int],
            ));
            i += 1;
        }
        assert(self.pairs().take(self.entries.len() as int) =~= self.pairs());
        StringMap { entries }
    }
}

impl<V: Clone> Clone for StringMap<V> {
    /// A copy with the same keys in the same order; each value is a clone of
    /// the value it copies.
    fn clone(&self) -> (c: Self)
        ensures
            c.key_seq() == self.key_seq(),
            forall|j: int|
                0 <= j < c.pairs().len() ==> cloned::<V>(self.pairs()[j].1, #[trigger] c.pairs()[j].1),
    {
        proof {
            use_type_invariant(self);
        }
        let mut entries: Vec<(String, V)> = Vec::new();
        let mut i: usize = 0;
        while i < self.entries.len()
            invariant
                i <= self.entries.len(),
                keys_distinct(self.pairs()),
                self.pairs().len() == self.entries.len(),
                entries@.len() == i,
                forall|j: int| 0 <= j < i ==> #[trigger] entries@[j].0@ == self.pairs()[j].0,
                forall|j: int| 0 <= j < i ==> cloned::<V>(self.pairs()[j].1, #[trigger] entries@[j].1),
            decreases self.entries.len() - i,
        {
            let k = self.entries[i].0.clone();
            let v = self.entries[i].1.clone();
            assert(self.pairs()[i as int].1 == self.entries@[i as int].1);
            entries.push((k, v));
            i += 1;
        }
        let c = StringMap { entries };
        assert(c.key_seq() =~= self.key_seq());
        c
    }
}

impl<V> View for StringMap<V> {
    type V = Map<Seq<char>, V>;

    closed spec fn view(&self) -> Map<Seq<char>, V> {
        entries_map(self.pairs())
    }
}

/// What a map holds, by its entries: a key is in it exactly when some entry
/// has that key, and each entry's key maps to that entry's value.
pub proof fn lemma_view_by_entries<V>(m: StringMap<V>)
    requires
        keys_distinct(m.pairs()),
    ensures
        forall|k: Seq<char>|
            m@.contains_key(k) <==> exists|i: int|
                0 <= i < m.pairs().len() && #[trigger] m.pairs()[i].0 == k,
        forall|i: int| 0 <= i < m.pairs().len() ==> #[trigger] m@[m.pairs()[i].0] == m.pairs()[i].1,
{
    lemma_entries_map(m.pairs());
}

/// What the map of distinct entries holds.
pub proof fn lemma_entries_map<V>(entries: Seq<(Seq<char>, V)>)
    requires
        keys_distinct(entries),
    ensures
        forall|k: Seq<char>|
            entries_map(entries).contains_key(k) <==> exists|i: int|
                0 <= i < entries.len() && #[trigger] entries[i].0 == k,
        forall|i: int|
            0 <= i < entries.len() ==> #[trigger] entries_map(entries)[entries[i].0]
                == entries[i].1,
        entries_map(entries).dom().finite(),
    decreases entries.len(),
{
    if entries.len() > 0 {
        let init = entries.drop_last();
        assert(keys_distinct(init)) by {
            assert forall|i: int, j: int|
                0 <= i < init.len() && 0 <= j < init.len() && i != j implies #[trigger] init[i].0
                != #[trigger] init[j].0 by {
                assert(init[i] == entries[i] && init[j] == entries[j]);
            }
        }
        lemma_entries_map(init);
        assert forall|k: Seq<char>|
            entries_map(entries).contains_key(k) <==> exists|i: int|
                0 <= i < entries.len() && #[trigger] entries[i].0 == k by {
            if entries_map(entries).contains_key(k) && k != entries.last().0 {
                let i = choose|i: int| 0 <= i < init.len() && #[trigger] init[i].0 == k;
                assert(entries[i].0 == k);
            }
            if exists|i: int| 0 <= i < entries.len() && #[trigger] entries[i].0 == k {
                let i = choose|i: int| 0 <= i < entries.len() && #[trigger] entries[i].0 == k;
                if i < entries.len() - 1 {
                    assert(init[i].0 == k);
                }
            }
        }
        assert forall|i: int| 0 <= i < entries.len() implies #[trigger] entries_map(
            entries,
        )[entries[i].0] == entries[i].1 by {
            if i < entries.len() - 1 {
                assert(init[i] == entries[i]);
                assert(entries[i].0 != entries[entries.len() - 1].0);
            }
        }
    }
}

/// Every entry of `small` is in `big` with an equal value, equality being
/// that of the values' type.
pub open spec fn submap_by_eq<V: PartialEq>(big: Map<Seq<char>, V>, small: Map<Seq<char>, V>) -> bool {
    forall|k: Seq<char>|
        #[trigger] small.contains_key(k) ==> big.contains_key(k) && equal_by_eq(big[k], small[k])
}

/// Whether every entry of `small` is present in `big` with an equal value.
pub fn hashmap_contains<V: PartialEq>(big: &StringMap<V>, small: &StringMap<V>) -> (r: bool)
    ensures
        obeys_eq::<V>() ==> r == submap_by_eq(big@, small@),
{
    proof {
        use_type_invariant(small);
        use_type_invariant(big);
        lemma_entries_map(small.pairs());
        lemma_entries_map(big.pairs());
    }
    let mut i: usize = 0;
    while i < small.len()
        invariant
            i <= small.pairs().len(),
            obeys_eq::<V>() ==> forall|j: int|
                0 <= j < i ==> big@.contains_key(#[trigger] small.pairs()[j].0) && equal_by_eq(big@[small.pairs()[j].0], small.pairs()[j].1),
        decreases small.pairs().len() - i,
    {
        let key = small.key_at(i);
        let value = small.value_at(i);
        match big.get(key.as_str()) {
            Some(b) => {
                if !(*b == *value) {
                    proof {
                        assert(small@[small.pairs()[i as int].0] == small.pairs()[i as int].1);
                        assert(small@.contains_key(small.pairs()[i as int].0));
                    }
                    return false;
                }
            },
            None => {
                assert(small@.contains_key(small.pairs()[i as int].0));
                return false;
            },
        }
        i += 1;
    }
    proof {
        assert forall|k: Seq<char>| #[trigger] small@.contains_key(k) && obeys_eq::<V>() implies big@.contains_key(k)
            && equal_by_eq(big@[k], small@[k]) by {
            let j = choose|j: int| 0 <= j < small.pairs().len() && #[trigger] small.pairs()[j].0 == k;
            assert(small@[small.pairs()[j].0] == small.pairs()[j].1);
        }
    }
    true
}

/// For a value type whose `==` is an equivalence, what `hashmap_contains`
/// decides is a preorder: every map contains itself, and a map that contains
/// a second one contains every map the second contains.
pub proof fn law_submap_preorder<V: PartialEq>(
    a: Map<Seq<char>, V>,
    b: Map<Seq<char>, V>,
    c: Map<Seq<char>, V>,
)
    requires
        forall|x: V| #[trigger] equal_by_eq(x, x),
        forall|x: V, y: V, z: V|
            #[trigger] equal_by_eq(x, y) && #[trigger] equal_by_eq(y, z) ==> equal_by_eq(x, z),
    ensures
        submap_by_eq(a, a),
        submap_by_eq(a, b) && submap_by_eq(b, c) ==> submap_by_eq(a, c),
{
    if submap_by_eq(a, b) && submap_by_eq(b, c) {
        assert forall|k: Seq<char>| #[trigger] c.contains_key(k) implies a.contains_key(k)
            && equal_by_eq(a[k], c[k]) by {
            assert(b.contains_key(k) && equal_by_eq(b[k], c[k]));
            assert(a.contains_key(k) && equal_by_eq(a[k], b[k]));
        }
    }
}

/// For a value type whose `==` is equality, two maps that contain each other
/// are the same map.
pub proof fn law_submap_antisymmetric<V: PartialEq>(a: Map<Seq<char>, V>, b: Map<Seq<char>, V>)
    requires
        forall|x: V, y: V| #[trigger] equal_by_eq(x, y) ==> x == y,
        submap_by_eq(a, b),
        submap_by_eq(b, a),
    ensures
        a == b,
{
    assert forall|k: Seq<char>| #[trigger] a.contains_key(k) implies b.contains_key(k) && a[k] == b[k] by {
        assert(b.contains_key(k) && equal_by_eq(b[k], a[k]));
    }
    assert(a =~= b);
}

} // verus!
