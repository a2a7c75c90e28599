use vstd::prelude::*;

use crate::text::{
    lemma_text_before_irreflexive, lemma_text_before_total, lemma_text_before_transitive,
    precedes, text_before,
};

verus! {

/// No two entries of `s` have the same key.
pub open spec fn distinct_keys<V>(s: Seq<(String, V)>) -> bool {
    forall|i: int, j: int|
        0 <= i < s.len() && 0 <= j < s.len() && i != j ==> #[trigger] s[i].0@ != #[trigger] s[j].0@
}

/// The keys of `s` increase in the order of `str`.
pub open spec fn sorted_keys<V>(s: Seq<(String, V)>) -> bool {
    forall|i: int, j: int| 0 <= i < j < s.len() ==> text_before(#[trigger] s[i].0@, #[trigger] s[j].0@)
}

/// A finite map keyed by strings.
///
/// Entries are kept in increasing key order (the order of `str`), so no key
/// occurs twice. Its abstract value is a `Map` from the keys' character
/// sequences to the values.
#[derive(Debug, PartialEq, Eq)]
pub struct StringMap<V> {
    entries: Vec<(String, V)>,
}

impl<V> StringMap<V> {
    /// The key stored at position `i`.
    pub closed spec fn key_at(self, i: int) -> Seq<char> {
        self.entries@[i].0@
    }

    /// The value stored at position `i`.
    pub closed spec fn value_at(self, i: int) -> V {
        self.entries@[i].1
    }

    pub closed spec fn entry_count(self) -> nat {
        self.entries@.len()
    }

    /// No key occurs twice, and the keys increase.
    #[verifier::type_invariant]
    closed spec fn keys_distinct(self) -> bool {
        distinct_keys(self.entries@) && sorted_keys(self.entries@)
    }

    closed spec fn holds_key(self, k: Seq<char>) -> bool {
        exists|i: int| 0 <= i < self.entries@.len() && #[trigger] self.key_at(i) == k
    }

    closed spec fn position_of(self, k: Seq<char>) -> int {
        choose|i: int| 0 <= i < self.entries@.len() && #[trigger] self.key_at(i) == k
    }

    /// The abstract value of a map whose entries are `self.entries`.
    closed spec fn as_map(self) -> Map<Seq<char>, V> {
        Map::new(|k: Seq<char>| self.holds_key(k), |k: Seq<char>| self.value_at(self.position_of(k)))
    }

    proof fn lemma_entry_in_view(self, i: int)
        requires
            self.keys_distinct(),
            0 <= i < self.entries@.len(),
        ensures
            self.as_map().contains_key(self.key_at(i)),
            self.as_map()[self.key_at(i)] == self.value_at(i),
    {
        let k = self.key_at(i);
        assert(self.holds_key(k));
        let j = self.position_of(k);
        assert(self.key_at(j) == k);
    }

    proof fn lemma_absent_from_view(self, k: Seq<char>)
        requires
            forall|i: int| 0 <= i < self.entries@.len() ==> #[trigger] self.key_at(i) != k,
        ensures
            !self.as_map().contains_key(k),
    {
    }

    /// The entries, in increasing key order; each key occurs once.
    pub fn entries(&self) -> (r: &Vec<(String, V)>)
        ensures
            r@.len() == self@.dom().len(),
            forall|i: int|
                0 <= i < r@.len() ==> self@.contains_key(#[trigger] r@[i].0@) && self@[r@[i].0@]
                    == r@[i].1,
            forall|k: Seq<char>|
                #[trigger] self@.contains_key(k) ==> exists|i: int| 0 <= i < r@.len() && r@[i].0@ == k,
            distinct_keys(r@),
            sorted_keys(r@),
    {
        proof {
            use_type_invariant(self);
            assert forall|i: int| 0 <= i < self.entries@.len() implies self@.contains_key(
                #[trigger] self.entries@[i].0@,
            ) && self@[self.entries@[i].0@] == self.entries@[i].1 by {
                self.lemma_entry_in_view(i);
            }
            assert forall|k: Seq<char>| #[trigger] self@.contains_key(k) implies exists|i: int|
                0 <= i < self.entries@.len() && self.entries@[i].0@ == k by {
                let i = self.position_of(k);
                assert(self.key_at(i) == k);
            }
            self.lemma_dom_len();
        }
        &self.entries
    }

    proof fn lemma_dom_len(self)
        requires
            self.keys_distinct(),
        ensures
            self.as_map().dom().len() == self.entries@.len(),
            self.as_map().dom().finite(),
    {
        let keys = self.entries@.map_values(|e: (String, V)| e.0@);
        assert forall|a: int, b: int| 0 <= a < keys.len() && 0 <= b < keys.len() && a != b implies keys[a]
            != keys[b] by {
            assert(self.key_at(a) != self.key_at(b));
        }
        assert(keys.no_duplicates());
        assert forall|k: Seq<char>| #[trigger] self.as_map().dom().contains(k) == keys.to_set().contains(k) by {
            if self.as_map().dom().contains(k) {
                let i = self.position_of(k);
                assert(self.key_at(i) == k);
                assert(keys[i] == k);
            }
            if keys.to_set().contains(k) {
                let i = choose|i: int| 0 <= i < keys.len() && keys[i] == k;
                assert(self.key_at(i) == k);
            }
        }
        assert(self.as_map().dom() =~= keys.to_set());
        keys.unique_seq_to_set();
    }

    /// An empty map.
    pub fn new() -> (m: Self)
        ensures
            m@ == Map::<Seq<char>, V>::empty(),
    {
        let m = StringMap { entries: Vec::new() };
        assert(m.as_map() =~= Map::<Seq<char>, V>::empty());
        m
    }

    /// Whether the map holds no entry.
    pub fn is_empty(&self) -> (r: bool)
        ensures
            r == (self@ == Map::<Seq<char>, V>::empty()),
    {
        proof {
            use_type_invariant(self);
        }
        let r = self.entries.len() == 0;
        if r {
            assert(self.as_map() =~= Map::<Seq<char>, V>::empty());
        } else {
            proof {
                self.lemma_entry_in_view(0);
            }
            assert(self@.contains_key(self.key_at(0)));
        }
        r
    }

    /// Position of the entry whose key is `key`, if there is one.
    fn find(&self, key: &String) -> (r: Option<usize>)
        ensures
            match r {
                Some(i) => i < self.entry_count() && self.key_at(i as int) == key@,
                None => forall|i: int| 0 <= i < self.entry_count() ==> #[trigger] self.key_at(i) != key@,
            },
    {
        let n = self.entries.len();
        let mut i: usize = 0;
        while i < n
            invariant
                n == self.entries@.len(),
                i <= n,
                forall|j: int| 0 <= j < i ==> #[trigger] self.key_at(j) != key@,
            decreases n - i,
        {
            if self.entries[i].0 == *key {
                return Some(i);
            }
            i = i + 1;
        }
        None
    }

    /// The value stored under `key`, if any.
    pub fn get(&self, key: &str) -> (r: Option<&V>)
        ensures
            match r {
                Some(v) => self@.contains_key(key@) && *v == self@[key@],
                None => !self@.contains_key(key@),
            },
    {
        proof {
            use_type_invariant(self);
        }
        let k = key.to_string();
        match self.find(&k) {
            Some(i) => {
                proof {
                    self.lemma_entry_in_view(i as int);
                }
                Some(&self.entries[i].1)
            },
            None => {
                proof {
                    self.lemma_absent_from_view(key@);
                }
                None
            },
        }
    }

    /// Whether `key` has an entry.
    pub fn contains_key(&self, key: &str) -> (r: bool)
        ensures
            r == self@.contains_key(key@),
    {
        self.get(key).is_some()
    }

    /// The first position whose key does not come before `key`.
    fn position_for(&self, key: &str) -> (p: usize)
        ensures
            p <= self.entry_count(),
            forall|j: int| 0 <= j < p ==> text_before(#[trigger] self.key_at(j), key@),
            p < self.entry_count() ==> !text_before(self.key_at(p as int), key@),
    {
        let n = self.entries.len();
        let mut i: usize = 0;
        while i < n
            invariant
                n == self.entries@.len(),
                i <= n,
                forall|j: int| 0 <= j < i ==> text_before(#[trigger] self.key_at(j), key@),
            decreases n - i,
        {
            if !precedes(self.entries[i].0.as_str(), key) {
                return i;
            }
            i = i + 1;
        }
        n
    }

    /// Stores `value` under `key` and returns the value that was stored there before.
    pub fn insert(&mut self, key: String, value: V) -> (r: Option<V>)
        ensures
            final(self)@ == old(self)@.insert(key@, value),
            r == (if old(self)@.contains_key(key@) {
                Some(old(self)@[key@])
            } else {
                None::<V>
            }),
    {
        proof {
            use_type_invariant(&*self);
        }
        let ghost before = *self;
        let p = self.position_for(key.as_str());
        let present = p < self.entries.len() && self.entries[p].0 == key;
        let mut entries: Vec<(String, V)> = Vec::new();
        std::mem::swap(&mut entries, &mut self.entries);
        assert(entries@ == before.entries@);
        if present {
            proof {
                before.lemma_entry_in_view(p as int);
            }
            let (_, previous) = entries.remove(p);
            entries.insert(p, (key, value));
            assert(entries@ == before.entries@.update(p as int, (key, value)));
            assert forall|a: int, b: int|
                0 <= a < entries@.len() && 0 <= b < entries@.len() && a != b
                    implies #[trigger] entries@[a].0@ != #[trigger] entries@[b].0@ by {
                assert(before.entries@[a].0@ != before.entries@[b].0@);
            }
            assert forall|a: int, b: int| 0 <= a < b < entries@.len() implies text_before(
                #[trigger] entries@[a].0@,
                #[trigger] entries@[b].0@,
            ) by {
                assert(text_before(before.entries@[a].0@, before.entries@[b].0@));
            }
            let after = StringMap { entries };
            proof {
                assert forall|k: Seq<char>|
                    #![trigger after.as_map().contains_key(k)]
                    #![trigger before.as_map().insert(key@, value).contains_key(k)]
                    after.as_map().contains_key(k) == before.as_map().insert(
                        key@,
                        value,
                    ).contains_key(k) by {
                    if k == key@ {
                        after.lemma_entry_in_view(p as int);
                    } else if before.as_map().contains_key(k) {
                        let j = before.position_of(k);
                        assert(before.key_at(j) == k);
                        after.lemma_entry_in_view(j);
                    } else if after.as_map().contains_key(k) {
                        let j = after.position_of(k);
                        assert(after.key_at(j) == k);
                        assert(before.key_at(j) == k);
                    }
                }
                assert forall|k: Seq<char>| after.as_map().contains_key(k) implies #[trigger] after.as_map()[k]
                    == before.as_map().insert(key@, value)[k] by {
                    let j = after.position_of(k);
                    assert(after.key_at(j) == k);
                    after.lemma_entry_in_view(j);
                    if j != p {
                        before.lemma_entry_in_view(j);
                    }
                }
                assert(after.as_map() =~= before.as_map().insert(key@, value));
            }
            *self = after;
            Some(previous)
        } else {
            let ghost n = entries@.len();
            proof {
                if p < n {
                    lemma_text_before_total(before.key_at(p as int), key@);
                }
                assert forall|j: int| p <= j < n implies text_before(key@, #[trigger] before.key_at(j)) by {
                    if j > p {
                        assert(text_before(before.entries@[p as int].0@, before.entries@[j].0@));
                        lemma_text_before_transitive(key@, before.key_at(p as int), before.key_at(j));
                    }
                }
                assert forall|j: int| 0 <= j < n implies #[trigger] before.key_at(j) != key@ by {
                    if before.key_at(j) == key@ {
                        lemma_text_before_irreflexive(key@);
                    }
                }
                before.lemma_absent_from_view(key@);
            }
            entries.insert(p, (key, value));
            let ghost e = entries@;
            assert(e == before.entries@.insert(p as int, (key, value)));
            assert forall|a: int| 0 <= a < e.len() implies #[trigger] e[a] == if a < p {
                before.entries@[a]
            } else if a == p {
                (key, value)
            } else {
                before.entries@[a - 1]
            } by {}
            assert forall|a: int, b: int|
                0 <= a < e.len() && 0 <= b < e.len() && a != b
                    implies #[trigger] e[a].0@ != #[trigger] e[b].0@ by {
                if a != p && b != p {
                    let a0 = if a < p { a } else { a - 1 };
                    let b0 = if b < p { b } else { b - 1 };
                    assert(before.entries@[a0].0@ != before.entries@[b0].0@);
                } else if a == p {
                    let b0 = if b < p { b } else { b - 1 };
                    assert(before.key_at(b0) != key@);
                } else {
                    let a0 = if a < p { a } else { a - 1 };
                    assert(before.key_at(a0) != key@);
                }
            }
            assert forall|a: int, b: int| 0 <= a < b < e.len() implies text_before(
                #[trigger] e[a].0@,
                #[trigger] e[b].0@,
            ) by {
                if a != p && b != p {
                    let a0 = if a < p { a } else { a - 1 };
                    let b0 = if b < p { b } else { b - 1 };
                    assert(text_before(before.entries@[a0].0@, before.entries@[b0].0@));
                } else if a == p {
                    assert(text_before(key@, before.key_at(b - 1)));
                } else {
                    assert(text_before(before.key_at(a), key@));
                }
            }
            let after = StringMap { entries };
            proof {
                assert forall|k: Seq<char>|
                    #![trigger after.as_map().contains_key(k)]
                    #![trigger before.as_map().insert(key@, value).contains_key(k)]
                    after.as_map().contains_key(k) == before.as_map().insert(
                        key@,
                        value,
                    ).contains_key(k) by {
                    if k == key@ {
                        after.lemma_entry_in_view(p as int);
                    } else if before.as_map().contains_key(k) {
                        let j = before.position_of(k);
                        assert(before.key_at(j) == k);
                        if j < p {
                            after.lemma_entry_in_view(j);
                        } else {
                            assert(after.key_at(j + 1) == k);
                            after.lemma_entry_in_view(j + 1);
                        }
                    } else if after.as_map().contains_key(k) {
                        let j = after.position_of(k);
                        assert(after.key_at(j) == k);
                        if j < p {
                            assert(before.key_at(j) == k);
                        } else if j > p {
                            assert(before.key_at(j - 1) == k);
                        }
                    }
                }
                assert forall|k: Seq<char>| after.as_map().contains_key(k) implies #[trigger] after.as_map()[k]
                    == before.as_map().insert(key@, value)[k] by {
                    let j = after.position_of(k);
                    assert(after.key_at(j) == k);
                    after.lemma_entry_in_view(j);
                    if j < p {
                        before.lemma_entry_in_view(j);
                    } else if j > p {
                        assert(before.key_at(j - 1) == k);
                        before.lemma_entry_in_view(j - 1);
                    }
                }
                assert(after.as_map() =~= before.as_map().insert(key@, value));
            }
            *self = after;
            None
        }
    }
}

impl<V> View for StringMap<V> {
    type V = Map<Seq<char>, V>;

    closed spec fn view(&self) -> Map<Seq<char>, V> {
        self.as_map()
    }
}

impl<V: Clone> Clone for StringMap<V> {
    /// A copy holding the same keys, each value cloned.
    fn clone(&self) -> (r: Self)
        ensures
            r@.dom() == self@.dom(),
            forall|k: Seq<char>| #[trigger] r@.contains_key(k) ==> cloned(self@[k], r@[k]),
    {
        proof {
            use_type_invariant(self);
        }
        let n = self.entries.len();
        let mut out: Vec<(String, V)> = Vec::new();
        let mut i: usize = 0;
        while i < n
            invariant
                n == self.entries@.len(),
                i <= n,
                out@.len() == i,
                distinct_keys(self.entries@),
                forall|j: int| 0 <= j < i ==> #[trigger] out@[j].0@ == self.entries@[j].0@,
                forall|j: int| 0 <= j < i ==> cloned(self.entries@[j].1, #[trigger] out@[j].1),
            decreases n - i,
        {
            let k = self.entries[i].0.clone();
            let v = self.entries[i].1.clone();
            out.push((k, v));
            i = i + 1;
        }
        assert forall|a: int, b: int|
            0 <= a < out@.len() && 0 <= b < out@.len() && a != b
                implies #[trigger] out@[a].0@ != #[trigger] out@[b].0@ by {
            assert(self.entries@[a].0@ != self.entries@[b].0@);
        }
        assert forall|a: int, b: int| 0 <= a < b < out@.len() implies text_before(
            #[trigger] out@[a].0@,
            #[trigger] out@[b].0@,
        ) by {
            assert(text_before(self.entries@[a].0@, self.entries@[b].0@));
        }
        let r = StringMap { entries: out };
        proof {
            assert forall|k: Seq<char>| r.as_map().contains_key(k) == self.as_map().contains_key(k) by {
                if r.as_map().contains_key(k) {
                    let j = r.position_of(k);
                    assert(r.key_at(j) == k);
                    assert(self.key_at(j) == k);
                }
                if self.as_map().contains_key(k) {
                    let j = self.position_of(k);
                    assert(self.key_at(j) == k);
                    assert(r.key_at(j) == k);
                }
            }
            assert(r.as_map().dom() =~= self.as_map().dom());
            assert forall|k: Seq<char>| #[trigger] r.as_map().contains_key(k) implies cloned(
                self.as_map()[k],
                r.as_map()[k],
            ) by {
                let j = r.position_of(k);
                assert(r.key_at(j) == k);
                r.lemma_entry_in_view(j);
                self.lemma_entry_in_view(j);
            }
        }
        r
    }
}

} // verus!
