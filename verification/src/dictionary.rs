//! A small map keyed by text. It keeps its entries in a vector, in the order
//! in which their keys first arrived, and never holds a key twice.
//!
//! vstd specifies `HashMap` only for key types whose hashing it models, and
//! `String` is not among them, so nothing could be proved of a hash map with
//! text keys. A list with distinct keys can be reasoned about in full.

use vstd::prelude::*;

verus! {

/// A finite map from text to `V`, viewed as `Map<Seq<char>, V>`.
#[derive(Debug)]
pub struct StringMap<V> {
    entries: Vec<(String, V)>,
}

/// No key occurs at two places of `entries`.
pub open spec fn distinct_keys<V>(entries: Seq<(String, V)>) -> bool {
    forall|i: int, j: int|
        0 <= i < j < entries.len() ==> (#[trigger] entries[i]).0@ != (#[trigger] entries[j]).0@
}

/// `key` is the key of the entry at index `i`.
pub open spec fn key_at<V>(entries: Seq<(String, V)>, key: Seq<char>, i: int) -> bool {
    0 <= i < entries.len() && entries[i].0@ == key
}

/// The map that a duplicate-free list of entries stands for.
pub open spec fn map_of<V>(entries: Seq<(String, V)>) -> Map<Seq<char>, V> {
    Map::new(
        |key: Seq<char>| exists|i: int| key_at(entries, key, i),
        |key: Seq<char>| entries[choose|i: int| key_at(entries, key, i)].1,
    )
}

/// A map of strings, with each value taken by its view.
pub open spec fn text_values(m: Map<Seq<char>, String>) -> Map<Seq<char>, Seq<char>> {
    m.map_values(|value: String| value@)
}

/// A table of machine counts, read as a table of natural numbers.
pub open spec fn counts(m: Map<Seq<char>, usize>) -> Map<Seq<char>, nat> {
    m.map_values(|n: usize| n as nat)
}

/// Storing a string in a map of strings stores its view in the map of views.
pub proof fn lemma_text_values_insert(m: Map<Seq<char>, String>, key: Seq<char>, value: String)
    ensures
        text_values(m.insert(key, value)) == text_values(m).insert(key, value@),
{
    assert(text_values(m.insert(key, value)) =~= text_values(m).insert(key, value@));
}

impl<V> View for StringMap<V> {
    type V = Map<Seq<char>, V>;

    open spec fn view(&self) -> Map<Seq<char>, V> {
        map_of(self.pairs())
    }
}

impl<V> StringMap<V> {
    #[verifier::type_invariant]
    spec fn well_formed(&self) -> bool {
        distinct_keys(self.entries@)
    }

    /// The entries, in the order in which their keys were first inserted.
    pub closed spec fn pairs(&self) -> Seq<(String, V)> {
        self.entries@
    }

    /// The empty map.
    pub fn new() -> (m: Self)
        ensures
            m@ == Map::<Seq<char>, V>::empty(),
            m.pairs().len() == 0,
    {
        let m = StringMap { entries: Vec::new() };
        proof {
            assert(m@ =~= Map::<Seq<char>, V>::empty());
        }
        m
    }

    /// The index of the entry that holds `key`, if there is one.
    fn position(&self, key: &String) -> (r: Option<usize>)
        ensures
            match r {
                Some(i) => key_at(self.pairs(), key@, i as int),
                None => forall|i: int| !key_at(self.pairs(), key@, i),
            },
    {
        let mut i: usize = 0;
        while i < self.entries.len()
            invariant
                i <= self.entries.len(),
                forall|j: int| 0 <= j < i ==> !key_at(self.entries@, key@, j),
            decreases self.entries.len() - i,
        {
            if self.entries[i].0 == *key {
                return Some(i);
            }
            i += 1;
        }
        None
    }

    /// Whether the map holds `key`.
    pub fn contains_key(&self, key: &String) -> (r: bool)
        ensures
            r == self@.contains_key(key@),
    {
        self.position(key).is_some()
    }

    /// The value stored under `key`, if the map holds it.
    pub fn get(&self, key: &String) -> (r: Option<&V>)
        ensures
            match r {
                Some(value) => self@.contains_key(key@) && *value == self@[key@],
                None => !self@.contains_key(key@),
            },
    {
        proof {
            use_type_invariant(self);
        }
        match self.position(key) {
            Some(i) => {
                proof {
                    let j = choose|j: int| key_at(self.pairs(), key@, j);
                    assert(key_at(self.pairs(), key@, i as int));
                    assert(j == i);
                }
                Some(&self.entries[i].1)
            },
            None => None,
        }
    }

    /// Stores `value` under `key`, replacing what was stored there before.
    pub fn insert(&mut self, key: String, value: V)
        ensures
            final(self)@ == old(self)@.insert(key@, value),
    {
        let mut taken = StringMap { entries: Vec::new() };
        core::mem::swap(self, &mut taken);
        *self = taken.with_entry(key, value);
    }

    /// The map with `value` stored under `key`.
    fn with_entry(self, key: String, value: V) -> (r: Self)
        ensures
            r@ == self@.insert(key@, value),
    {
        proof {
            use_type_invariant(&self);
        }
        let ghost before = self.entries@;
        let ghost k = key@;
        let found = self.position(&key);
        assert(self.pairs() == before);
        let mut entries = self.entries;
        match found {
            Some(i) => {
                entries.set(i, (key, value));
                proof {
                    let after = entries@;
                    assert(distinct_keys(after)) by {
                        assert forall|a: int, b: int| 0 <= a < b < after.len() implies (
                        #[trigger] after[a]).0@ != (#[trigger] after[b]).0@ by {
                            assert(before[a].0@ != before[b].0@);
                        }
                    }
                    assert forall|q: Seq<char>| #[trigger]
                        map_of(after).contains_key(q) == map_of(before).insert(
                            k,
                            value,
                        ).contains_key(q) by {
                        if map_of(after).contains_key(q) {
                            let j = choose|j: int| key_at(after, q, j);
                            assert(key_at(before, q, j));
                        }
                        if map_of(before).contains_key(q) {
                            let j = choose|j: int| key_at(before, q, j);
                            assert(key_at(after, q, j));
                        }
                        if q == k {
                            assert(key_at(after, q, i as int));
                        }
                    }
                    assert forall|q: Seq<char>| #[trigger]
                        map_of(after).contains_key(q) implies map_of(after)[q] == map_of(
                        before,
                    ).insert(k, value)[q] by {
                        let j = choose|j: int| key_at(after, q, j);
                        if q == k {
                            assert(key_at(after, q, i as int));
                            assert(j == i);
                        } else {
                            assert(key_at(before, q, j));
                            let j2 = choose|j2: int| key_at(before, q, j2);
                            assert(j2 == j);
                        }
                    }
                    assert(map_of(after) =~= map_of(before).insert(k, value));
                }
            },
            None => {
                entries.push((key, value));
                proof {
                    let after = entries@;
                    let n = before.len() as int;
                    assert(distinct_keys(after)) by {
                        assert forall|a: int, b: int| 0 <= a < b < after.len() implies (
                        #[trigger] after[a]).0@ != (#[trigger] after[b]).0@ by {
                            if b < n {
                                assert(before[a].0@ != before[b].0@);
                            } else {
                                assert(!key_at(before, k, a));
                            }
                        }
                    }
                    assert forall|q: Seq<char>| #[trigger]
                        map_of(after).contains_key(q) == map_of(before).insert(
                            k,
                            value,
                        ).contains_key(q) by {
                        if map_of(after).contains_key(q) {
                            let j = choose|j: int| key_at(after, q, j);
                            if j < n {
                                assert(key_at(before, q, j));
                            }
                        }
                        if map_of(before).contains_key(q) {
                            let j = choose|j: int| key_at(before, q, j);
                            assert(key_at(after, q, j));
                        }
                        if q == k {
                            assert(key_at(after, q, n));
                        }
                    }
                    assert forall|q: Seq<char>| #[trigger]
                        map_of(after).contains_key(q) implies map_of(after)[q] == map_of(
                        before,
                    ).insert(k, value)[q] by {
                        let j = choose|j: int| key_at(after, q, j);
                        if q == k {
                            assert(key_at(after, q, n));
                            assert(j == n);
                        } else {
                            assert(key_at(before, q, j));
                            let j2 = choose|j2: int| key_at(before, q, j2);
                            assert(j2 == j);
                        }
                    }
                    assert(map_of(after) =~= map_of(before).insert(k, value));
                }
            },
        }
        StringMap { entries }
    }

    /// The entries of the map: each key once, with the value stored under it.
    pub fn entries(&self) -> (r: &Vec<(String, V)>)
        ensures
            r@ == self.pairs(),
            distinct_keys(r@),
            forall|i: int|
                0 <= i < r@.len() ==> self@.contains_key((#[trigger] r@[i]).0@) && self@[r@[i].0@]
                    == r@[i].1,
            forall|key: Seq<char>|
                self@.contains_key(key) ==> exists|i: int| key_at(r@, key, i),
    {
        proof {
            use_type_invariant(self);
            assert forall|i: int| 0 <= i < self.entries@.len() implies self@.contains_key(
                (#[trigger] self.entries@[i]).0@,
            ) && self@[self.entries@[i].0@] == self.entries@[i].1 by {
                let key = self.entries@[i].0@;
                assert(key_at(self.entries@, key, i));
                let j = choose|j: int| key_at(self.entries@, key, j);
                assert(j == i);
            }
        }
        &self.entries
    }
}

} // verus!
