//! A map from texts to values.

use vstd::prelude::*;

use crate::text::same;

verus! {

/// A map whose keys are texts.
#[derive(Debug, PartialEq, Eq)]
pub struct TextMap<V> {
    entries: Vec<(String, V)>,
}

impl<V> TextMap<V> {
    /// No key occurs twice.
    #[verifier::type_invariant]
    spec fn wf(self) -> bool {
        distinct(self.entries@)
    }

    /// The keys, in the order in which they came.
    pub closed spec fn keys(self) -> Seq<Seq<char>> {
        self.entries@.map_values(|e: (String, V)| e.0@)
    }

    /// The values, each at the index of its key.
    pub closed spec fn values(self) -> Seq<V> {
        self.entries@.map_values(|e: (String, V)| e.1)
    }
}

impl<V> View for TextMap<V> {
    type V = Map<Seq<char>, V>;

    open spec fn view(&self) -> Map<Seq<char>, V> {
        Map::new(
            |key: Seq<char>| self.keys().contains(key),
            |key: Seq<char>| self.values()[self.keys().index_of(key)],
        )
    }
}

/// The text that `m` holds under `key`.
pub open spec fn setting(m: Map<Seq<char>, String>, key: Seq<char>) -> Option<Seq<char>> {
    if m.contains_key(key) {
        Some(m[key]@)
    } else {
        None
    }
}

/// The texts by their keys.
pub open spec fn texts_of(m: Map<Seq<char>, String>) -> Map<Seq<char>, Seq<char>> {
    m.map_values(|s: String| s@)
}

spec fn distinct<V>(entries: Seq<(String, V)>) -> bool {
    forall|i: int, j: int|
        0 <= i < j < entries.len() ==> (#[trigger] entries[i]).0@ != (#[trigger] entries[j]).0@
}

impl<V> TextMap<V> {
    /// The empty map.
    pub fn new() -> (m: Self)
        ensures
            m@ == Map::<Seq<char>, V>::empty(),
    {
        let m = TextMap { entries: Vec::new() };
        assert(m@ =~= Map::<Seq<char>, V>::empty());
        m
    }

    /// The number of keys.
    pub fn len(&self) -> (n: usize)
        ensures
            n == self.keys().len(),
            n == self.values().len(),
    {
        self.entries.len()
    }

    /// The key at index `i` and its value.
    pub fn entry(&self, i: usize) -> (r: (&str, &V))
        requires
            i < self.keys().len(),
        ensures
            r.0@ == self.keys()[i as int],
            *r.1 == self.values()[i as int],
            self@.contains_key(r.0@),
            self@[r.0@] == *r.1,
    {
        proof {
            use_type_invariant(self);
            self.lemma_at(i as int);
        }
        (self.entries[i].0.as_str(), &self.entries[i].1)
    }

    /// The value of `key`, if it has one.
    pub fn get(&self, key: &str) -> (r: Option<&V>)
        ensures
            match r {
                Some(v) => self@.contains_key(key@) && self@[key@] == *v,
                None => !self@.contains_key(key@),
            },
    {
        match self.position(key) {
            Some(i) => {
                proof {
                    use_type_invariant(self);
                    self.lemma_at(i as int);
                }
                Some(&self.entries[i].1)
            },
            None => None,
        }
    }

    fn position(&self, key: &str) -> (r: Option<usize>)
        ensures
            match r {
                Some(i) => i < self.entries@.len() && self.entries@[i as int].0@ == key@,
                None => !self.keys().contains(key@),
            },
    {
        let mut i: usize = 0;
        while i < self.entries.len()
            invariant
                i <= self.entries@.len(),
                forall|j: int| 0 <= j < i ==> (#[trigger] self.entries@[j]).0@ != key@,
            decreases self.entries@.len() - i,
        {
            if same(self.entries[i].0.as_str(), key) {
                return Some(i);
            }
            i = i + 1;
        }
        proof {
            if self.keys().contains(key@) {
                let j = self.keys().index_of(key@);
                assert(self.entries@[j].0@ == key@);
            }
        }
        None
    }

    proof fn lemma_at(self, i: int)
        requires
            distinct(self.entries@),
            0 <= i < self.entries@.len(),
        ensures
            self@.contains_key(self.entries@[i].0@),
            self@[self.entries@[i].0@] == self.entries@[i].1,
    {
        let key = self.entries@[i].0@;
        assert(self.keys()[i] == key);
        let j = self.keys().index_of(key);
        assert(self.entries@[j].0@ == key);
        assert(i == j);
        assert(self.values()[i] == self.entries@[i].1);
    }

    /// Gives `key` the value `value`, in place of the one that it may have had.
    pub fn insert(&mut self, key: String, value: V)
        ensures
            final(self)@ == old(self)@.insert(key@, value),
    {
        proof {
            use_type_invariant(&*self);
        }
        let ghost before = *self;
        let at = self.position(key.as_str());
        let mut entries: Vec<(String, V)> = Vec::new();
        std::mem::swap(&mut entries, &mut self.entries);
        let ghost k = key@;
        match at {
            Some(i) => {
                entries.set(i, (key, value));
            },
            None => {
                proof {
                    assert forall|j: int| 0 <= j < entries@.len() implies (#[trigger] entries@[j]).0@
                        != k by {
                        assert(before.keys()[j] == entries@[j].0@);
                    }
                }
                entries.push((key, value));
            },
        }
        let ghost index: int = match at {
            Some(i) => i as int,
            None => entries@.len() - 1,
        };
        assert(distinct(entries@));
        self.entries = entries;
        proof {
            let after = *self;
            after.lemma_at(index);
            assert forall|other: Seq<char>| #[trigger]
                after@.contains_key(other) <==> before@.insert(k, value).contains_key(other) by {
                if before@.contains_key(other) && other != k {
                    let j = before.keys().index_of(other);
                    assert(after.entries@[j].0@ == other);
                    after.lemma_at(j);
                }
                if after@.contains_key(other) && other != k {
                    let j = after.keys().index_of(other);
                    assert(before.entries@[j].0@ == other);
                    before.lemma_at(j);
                }
            }
            assert forall|other: Seq<char>| #[trigger] after@.contains_key(other) implies after@[other]
                == before@.insert(k, value)[other] by {
                if other != k {
                    let j = after.keys().index_of(other);
                    assert(before.entries@[j].0@ == other);
                    before.lemma_at(j);
                    after.lemma_at(j);
                }
            }
            assert(after@ =~= before@.insert(k, value));
        }
    }
}

} // verus!
