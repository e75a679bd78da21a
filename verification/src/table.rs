//! A small table keyed by strings: each key at most once.

use vstd::prelude::*;

verus! {

/// A table from strings to values of type `V`.
pub struct Table<V> {
    keys: Vec<String>,
    values: Vec<V>,
}

impl<V> Table<V> {
    /// The keys, in the order in which the table holds them.
    pub closed spec fn keys(&self) -> Seq<Seq<char>> {
        self.keys@.map_values(|key: String| key@)
    }

    /// The values, each at the place of its key.
    pub closed spec fn values(&self) -> Seq<V> {
        self.values@
    }

    /// Well-formedness: one value for each key, and no key twice.
    pub open spec fn wf(&self) -> bool {
        &&& self.keys().len() == self.values().len()
        &&& self.keys().no_duplicates()
    }

    /// The table as a map.
    pub open spec fn view(&self) -> Map<Seq<char>, V> {
        Map::new(
            |key: Seq<char>| self.keys().contains(key),
            |key: Seq<char>| self.values()[self.keys().index_of(key)],
        )
    }

    /// An empty table.
    pub fn new() -> (table: Self)
        ensures
            table.wf(),
            table.keys() == Seq::<Seq<char>>::empty(),
            table.values() == Seq::<V>::empty(),
            table@ == Map::<Seq<char>, V>::empty(),
    {
        let table = Table { keys: Vec::new(), values: Vec::new() };
        assert(table.keys() =~= Seq::<Seq<char>>::empty());
        assert(table@ =~= Map::<Seq<char>, V>::empty());
        table
    }

    /// The number of keys.
    pub fn len(&self) -> (n: usize)
        requires
            self.wf(),
        ensures
            n == self.keys().len(),
            n == self@.dom().len(),
            self@.dom().finite(),
    {
        proof {
            self.lemma_domain();
        }
        self.keys.len()
    }

    /// The keys of a well-formed table are its domain as a map.
    pub proof fn lemma_domain(&self)
        requires
            self.wf(),
        ensures
            self@.dom() == self.keys().to_set(),
            self@.dom().finite(),
            self@.dom().len() == self.keys().len(),
            forall|i: int|
                0 <= i < self.keys().len() ==> self@.contains_key(#[trigger] self.keys()[i])
                    && self@[self.keys()[i]] == self.values()[i],
    {
        assert(self@.dom() =~= self.keys().to_set());
        self.keys().unique_seq_to_set();
        assert forall|i: int| 0 <= i < self.keys().len() implies self@.contains_key(
            #[trigger] self.keys()[i],
        ) && self@[self.keys()[i]] == self.values()[i] by {
            let key = self.keys()[i];
            assert(self.keys().contains(key));
            self.keys().index_of_first_ensures(key);
            let at = self.keys().index_of(key);
            assert(self.keys()[at] == key);
        }
    }

    /// Where the table holds `key`, if it does.
    pub fn position(&self, key: &String) -> (found: Option<usize>)
        requires
            self.wf(),
        ensures
            found is Some == self@.contains_key(key@),
            found matches Some(at) ==> at < self.keys().len() && self.keys()[at as int] == key@
                && self@[key@] == self.values()[at as int],
    {
        let mut at: usize = 0;
        while at < self.keys.len()
            invariant
                self.wf(),
                at <= self.keys().len(),
                self.keys@.len() == self.keys().len(),
                forall|i: int| 0 <= i < at ==> self.keys()[i] != key@,
            decreases self.keys().len() - at,
        {
            if self.keys[at] == *key {
                proof {
                    assert(self.keys()[at as int] == key@);
                    self.lemma_domain();
                }
                return Some(at);
            }
            at = at + 1;
        }
        None
    }

    /// Whether the table holds `key`.
    pub fn contains_key(&self, key: &String) -> (held: bool)
        requires
            self.wf(),
        ensures
            held == self@.contains_key(key@),
    {
        self.position(key).is_some()
    }

    /// The value of `key`, if the table holds it.
    pub fn get(&self, key: &String) -> (value: Option<&V>)
        requires
            self.wf(),
        ensures
            value is Some == self@.contains_key(key@),
            value matches Some(held) ==> *held == self@[key@],
    {
        match self.position(key) {
            Some(at) => Some(&self.values[at]),
            None => None,
        }
    }

    /// Takes `key` and its value out of the table, if the table holds it.
    pub fn remove(&mut self, key: &String) -> (value: Option<V>)
        requires
            old(self).wf(),
        ensures
            final(self).wf(),
            final(self)@ == old(self)@.remove(key@),
            value is Some == old(self)@.contains_key(key@),
            value matches Some(held) ==> held == old(self)@[key@],
    {
        match self.position(key) {
            Some(at) => {
                self.keys.remove(at);
                let value = self.values.remove(at);
                proof {
                    let before = old(self).keys();
                    let after = self.keys();
                    assert(after =~= before.remove(at as int));
                    assert(self.values() =~= old(self).values().remove(at as int));
                    assert forall|i: int, j: int|
                        0 <= i < after.len() && 0 <= j < after.len() && i != j implies after[i]
                        != after[j] by {
                        let from_i = if i < at {
                            i
                        } else {
                            i + 1
                        };
                        let from_j = if j < at {
                            j
                        } else {
                            j + 1
                        };
                        assert(after[i] == before[from_i]);
                        assert(after[j] == before[from_j]);
                    }
                    old(self).lemma_domain();
                    self.lemma_domain();
                    assert forall|other: Seq<char>|
                        self@.contains_key(other) == old(self)@.remove(key@).contains_key(
                            other,
                        ) by {
                        if after.contains(other) {
                            let i = choose|i: int| 0 <= i < after.len() && after[i] == other;
                            let from = if i < at {
                                i
                            } else {
                                i + 1
                            };
                            assert(before[from] == other);
                            assert(other != key@);
                        }
                        if before.contains(other) && other != key@ {
                            let i = choose|i: int| 0 <= i < before.len() && before[i] == other;
                            let to = if i < at {
                                i
                            } else {
                                i - 1
                            };
                            assert(after[to] == other);
                        }
                    }
                    assert forall|other: Seq<char>| self@.contains_key(other) implies self@[other]
                        == old(self)@.remove(key@)[other] by {
                        let i = choose|i: int| 0 <= i < after.len() && after[i] == other;
                        let from = if i < at {
                            i
                        } else {
                            i + 1
                        };
                        assert(before[from] == other);
                        assert(self@[after[i]] == self.values()[i]);
                        assert(old(self)@[before[from]] == old(self).values()[from]);
                    }
                    assert(self@ =~= old(self)@.remove(key@));
                }
                Some(value)
            },
            None => {
                assert(self@ =~= old(self)@.remove(key@));
                None
            },
        }
    }

    /// Puts `value` under `key`.  Returns the value that `key` had, if the
    /// table held it.
    pub fn insert(&mut self, key: String, value: V) -> (before: Option<V>)
        requires
            old(self).wf(),
        ensures
            final(self).wf(),
            final(self)@ == old(self)@.insert(key@, value),
            before is Some == old(self)@.contains_key(key@),
            before matches Some(held) ==> held == old(self)@[key@],
    {
        let before = self.remove(&key);
        let ghost middle = *self;
        self.keys.push(key);
        self.values.push(value);
        proof {
            let keys = self.keys();
            assert(keys =~= middle.keys().push(key@));
            assert(self.values() =~= middle.values().push(value));
            middle.lemma_domain();
            assert(!middle.keys().contains(key@));
            assert forall|i: int, j: int|
                0 <= i < keys.len() && 0 <= j < keys.len() && i != j implies keys[i]
                != keys[j] by {
                if i < middle.keys().len() {
                    assert(middle.keys().contains(keys[i]));
                }
                if j < middle.keys().len() {
                    assert(middle.keys().contains(keys[j]));
                }
            }
            self.lemma_domain();
            assert forall|other: Seq<char>|
                self@.contains_key(other) == middle@.insert(key@, value).contains_key(
                    other,
                ) by {
                if keys.contains(other) {
                    let i = choose|i: int| 0 <= i < keys.len() && keys[i] == other;
                    if i < middle.keys().len() {
                        assert(middle.keys()[i] == other);
                    }
                }
                if middle.keys().contains(other) {
                    let i = choose|i: int|
                        0 <= i < middle.keys().len() && middle.keys()[i] == other;
                    assert(keys[i] == other);
                }
                if other == key@ {
                    assert(keys[keys.len() - 1] == other);
                }
            }
            assert forall|other: Seq<char>| self@.contains_key(other) implies self@[other]
                == middle@.insert(key@, value)[other] by {
                let i = choose|i: int| 0 <= i < keys.len() && keys[i] == other;
                assert(self@[keys[i]] == self.values()[i]);
                if i < middle.keys().len() {
                    assert(middle.keys()[i] == other);
                    assert(middle@[middle.keys()[i]] == middle.values()[i]);
                }
            }
            assert(self@ =~= middle@.insert(key@, value));
            assert(middle@.insert(key@, value) =~= old(self)@.insert(key@, value));
        }
        before
    }

    /// Takes the key that the table holds last, and its value, out of the
    /// table, if the table holds any.
    pub fn pop(&mut self) -> (last: Option<(String, V)>)
        requires
            old(self).wf(),
        ensures
            final(self).wf(),
            old(self).keys().len() == 0 ==> last is None && final(self)@ == old(self)@,
            old(self).keys().len() > 0 ==> last is Some && old(self)@.contains_key(
                last->Some_0.0@,
            ) && last->Some_0.1 == old(self)@[last->Some_0.0@] && final(self)@ == old(self)@.remove(last->Some_0.0@),
            final(self).keys().len() == if old(self).keys().len() > 0 {
                old(self).keys().len() - 1
            } else {
                0
            },
    {
        if self.keys.len() == 0 {
            return None;
        }
        let ghost at = self.keys.len() - 1;
        let key = self.keys.pop().unwrap();
        let value = self.values.pop().unwrap();
        proof {
            let before = old(self).keys();
            let after = self.keys();
            assert(after =~= before.take(at as int));
            assert(self.values() =~= old(self).values().take(at as int));
            assert(before[at as int] == key@);
            old(self).lemma_domain();
            self.lemma_domain();
            assert forall|other: Seq<char>|
                self@.contains_key(other) == old(self)@.remove(key@).contains_key(other) by {
                if after.contains(other) {
                    let i = choose|i: int| 0 <= i < after.len() && after[i] == other;
                    assert(before[i] == other);
                }
                if before.contains(other) && other != key@ {
                    let i = choose|i: int| 0 <= i < before.len() && before[i] == other;
                    assert(after[i] == other);
                }
            }
            assert forall|other: Seq<char>| self@.contains_key(other) implies self@[other] == old(self)@.remove(key@)[other] by {
                let i = choose|i: int| 0 <= i < after.len() && after[i] == other;
                assert(before[i] == other);
                assert(self@[after[i]] == self.values()[i]);
                assert(old(self)@[before[i]] == old(self).values()[i]);
            }
            assert(self@ =~= old(self)@.remove(key@));
        }
        Some((key, value))
    }
}

} // verus!
