//! A table of values keyed by text
use vstd::prelude::*;

verus! {

/// A table that holds one value for each of its keys
#[derive(Debug)]
pub struct Table<T> {
    keys: Vec<String>,
    values: Vec<T>,
}

impl<T> Table<T> {
    /// What holds of every table: each key has one value, and no key occurs twice.
    pub closed spec fn wf(&self) -> bool {
        &&& self.keys@.len() == self.values@.len()
        &&& forall|i: int, j: int|
            0 <= i < j < self.keys@.len() ==> #[trigger] self.keys@[i]@ != #[trigger] self.keys@[j]@
    }

    spec fn holds_at(&self, key: Seq<char>, i: int) -> bool {
        0 <= i < self.keys@.len() && self.keys@[i]@ == key
    }

    spec fn holds(&self, key: Seq<char>) -> bool {
        exists|i: int| self.holds_at(key, i)
    }

    spec fn index_of(&self, key: Seq<char>) -> int {
        choose|i: int| self.holds_at(key, i)
    }

    proof fn lemma_index(&self, i: int)
        requires
            self.wf(),
            0 <= i < self.keys@.len(),
        ensures
            self@.contains_key(self.keys@[i]@),
            self@[self.keys@[i]@] == self.values@[i],
    {
        let key = self.keys@[i]@;
        assert(self.holds_at(key, i));
        let j = self.index_of(key);
        assert(self.holds_at(key, j));
        if j < i {
            assert(self.keys@[j]@ != self.keys@[i]@);
        } else if i < j {
            assert(self.keys@[i]@ != self.keys@[j]@);
        }
    }
}

impl<T> View for Table<T> {
    type V = Map<Seq<char>, T>;

    closed spec fn view(&self) -> Map<Seq<char>, T> {
        Map::new(
            |key: Seq<char>| self.holds(key),
            |key: Seq<char>| self.values@[self.index_of(key)],
        )
    }
}

impl<T> Table<T> {
    /// Creates an empty table
    pub fn new() -> (r: Table<T>)
        ensures
            r.wf(),
            r@ == Map::<Seq<char>, T>::empty(),
    {
        let table: Table<T> = Table { keys: Vec::new(), values: Vec::new() };
        assert(table@ =~= Map::<Seq<char>, T>::empty());
        table
    }

    fn find(&self, key: &str) -> (r: Option<usize>)
        requires
            self.wf(),
        ensures
            match r {
                Some(i) => self.holds_at(key@, i as int) && self@.contains_key(key@)
                    && self@[key@] == self.values@[i as int],
                None => !self@.contains_key(key@),
            },
    {
        let wanted = key.to_owned();
        let mut i: usize = 0;
        while i < self.keys.len()
            invariant
                self.wf(),
                wanted@ == key@,
                i <= self.keys.len(),
                forall|k: int| 0 <= k < i ==> self.keys@[k]@ != key@,
            decreases self.keys.len() - i,
        {
            if self.keys[i] == wanted {
                proof {
                    self.lemma_index(i as int);
                }
                return Some(i);
            }
            i = i + 1;
        }
        None
    }

    /// The value of a key
    pub fn get(&self, key: &str) -> (r: Option<&T>)
        requires
            self.wf(),
        ensures
            match r {
                Some(value) => self@.contains_key(key@) && *value == self@[key@],
                None => !self@.contains_key(key@),
            },
    {
        match self.find(key) {
            Some(i) => Some(&self.values[i]),
            None => None,
        }
    }

    /// Gives a key a value
    pub fn insert(&mut self, key: &str, value: T)
        requires
            old(self).wf(),
        ensures
            final(self).wf(),
            final(self)@ == old(self)@.insert(key@, value),
    {
        match self.find(key) {
            Some(i) => {
                let ghost before = *self;
                self.values.set(i, value);
                proof {
                    lemma_update(before, *self, key@, i as int, value);
                }
            },
            None => {
                let ghost before = *self;
                self.keys.push(key.to_owned());
                self.values.push(value);
                proof {
                    lemma_push(before, *self, key@, value);
                }
            },
        }
    }

    /// Takes a key out of the table, with its value
    pub fn remove(&mut self, key: &str) -> (r: Option<T>)
        requires
            old(self).wf(),
        ensures
            final(self).wf(),
            final(self)@ == old(self)@.remove(key@),
            match r {
                Some(value) => old(self)@.contains_key(key@) && value == old(self)@[key@],
                None => !old(self)@.contains_key(key@),
            },
    {
        match self.find(key) {
            Some(i) => {
                let ghost before = *self;
                self.keys.remove(i);
                let value = self.values.remove(i);
                proof {
                    lemma_remove(before, *self, i as int);
                }
                Some(value)
            },
            None => {
                assert(self@ =~= old(self)@.remove(key@));
                None
            },
        }
    }
}

proof fn lemma_update<T>(before: Table<T>, after: Table<T>, key: Seq<char>, i: int, value: T)
    requires
        before.wf(),
        before.holds_at(key, i),
        after.keys == before.keys,
        after.values@ == before.values@.update(i, value),
    ensures
        after.wf(),
        after@ == before@.insert(key, value),
{
    before.lemma_index(i);
    after.lemma_index(i);
    assert forall|k: Seq<char>| after@.contains_key(k) <==> before@.insert(
        key,
        value,
    ).contains_key(k) by {
        if after.holds(k) {
            assert(before.holds_at(k, after.index_of(k)));
        }
        if before.holds(k) {
            assert(after.holds_at(k, before.index_of(k)));
        }
    }
    assert forall|k: Seq<char>| after@.contains_key(k) implies after@[k] == before@.insert(
        key,
        value,
    )[k] by {
        let j = after.index_of(k);
        assert(after.holds_at(k, j));
        after.lemma_index(j);
        before.lemma_index(j);
        if j < i {
            assert(before.keys@[j]@ != before.keys@[i]@);
        } else if i < j {
            assert(before.keys@[i]@ != before.keys@[j]@);
        }
    }
    assert(after@ =~= before@.insert(key, value));
}

proof fn lemma_push<T>(before: Table<T>, after: Table<T>, key: Seq<char>, value: T)
    requires
        before.wf(),
        !before@.contains_key(key),
        after.keys@.len() == before.keys@.len() + 1,
        forall|i: int| 0 <= i < before.keys@.len() ==> #[trigger] after.keys@[i] == before.keys@[i],
        after.keys@.last()@ == key,
        after.values@ == before.values@.push(value),
    ensures
        after.wf(),
        after@ == before@.insert(key, value),
{
    let n = before.keys@.len() as int;
    assert forall|i: int, j: int| 0 <= i < j < after.keys@.len() implies #[trigger] after.keys@[i]@
        != #[trigger] after.keys@[j]@ by {
        if j == n {
            if after.keys@[i]@ == key {
                assert(before.holds_at(key, i));
            }
        } else {
            assert(before.keys@[i]@ != before.keys@[j]@);
        }
    }
    after.lemma_index(n);
    assert forall|k: Seq<char>| after@.contains_key(k) <==> before@.insert(
        key,
        value,
    ).contains_key(k) by {
        if after.holds(k) {
            let i = after.index_of(k);
            assert(after.holds_at(k, i));
            if i < n {
                assert(before.holds_at(k, i));
            }
        }
        if before.holds(k) {
            assert(after.holds_at(k, before.index_of(k)));
        }
    }
    assert forall|k: Seq<char>| after@.contains_key(k) implies after@[k] == before@.insert(
        key,
        value,
    )[k] by {
        let i = after.index_of(k);
        assert(after.holds_at(k, i));
        after.lemma_index(i);
        if i < n {
            before.lemma_index(i);
            assert(before.holds_at(k, i));
        }
    }
    assert(after@ =~= before@.insert(key, value));
}

proof fn lemma_remove<T>(before: Table<T>, after: Table<T>, i: int)
    requires
        before.wf(),
        0 <= i < before.keys@.len(),
        after.keys@ == before.keys@.remove(i),
        after.values@ == before.values@.remove(i),
    ensures
        after.wf(),
        after@ == before@.remove(before.keys@[i]@),
{
    let key = before.keys@[i]@;
    assert forall|a: int, b: int| 0 <= a < b < after.keys@.len() implies #[trigger] after.keys@[a]@
        != #[trigger] after.keys@[b]@ by {
        let c = if a < i {
            a
        } else {
            a + 1
        };
        let d = if b < i {
            b
        } else {
            b + 1
        };
        assert(before.keys@[c]@ != before.keys@[d]@);
    }
    assert forall|k: Seq<char>| after@.contains_key(k) <==> before@.remove(key).contains_key(k) by {
        if after.holds(k) {
            let a = after.index_of(k);
            assert(after.holds_at(k, a));
            let c = if a < i {
                a
            } else {
                a + 1
            };
            assert(before.holds_at(k, c));
            if c < i {
                assert(before.keys@[c]@ != before.keys@[i]@);
            } else {
                assert(before.keys@[i]@ != before.keys@[c]@);
            }
        }
        if before.holds(k) && k != key {
            let c = before.index_of(k);
            assert(before.holds_at(k, c));
            assert(after.holds_at(
                k,
                if c < i {
                    c
                } else {
                    c - 1
                },
            ));
        }
    }
    assert forall|k: Seq<char>| after@.contains_key(k) implies after@[k] == before@.remove(
        key,
    )[k] by {
        let a = after.index_of(k);
        assert(after.holds_at(k, a));
        after.lemma_index(a);
        let c = if a < i {
            a
        } else {
            a + 1
        };
        before.lemma_index(c);
    }
    assert(after@ =~= before@.remove(key));
}

} // verus!
