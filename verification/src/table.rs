//! A table of values that are found by name.
use vstd::prelude::*;

use crate::text::{same_text, strings};

verus! {

/// A table from names to values. A name occurs once; names stay in the order in which they came.
#[derive(Debug)]
pub struct Table<V> {
    keys: Vec<String>,
    values: Vec<V>,
}

impl<V> Table<V> {
    #[verifier::type_invariant]
    spec fn well_formed(self) -> bool {
        &&& self.keys@.len() == self.values@.len()
        &&& strings(self.keys@).no_duplicates()
    }

    /// The names, in the order in which they came.
    pub closed spec fn names(&self) -> Seq<Seq<char>> {
        strings(self.keys@)
    }

    /// The value of each name.
    pub closed spec fn view(&self) -> Map<Seq<char>, V> {
        Map::new(
            |k: Seq<char>| strings(self.keys@).contains(k),
            |k: Seq<char>| self.values@[strings(self.keys@).index_of(k)],
        )
    }

    /// An empty table.
    pub fn new() -> (r: Self)
        ensures
            r@ == Map::<Seq<char>, V>::empty(),
            r.names() == Seq::<Seq<char>>::empty(),
    {
        let r = Table { keys: Vec::new(), values: Vec::new() };
        assert(strings(r.keys@) =~= Seq::empty());
        assert(r@ =~= Map::<Seq<char>, V>::empty());
        r
    }

    /// The number of names.
    pub fn len(&self) -> (n: usize)
        ensures
            n == self.names().len(),
            n == self@.dom().len(),
            self.names().no_duplicates(),
            self@.dom() == self.names().to_set(),
    {
        proof {
            use_type_invariant(self);
            self.names().unique_seq_to_set();
            assert(self@.dom() =~= self.names().to_set());
        }
        self.keys.len()
    }

    /// Whether the table has no name.
    pub fn is_empty(&self) -> (r: bool)
        ensures
            r == (self@ == Map::<Seq<char>, V>::empty()),
    {
        proof {
            use_type_invariant(self);
            if self.keys@.len() == 0 {
                assert(self@ =~= Map::<Seq<char>, V>::empty());
            } else {
                assert(strings(self.keys@).contains(strings(self.keys@)[0]));
                assert(self@.dom().contains(strings(self.keys@)[0]));
            }
        }
        self.keys.len() == 0
    }

    /// The name at a position.
    pub fn name_at(&self, i: usize) -> (r: &String)
        requires
            i < self.names().len(),
        ensures
            r@ == self.names()[i as int],
            self@.contains_key(r@),
    {
        let r = &self.keys[i];
        assert(strings(self.keys@)[i as int] == r@);
        r
    }

    /// The value at a position.
    pub fn value_at(&self, i: usize) -> (r: &V)
        requires
            i < self.names().len(),
        ensures
            *r == self@[self.names()[i as int]],
    {
        proof {
            use_type_invariant(self);
            assert(self.names().contains(self.names()[i as int]));
            assert(self.names().index_of(self.names()[i as int]) == i);
        }
        &self.values[i]
    }

    fn position(&self, name: &str) -> (r: Option<usize>)
        ensures
            r is None ==> !self@.contains_key(name@),
            r matches Some(i) ==> i < self.keys@.len() && self.keys@[i as int]@ == name@,
    {
        let mut i: usize = 0;
        while i < self.keys.len()
            invariant
                i <= self.keys@.len(),
                forall|j: int| 0 <= j < i ==> strings(self.keys@)[j] != name@,
            decreases self.keys@.len() - i,
        {
            if same_text(self.keys[i].as_str(), name) {
                return Some(i);
            }
            i = i + 1;
        }
        None
    }

    /// The value of a name, if the table has it.
    pub fn get(&self, name: &str) -> (r: Option<&V>)
        ensures
            r == (if self@.contains_key(name@) {
                Some(&self@[name@])
            } else {
                None
            }),
    {
        proof {
            use_type_invariant(self);
        }
        match self.position(name) {
            Some(i) => {
                proof {
                    let ks = strings(self.keys@);
                    assert(ks[i as int] == name@);
                    assert(ks.contains(name@));
                    assert(ks.index_of(name@) == i);
                }
                Some(&self.values[i])
            },
            None => None,
        }
    }

    /// Whether the table has a name.
    pub fn contains_key(&self, name: &str) -> (r: bool)
        ensures
            r == self@.contains_key(name@),
    {
        match self.get(name) {
            Some(_) => true,
            None => false,
        }
    }

    /// Gives a name its value, in place of the one that it had.
    pub fn insert(&mut self, name: String, value: V)
        ensures
            final(self)@ == old(self)@.insert(name@, value),
            old(self)@.contains_key(name@) ==> final(self).names() == old(self).names(),
            !old(self)@.contains_key(name@) ==> final(self).names() == old(self).names().push(name@),
    {
        proof {
            use_type_invariant(&*self);
        }
        let ghost ks = strings(self.keys@);
        let ghost vs = self.values@;
        let ghost before = self@;
        let found = self.position(name.as_str());
        let mut whole = Table { keys: Vec::new(), values: Vec::new() };
        std::mem::swap(self, &mut whole);
        let Table { keys, values } = whole;
        let mut keys = keys;
        let mut values = values;
        match found {
            Some(i) => {
                values.set(i, value);
                *self = Table { keys, values };
                proof {
                    assert(ks[i as int] == name@);
                    assert(ks.contains(name@));
                    let after = before.insert(name@, value);
                    assert forall|k: Seq<char>| self@.contains_key(k) implies self@[k] == after[k] by {
                        let j = ks.index_of(k);
                        assert(ks[j] == k);
                    }
                    assert(self@ =~= after);
                }
            },
            None => {
                let ghost text = name@;
                let ghost n = keys@.len() as int;
                keys.push(name);
                values.push(value);
                proof {
                    assert(strings(keys@) =~= ks.push(text));
                    assert(!ks.contains(text));
                }
                *self = Table { keys, values };
                proof {
                    let now = strings(self.keys@);
                    let after = before.insert(text, value);
                    assert forall|k: Seq<char>| self@.contains_key(k) <==> after.contains_key(k) by {
                        if ks.contains(k) {
                            let j = ks.index_of(k);
                            assert(now[j] == k);
                        }
                        assert(now[n] == text);
                        if now.contains(k) {
                            let j = now.index_of(k);
                            if j < n {
                                assert(ks[j] == k);
                            }
                        }
                    }
                    assert forall|k: Seq<char>| self@.contains_key(k) implies self@[k] == after[k] by {
                        let j = now.index_of(k);
                        if j < n {
                            assert(ks[j] == k);
                            assert(ks.index_of(k) == j);
                        } else {
                            assert(j == n);
                        }
                    }
                    assert(self@ =~= after);
                }
            },
        }
    }
}

} // verus!
