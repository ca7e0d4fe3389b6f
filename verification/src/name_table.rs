//! A small table of values keyed by name.

use crate::text::str_eq;
use vstd::prelude::*;

verus! {

/// Values keyed by name, in the order in which the names were first set.
///
/// A name occurs at most once.
#[derive(Clone, Debug)]
pub struct NameTable<V> {
    names: Vec<String>,
    values: Vec<V>,
}

impl<V: Copy> NameTable<V> {
    /// The names, in the order in which they were first set.
    pub closed spec fn order(&self) -> Seq<Seq<char>> {
        Seq::new(self.names@.len(), |i: int| self.names@[i]@)
    }

    /// No name occurs twice, and each has a value.
    pub closed spec fn wf(&self) -> bool {
        &&& self.names@.len() == self.values@.len()
        &&& self.order().no_duplicates()
    }

    /// The value of each name.
    pub closed spec fn view(&self) -> Map<Seq<char>, V> {
        Map::new(
            |name: Seq<char>| self.order().contains(name),
            |name: Seq<char>| self.values@[self.order().index_of(name)],
        )
    }

    /// The names in `order` are those that the table maps.
    pub proof fn lemma_order(&self)
        requires
            self.wf(),
        ensures
            self.order().no_duplicates(),
            forall|name: Seq<char>| #[trigger]
                self@.dom().contains(name) <==> self.order().contains(name),
    {
    }

    proof fn lemma_at(&self, i: int)
        requires
            self.wf(),
            0 <= i < self.names@.len(),
        ensures
            self@.dom().contains(self.names@[i]@),
            self@[self.names@[i]@] == self.values@[i],
    {
        assert(self.order()[i] == self.names@[i]@);
    }

    /// A table without names.
    pub fn new() -> (table: Self)
        ensures
            table.wf(),
            table@ == Map::<Seq<char>, V>::empty(),
            table.order() == Seq::<Seq<char>>::empty(),
    {
        let table = NameTable { names: Vec::new(), values: Vec::new() };
        table
    }

    /// The number of names.
    pub fn len(&self) -> (n: usize)
        requires
            self.wf(),
        ensures
            n == self.order().len(),
    {
        self.names.len()
    }

    /// The `i`-th name and its value.
    pub fn entry(&self, i: usize) -> (entry: (&str, V))
        requires
            self.wf(),
            i < self.order().len(),
        ensures
            entry.0@ == self.order()[i as int],
            self@.dom().contains(entry.0@),
            entry.1 == self@[entry.0@],
    {
        proof {
            self.lemma_at(i as int);
        }
        (self.names[i].as_str(), self.values[i])
    }

    fn position(&self, name: &str) -> (found: Option<usize>)
        requires
            self.wf(),
        ensures
            match found {
                Some(i) => i < self.names@.len() && self.names@[i as int]@ == name@,
                None => !self@.dom().contains(name@),
            },
    {
        let mut i: usize = 0;
        while i < self.names.len()
            invariant
                i <= self.names@.len(),
                forall|k: int| 0 <= k < i ==> (#[trigger] self.names@[k])@ != name@,
            decreases self.names.len() - i,
        {
            if str_eq(self.names[i].as_str(), name) {
                return Some(i);
            }
            i += 1;
        }
        None
    }

    /// The value of `name`.
    pub fn get(&self, name: &str) -> (value: Option<V>)
        requires
            self.wf(),
        ensures
            value == (if self@.dom().contains(name@) {
                Some(self@[name@])
            } else {
                None
            }),
    {
        match self.position(name) {
            Some(i) => {
                proof {
                    self.lemma_at(i as int);
                }
                Some(self.values[i])
            },
            None => None,
        }
    }

    /// Gives `name` the value `value`, at the end of the order if it is new.
    pub fn set(&mut self, name: &str, value: V)
        requires
            old(self).wf(),
        ensures
            final(self).wf(),
            final(self)@ == old(self)@.insert(name@, value),
            final(self).order() == (if old(self)@.dom().contains(name@) {
                old(self).order()
            } else {
                old(self).order().push(name@)
            }),
    {
        match self.position(name) {
            Some(i) => {
                self.values.set(i, value);
                proof {
                    assert(self.order()[i as int] == name@);
                }
            },
            None => {
                self.names.push(name.to_owned());
                self.values.push(value);
                proof {
                    let n = old(self).names@.len() as int;
                    assert(self.order() =~= old(self).order().push(name@));
                    assert forall|m: Seq<char>|
                        self.order().contains(m) <==> old(self).order().contains(m) || m
                            == name@ by {
                        assert(self.order()[n] == name@);
                        if old(self).order().contains(m) {
                            let k = old(self).order().index_of(m);
                            assert(self.order()[k] == m);
                        }
                    }
                }
            },
        }
    }
}

}
