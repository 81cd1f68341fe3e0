//! A table from names to slot indices that keeps the order in which the names
//! were added.

use crate::instruction::OpIndex;
use vstd::prelude::*;

verus! {

/// `str`'s `==` of std: whether two strings hold the same characters.
#[verifier::external_body]
pub(crate) fn str_eq(a: &str, b: &str) -> (r: bool)
    ensures
        r == (a@ == b@),
{
    a == b
}

/// A table from names to slot indices. The entries stand in the order in
/// which their names were first added.
#[derive(Debug)]
pub struct NameTable {
    entries: Vec<(String, OpIndex)>,
}

impl View for NameTable {
    type V = Map<Seq<char>, OpIndex>;

    /// The index of each name.
    closed spec fn view(&self) -> Map<Seq<char>, OpIndex> {
        Map::new(
            |n: Seq<char>| self.spec_position(n) is Some,
            |n: Seq<char>| self.entries@[self.spec_position(n).unwrap()].1,
        )
    }
}

impl NameTable {
    /// The entries in order: each name with its index.
    pub closed spec fn spec_entries(&self) -> Seq<(Seq<char>, OpIndex)> {
        Seq::new(self.entries@.len(), |i: int| (self.entries@[i].0@, self.entries@[i].1))
    }

    /// Whether a name stands at a position and nowhere before it.
    pub closed spec fn spec_first_at(&self, name: Seq<char>, i: int) -> bool {
        &&& 0 <= i < self.entries@.len()
        &&& self.entries@[i].0@ == name
        &&& forall|j: int| 0 <= j < i ==> self.entries@[j].0@ != name
    }

    /// Where a name first stands among the entries.
    pub closed spec fn spec_position(&self, name: Seq<char>) -> Option<int> {
        if exists|i: int| self.spec_first_at(name, i) {
            Some(choose|i: int| self.spec_first_at(name, i))
        } else {
            None
        }
    }

    proof fn lemma_position(&self, name: Seq<char>, i: int)
        requires
            self.spec_first_at(name, i),
        ensures
            self.spec_position(name) == Some(i),
    {
        let k = choose|k: int| self.spec_first_at(name, k);
        if k < i {
            assert(self.entries@[k].0@ != name);
        }
        if i < k {
            assert(self.entries@[i].0@ != name);
        }
    }

    proof fn lemma_no_position(&self, name: Seq<char>)
        requires
            forall|j: int| 0 <= j < self.entries@.len() ==> self.entries@[j].0@ != name,
        ensures
            self.spec_position(name) is None,
    {
        if exists|i: int| self.spec_first_at(name, i) {
            let k = choose|k: int| self.spec_first_at(name, k);
            assert(self.entries@[k].0@ != name);
        }
    }

    /// A name that the table holds stands among the entries with its index,
    /// and each entry's name is in the table.
    pub proof fn lemma_entries(&self)
        ensures
            forall|i: int|
                0 <= i < self.spec_entries().len() ==> self@.dom().contains(
                    #[trigger] self.spec_entries()[i].0,
                ),
            forall|n: Seq<char>|
                self@.dom().contains(n) ==> exists|i: int|
                    0 <= i < self.spec_entries().len() && #[trigger] self.spec_entries()[i] == (
                        n,
                        self@[n],
                    ),
    {
        assert forall|i: int| 0 <= i < self.spec_entries().len() implies self@.dom().contains(
            #[trigger] self.spec_entries()[i].0,
        ) by {
            let n = self.entries@[i].0@;
            self.lemma_first_exists(n, i);
        }
        assert forall|n: Seq<char>| self@.dom().contains(n) implies exists|i: int|
            0 <= i < self.spec_entries().len() && #[trigger] self.spec_entries()[i] == (
                n,
                self@[n],
            ) by {
            let i = self.spec_position(n).unwrap();
            assert(self.spec_first_at(n, i));
            assert(self.spec_entries()[i] == (n, self@[n]));
        }
    }

    proof fn lemma_first_exists(&self, name: Seq<char>, i: int)
        requires
            0 <= i < self.entries@.len(),
            self.entries@[i].0@ == name,
        ensures
            self.spec_position(name) is Some,
        decreases i,
    {
        if forall|j: int| 0 <= j < i ==> self.entries@[j].0@ != name {
            assert(self.spec_first_at(name, i));
        } else {
            let j = choose|j: int| 0 <= j < i && self.entries@[j].0@ == name;
            self.lemma_first_exists(name, j);
        }
    }

    /// A table without names.
    pub fn new() -> (t: NameTable)
        ensures
            t@ == Map::<Seq<char>, OpIndex>::empty(),
            t.spec_entries() == Seq::<(Seq<char>, OpIndex)>::empty(),
    {
        let t = NameTable { entries: Vec::new() };
        assert forall|n: Seq<char>| t.spec_position(n) is None by {
            t.lemma_no_position(n);
        }
        assert(t@ =~= Map::<Seq<char>, OpIndex>::empty());
        assert(t.spec_entries() =~= Seq::<(Seq<char>, OpIndex)>::empty());
        t
    }

    /// The number of names.
    pub fn len(&self) -> (n: usize)
        ensures
            n == self.spec_entries().len(),
    {
        self.entries.len()
    }

    /// The name of the entry at a position.
    pub fn name_at(&self, i: usize) -> (name: &String)
        requires
            i < self.spec_entries().len(),
        ensures
            name@ == self.spec_entries()[i as int].0,
    {
        &self.entries[i].0
    }

    /// The index of the entry at a position.
    pub fn index_at(&self, i: usize) -> (index: OpIndex)
        requires
            i < self.spec_entries().len(),
        ensures
            index == self.spec_entries()[i as int].1,
    {
        self.entries[i].1
    }

    fn position(&self, name: &str) -> (r: Option<usize>)
        ensures
            match r {
                Some(i) => self.spec_position(name@) == Some(i as int) && i < self.entries@.len()
                    && self.entries@[i as int].0@ == name@,
                None => self.spec_position(name@) is None,
            },
    {
        let mut i: usize = 0;
        while i < self.entries.len()
            invariant
                i <= self.entries@.len(),
                forall|j: int| 0 <= j < i ==> self.entries@[j].0@ != name@,
            decreases self.entries@.len() - i,
        {
            if str_eq(self.entries[i].0.as_str(), name) {
                proof {
                    assert(self.spec_first_at(name@, i as int));
                    self.lemma_position(name@, i as int);
                }
                return Some(i);
            }
            i += 1;
        }
        proof {
            self.lemma_no_position(name@);
        }
        None
    }

    /// The index of a name, if the table holds it.
    pub fn get(&self, name: &str) -> (r: Option<OpIndex>)
        ensures
            r == if self@.dom().contains(name@) {
                Some(self@[name@])
            } else {
                None
            },
    {
        match self.position(name) {
            Some(i) => Some(self.entries[i].1),
            None => None,
        }
    }

    /// Gives a name an index. A name that the table holds keeps its place
    /// among the entries and gets the new index; the index it had is
    /// returned.
    pub fn insert(&mut self, name: String, index: OpIndex) -> (prev: Option<OpIndex>)
        ensures
            final(self)@ == old(self)@.insert(name@, index),
            prev == if old(self)@.dom().contains(name@) {
                Some(old(self)@[name@])
            } else {
                None
            },
            match old(self).spec_position(name@) {
                Some(i) => final(self).spec_entries() == old(self).spec_entries().update(
                    i,
                    (name@, index),
                ),
                None => final(self).spec_entries() == old(self).spec_entries().push(
                    (name@, index),
                ),
            },
    {
        let ghost before = *self;
        let ghost key = name@;
        match self.position(name.as_str()) {
            Some(i) => {
                let prev = self.entries[i].1;
                self.entries.set(i, (name, index));
                proof {
                    assert forall|n: Seq<char>, k: int| #[trigger]
                        self.spec_first_at(n, k) <==> before.spec_first_at(n, k) by {
                        if 0 <= k < before.entries@.len() {
                            assert(self.entries@[k].0@ == before.entries@[k].0@);
                            assert forall|j: int| 0 <= j < k implies (self.entries@[j].0@ != n
                                <==> before.entries@[j].0@ != n) by {
                                assert(self.entries@[j].0@ == before.entries@[j].0@);
                            }
                        }
                    }
                    assert forall|n: Seq<char>| #[trigger]
                        self.spec_position(n) == before.spec_position(n) by {
                        if before.spec_position(n) is Some {
                            let k = before.spec_position(n).unwrap();
                            assert(before.spec_first_at(n, k));
                            assert(self.spec_first_at(n, k));
                            self.lemma_position(n, k);
                        } else {
                            if self.spec_position(n) is Some {
                                let k = self.spec_position(n).unwrap();
                                assert(self.spec_first_at(n, k));
                                assert(before.spec_first_at(n, k));
                            }
                        }
                    }
                    assert(self@ =~= before@.insert(key, index));
                    assert(self.spec_entries() =~= before.spec_entries().update(
                        i as int,
                        (key, index),
                    ));
                }
                Some(prev)
            },
            None => {
                self.entries.push((name, index));
                proof {
                    let last = before.entries@.len() as int;
                    assert forall|j: int| 0 <= j < last implies self.entries@[j].0@ != key by {
                        if before.entries@[j].0@ == key {
                            before.lemma_first_exists(key, j);
                        }
                    }
                    assert(self.spec_first_at(key, last));
                    self.lemma_position(key, last);
                    assert forall|n: Seq<char>| n != key implies #[trigger] self.spec_position(n)
                        == before.spec_position(n) by {
                        if before.spec_position(n) is Some {
                            let k = before.spec_position(n).unwrap();
                            assert(before.spec_first_at(n, k));
                            assert(self.spec_first_at(n, k));
                            self.lemma_position(n, k);
                        } else {
                            if self.spec_position(n) is Some {
                                let k = self.spec_position(n).unwrap();
                                assert(self.spec_first_at(n, k));
                                assert(k < last);
                                assert(before.entries@[k] == self.entries@[k]);
                                assert forall|j: int| 0 <= j < k implies before.entries@[j].0@
                                    != n by {
                                    assert(before.entries@[j] == self.entries@[j]);
                                }
                                assert(before.spec_first_at(n, k));
                            }
                        }
                    }
                    assert(self@ =~= before@.insert(key, index));
                    assert(self.spec_entries() =~= before.spec_entries().push((key, index)));
                }
                None
            },
        }
    }

    /// A copy of the table.
    pub fn duplicate(&self) -> (t: NameTable)
        ensures
            t@ == self@,
            t.spec_entries() == self.spec_entries(),
    {
        let mut fresh: Vec<(String, OpIndex)> = Vec::new();
        let mut j: usize = 0;
        while j < self.entries.len()
            invariant
                j <= self.entries@.len(),
                fresh@.len() == j,
                forall|k: int| 0 <= k < j ==> #[trigger] fresh@[k] == self.entries@[k],
            decreases self.entries@.len() - j,
        {
            fresh.push((self.entries[j].0.clone(), self.entries[j].1));
            j += 1;
        }
        assert(fresh@ =~= self.entries@);
        let t = NameTable { entries: fresh };
        proof {
            assert forall|n: Seq<char>| #[trigger] t.spec_position(n) == self.spec_position(n) by {
                if self.spec_position(n) is Some {
                    let k = self.spec_position(n).unwrap();
                    assert(self.spec_first_at(n, k));
                    assert(t.spec_first_at(n, k));
                    t.lemma_position(n, k);
                } else {
                    if t.spec_position(n) is Some {
                        let k = t.spec_position(n).unwrap();
                        assert(t.spec_first_at(n, k));
                        assert(self.spec_first_at(n, k));
                    }
                }
            }
            assert(t@ =~= self@);
            assert(t.spec_entries() =~= self.spec_entries());
        }
        t
    }
}

} // verus!
