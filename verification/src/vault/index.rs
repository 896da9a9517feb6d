//! The name index of an open vault: for each entry, by its name in the
//! clear, the key under which the store holds it.
//!
//! Encryption of a name is randomised, so the key of an entry cannot be
//! found again by encrypting its name once more. The index is built when the
//! vault is opened and is the only way from a name to a key from then on.

use vstd::prelude::*;
use vstd::string::StringExecFns;

verus! {

/// A map from entry names to store keys, in which no name occurs twice.
pub struct NameIndex {
    entries: Vec<(String, Vec<u8>)>,
}

impl NameIndex {
    #[verifier::type_invariant]
    spec fn names_differ(&self) -> bool {
        forall|i: int, j: int|
            0 <= i < j < self.entries@.len() ==> self.entries@[i].0@ != self.entries@[j].0@
    }

    spec fn holds_at(&self, name: Seq<char>, i: int) -> bool {
        0 <= i < self.entries@.len() && self.entries@[i].0@ == name
    }

    /// The index as a map from names to keys.
    pub closed spec fn view(&self) -> Map<Seq<char>, Seq<u8>> {
        Map::new(
            |name: Seq<char>| exists|i: int| self.holds_at(name, i),
            |name: Seq<char>| self.entries@[choose|i: int| self.holds_at(name, i)].1@,
        )
    }

    proof fn lemma_view_at(&self, i: int)
        requires
            self.names_differ(),
            0 <= i < self.entries@.len(),
        ensures
            self@.contains_key(self.entries@[i].0@),
            self@[self.entries@[i].0@] == self.entries@[i].1@,
    {
        let name = self.entries@[i].0@;
        assert(self.holds_at(name, i));
        let j = choose|j: int| self.holds_at(name, j);
        assert(i == j);
    }

    /// An index without entries.
    pub fn new() -> (index: NameIndex)
        ensures
            index@ == Map::<Seq<char>, Seq<u8>>::empty(),
    {
        let index = NameIndex { entries: Vec::new() };
        assert(index@ =~= Map::<Seq<char>, Seq<u8>>::empty());
        index
    }

    fn find(&self, name: &str) -> (r: Option<usize>)
        ensures
            match r {
                Some(i) => self.holds_at(name@, i as int),
                None => forall|i: int| !self.holds_at(name@, i),
            },
    {
        let wanted = String::from_str(name);
        let mut i: usize = 0;
        while i < self.entries.len()
            invariant
                i <= self.entries@.len(),
                wanted@ == name@,
                forall|j: int| 0 <= j < i ==> self.entries@[j].0@ != name@,
            decreases self.entries@.len() - i,
        {
            if self.entries[i].0 == wanted {
                return Some(i);
            }
            i += 1;
        }
        None
    }

    /// Whether the index holds `name`.
    pub fn contains_key(&self, name: &str) -> (found: bool)
        ensures
            found == self@.contains_key(name@),
    {
        self.find(name).is_some()
    }

    /// The key that the index holds for `name`.
    pub fn get(&self, name: &str) -> (r: Option<Vec<u8>>)
        ensures
            match r {
                Some(key) => self@.contains_key(name@) && self@[name@] == key@,
                None => !self@.contains_key(name@),
            },
    {
        match self.find(name) {
            Some(i) => {
                proof {
                    use_type_invariant(self);
                    self.lemma_view_at(i as int);
                }
                Some(self.entries[i].1.clone())
            },
            None => None,
        }
    }

    /// Enters `key` for `name`, in place of the key that the index held for
    /// it, if any.
    pub fn insert(&mut self, name: String, key: Vec<u8>)
        ensures
            final(self)@ == old(self)@.insert(name@, key@),
    {
        proof {
            use_type_invariant(&*self);
        }
        let ghost before = *self;
        let found = self.find(name.as_str());
        let mut entries: Vec<(String, Vec<u8>)> = Vec::new();
        core::mem::swap(&mut self.entries, &mut entries);
        match found {
            Some(i) => {
                entries.set(i, (name, key));
                core::mem::swap(&mut self.entries, &mut entries);
                proof {
                    let after = *self;
                    assert forall|n: Seq<char>, j: int|
                        after.holds_at(n, j) == before.holds_at(n, j) by {}
                    assert forall|n: Seq<char>| #[trigger]
                        after@.contains_key(n) == before@.insert(name@, key@).contains_key(n) by {
                        if n == name@ {
                            assert(after.holds_at(n, i as int));
                        }
                    }
                    assert forall|n: Seq<char>| after@.contains_key(n) implies #[trigger] after@[n]
                        == before@.insert(name@, key@)[n] by {
                        let j = choose|j: int| after.holds_at(n, j);
                        after.lemma_view_at(j);
                        if n != name@ {
                            before.lemma_view_at(j);
                        } else {
                            assert(after.holds_at(n, i as int));
                        }
                    }
                    assert(after@ =~= before@.insert(name@, key@));
                }
            },
            None => {
                entries.push((name, key));
                assert forall|a: int, b: int| 0 <= a < b < entries@.len() implies entries@[a].0@
                    != entries@[b].0@ by {
                    if b == entries@.len() - 1 {
                        assert(!before.holds_at(name@, a));
                    }
                }
                core::mem::swap(&mut self.entries, &mut entries);
                proof {
                    let after = *self;
                    let last = before.entries@.len() as int;
                    assert forall|n: Seq<char>| #[trigger]
                        after@.contains_key(n) == before@.insert(name@, key@).contains_key(n) by {
                        if n == name@ {
                            assert(after.holds_at(n, last));
                        } else if before@.contains_key(n) {
                            let j = choose|j: int| before.holds_at(n, j);
                            assert(after.holds_at(n, j));
                        } else if after@.contains_key(n) {
                            let j = choose|j: int| after.holds_at(n, j);
                            assert(before.holds_at(n, j));
                        }
                    }
                    assert forall|n: Seq<char>| after@.contains_key(n) implies #[trigger] after@[n]
                        == before@.insert(name@, key@)[n] by {
                        let j = choose|j: int| after.holds_at(n, j);
                        after.lemma_view_at(j);
                        if n != name@ {
                            assert(before.holds_at(n, j));
                            before.lemma_view_at(j);
                        } else {
                            assert(after.holds_at(n, last));
                        }
                    }
                    assert(after@ =~= before@.insert(name@, key@));
                }
            },
        }
    }

    /// Takes `name` out of the index and returns the key that it held for
    /// it.
    pub fn remove(&mut self, name: &str) -> (r: Option<Vec<u8>>)
        ensures
            final(self)@ == old(self)@.remove(name@),
            match r {
                Some(key) => old(self)@.contains_key(name@) && old(self)@[name@] == key@,
                None => !old(self)@.contains_key(name@),
            },
    {
        proof {
            use_type_invariant(&*self);
        }
        let ghost before = *self;
        match self.find(name) {
            Some(i) => {
                proof {
                    before.lemma_view_at(i as int);
                }
                let mut entries: Vec<(String, Vec<u8>)> = Vec::new();
                core::mem::swap(&mut self.entries, &mut entries);
                let removed = entries.remove(i);
                core::mem::swap(&mut self.entries, &mut entries);
                proof {
                    let after = *self;
                    assert forall|n: Seq<char>| #[trigger]
                        after@.contains_key(n) == before@.remove(name@).contains_key(n) by {
                        if after@.contains_key(n) {
                            let j = choose|j: int| after.holds_at(n, j);
                            if j < i {
                                assert(before.holds_at(n, j));
                            } else {
                                assert(before.holds_at(n, j + 1));
                            }
                        }
                        if before@.remove(name@).contains_key(n) {
                            let j = choose|j: int| before.holds_at(n, j);
                            if j < i {
                                assert(after.holds_at(n, j));
                            } else {
                                assert(after.holds_at(n, j - 1));
                            }
                        }
                    }
                    assert forall|n: Seq<char>| after@.contains_key(n) implies #[trigger] after@[n]
                        == before@.remove(name@)[n] by {
                        let j = choose|j: int| after.holds_at(n, j);
                        after.lemma_view_at(j);
                        if j < i {
                            before.lemma_view_at(j);
                        } else {
                            before.lemma_view_at(j + 1);
                        }
                    }
                    assert(after@ =~= before@.remove(name@));
                }
                Some(removed.1)
            },
            None => {
                assert(self@ =~= before@.remove(name@));
                None
            },
        }
    }

    /// The names that the index holds, each once.
    pub fn names(&self) -> (names: Vec<String>)
        ensures
            forall|i: int| 0 <= i < names@.len() ==> self@.contains_key(#[trigger] names@[i]@),
            forall|name: Seq<char>|
                self@.contains_key(name) ==> exists|i: int|
                    0 <= i < names@.len() && #[trigger] names@[i]@ == name,
            forall|i: int, j: int|
                0 <= i < j < names@.len() ==> #[trigger] names@[i]@ != #[trigger] names@[j]@,
    {
        proof {
            use_type_invariant(self);
        }
        let mut names: Vec<String> = Vec::new();
        let mut i: usize = 0;
        while i < self.entries.len()
            invariant
                i <= self.entries@.len(),
                names@.len() == i,
                forall|j: int| 0 <= j < i ==> #[trigger] names@[j]@ == self.entries@[j].0@,
            decreases self.entries@.len() - i,
        {
            names.push(self.entries[i].0.clone());
            i += 1;
        }
        proof {
            assert forall|j: int| 0 <= j < names@.len() implies self@.contains_key(
                #[trigger] names@[j]@,
            ) by {
                self.lemma_view_at(j);
            }
            assert forall|name: Seq<char>| self@.contains_key(name) implies exists|j: int|
                0 <= j < names@.len() && #[trigger] names@[j]@ == name by {
                let j = choose|j: int| self.holds_at(name, j);
                assert(names@[j]@ == name);
            }
        }
        names
    }

    /// How many names the index holds.
    pub fn len(&self) -> (n: usize)
        ensures
            n == self@.dom().len(),
            self@.dom().finite(),
    {
        proof {
            use_type_invariant(self);
            self.lemma_count(self.entries@.len() as int);
            assert(self.names_below(self.entries@.len() as int) =~= self@.dom());
        }
        self.entries.len()
    }

    spec fn names_below(&self, n: int) -> Set<Seq<char>> {
        Set::new(|name: Seq<char>| exists|i: int| 0 <= i < n && self.holds_at(name, i))
    }

    proof fn lemma_count(&self, n: int)
        requires
            self.names_differ(),
            0 <= n <= self.entries@.len(),
        ensures
            self.names_below(n).finite(),
            self.names_below(n).len() == n,
        decreases n,
    {
        if n == 0 {
            assert(self.names_below(0) =~= Set::<Seq<char>>::empty());
        } else {
            self.lemma_count(n - 1);
            let name = self.entries@[n - 1].0@;
            assert(self.holds_at(name, n - 1));
            assert(self.names_below(n) =~= self.names_below(n - 1).insert(name)) by {
                let shorter = self.names_below(n - 1);
                assert forall|m: Seq<char>| self.names_below(n).contains(m) implies shorter.insert(
                    name,
                ).contains(m) by {
                    let i = choose|i: int| 0 <= i < n && self.holds_at(m, i);
                    if i < n - 1 {
                        assert(self.names_below(n - 1).contains(m));
                    }
                }
            }
            assert(!self.names_below(n - 1).contains(name));
        }
    }
}

} // verus!
