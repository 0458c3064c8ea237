//! Tags: a name with a sign, `+name` to add or match, `-name` to remove or exclude.

use vstd::prelude::*;
use crate::text::{string_views, str_eq};

verus! {

/// Whether a tag is added (`+`) or removed (`-`).
#[derive(Debug, Clone, Copy, PartialEq, Eq, Structural)]
pub enum Sign {
    Plus,
    Minus,
}

/// A signed tag name.
#[derive(Debug, Clone, PartialEq, Eq)]
pub struct Tag {
    pub sign: Sign,
    pub name: String,
}

/// A set of tag names, held without repetition.
#[derive(Debug, PartialEq, Eq)]
pub struct TagSet {
    names: Vec<String>,
}

impl View for TagSet {
    type V = Set<Seq<char>>;

    closed spec fn view(&self) -> Set<Seq<char>> {
        string_views(self.names@).to_set()
    }
}

impl TagSet {
    #[verifier::type_invariant]
    spec fn distinct(self) -> bool {
        forall|i: int, j: int|
            0 <= i < j < self.names@.len() ==> #[trigger] self.names@[i]@ != #[trigger] self.names@[j]@
    }

    /// A copy of this set.
    pub fn duplicate(&self) -> (r: TagSet)
        ensures
            r@ == self@,
            r.names_view() == self.names_view(),
    {
        proof {
            use_type_invariant(self);
        }
        let mut names: Vec<String> = Vec::new();
        let mut i: usize = 0;
        while i < self.names.len()
            invariant
                i <= self.names@.len(),
                names@.len() == i,
                forall|k: int| 0 <= k < i ==> #[trigger] names@[k]@ == self.names@[k]@,
                forall|a: int, b: int|
                    0 <= a < b < self.names@.len() ==> #[trigger] self.names@[a]@ != #[trigger] self.names@[b]@,
            decreases self.names.len() - i,
        {
            names.push(self.names[i].clone());
            i = i + 1;
        }
        proof {
            assert(string_views(names@) =~= string_views(self.names@));
        }
        TagSet { names }
    }

    /// The names, in the order they were first inserted.
    pub closed spec fn names_view(self) -> Seq<Seq<char>> {
        string_views(self.names@)
    }

    proof fn lemma_view(self)
        ensures
            forall|s: Seq<char>| #[trigger] self@.contains(s) <==> exists|i: int|
                0 <= i < self.names@.len() && self.names@[i]@ == s,
            self.names_view().len() == self.names@.len(),
            forall|i: int| 0 <= i < self.names@.len() ==> #[trigger] self.names_view()[i] == self.names@[i]@,
    {
        assert forall|s: Seq<char>| #[trigger] self@.contains(s) <==> exists|i: int|
            0 <= i < self.names@.len() && self.names@[i]@ == s by {
            if self@.contains(s) {
                let i = choose|i: int| 0 <= i < string_views(self.names@).len() && string_views(self.names@)[i] == s;
                assert(self.names@[i]@ == s);
            }
            if exists|i: int| 0 <= i < self.names@.len() && self.names@[i]@ == s {
                let i = choose|i: int| 0 <= i < self.names@.len() && self.names@[i]@ == s;
                assert(string_views(self.names@)[i] == s);
            }
        }
    }

    /// The empty set.
    pub fn new() -> (r: TagSet)
        ensures
            r@ == Set::<Seq<char>>::empty(),
            r@.finite(),
    {
        let r = TagSet { names: Vec::new() };
        assert(r@ =~= Set::<Seq<char>>::empty()) by {
            r.lemma_view();
        }
        r
    }

    /// The position of `name`, if present.
    fn position(&self, name: &str) -> (r: Option<usize>)
        ensures
            r matches Some(i) ==> i < self.names@.len() && self.names@[i as int]@ == name@,
            r is None ==> forall|i: int| 0 <= i < self.names@.len() ==> self.names@[i]@ != name@,
    {
        let mut i: usize = 0;
        while i < self.names.len()
            invariant
                i <= self.names@.len(),
                forall|k: int| 0 <= k < i ==> self.names@[k]@ != name@,
            decreases self.names.len() - i,
        {
            if str_eq(self.names[i].as_str(), name) {
                return Some(i);
            }
            i = i + 1;
        }
        None
    }

    /// Whether `name` is in the set.
    pub fn contains(&self, name: &str) -> (r: bool)
        ensures
            r == self@.contains(name@),
    {
        proof {
            self.lemma_view();
        }
        self.position(name).is_some()
    }

    /// Adds `name` to the set.
    pub fn insert(&mut self, name: String)
        ensures
            final(self)@ == old(self)@.insert(name@),
    {
        proof {
            use_type_invariant(&*self);
            self.lemma_view();
        }
        if self.position(name.as_str()).is_none() {
            let ghost before = self.names@;
            let ghost nv = name@;
            let mut names: Vec<String> = Vec::new();
            std::mem::swap(&mut names, &mut self.names);
            names.push(name);
            proof {
                assert forall|a: int, b: int|
                    0 <= a < b < names@.len() implies #[trigger] names@[a]@ != #[trigger] names@[b]@ by {
                    if b == names@.len() - 1 {
                        assert(names@[a] == before[a]);
                    } else {
                        assert(names@[a] == before[a]);
                        assert(names@[b] == before[b]);
                    }
                }
            }
            self.names = names;
            proof {
                self.lemma_view();
                assert(self.names@ == before.push(self.names@.last()));
                assert forall|s: Seq<char>| #[trigger] self@.contains(s) <==> old(self)@.insert(nv).contains(s) by {
                    if self@.contains(s) {
                        let i = choose|i: int| 0 <= i < self.names@.len() && self.names@[i]@ == s;
                        if i < before.len() {
                            assert(old(self).names@[i]@ == s);
                        }
                    }
                    if old(self)@.insert(nv).contains(s) && s != nv {
                        let i = choose|i: int| 0 <= i < before.len() && before[i]@ == s;
                        assert(self.names@[i]@ == s);
                    }
                    if s == nv {
                        assert(self.names@[before.len() as int]@ == s);
                    }
                }
                assert(self@ =~= old(self)@.insert(nv));
            }
        } else {
            assert(old(self)@.insert(name@) =~= old(self)@);
        }
    }

    /// Removes `name` from the set.
    pub fn remove(&mut self, name: &str)
        ensures
            final(self)@ == old(self)@.remove(name@),
    {
        proof {
            use_type_invariant(&*self);
            self.lemma_view();
        }
        match self.position(name) {
            Some(i) => {
                let ghost before = self.names@;
                let mut names: Vec<String> = Vec::new();
                std::mem::swap(&mut names, &mut self.names);
                names.remove(i);
                proof {
                    assert forall|a: int, b: int|
                        0 <= a < b < names@.len() implies #[trigger] names@[a]@ != #[trigger] names@[b]@ by {
                        let a2 = if a < i { a } else { a + 1 };
                        let b2 = if b < i { b } else { b + 1 };
                        assert(names@[a] == before[a2]);
                        assert(names@[b] == before[b2]);
                        assert(a2 < b2);
                    }
                }
                self.names = names;
                proof {
                    self.lemma_view();
                    assert(self.names@ == before.remove(i as int));
                    assert forall|s: Seq<char>| #[trigger] self@.contains(s) <==> old(self)@.remove(name@).contains(s) by {
                        if self@.contains(s) {
                            let k = choose|k: int| 0 <= k < self.names@.len() && self.names@[k]@ == s;
                            if k < i {
                                assert(before[k]@ == s);
                                assert(k != i);
                            } else {
                                assert(before[k + 1]@ == s);
                            }
                        }
                        if old(self)@.remove(name@).contains(s) {
                            let k = choose|k: int| 0 <= k < before.len() && before[k]@ == s;
                            assert(k != i);
                            if k < i {
                                assert(self.names@[k]@ == s);
                            } else {
                                assert(self.names@[k - 1]@ == s);
                            }
                        }
                    }
                    assert(self@ =~= old(self)@.remove(name@));
                }
            },
            None => {
                assert(old(self)@.remove(name@) =~= old(self)@);
            },
        }
    }

    /// The number of names in the set.
    pub fn len(&self) -> (r: usize)
        ensures
            r == self.names_view().len(),
    {
        proof {
            self.lemma_view();
        }
        self.names.len()
    }

    /// The names in the set, in the order of their insertion.
    pub fn names(&self) -> (r: &Vec<String>)
        ensures
            string_views(r@) == self.names_view(),
            string_views(r@).to_set() == self@,
            forall|i: int, j: int| 0 <= i < j < r@.len() ==> #[trigger] r@[i]@ != #[trigger] r@[j]@,
    {
        proof {
            use_type_invariant(self);
        }
        &self.names
    }
}

} // verus!

verus! {

impl Clone for TagSet {
    fn clone(&self) -> (r: Self)
        ensures
            r@ == self@,
    {
        self.duplicate()
    }
}

} // verus!
