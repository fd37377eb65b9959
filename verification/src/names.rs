//! A set of session names.

use crate::frame::text_views;
use vstd::prelude::*;

verus! {

/// A set of names.
#[derive(Debug)]
pub struct NameSet {
    names: Vec<String>,
}

impl View for NameSet {
    type V = Set<Seq<char>>;

    closed spec fn view(&self) -> Set<Seq<char>> {
        text_views(self.names@).to_set()
    }
}

impl NameSet {
    /// No name is listed twice.
    #[verifier::type_invariant]
    spec fn lists_names_once(self) -> bool {
        text_views(self.names@).no_duplicates()
    }

    /// The set without any name.
    pub fn new() -> (set: NameSet)
        ensures
            set@ == Set::<Seq<char>>::empty(),
    {
        let names: Vec<String> = Vec::new();
        assert(text_views(names@).to_set() =~= Set::empty());
        NameSet { names }
    }

    /// Where a name is listed.
    fn position(&self, name: &str) -> (place: Option<usize>)
        ensures
            match place {
                Some(at) => at < self.names.len() && self.names@[at as int]@ == name@,
                None => forall|i: int| 0 <= i < self.names.len() ==> #[trigger] self.names@[i]@
                    != name@,
            },
    {
        let mut at: usize = 0;
        while at < self.names.len()
            invariant
                at <= self.names.len(),
                forall|i: int| 0 <= i < at ==> #[trigger] self.names@[i]@ != name@,
            decreases self.names.len() - at,
        {
            if *self.names[at].as_str() == *name {
                return Some(at);
            }
            at = at + 1;
        }
        None
    }

    /// Tells whether a name is in the set.
    pub fn contains(&self, name: &str) -> (found: bool)
        ensures
            found == self@.contains(name@),
    {
        match self.position(name) {
            Some(at) => {
                assert(text_views(self.names@)[at as int] == name@);
                true
            },
            None => {
                proof {
                    if text_views(self.names@).contains(name@) {
                        let i = text_views(self.names@).index_of(name@);
                        assert(self.names@[i]@ == name@);
                    }
                }
                false
            },
        }
    }

    /// Puts a name into the set.
    pub fn insert(&mut self, name: String)
        ensures
            final(self)@ == old(self)@.insert(name@),
    {
        let found = self.contains(name.as_str());
        let ghost before = text_views(self.names@);
        if found {
            assert(before.to_set() =~= before.to_set().insert(name@));
        } else {
            proof {
                use_type_invariant(&*self);
            }
            let mut names: Vec<String> = Vec::new();
            std::mem::swap(&mut names, &mut self.names);
            let ghost text = name@;
            names.push(name);
            proof {
                assert(text_views(names@) =~= before.push(text));
                assert(!before.contains(text));
                assert forall|n: Seq<char>|
                    before.push(text).to_set().contains(n) == before.to_set().insert(
                        text,
                    ).contains(n) by {
                    if before.contains(n) {
                        let i = before.index_of(n);
                        assert(before.push(text)[i] == n);
                    }
                    assert(before.push(text)[before.len() as int] == text);
                    if before.push(text).contains(n) && n != text {
                        let i = before.push(text).index_of(n);
                        assert(before[i] == n);
                    }
                }
                assert(before.push(text).to_set() =~= before.to_set().insert(text));
            }
            self.names = names;
        }
    }

    /// Takes a name out of the set and tells whether it was there.
    pub fn remove(&mut self, name: &str) -> (found: bool)
        ensures
            found == old(self)@.contains(name@),
            final(self)@ == old(self)@.remove(name@),
    {
        let ghost before = text_views(self.names@);
        proof {
            use_type_invariant(&*self);
        }
        match self.position(name) {
            Some(at) => {
                let mut names: Vec<String> = Vec::new();
                std::mem::swap(&mut names, &mut self.names);
                names.remove(at);
                proof {
                    assert(before[at as int] == name@);
                    assert(text_views(names@) =~= before.remove(at as int));
                    assert forall|n: Seq<char>|
                        before.remove(at as int).to_set().contains(n) == before.to_set().remove(
                            name@,
                        ).contains(n) by {
                        if before.remove(at as int).contains(n) {
                            let i = before.remove(at as int).index_of(n);
                            let j = if i < at { i } else { i + 1 };
                            assert(before[j] == n);
                        }
                        if before.contains(n) && n != name@ {
                            let i = before.index_of(n);
                            let j = if i < at { i } else { i - 1 };
                            assert(before.remove(at as int)[j] == n);
                        }
                    }
                    assert(before.remove(at as int).to_set() =~= before.to_set().remove(name@));
                }
                self.names = names;
                true
            },
            None => {
                proof {
                    if before.contains(name@) {
                        let i = before.index_of(name@);
                        assert(self.names@[i]@ == name@);
                    }
                    assert(before.to_set() =~= before.to_set().remove(name@));
                }
                false
            },
        }
    }
}

} // verus!
