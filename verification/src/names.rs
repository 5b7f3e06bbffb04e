//! Sets of names.

use vstd::prelude::*;

use crate::text;

verus! {

/// A set of names.
#[derive(Debug)]
pub struct NameSet {
    names: Vec<String>,
}

impl View for NameSet {
    type V = Set<Seq<char>>;

    closed spec fn view(&self) -> Set<Seq<char>> {
        text::strings(self.names@).to_set()
    }
}

impl NameSet {
    /// Whether no name is kept twice.
    pub closed spec fn wf(&self) -> bool {
        text::strings(self.names@).no_duplicates()
    }

    /// A set without names.
    pub fn new() -> (r: NameSet)
        ensures
            r.wf(),
            r@ == Set::<Seq<char>>::empty(),
    {
        let r = NameSet { names: Vec::new() };
        assert(r@ =~= Set::<Seq<char>>::empty());
        r
    }

    /// Where a name is kept, if it is.
    fn index_of(&self, name: &str) -> (r: Option<usize>)
        ensures
            match r {
                Some(i) => i < self.names@.len() && self.names@[i as int]@ == name@,
                None => !self@.contains(name@),
            },
    {
        let wanted = text::chars_of(name);
        for i in 0..self.names.len()
            invariant
                wanted@ == name@,
                forall|j: int| 0 <= j < i ==> self.names@[j]@ != name@,
        {
            let have = text::chars_of(self.names[i].as_str());
            if text::same(have.as_slice(), wanted.as_slice()) {
                return Some(i);
            }
        }
        None
    }

    /// Whether the set holds a name.
    pub fn contains(&self, name: &str) -> (r: bool)
        ensures
            r == self@.contains(name@),
    {
        match self.index_of(name) {
            Some(i) => {
                assert(text::strings(self.names@)[i as int] == name@);
                true
            },
            None => false,
        }
    }

    /// Puts a name into the set.
    pub fn insert(&mut self, name: &str)
        requires
            old(self).wf(),
        ensures
            final(self).wf(),
            final(self)@ == old(self)@.insert(name@),
    {
        if self.contains(name) {
            assert(self@.insert(name@) =~= self@);
            return;
        }
        let ghost was = text::strings(self.names@);
        self.names.push(name.to_owned());
        proof {
            let now = text::strings(self.names@);
            assert(now =~= was.push(name@));
            assert forall|x: Seq<char>| self@.contains(x) == was.to_set().insert(name@).contains(
                x,
            ) by {
                if was.contains(x) {
                    let i = choose|i: int| 0 <= i < was.len() && was[i] == x;
                    assert(now[i] == x);
                }
                assert(now[was.len() as int] == name@);
            }
            assert(self@ =~= was.to_set().insert(name@));
        }
    }

    /// Takes a name out of the set.
    pub fn remove(&mut self, name: &str)
        requires
            old(self).wf(),
        ensures
            final(self).wf(),
            final(self)@ == old(self)@.remove(name@),
    {
        let ghost was = text::strings(self.names@);
        match self.index_of(name) {
            Some(i) => {
                let _ = self.names.remove(i);
                proof {
                    let now = text::strings(self.names@);
                    assert(was[i as int] == name@);
                    assert(now =~= was.remove(i as int));
                    assert forall|x: Seq<char>| #[trigger] now.contains(x) == (was.contains(x)
                        && x != name@) by {
                        if was.contains(x) && x != name@ {
                            let j = choose|j: int| 0 <= j < was.len() && was[j] == x;
                            assert(now[if j < i { j } else { j - 1 }] == x);
                        }
                        if now.contains(x) {
                            let j = choose|j: int| 0 <= j < now.len() && now[j] == x;
                            assert(was[if j < i { j } else { j + 1 }] == x);
                        }
                    }
                    assert(self@ =~= was.to_set().remove(name@));
                }
            },
            None => {
                assert(self@.remove(name@) =~= self@);
            },
        }
    }
}

} // verus!
