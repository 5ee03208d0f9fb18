//! The tags of a server's endpoints, each with the position of its
//! endpoint.

use vstd::prelude::*;
use vstd::string::*;
use crate::ascii::str_eq;
use crate::tag::{lookup, Tag};

verus! {

/// A map from tags to positions.
#[derive(Clone, Debug, PartialEq, Eq)]
pub struct TagMap {
    entries: Vec<(Tag, usize)>,
}

impl View for TagMap {
    type V = Map<Seq<char>, usize>;

    closed spec fn view(&self) -> Map<Seq<char>, usize> {
        Map::new(
            |t: Seq<char>| self.holds(t),
            |t: Seq<char>| self.entries@[self.place(t)].1,
        )
    }
}

impl TagMap {
    /// Whether no tag stands twice among the entries.
    pub closed spec fn wf(&self) -> bool {
        forall|i: int, j: int|
            0 <= i < j < self.entries@.len() ==> self.entries@[i].0@ != self.entries@[j].0@
    }

    closed spec fn at(&self, k: int, tag: Seq<char>) -> bool {
        0 <= k < self.entries@.len() && self.entries@[k].0@ == tag
    }

    closed spec fn holds(&self, tag: Seq<char>) -> bool {
        exists|k: int| self.at(k, tag)
    }

    closed spec fn place(&self, tag: Seq<char>) -> int {
        choose|k: int| self.at(k, tag)
    }

    proof fn lemma_one_place(&self, i: int, j: int, tag: Seq<char>)
        requires
            self.wf(),
            self.at(i, tag),
            self.at(j, tag),
        ensures
            i == j,
    {
        if i < j {
            assert(self.entries@[i].0@ != self.entries@[j].0@);
        } else if j < i {
            assert(self.entries@[j].0@ != self.entries@[i].0@);
        }
    }

    /// A map without entries.
    pub fn new() -> (r: TagMap)
        ensures
            r.wf(),
            r@ == Map::<Seq<char>, usize>::empty(),
    {
        let r = TagMap { entries: Vec::new() };
        assert(r@ =~= Map::<Seq<char>, usize>::empty()) by {
            assert forall|t: Seq<char>| !r.holds(t) by {
                assert forall|k: int| !r.at(k, t) by {}
            }
        }
        r
    }

    fn find(&self, tag: &str) -> (r: Option<usize>)
        ensures
            match r {
                Some(k) => self.at(k as int, tag@),
                None => !self.holds(tag@),
            },
    {
        let mut k: usize = 0;
        while k < self.entries.len()
            invariant
                k <= self.entries@.len(),
                forall|j: int| 0 <= j < k ==> !self.at(j, tag@),
            decreases self.entries.len() - k,
        {
            if str_eq(self.entries[k].0.as_str(), tag) {
                return Some(k);
            }
            k += 1;
        }
        assert forall|j: int| !self.at(j, tag@) by {}
        None
    }

    /// The position that the map has for `tag`, if it has one.
    pub fn get(&self, tag: &str) -> (r: Option<usize>)
        requires
            self.wf(),
        ensures
            r == lookup(self@, tag@),
    {
        match self.find(tag) {
            Some(k) => {
                assert(self.holds(tag@));
                assert(self.at(self.place(tag@), tag@));
                proof {
                    self.lemma_one_place(k as int, self.place(tag@), tag@);
                }
                Some(self.entries[k].1)
            },
            None => None,
        }
    }

    /// Sets the position of `tag` to `ind`. Gives the position that the
    /// map had for it before, if it had one.
    pub fn insert(&mut self, tag: Tag, ind: usize) -> (r: Option<usize>)
        requires
            old(self).wf(),
        ensures
            final(self).wf(),
            r == lookup(old(self)@, tag@),
            final(self)@ == old(self)@.insert(tag@, ind),
    {
        let found = self.find(tag.as_str());
        let ghost before = *self;
        let ghost key = tag@;
        let r = match found {
            Some(k) => {
                assert(before.holds(key));
                assert(before.at(before.place(key), key));
                proof {
                    before.lemma_one_place(k as int, before.place(key), key);
                }
                let previous = self.entries[k].1;
                self.entries.set(k, (tag, ind));
                Some(previous)
            },
            None => {
                self.entries.push((tag, ind));
                None
            },
        };
        proof {
            let after = *self;
            assert forall|j: int, t: Seq<char>| after.at(j, t) && t != key implies before.at(
                j,
                t,
            ) by {}
            assert forall|j: int, t: Seq<char>| before.at(j, t) && t != key implies after.at(
                j,
                t,
            ) by {}
            let fresh = match found {
                Some(k) => k as int,
                None => before.entries@.len() as int,
            };
            assert(after.at(fresh, key));
            assert forall|j: int| after.at(j, key) implies j == fresh by {
                if j != fresh {
                    assert(before.at(j, key));
                    if found is Some {
                        before.lemma_one_place(j, fresh, key);
                    }
                }
            }
            assert(after.wf()) by {
                assert forall|i: int, j: int| 0 <= i < j < after.entries@.len() implies after.entries@[i].0@
                    != after.entries@[j].0@ by {
                    let t = after.entries@[i].0@;
                    if after.entries@[j].0@ == t {
                        assert(after.at(i, t) && after.at(j, t));
                        if t != key {
                            before.lemma_one_place(i, j, t);
                        }
                    }
                }
            }
            assert forall|t: Seq<char>| after.holds(t) <==> (t == key || before.holds(t)) by {
                if after.holds(t) && t != key {
                    assert(before.at(after.place(t), t));
                }
                if t != key && before.holds(t) {
                    assert(after.at(before.place(t), t));
                }
            }
            assert forall|t: Seq<char>| after.holds(t) implies #[trigger] after@[t] == (if t == key {
                ind
            } else {
                before@[t]
            }) by {
                let k = after.place(t);
                assert(after.at(k, t));
                if t != key {
                    assert(before.at(k, t));
                    assert(before.at(before.place(t), t));
                    before.lemma_one_place(k, before.place(t), t);
                }
            }
            assert(after@ =~= before@.insert(key, ind));
        }
        r
    }
}

} // verus!
