//! The mutual-exclusion store: one advisory lock marker per source
//! identifier. A marker's presence means "a capture for this source is
//! believed in progress"; its absence is the only signal that makes a
//! source eligible for dispatch.
//!
//! This is the in-memory store. A durable backend mirrors it one marker
//! per identifier; since startup recovery clears every durable marker
//! before the first cycle, the in-memory store stays faithful to the
//! durable one for the life of the process.

use vstd::prelude::*;

verus! {

/// The set of advisory lock markers, keyed by source identifier.
pub struct LockSet {
    ids: Vec<String>,
}

impl View for LockSet {
    type V = Set<Seq<char>>;

    /// The identifiers that currently hold a marker.
    closed spec fn view(&self) -> Set<Seq<char>> {
        Set::new(|k: Seq<char>| exists|i: int| 0 <= i < self.ids@.len() && self.ids@[i]@ == k)
    }
}

impl LockSet {
    /// Each identifier holds at most one marker.
    pub closed spec fn wf(&self) -> bool {
        forall|i: int, j: int|
            0 <= i < j < self.ids@.len() ==> self.ids@[i]@ != self.ids@[j]@
    }

    /// An empty store: no source is locked.
    pub fn new() -> (r: LockSet)
        ensures
            r.wf(),
            r@ == Set::<Seq<char>>::empty(),
    {
        let r = LockSet { ids: Vec::new() };
        proof {
            assert(r@ =~= Set::<Seq<char>>::empty());
        }
        r
    }

    /// True iff a marker for `id` is currently present.
    pub fn is_locked(&self, id: &String) -> (r: bool)
        ensures
            r == self@.contains(id@),
    {
        let n = self.ids.len();
        let mut i: usize = 0;
        while i < n
            invariant
                n == self.ids@.len(),
                0 <= i <= n,
                forall|j: int| 0 <= j < i ==> self.ids@[j]@ != id@,
            decreases n - i,
        {
            if self.ids[i] == *id {
                return true;
            }
            i += 1;
        }
        false
    }

    /// Creates the marker for `id`; creating one that is already present
    /// leaves the store unchanged.
    pub fn acquire(&mut self, id: &String)
        requires
            old(self).wf(),
        ensures
            final(self).wf(),
            final(self)@ == old(self)@.insert(id@),
    {
        if !self.is_locked(id) {
            let ghost before = self.ids@;
            self.ids.push(id.clone());
            proof {
                assert forall|k: Seq<char>| final(self)@.contains(k)
                    <==> old(self)@.insert(id@).contains(k) by {
                    if old(self)@.insert(id@).contains(k) {
                        if k == id@ {
                            assert(self.ids@[before.len() as int]@ == k);
                        } else {
                            let i = choose|i: int|
                                0 <= i < before.len() && before[i]@ == k;
                            assert(self.ids@[i]@ == k);
                        }
                    }
                }
                assert(final(self)@ =~= old(self)@.insert(id@));
            }
        } else {
            proof {
                assert(final(self)@ =~= old(self)@.insert(id@));
            }
        }
    }

    /// Removes the marker for `id`; removing an absent marker leaves the
    /// store unchanged. After the call the source is eligible again.
    pub fn release(&mut self, id: &String)
        requires
            old(self).wf(),
        ensures
            final(self).wf(),
            final(self)@ == old(self)@.remove(id@),
            !final(self)@.contains(id@),
    {
        let n = self.ids.len();
        let mut i: usize = 0;
        while i < n
            invariant
                n == self.ids@.len(),
                0 <= i <= n,
                old(self) == self,
                old(self).wf(),
                forall|j: int| 0 <= j < i ==> self.ids@[j]@ != id@,
            decreases n - i,
        {
            if self.ids[i] == *id {
                let ghost before = self.ids@;
                let ghost pos = i as int;
                self.ids.remove(i);
                proof {
                    before.remove_ensures(pos);
                    assert(before[pos]@ == id@);
                    assert forall|a: int, b: int|
                        0 <= a < b < self.ids@.len()
                        implies self.ids@[a]@ != self.ids@[b]@ by {
                        let a0 = if a < pos { a } else { a + 1 };
                        let b0 = if b < pos { b } else { b + 1 };
                        assert(self.ids@[a]@ == before[a0]@);
                        assert(self.ids@[b]@ == before[b0]@);
                        assert(before[a0]@ != before[b0]@);
                    }
                    assert forall|k: Seq<char>| final(self)@.contains(k)
                        <==> old(self)@.remove(id@).contains(k) by {
                        if final(self)@.contains(k) {
                            let a = choose|a: int|
                                0 <= a < self.ids@.len() && self.ids@[a]@ == k;
                            let a0 = if a < pos { a } else { a + 1 };
                            assert(before[a0]@ == k);
                            assert(a0 != pos);
                            if a0 < pos {
                                assert(before[a0]@ != before[pos]@);
                            } else {
                                assert(before[pos]@ != before[a0]@);
                            }
                            assert(k != id@);
                        }
                        if old(self)@.remove(id@).contains(k) {
                            let a0 = choose|a0: int|
                                0 <= a0 < before.len() && before[a0]@ == k;
                            assert(a0 != pos);
                            let a = if a0 < pos { a0 } else { a0 - 1 };
                            assert(self.ids@[a]@ == k);
                        }
                    }
                    assert(final(self)@ =~= old(self)@.remove(id@));
                }
                return;
            }
            i += 1;
        }
        proof {
            assert(!old(self)@.contains(id@));
            assert(final(self)@ =~= old(self)@.remove(id@));
        }
    }

    /// Removes every marker. Run once at process start: any marker still
    /// present then is necessarily stale, since no job of a prior process
    /// instance can still be running.
    pub fn clear_all(&mut self)
        ensures
            final(self).wf(),
            final(self)@ == Set::<Seq<char>>::empty(),
            forall|k: Seq<char>| !final(self)@.contains(k),
    {
        self.ids = Vec::new();
        proof {
            assert(final(self)@ =~= Set::<Seq<char>>::empty());
        }
    }
}

} // verus!
