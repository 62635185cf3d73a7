//! The in-flight set: item ids whose download is currently running.
//!
//! Membership in this set is the at-most-one-download-per-item guard: a
//! request is accepted only when its id is absent, and evicting an id is how
//! an external cancellation request reaches a running transfer, which checks
//! membership at every chunk boundary.

use vstd::prelude::*;

verus! {

/// The set of item ids currently being downloaded.
pub struct InFlightQueue {
    ids: Vec<u32>,
}

impl View for InFlightQueue {
    type V = Seq<u32>;

    closed spec fn view(&self) -> Seq<u32> {
        self.ids@
    }
}

/// The set with every occurrence of the id dropped, other ids keeping
/// their order.
pub open spec fn without_id(s: Seq<u32>, id: u32) -> Seq<u32> {
    s.filter(|x: u32| x != id)
}

/// What a successful acceptance does to the in-flight set, and whether it is
/// granted: an id already present is refused, anything else is appended.
pub open spec fn spec_accept(s: Seq<u32>, id: u32) -> (Seq<u32>, bool) {
    if s.contains(id) {
        (s, false)
    } else {
        (s.push(id), true)
    }
}

impl InFlightQueue {
    pub fn new() -> (q: Self)
        ensures
            q@ == Seq::<u32>::empty(),
    {
        InFlightQueue { ids: Vec::new() }
    }

    /// Membership test; the cancellation signal is the negation of this.
    pub fn contains(&self, id: u32) -> (r: bool)
        ensures
            r == self@.contains(id),
    {
        let mut i: usize = 0;
        while i < self.ids.len()
            invariant
                i <= self.ids.len(),
                forall|j: int| 0 <= j < i ==> self.ids@[j] != id,
            decreases self.ids.len() - i,
        {
            if self.ids[i] == id {
                return true;
            }
            i += 1;
        }
        false
    }

    /// Test-and-insert: accept the id unless a download for it is already in
    /// flight.  Returns whether the id was accepted.
    pub fn accept(&mut self, id: u32) -> (r: bool)
        ensures
            (final(self)@, r) == spec_accept(old(self)@, id),
            r == !old(self)@.contains(id),
    {
        if self.contains(id) {
            false
        } else {
            self.ids.push(id);
            true
        }
    }

    /// Remove every occurrence of the id from the set.  Other ids keep their
    /// membership; the evicted id is gone.
    pub fn evict(&mut self, id: u32)
        ensures
            final(self)@ == without_id(old(self)@, id),
            forall|x: u32| final(self)@.contains(x) == (old(self)@.contains(x) && x != id),
            !old(self)@.contains(id) ==> final(self)@ == old(self)@,
    {
        let ghost orig = self.ids@;
        let mut kept: Vec<u32> = Vec::new();
        let mut i: usize = 0;
        proof {
            reveal_with_fuel(Seq::<u32>::filter, 2);
            assert(orig.subrange(0, 0).len() == 0);
        }
        while i < self.ids.len()
            invariant
                i <= self.ids.len(),
                self.ids@ == orig,
                forall|x: u32| kept@.contains(x) == (orig.subrange(0, i as int).contains(x) && x != id),
                kept@ == without_id(orig.subrange(0, i as int), id),
                (forall|j: int| 0 <= j < i ==> orig[j] != id) ==> kept@ == orig.subrange(0, i as int),
            decreases self.ids.len() - i,
        {
            let ghost kept_before = kept@;
            if self.ids[i] != id {
                kept.push(self.ids[i]);
            }
            proof {
                broadcast use vstd::seq_lib::lemma_seq_contains_after_push;

                reveal_with_fuel(Seq::<u32>::filter, 2);
                let pre = orig.subrange(0, i as int);
                let post = orig.subrange(0, i + 1);
                assert(post =~= pre.push(orig[i as int]));
                assert(post.drop_last() == pre);
                assert(post.last() == orig[i as int]);
            }
            i += 1;
        }
        proof {
            assert(orig.subrange(0, orig.len() as int) == orig);
        }
        self.ids = kept;
    }
}

/// At most one download per item: when an id is accepted into an in-flight
/// set that did not hold it, a second acceptance request for the same id,
/// arriving before the first download pops it, is refused.
pub proof fn lemma_at_most_one_in_flight(s: Seq<u32>, id: u32)
    requires
        !s.contains(id),
    ensures
        spec_accept(s, id).1,
        !spec_accept(spec_accept(s, id).0, id).1,
{
    let s1 = spec_accept(s, id).0;
    assert(s1 == s.push(id));
    assert(s1[s1.len() - 1] == id);
    assert(s1.contains(id));
}

} // verus!
