//! Which segments of a long message have arrived.

use std::collections::HashSet;
use vstd::prelude::*;

verus! {

broadcast use vstd::std_specs::hash::group_hash_axioms;

/// The segments of one long message that have arrived.
#[derive(Debug)]
pub struct SegmentBitmap {
    total_segments: u8,
    received: HashSet<u8>,
}

/// The members of `set` below `bound`, in ascending order.
pub open spec fn ascending(set: Set<u8>, bound: nat) -> Seq<u8>
    decreases bound,
{
    if bound == 0 {
        Seq::empty()
    } else if set.contains((bound - 1) as u8) {
        ascending(set, (bound - 1) as nat).push((bound - 1) as u8)
    } else {
        ascending(set, (bound - 1) as nat)
    }
}

impl SegmentBitmap {
    /// How many segments the message has.
    pub closed spec fn total(&self) -> u8 {
        self.total_segments
    }

    /// The segments that have arrived.
    pub closed spec fn received(&self) -> Set<u8> {
        self.received@
    }

    /// Tracks a message of `total_segments` segments, none of which has arrived.
    pub fn new(total_segments: u8) -> (bitmap: Self)
        ensures
            bitmap.total() == total_segments,
            bitmap.received() == Set::<u8>::empty(),
    {
        SegmentBitmap { total_segments, received: HashSet::new() }
    }

    /// Notes a segment. Says whether it is the first time.
    pub fn mark_received(&mut self, segment: u8) -> (first: bool)
        ensures
            first == !old(self).received().contains(segment),
            final(self).received() == old(self).received().insert(segment),
            final(self).total() == old(self).total(),
    {
        self.received.insert(segment)
    }

    /// Whether a segment has arrived.
    pub fn is_received(&self, segment: u8) -> (yes: bool)
        ensures
            yes == self.received().contains(segment),
    {
        self.received.contains(&segment)
    }

    /// Whether as many segments have arrived as the message has.
    pub fn is_complete(&self) -> (yes: bool)
        ensures
            yes == (self.received().len() >= self.total()),
    {
        self.received.len() >= self.total_segments as usize
    }

    /// How many segments are missing.
    pub fn missing_count(&self) -> (count: usize)
        requires
            self.received().len() <= self.total(),
        ensures
            count == self.total() - self.received().len(),
    {
        self.total_segments as usize - self.received.len()
    }

    /// How many segments have arrived.
    pub fn received_count(&self) -> (count: usize)
        ensures
            count == self.received().len(),
    {
        self.received.len()
    }

    /// The segments that have arrived, in ascending order.
    pub fn all_received(&self) -> (segments: Vec<u8>)
        ensures
            segments@ == ascending(self.received(), 256),
    {
        let mut segments: Vec<u8> = Vec::new();
        let mut n: u16 = 0;
        while n < 256
            invariant
                n <= 256,
                segments@ == ascending(self.received(), n as nat),
            decreases 256 - n,
        {
            if self.received.contains(&(n as u8)) {
                segments.push(n as u8);
            }
            n = n + 1;
        }
        segments
    }
}

/// A set of bytes is finite.
pub proof fn lemma_finite(set: Set<u8>, bound: nat)
    requires
        bound <= 256,
    ensures
        set.filter(|x: u8| x < bound).finite(),
        bound == 256 ==> set.finite(),
    decreases bound,
{
    let below = set.filter(|x: u8| x < bound);
    if bound == 0 {
        assert(below =~= Set::<u8>::empty());
    } else {
        let last = (bound - 1) as u8;
        let rest = set.filter(|x: u8| x < bound - 1);
        lemma_finite(set, (bound - 1) as nat);
        assert(rest == set.filter(|x: u8| x < (bound - 1) as nat));
        if set.contains(last) {
            assert(below =~= rest.insert(last));
        } else {
            assert(below =~= rest);
        }
    }
    if bound == 256 {
        assert(below =~= set);
    }
}

impl Clone for SegmentBitmap {
    fn clone(&self) -> (copy: Self)
        ensures
            copy.total() == self.total(),
            copy.received() == self.received(),
    {
        let mut copy = SegmentBitmap::new(self.total_segments);
        let mut n: u16 = 0;
        while n < 256
            invariant
                n <= 256,
                copy.total() == self.total(),
                forall|x: u8|
                    #[trigger] copy.received().contains(x) <==> x < n && self.received().contains(x),
            decreases 256 - n,
        {
            if self.is_received(n as u8) {
                copy.mark_received(n as u8);
            }
            n = n + 1;
        }
        assert(copy.received() =~= self.received());
        copy
    }
}

/// The members listed are those of the set below the bound, each before every larger one.
pub proof fn law_ascending(set: Set<u8>, bound: nat)
    requires
        bound <= 256,
    ensures
        forall|x: u8| #[trigger] ascending(set, bound).contains(x) <==> set.contains(x) && x < bound,
        forall|i: int, j: int|
            0 <= i < j < ascending(set, bound).len() ==> ascending(set, bound)[i] < ascending(
                set,
                bound,
            )[j],
    decreases bound,
{
    let s = ascending(set, bound);
    if bound > 0 {
        let below = (bound - 1) as nat;
        let t = ascending(set, below);
        law_ascending(set, below);
        assert forall|i: int, j: int| 0 <= i < j < s.len() implies s[i] < s[j] by {
            if j == t.len() {
                assert(t.contains(t[i]));
            }
        }
        assert forall|x: u8| #[trigger] s.contains(x) <==> set.contains(x) && x < bound by {
            if t.contains(x) {
                let i = t.index_of(x);
                assert(s[i] == x);
            }
            if set.contains(x) && x == below {
                assert(s[t.len() as int] == x);
            }
            if s.contains(x) {
                let i = s.index_of(x);
                if i < t.len() {
                    assert(t[i] == x);
                }
            }
        }
    }
}

} // verus!
