//! Identities for connections.

use vstd::prelude::*;

verus! {

/// The identity that follows `id`. The counter is a machine word: after the
/// largest one it starts over at zero.
pub open spec fn successor(id: usize) -> usize {
    if id == usize::MAX {
        0
    } else {
        (id + 1) as usize
    }
}

/// The identity issued by call number `k`, counting from zero, of an
/// allocator whose next identity is `first`.
pub open spec fn nth_issued(first: usize, k: nat) -> usize
    decreases k,
{
    if k == 0 {
        first
    } else {
        successor(nth_issued(first, (k - 1) as nat))
    }
}

/// Issues identities, one per connection, counting up from 1.
pub struct IdAllocator {
    upcoming: usize,
}

impl View for IdAllocator {
    type V = usize;

    /// The identity that the next call will issue.
    closed spec fn view(&self) -> usize {
        self.upcoming
    }
}

impl IdAllocator {
    /// An allocator that has issued nothing yet.
    pub fn new() -> (allocator: Self)
        ensures
            allocator@ == 1,
    {
        IdAllocator { upcoming: 1 }
    }

    /// Issues the next identity and advances.
    pub fn next(&mut self) -> (id: usize)
        ensures
            id == old(self)@,
            final(self)@ == successor(old(self)@),
    {
        let id = self.upcoming;
        self.upcoming = id.wrapping_add(1);
        id
    }
}

/// As long as the counter has not started over, the identities come out one
/// above the other: call number `k` issues `first + k`.
pub proof fn law_issued_counts_up(first: usize, k: nat)
    requires
        first + k <= usize::MAX,
    ensures
        nth_issued(first, k) == first + k,
    decreases k,
{
    if k > 0 {
        law_issued_counts_up(first, (k - 1) as nat);
    }
}

/// Identities are strictly increasing in the order of issue, and therefore
/// never issued twice, as long as the counter has not started over: of two
/// calls, the later one issues the larger identity.
pub proof fn law_issued_strictly_increasing(first: usize, earlier: nat, later: nat)
    requires
        earlier < later,
        first + later <= usize::MAX,
    ensures
        nth_issued(first, earlier) < nth_issued(first, later),
{
    law_issued_counts_up(first, earlier);
    law_issued_counts_up(first, later);
}

} // verus!
