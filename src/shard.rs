use vstd::prelude::*;
use vstd::arithmetic::div_mod::lemma_small_mod;

verus! {

/// Spreads callers over a fixed number of shards, one after the other.
pub struct RoundRobin {
    count: usize,
    next: usize,
}

impl RoundRobin {
    pub closed spec fn count_spec(&self) -> nat {
        self.count as nat
    }

    /// The shard that the next caller is given.
    pub closed spec fn next_spec(&self) -> nat {
        self.next as nat
    }

    pub closed spec fn wf(&self) -> bool {
        self.next < self.count
    }

    /// A selector over `count` shards, starting at the first; none for no shards.
    pub fn new(count: usize) -> (r: Option<RoundRobin>)
        ensures
            r is None <==> count == 0,
            r matches Some(rr) ==> rr.wf() && rr.count_spec() == count && rr.next_spec() == 0,
    {
        if count == 0 {
            None
        } else {
            Some(RoundRobin { count, next: 0 })
        }
    }

    pub fn count(&self) -> (r: usize)
        ensures
            r == self.count_spec(),
    {
        self.count
    }

    /// Hands out the current shard and moves on to the following one,
    /// wrapping round after the last.
    pub fn pick(&mut self) -> (r: usize)
        requires
            old(self).wf(),
        ensures
            final(self).wf(),
            r == old(self).next_spec(),
            final(self).count_spec() == old(self).count_spec(),
            final(self).next_spec() == (old(self).next_spec() + 1) % old(self).count_spec(),
    {
        let r = self.next;
        if self.next + 1 == self.count {
            self.next = 0;
            assert((r as int + 1) % (self.count as int) == 0) by (nonlinear_arith)
                requires r as int + 1 == self.count as int, self.count > 0;
        } else {
            self.next = self.next + 1;
            proof {
                lemma_small_mod((r + 1) as nat, self.count as nat);
            }
        }
        r
    }
}

} // verus!
