//! The shared throughput counter of the emission loop: incremented once per
//! attempted send, read and reset once per reporting interval.
//!
//! The count wraps at `usize::MAX`, as a fetch-and-add on a machine word
//! does; a reporting interval short enough never to accumulate that many
//! attempts sees exact counts.

use vstd::prelude::*;

verus! {

/// Counts attempted sends between two rate reports.
pub struct ThroughputCounter {
    count: usize,
}

/// One increment of the wrapping count.
pub open spec fn bumped(n: nat) -> nat {
    if n == usize::MAX {
        0
    } else {
        n + 1
    }
}

/// The count after `k` increments of a fresh counter, with no reset between.
pub open spec fn after_increments(k: nat) -> nat
    decreases k,
{
    if k == 0 {
        0
    } else {
        bumped(after_increments((k - 1) as nat))
    }
}

impl View for ThroughputCounter {
    type V = nat;

    closed spec fn view(&self) -> nat {
        self.count as nat
    }
}

impl ThroughputCounter {
    /// A fresh counter holds zero.
    pub fn new() -> (c: ThroughputCounter)
        ensures
            c@ == 0,
    {
        ThroughputCounter { count: 0 }
    }

    /// Records one attempted send.
    pub fn increment(&mut self)
        ensures
            final(self)@ == bumped(old(self)@),
    {
        if self.count == usize::MAX {
            self.count = 0;
        } else {
            self.count = self.count + 1;
        }
    }

    /// Returns the count accumulated since the last reset and starts the
    /// next interval at zero.
    pub fn read_and_reset(&mut self) -> (r: usize)
        ensures
            r == old(self)@,
            final(self)@ == 0,
    {
        let r = self.count;
        self.count = 0;
        r
    }
}

/// After exactly `k` increments of a fresh counter with no intervening
/// reset, the count is exactly `k`, provided `k` attempts fit in a machine
/// word; by the contract of `read_and_reset`, a read-and-reset then returns
/// `k`, and a second read-and-reset with no further increments returns zero.
pub proof fn lemma_exact_rate_report(k: nat)
    requires
        k <= usize::MAX,
    ensures
        after_increments(k) == k,
    decreases k,
{
    if k > 0 {
        lemma_exact_rate_report((k - 1) as nat);
    }
}

} // verus!
