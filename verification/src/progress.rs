//! Pure progress accounting: groups and snapshots done against totals.
use vstd::prelude::*;

verus! {

/// Running counters of one backup run.
#[derive(Clone, Copy, Debug, Eq, PartialEq, Structural)]
pub struct StoreProgress {
    /// Groups fully processed so far.
    pub done_groups: u64,
    /// Total number of groups selected for the run.
    pub total_groups: u64,
    /// Snapshots processed in the current group.
    pub done_snapshots: u64,
    /// Number of snapshots the current group contributes.
    pub group_snapshots: u64,
}

impl StoreProgress {
    /// Fresh counters for a run over `total_groups` groups.
    pub fn new(total_groups: u64) -> (r: StoreProgress)
        ensures
            r.done_groups == 0,
            r.total_groups == total_groups,
            r.done_snapshots == 0,
            r.group_snapshots == 0,
    {
        StoreProgress { done_groups: 0, total_groups, done_snapshots: 0, group_snapshots: 0 }
    }

    /// Overall progress in thousandths, counting each group as one unit and
    /// the current group's snapshots as fractions of it. A run over no
    /// groups counts as complete.
    pub fn permille(&self) -> (r: u64)
        requires
            self.done_groups <= self.total_groups,
            self.done_snapshots <= self.group_snapshots,
        ensures
            self.total_groups == 0 ==> r == 1000,
            self.total_groups > 0 && self.group_snapshots == 0 ==> r == (self.done_groups as nat
                * 1000) / self.total_groups as nat,
            self.total_groups > 0 && self.group_snapshots > 0 ==> r == (self.done_groups as nat
                * 1000 + (self.done_snapshots as nat * 1000) / self.group_snapshots as nat)
                / self.total_groups as nat,
    {
        if self.total_groups == 0 {
            return 1000;
        }
        if self.group_snapshots == 0 {
            let done: u128 = self.done_groups as u128 * 1000;
            let r = (done / self.total_groups as u128) as u64;
            proof {
                assert(self.done_groups as nat * 1000 / self.total_groups as nat <= 1000)
                    by (nonlinear_arith)
                    requires
                        self.done_groups <= self.total_groups,
                        self.total_groups > 0,
                ;
            }
            return r;
        }
        let frac: u128 = (self.done_snapshots as u128 * 1000) / self.group_snapshots as u128;
        let done: u128 = self.done_groups as u128 * 1000 + frac;
        let r = (done / self.total_groups as u128) as u64;
        proof {
            assert(self.done_snapshots as nat * 1000 / self.group_snapshots as nat <= 1000)
                by (nonlinear_arith)
                requires
                    self.done_snapshots <= self.group_snapshots,
                    self.group_snapshots > 0,
            ;
            let num = self.done_groups as int * 1000 + (self.done_snapshots as int * 1000)
                / self.group_snapshots as int;
            let t = self.total_groups as int;
            assert(num <= t * 2000) by (nonlinear_arith)
                requires
                    self.done_groups <= self.total_groups,
                    self.total_groups > 0,
                    (self.done_snapshots as int * 1000) / self.group_snapshots as int <= 1000,
                    num == self.done_groups as int * 1000 + (self.done_snapshots as int * 1000)
                        / self.group_snapshots as int,
                    t == self.total_groups as int,
            ;
            vstd::arithmetic::div_mod::lemma_div_is_ordered(num, t * 2000, t);
            vstd::arithmetic::div_mod::lemma_div_multiples_vanish(2000, t);
        }
        r
    }
}

} // verus!
