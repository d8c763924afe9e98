//! Shared-resource discipline: priority ceilings and the interrupt mask.
//!
//! A shared resource is claimed inside a critical section that raises the
//! effective interrupt mask to the resource's ceiling — the highest priority
//! of any task that could contend for it — and restores the mask on exit.
//! While the mask sits at the ceiling no contender can preempt, which gives
//! race freedom without blocking locks.

use vstd::prelude::*;

verus! {

/// Whether a task of priority `p` can preempt while the effective interrupt
/// mask sits at `mask`: only a strictly higher priority gets through.
pub open spec fn can_preempt(p: u8, mask: u8) -> bool {
    p > mask
}

/// The ceiling of a shared resource: the highest priority among the tasks
/// that can contend for it.
pub fn ceiling_of(priorities: &Vec<u8>) -> (c: u8)
    requires
        priorities@.len() > 0,
    ensures
        exists|i: int| 0 <= i < priorities@.len() && priorities@[i] == c,
        forall|i: int| 0 <= i < priorities@.len() ==> priorities@[i] <= c,
{
    let mut c: u8 = priorities[0];
    let mut i: usize = 1;
    while i < priorities.len()
        invariant
            1 <= i <= priorities@.len(),
            exists|k: int| 0 <= k < i && priorities@[k] == c,
            forall|k: int| 0 <= k < i ==> priorities@[k] <= c,
        decreases priorities@.len() - i,
    {
        if priorities[i] > c {
            c = priorities[i];
        }
        i = i + 1;
    }
    c
}

/// The single core's effective interrupt mask level.
pub struct IrqMask {
    level: u8,
}

impl IrqMask {
    pub closed spec fn level_spec(self) -> u8 {
        self.level
    }

    /// At power-on nothing is masked.
    pub fn new() -> (m: Self)
        ensures
            m.level_spec() == 0,
    {
        IrqMask { level: 0 }
    }

    /// The current mask level.
    pub fn current(&self) -> (l: u8)
        ensures
            l == self.level_spec(),
    {
        self.level
    }

    /// Enter a critical section: raise the mask to at least `ceiling` and
    /// hand back the level to restore on exit.
    pub fn raise(&mut self, ceiling: u8) -> (saved: u8)
        ensures
            saved == old(self).level_spec(),
            final(self).level_spec() >= ceiling,
            final(self).level_spec() >= old(self).level_spec(),
            final(self).level_spec() == if ceiling > old(self).level_spec() {
                ceiling
            } else {
                old(self).level_spec()
            },
    {
        let saved = self.level;
        if ceiling > self.level {
            self.level = ceiling;
        }
        saved
    }

    /// Leave a critical section: put the mask back where `raise` found it.
    pub fn restore(&mut self, saved: u8)
        ensures
            final(self).level_spec() == saved,
    {
        self.level = saved;
    }
}

/// The ceiling protocol keeps a critical section race-free: while the mask
/// sits at or above a resource's ceiling, no task that contends for the
/// resource can preempt the holder.
pub proof fn lemma_ceiling_blocks_contenders(priorities: Seq<u8>, c: u8, mask: u8, i: int)
    requires
        forall|k: int| 0 <= k < priorities.len() ==> priorities[k] <= c,
        mask >= c,
        0 <= i < priorities.len(),
    ensures
        !can_preempt(priorities[i], mask),
{
}

/// Run-to-suspension: a task holding the core at priority `p` keeps the mask
/// at or above `p`, so an equal-or-lower-priority task never preempts it
/// mid-execution; only a strictly higher priority can.
pub proof fn lemma_run_to_suspension(p: u8, q: u8, mask: u8)
    requires
        mask >= p,
    ensures
        q <= p ==> !can_preempt(q, mask),
        can_preempt(q, mask) ==> q > p,
{
}

} // verus!
