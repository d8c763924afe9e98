//! Structural starvation check.
//!
//! A task that loops forever runs to its next suspension point before any
//! equal-or-lower-priority task can proceed, so an unbounded loop body with
//! no suspension point starves the rest of the system indefinitely. The
//! check here flags such a body: every cyclic task path must contain at
//! least one suspension point.

use vstd::prelude::*;

verus! {

/// One step of a task's loop body, as seen by the scheduler.
#[derive(Clone, Copy, Debug, PartialEq, Eq, Structural)]
pub enum TaskOp {
    /// Straight-line work that holds the core.
    Work,
    /// An await point: the task yields back to the dispatcher.
    Suspend,
}

/// Whether a loop body contains a suspension point.
pub open spec fn has_suspension(ops: Seq<TaskOp>) -> bool {
    exists|i: int| 0 <= i < ops.len() && ops[i] is Suspend
}

/// Starvation check: a cyclic task body is valid only if it yields at least
/// once per iteration. Returns false exactly for the bodies that must be
/// flagged as starving the system.
pub fn loop_body_yields(ops: &Vec<TaskOp>) -> (r: bool)
    ensures
        r == has_suspension(ops@),
{
    let mut i: usize = 0;
    while i < ops.len()
        invariant
            0 <= i <= ops@.len(),
            forall|k: int| 0 <= k < i ==> !((#[trigger] ops@[k]) is Suspend),
        decreases ops@.len() - i,
    {
        if matches!(ops[i], TaskOp::Suspend) {
            return true;
        }
        i = i + 1;
    }
    false
}

/// The heartbeat's loop body: toggle the output once, then suspend until the
/// next interval. It passes the starvation check by construction.
pub fn heartbeat_body() -> (v: Vec<TaskOp>)
    ensures
        v@ == seq![TaskOp::Work, TaskOp::Suspend],
        has_suspension(v@),
{
    let mut v: Vec<TaskOp> = Vec::new();
    v.push(TaskOp::Work);
    v.push(TaskOp::Suspend);
    proof {
        assert(v@[1] is Suspend);
        assert(v@ =~= seq![TaskOp::Work, TaskOp::Suspend]);
    }
    v
}

} // verus!
