//! Cooperative priority scheduler.
//!
//! A static set of tasks, each bound to a fixed priority, moves through the
//! states `Idle -> Ready -> Running -> Suspended -> Ready -> ...`. The
//! dispatcher always picks the highest-priority ready task, breaking ties by
//! registration order, and a dispatched task runs until it voluntarily
//! suspends or completes.

use vstd::prelude::*;

verus! {

/// Lifecycle state of one task.
#[derive(Clone, Copy, Debug, PartialEq, Eq, Structural)]
pub enum TaskState {
    /// Not scheduled: a one-shot task before spawn or after completion.
    Idle,
    /// Wake condition satisfied; waiting to be dispatched.
    Ready,
    /// Currently dispatched on the single core.
    Running,
    /// Parked at an await point until tick `wake_at` is reached.
    Suspended { wake_at: u64 },
}

/// One entry of the static task table.
#[derive(Clone, Copy, Debug, PartialEq, Eq, Structural)]
pub struct TaskEntry {
    /// Fixed priority; a larger value takes precedence.
    pub priority: u8,
    pub state: TaskState,
}

/// Whether task `i` exists and is ready to be dispatched.
pub open spec fn is_ready(s: Seq<TaskEntry>, i: int) -> bool {
    0 <= i < s.len() && s[i].state is Ready
}

/// No task is currently dispatched: the core is in the scheduler.
pub open spec fn no_running(s: Seq<TaskEntry>) -> bool {
    forall|i: int| 0 <= i < s.len() ==> !((#[trigger] s[i].state) is Running)
}

/// The task the dispatcher must pick: the first registered among the ready
/// tasks of maximal priority, or nothing when no task is ready.
pub open spec fn best_ready(s: Seq<TaskEntry>) -> Option<int>
    decreases s.len(),
{
    if s.len() == 0 {
        Option::None
    } else {
        let rest = best_ready(s.drop_last());
        if s.last().state is Ready {
            match rest {
                Option::None => Option::Some(s.len() - 1),
                Option::Some(b) => if s[b].priority >= s.last().priority {
                    Option::Some(b)
                } else {
                    Option::Some(s.len() - 1)
                },
            }
        } else {
            rest
        }
    }
}

/// What the dispatch choice guarantees: it is a ready task, no ready task has
/// a strictly higher priority, and among equal-priority ready tasks the one
/// registered first is taken; when nothing is chosen, nothing is ready.
pub proof fn lemma_best_ready_props(s: Seq<TaskEntry>)
    ensures
        match best_ready(s) {
            Option::None => forall|i: int| !is_ready(s, i),
            Option::Some(b) => {
                &&& is_ready(s, b)
                &&& forall|i: int| is_ready(s, i) ==> s[i].priority <= s[b].priority
                &&& forall|i: int|
                    is_ready(s, i) && s[i].priority == s[b].priority ==> b <= i
            },
        },
    decreases s.len(),
{
    if s.len() > 0 {
        let rest = s.drop_last();
        lemma_best_ready_props(rest);
        assert(forall|i: int| 0 <= i < rest.len() ==> rest[i] == s[i]);
        assert(forall|i: int| is_ready(rest, i) == (i < s.len() - 1 && is_ready(s, i)));
        match best_ready(s) {
            Option::None => {
                assert forall|i: int| !is_ready(s, i) by {
                    if 0 <= i < s.len() - 1 {
                        assert(!is_ready(rest, i));
                    }
                }
            },
            Option::Some(b) => {
                assert forall|i: int| is_ready(s, i) implies s[i].priority <= s[b].priority by {
                    if i < s.len() - 1 {
                        assert(is_ready(rest, i));
                    }
                }
            },
        }
    }
}

/// Priority ordering of dispatch: with two ready tasks of unequal priority,
/// the lower-priority one is never the dispatch choice, and the chosen task's
/// priority is at least the higher of the two.
pub proof fn lemma_priority_dispatch(s: Seq<TaskEntry>, hi: int, lo: int)
    requires
        is_ready(s, hi),
        is_ready(s, lo),
        s[hi].priority > s[lo].priority,
    ensures
        best_ready(s) is Some,
        best_ready(s) != Option::<int>::Some(lo),
        s[best_ready(s)->0].priority >= s[hi].priority,
{
    lemma_best_ready_props(s);
}

/// The static task table and its dispatcher.
pub struct Executor {
    pub tasks: Vec<TaskEntry>,
}

impl Executor {
    /// The task table as a sequence.
    pub open spec fn view(self) -> Seq<TaskEntry> {
        self.tasks@
    }

    /// An empty task table.
    pub fn new() -> (e: Self)
        ensures
            e@ == Seq::<TaskEntry>::empty(),
    {
        Executor { tasks: Vec::new() }
    }

    /// Register one task at the given fixed priority; tasks start idle.
    /// Returns the new task's id.
    pub fn add_task(&mut self, priority: u8) -> (t: usize)
        ensures
            t == old(self)@.len(),
            final(self)@ == old(self)@.push((TaskEntry { priority, state: TaskState::Idle })),
    {
        let t = self.tasks.len();
        self.tasks.push(TaskEntry { priority, state: TaskState::Idle });
        t
    }

    pub fn task_count(&self) -> (n: usize)
        ensures
            n == self@.len(),
    {
        self.tasks.len()
    }

    /// One-shot spawn: make an idle task ready for dispatch.
    pub fn spawn(&mut self, t: usize)
        requires
            t < old(self)@.len(),
            old(self)@[t as int].state is Idle,
        ensures
            final(self)@ == old(self)@.update(
                t as int,
                (TaskEntry { priority: old(self)@[t as int].priority, state: TaskState::Ready }),
            ),
    {
        let p = self.tasks[t].priority;
        self.tasks[t] = TaskEntry { priority: p, state: TaskState::Ready };
    }

    /// Wake condition satisfied: re-queue a suspended task.
    pub fn wake_task(&mut self, t: usize)
        requires
            t < old(self)@.len(),
            old(self)@[t as int].state is Suspended,
        ensures
            final(self)@ == old(self)@.update(
                t as int,
                (TaskEntry { priority: old(self)@[t as int].priority, state: TaskState::Ready }),
            ),
    {
        let p = self.tasks[t].priority;
        self.tasks[t] = TaskEntry { priority: p, state: TaskState::Ready };
    }

    /// A running task reaches an await point: park it until tick `wake_at`.
    pub fn suspend(&mut self, t: usize, wake_at: u64)
        requires
            t < old(self)@.len(),
            old(self)@[t as int].state is Running,
        ensures
            final(self)@ == old(self)@.update(
                t as int,
                (TaskEntry {
                    priority: old(self)@[t as int].priority,
                    state: TaskState::Suspended { wake_at },
                }),
            ),
    {
        let p = self.tasks[t].priority;
        self.tasks[t] = TaskEntry { priority: p, state: TaskState::Suspended { wake_at } };
    }

    /// A one-shot task ran to completion: back to idle, never re-queued
    /// unless spawned again.
    pub fn complete(&mut self, t: usize)
        requires
            t < old(self)@.len(),
            old(self)@[t as int].state is Running,
        ensures
            final(self)@ == old(self)@.update(
                t as int,
                (TaskEntry { priority: old(self)@[t as int].priority, state: TaskState::Idle }),
            ),
    {
        let p = self.tasks[t].priority;
        self.tasks[t] = TaskEntry { priority: p, state: TaskState::Idle };
    }

    /// Dispatch: mark the highest-priority ready task running and return its
    /// id, or return nothing when no task is ready. Only called from the
    /// scheduler's idle loop, when no task is running.
    pub fn dispatch(&mut self) -> (r: Option<usize>)
        requires
            no_running(old(self)@),
        ensures
            match r {
                Option::None => {
                    &&& best_ready(old(self)@) is None
                    &&& final(self)@ == old(self)@
                },
                Option::Some(t) => {
                    &&& best_ready(old(self)@) == Option::Some(t as int)
                    &&& final(self)@ == old(self)@.update(
                        t as int,
                        (TaskEntry {
                            priority: old(self)@[t as int].priority,
                            state: TaskState::Running,
                        }),
                    )
                },
            },
    {
        let ghost s = self.tasks@;
        let mut best: Option<usize> = Option::None;
        let mut i: usize = 0;
        while i < self.tasks.len()
            invariant
                0 <= i <= s.len(),
                self.tasks@ == s,
                match best {
                    Option::None => best_ready(s.take(i as int)) is None,
                    Option::Some(b) => b < i && best_ready(s.take(i as int)) == Option::Some(
                        b as int,
                    ),
                },
            decreases s.len() - i,
        {
            proof {
                assert(s.take(i + 1).drop_last() =~= s.take(i as int));
                assert(s.take(i + 1).last() == s[i as int]);
            }
            if matches!(self.tasks[i].state, TaskState::Ready) {
                match best {
                    Option::None => {
                        best = Option::Some(i);
                    },
                    Option::Some(b) => {
                        if self.tasks[b].priority >= self.tasks[i].priority {
                        } else {
                            best = Option::Some(i);
                        }
                    },
                }
            }
            i = i + 1;
        }
        proof {
            assert(s.take(s.len() as int) =~= s);
        }
        match best {
            Option::None => Option::None,
            Option::Some(t) => {
                let p = self.tasks[t].priority;
                self.tasks[t] = TaskEntry { priority: p, state: TaskState::Running };
                Option::Some(t)
            },
        }
    }
}

} // verus!
