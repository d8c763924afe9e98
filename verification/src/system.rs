//! The assembled system: bring-up, clock, scheduler and heartbeat.
//!
//! [`System`] wires the components together the way the firmware does: the
//! bring-up sequencer runs once and spawns the heartbeat, then every
//! scheduler pass folds a fresh raw counter read into the monotonic clock,
//! re-queues the tasks whose wakes are due, dispatches the best ready task
//! and runs it to its suspension point. The hardware itself — registers,
//! alarms, the physical pin — lives outside; the system takes raw counter
//! reads in and drives a modelled output level.

use vstd::prelude::*;

use crate::bringup::BringUp;
use crate::clock::MonotonicClock;
use crate::clock::Wake;
use crate::clock::WakeSet;
use crate::clock::due_ids;
use crate::clock::kept_wakes;
use crate::executor::Executor;
use crate::executor::TaskEntry;
use crate::executor::TaskState;
use crate::executor::best_ready;
use crate::heartbeat::HEARTBEAT_INTERVAL;
use crate::heartbeat::heartbeat_step;

verus! {

/// Task id of the single application task.
pub const HEARTBEAT_TASK: usize = 0;

/// Priority of the heartbeat task.
pub const HEARTBEAT_PRIORITY: u8 = 1;

/// The controller after bring-up: one heartbeat task under the scheduler.
pub struct System {
    pub bringup: BringUp,
    pub clock: MonotonicClock,
    pub sched: Executor,
    pub wakes: WakeSet,
    /// Modelled level of the output pin; configured low at bring-up. The
    /// pin is local to the heartbeat task — no other task references it, so
    /// its use needs no critical section.
    pub level: bool,
    /// How often the heartbeat has toggled the output.
    pub toggles: u64,
    /// Tick of the latest scheduler pass.
    pub now: u64,
}

impl System {
    /// State of the heartbeat task in the task table.
    pub open spec fn hb_state(self) -> TaskState {
        self.sched@[HEARTBEAT_TASK as int].state
    }

    /// Before the first activation: spawned, ready, nothing pending.
    pub open spec fn pre_first_run(self) -> bool {
        &&& self.hb_state() is Ready
        &&& self.wakes.pending() == Seq::<Wake>::empty()
        &&& self.toggles == 0
    }

    /// Between activations: parked with exactly its own wake pending, and
    /// the wake tick keeps pace with the toggle count — activation `n` never
    /// comes before tick `n * HEARTBEAT_INTERVAL`.
    pub open spec fn parked(self) -> bool {
        &&& self.hb_state() matches TaskState::Suspended { wake_at }
        &&& self.wakes.pending() == seq![Wake { task: HEARTBEAT_TASK, at: wake_at }]
        &&& self.toggles >= 1
        &&& wake_at >= self.toggles * HEARTBEAT_INTERVAL
    }

    pub open spec fn wf(self) -> bool {
        &&& self.bringup.wf()
        &&& self.bringup.tasks_spawned
        &&& self.sched@.len() == 1
        &&& self.sched@[HEARTBEAT_TASK as int].priority == HEARTBEAT_PRIORITY
        &&& self.now == self.clock.time_spec()
        &&& self.level == (self.toggles % 2 == 1)
        &&& (self.pre_first_run() || self.parked())
    }

    /// Whether a scheduler pass fed the raw read `raw` will run the
    /// heartbeat: it is either still ready from bring-up or its wake tick is
    /// reached.
    pub open spec fn will_run(self, raw: u32) -> bool {
        ||| self.hb_state() is Ready
        ||| (self.hb_state() matches TaskState::Suspended { wake_at } && wake_at
            <= self.clock.time_after(raw))
    }

    /// Run the bring-up sequence and spawn the heartbeat.
    ///
    /// `clock_ok` is the validated outcome of the clock-tree configuration.
    /// On failure the bring-up halts and no system — hence no task — ever
    /// runs; on success the system starts at tick 0 with the output low.
    pub fn init(clock_ok: bool) -> (r: Option<System>)
        ensures
            clock_ok == (r is Some),
            r matches Option::Some(s) ==> {
                &&& s.wf()
                &&& s.now == 0
                &&& s.toggles == 0
                &&& s.level == false
                &&& s.hb_state() is Ready
            },
    {
        let mut b = BringUp::power_on();
        b.start_monotonic();
        let clock = MonotonicClock::new();
        b.disable_watchdog();
        b.configure_clocks(clock_ok);
        if b.halted {
            // fatal: unknown clock rate; nothing is ever spawned
            return Option::None;
        }
        b.configure_pins();
        // safe default output level before any task can toggle it
        let level = false;
        let mut sched = Executor::new();
        let t = sched.add_task(HEARTBEAT_PRIORITY);
        sched.spawn(t);
        b.spawn_tasks();
        let s = System {
            bringup: b,
            clock,
            sched,
            wakes: WakeSet::new(),
            level,
            toggles: 0,
            now: 0,
        };
        proof {
            assert(s.sched@ =~= seq![
                TaskEntry { priority: HEARTBEAT_PRIORITY, state: TaskState::Ready },
            ]);
            assert(s.wakes.pending() =~= Seq::<Wake>::empty());
        }
        Option::Some(s)
    }

    /// The tick at which the one-shot hardware alarm must next be armed:
    /// the nearest pending deadline, or nothing while no wake is pending.
    pub fn next_alarm(&self) -> (r: Option<u64>)
        ensures
            match r {
                Option::None => self.wakes.pending().len() == 0,
                Option::Some(m) => {
                    &&& exists|i: int|
                        0 <= i < self.wakes.pending().len() && self.wakes.pending()[i].at == m
                    &&& forall|i: int|
                        0 <= i < self.wakes.pending().len() ==> self.wakes.pending()[i].at >= m
                },
            },
    {
        self.wakes.nearest()
    }

    /// One scheduler pass, fed the next raw counter read.
    ///
    /// Time moves forward, due wakes are serviced, and if the heartbeat is
    /// runnable it runs to its suspension point: the output toggles exactly
    /// once and a new wake is registered one interval ahead. Returns whether
    /// the heartbeat ran.
    pub fn step(&mut self, raw: u32) -> (ran: bool)
        requires
            old(self).wf(),
            old(self).clock.epoch_spec() < 0xFFFF_FF00u64,
        ensures
            final(self).wf(),
            final(self).now == old(self).clock.time_after(raw),
            final(self).now >= old(self).now,
            ran == old(self).will_run(raw),
            ran ==> final(self).level == !old(self).level,
            ran ==> final(self).toggles == old(self).toggles + 1,
            ran ==> final(self).hb_state() == (TaskState::Suspended {
                wake_at: (final(self).now + HEARTBEAT_INTERVAL) as u64,
            }),
            !ran ==> final(self).level == old(self).level,
            !ran ==> final(self).toggles == old(self).toggles,
            !ran ==> final(self).hb_state() == old(self).hb_state(),
            final(self).clock.epoch_spec() <= old(self).clock.epoch_spec() + 1,
    {
        let ghost pre = *old(self);
        let t = self.clock.now(raw);
        self.now = t;
        proof {
            // headroom: the new tick leaves room for one more interval
            assert(self.clock.time_spec() + HEARTBEAT_INTERVAL <= u64::MAX);
            if pre.parked() {
                assert(pre.wakes.pending().drop_last() =~= Seq::<Wake>::empty());
            }
        }
        let fired = self.wakes.service(t);
        proof {
            assert(due_ids(Seq::<Wake>::empty(), t) == Seq::<usize>::empty());
            assert(kept_wakes(Seq::<Wake>::empty(), t) == Seq::<Wake>::empty());
        }
        if fired.len() > 0 {
            // only the heartbeat's own wake can be pending
            let task = fired[0];
            self.sched.wake_task(task);
        }
        proof {
            let s = self.sched@;
            assert(s.drop_last() =~= Seq::<TaskEntry>::empty());
            assert(best_ready(Seq::<TaskEntry>::empty()) is None);
            if s[0].state is Ready {
                assert(best_ready(s) == Option::Some(0int));
            } else {
                assert(best_ready(s) is None);
            }
        }
        match self.sched.dispatch() {
            Option::Some(task) => {
                proof {
                    if pre.parked() {
                        // the wake tick kept pace with the toggle count, so
                        // one more toggle still fits in the counter
                        assert(pre.toggles * 1 < pre.toggles * HEARTBEAT_INTERVAL)
                            by (nonlinear_arith)
                            requires
                                pre.toggles >= 1,
                                HEARTBEAT_INTERVAL >= 2,
                        ;
                    }
                }
                let (new_level, wake_at) = heartbeat_step(self.level, t);
                self.level = new_level;
                self.toggles = self.toggles + 1;
                self.wakes.register(HEARTBEAT_TASK, wake_at);
                self.sched.suspend(task, wake_at);
                proof {
                    assert(self.wakes.pending() =~= seq![
                        Wake { task: HEARTBEAT_TASK, at: wake_at },
                    ]);
                    assert(self.toggles * HEARTBEAT_INTERVAL <= wake_at) by (nonlinear_arith)
                        requires
                            self.toggles >= 1,
                            wake_at == t + HEARTBEAT_INTERVAL,
                            t >= (self.toggles - 1) * HEARTBEAT_INTERVAL,
                    ;
                }
                true
            },
            Option::None => false,
        }
    }
}

} // verus!
