//! Hardware bring-up sequencer.
//!
//! Power-on initialization is a strictly ordered one-shot procedure: start
//! the monotonic clock hardware, disarm the watchdog, configure the clock
//! tree, put the pins in a safe state, and only then spawn the initial task
//! set. The order is enforced by the preconditions of the step functions and
//! recorded in the well-formedness invariant, so a sequencer state in which a
//! later step ran without its predecessors cannot be built. A clock-tree
//! failure is fatal: the sequencer halts and no task is ever spawned.

use vstd::prelude::*;

verus! {

/// Progress record of the one-shot bring-up procedure.
#[derive(Clone, Copy, Debug, PartialEq, Eq, Structural)]
pub struct BringUp {
    /// Step 1: the free-running timer behind the monotonic clock is started.
    pub monotonic_started: bool,
    /// Step 2: the watchdog is disarmed before anything slow could trip it.
    pub watchdog_disabled: bool,
    /// Step 3: oscillator, PLL and system clock are configured and validated.
    pub clocks_configured: bool,
    /// Step 4: pin directions set and the output driven to its safe level.
    pub pins_configured: bool,
    /// Step 5: the initial task set is handed to the scheduler.
    pub tasks_spawned: bool,
    /// Fatal clock-tree failure: the sequencer stopped and stays stopped.
    pub halted: bool,
}

impl BringUp {
    /// Each step presupposes all earlier ones, and a halt precludes every
    /// step from the clock tree onward.
    pub open spec fn wf(self) -> bool {
        &&& self.watchdog_disabled ==> self.monotonic_started
        &&& self.clocks_configured ==> self.watchdog_disabled
        &&& self.pins_configured ==> self.clocks_configured
        &&& self.tasks_spawned ==> self.pins_configured
        &&& self.halted ==> !self.clocks_configured
        &&& self.halted ==> !self.tasks_spawned
    }

    /// State at power-on: nothing has run yet.
    pub fn power_on() -> (b: Self)
        ensures
            b.wf(),
            b == (BringUp {
                monotonic_started: false,
                watchdog_disabled: false,
                clocks_configured: false,
                pins_configured: false,
                tasks_spawned: false,
                halted: false,
            }),
    {
        BringUp {
            monotonic_started: false,
            watchdog_disabled: false,
            clocks_configured: false,
            pins_configured: false,
            tasks_spawned: false,
            halted: false,
        }
    }

    /// Step 1: record that the monotonic timer hardware is running, so every
    /// later delay computation is meaningful.
    pub fn start_monotonic(&mut self)
        requires
            old(self).wf(),
            !old(self).monotonic_started,
            !old(self).halted,
        ensures
            final(self).wf(),
            *final(self) == (BringUp { monotonic_started: true, ..*old(self) }),
    {
        self.monotonic_started = true;
    }

    /// Step 2: record that the watchdog is disarmed. This must precede the
    /// clock-tree step, the one slow enough to trip a spurious reset.
    pub fn disable_watchdog(&mut self)
        requires
            old(self).wf(),
            old(self).monotonic_started,
            !old(self).watchdog_disabled,
            !old(self).halted,
        ensures
            final(self).wf(),
            *final(self) == (BringUp { watchdog_disabled: true, ..*old(self) }),
    {
        self.watchdog_disabled = true;
    }

    /// Step 3: take the validated outcome of the clock-tree configuration.
    /// Success moves the sequence on; failure halts it for good — running on
    /// an unknown clock rate would silently corrupt every later duration.
    pub fn configure_clocks(&mut self, ok: bool)
        requires
            old(self).wf(),
            old(self).watchdog_disabled,
            !old(self).clocks_configured,
            !old(self).tasks_spawned,
            !old(self).halted,
        ensures
            final(self).wf(),
            ok ==> *final(self) == (BringUp { clocks_configured: true, ..*old(self) }),
            !ok ==> *final(self) == (BringUp { halted: true, ..*old(self) }),
            !ok ==> !final(self).tasks_spawned,
    {
        if ok {
            self.clocks_configured = true;
        } else {
            self.halted = true;
        }
    }

    /// Step 4: record that pin directions are set and the output sits at its
    /// safe default level, before any task could toggle it.
    pub fn configure_pins(&mut self)
        requires
            old(self).wf(),
            old(self).clocks_configured,
            !old(self).pins_configured,
        ensures
            final(self).wf(),
            *final(self) == (BringUp { pins_configured: true, ..*old(self) }),
    {
        self.pins_configured = true;
    }

    /// Step 5: hand the initial task set to the scheduler. Only reachable
    /// when every earlier step succeeded.
    pub fn spawn_tasks(&mut self)
        requires
            old(self).wf(),
            old(self).pins_configured,
            !old(self).tasks_spawned,
        ensures
            final(self).wf(),
            *final(self) == (BringUp { tasks_spawned: true, ..*old(self) }),
    {
        self.tasks_spawned = true;
    }
}

/// Bring-up ordering: in every well-formed sequencer state, the watchdog was
/// disarmed before the clock tree was touched, a spawned task set implies the
/// whole chain of earlier steps, and a halted sequencer never spawned a task.
pub proof fn lemma_bringup_order(b: BringUp)
    requires
        b.wf(),
    ensures
        b.clocks_configured ==> b.watchdog_disabled && b.monotonic_started,
        b.tasks_spawned ==> b.pins_configured && b.clocks_configured && b.watchdog_disabled
            && b.monotonic_started,
        b.halted ==> !b.tasks_spawned,
{
}

} // verus!
