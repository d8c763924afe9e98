//! The periodic heartbeat task.
//!
//! On each activation the heartbeat toggles one digital output exactly once,
//! then suspends itself until a fixed interval has passed. The activation is
//! a pure decision from the current output level and the current tick to the
//! new level and the requested wake tick.

use vstd::prelude::*;

verus! {

/// Ticks between two heartbeat activations.
pub const HEARTBEAT_INTERVAL: u64 = 250;

/// One activation: flip the output level and ask to be woken one interval
/// from now.
pub fn heartbeat_step(level: bool, now: u64) -> (r: (bool, u64))
    requires
        now + HEARTBEAT_INTERVAL <= u64::MAX,
    ensures
        r.0 == !level,
        r.1 == now + HEARTBEAT_INTERVAL,
{
    (!level, now + HEARTBEAT_INTERVAL)
}

} // verus!
