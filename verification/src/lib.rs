//! Bring-up and scheduling core for a single-core embedded controller.
//!
//! The crate models the part of such a firmware that must be correct for any
//! real-time application built on the pattern: a monotonic clock derived from
//! a wrapping hardware counter, one-shot wake scheduling, a strictly ordered
//! hardware bring-up sequence, a cooperative priority scheduler, the
//! priority-ceiling discipline for shared resources, and the periodic
//! heartbeat task that exercises all of them.

pub mod bringup;
pub mod clock;
pub mod executor;
pub mod heartbeat;
pub mod resource;
pub mod starvation;
pub mod system;
