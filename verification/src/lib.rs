//! A single-user interval timer (work/break cycles) that runs as a detached
//! background daemon, persists its state to a file, and is queried or
//! cancelled by later invocations of the same program.
//!
//! This crate holds the verified core: the session record and its on-disk
//! codec, input validation, the planning of new sessions, the decisions of
//! the `status` and `stop` commands, and the daemon's phase-transition state
//! machine. The process-level plumbing (spawning, signals, the readiness
//! pipe, the actual file reads and writes) lives outside, in the binary
//! around this library.

use vstd::prelude::*;

pub mod clock;
pub mod codec;
pub mod daemon;
pub mod paths;
pub mod plan;
pub mod process;
pub mod scan;
pub mod state;
pub mod timefmt;

verus! {

/// Longest session length accepted, in minutes (24 hours).
pub const MAX_MINUTES: u64 = 1440;

/// Largest number of work sets accepted in one cycle.
pub const MAX_SETS: u64 = 100;

/// Default work-session length in minutes.
pub const DEFAULT_WORK_MINUTES: u64 = 25;

/// Default break length in minutes.
pub const DEFAULT_BREAK_MINUTES: u64 = 5;

} // verus!
