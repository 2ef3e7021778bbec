//! The session record that the tool persists on disk, its invariants, and
//! the identity comparison the daemon uses to detect that it has been
//! superseded.

use vstd::prelude::*;
use crate::{MAX_MINUTES, MAX_SETS};

verus! {

/// Which phase of a session is running.
#[derive(Clone, Copy, Debug, PartialEq, Eq, Structural)]
pub enum Mode {
    Work,
    Break,
}

/// Extra record carried by multi-set runs: which set is current and the
/// durations of both phase types.
#[derive(Clone, Copy, Debug, PartialEq, Eq, Structural)]
pub struct Cycle {
    /// 1-based index of the current set.
    pub set: u64,
    /// Total number of work sets requested.
    pub sets: u64,
    /// Length of each work phase, in minutes.
    pub work_minutes: u64,
    /// Length of each break phase, in minutes.
    pub break_minutes: u64,
}

/// The single persisted session record.
#[derive(Clone, Copy, Debug, PartialEq, Eq, Structural)]
pub struct State {
    /// Process id of the daemon that owns this record.
    pub pid: i32,
    /// Phase currently running.
    pub mode: Mode,
    /// Unix timestamp (seconds) at which the current phase started.
    pub start_ts: i64,
    /// Unix timestamp (seconds) at which the current phase ends.
    pub end_ts: i64,
    /// Duration of the current phase in minutes, redundant with the
    /// timestamps but kept as an extra identity field.
    pub minutes: u64,
    /// Present only for multi-set runs.
    pub cycle: Option<Cycle>,
}

/// A well-formed cycle: at least two sets, the current set within range, and
/// both durations within the accepted limits.
pub open spec fn cycle_wf(c: Cycle) -> bool {
    &&& 2 <= c.sets <= MAX_SETS
    &&& 1 <= c.set <= c.sets
    &&& 1 <= c.work_minutes <= MAX_MINUTES
    &&& 1 <= c.break_minutes <= MAX_MINUTES
}

/// The fields the on-disk codec can represent: non-negative pid and
/// timestamps.
pub open spec fn state_codec_wf(st: State) -> bool {
    &&& st.pid >= 0
    &&& st.start_ts >= 0
    &&& st.end_ts >= 0
}

/// A well-formed session record, as every record this tool writes is:
/// representable by the codec, duration within limits, the end timestamp
/// derived from the start, and any cycle consistent with the current phase.
pub open spec fn state_wf(st: State) -> bool {
    &&& state_codec_wf(st)
    &&& 1 <= st.minutes <= MAX_MINUTES
    &&& st.end_ts == st.start_ts + st.minutes * 60
    &&& match st.cycle {
        None => true,
        Some(c) => {
            &&& cycle_wf(c)
            &&& st.minutes == (if st.mode is Work {
                c.work_minutes
            } else {
                c.break_minutes
            })
        },
    }
}

/// Whether an observed on-disk record carries exactly this identity tuple.
pub open spec fn spec_state_matches(
    observed: Option<State>,
    pid: i32,
    mode: Mode,
    start_ts: i64,
    end_ts: i64,
    minutes: u64,
) -> bool {
    match observed {
        None => false,
        Some(st) => {
            &&& st.pid == pid
            &&& st.mode == mode
            &&& st.start_ts == start_ts
            &&& st.end_ts == end_ts
            &&& st.minutes == minutes
        },
    }
}

/// Decides whether the record read from disk still carries the given
/// identity tuple. The daemon treats any mismatch (including an absent
/// record) as having been superseded.
pub fn state_matches(
    observed: &Option<State>,
    pid: i32,
    mode: Mode,
    start_ts: i64,
    end_ts: i64,
    minutes: u64,
) -> (r: bool)
    ensures
        r == spec_state_matches(*observed, pid, mode, start_ts, end_ts, minutes),
{
    match observed {
        None => false,
        Some(st) => st.pid == pid && st.mode == mode && st.start_ts == start_ts
            && st.end_ts == end_ts && st.minutes == minutes,
    }
}

/// The phase name as it appears in the state file and in status output.
pub fn mode_label(mode: Mode) -> (r: &'static str)
    ensures
        r@ == spec_mode_chars(mode),
{
    match mode {
        Mode::Work => "work",
        Mode::Break => "break",
    }
}

/// The phase name as a character sequence.
pub open spec fn spec_mode_chars(mode: Mode) -> Seq<char> {
    match mode {
        Mode::Work => "work"@,
        Mode::Break => "break"@,
    }
}

/// How many audible cues follow a finished phase: more after work than
/// after a break.
pub fn beep_count(mode: Mode) -> (r: u64)
    ensures
        mode is Work ==> r == 2,
        mode is Break ==> r == 1,
{
    match mode {
        Mode::Work => 2,
        Mode::Break => 1,
    }
}

/// The notification text shown when a phase finishes.
pub fn notify_body(mode: Mode) -> (r: &'static str)
    ensures
        mode is Work ==> r@ == "Work finished. Time for a break."@,
        mode is Break ==> r@ == "Break finished. Back to work."@,
{
    match mode {
        Mode::Work => "Work finished. Time for a break.",
        Mode::Break => "Break finished. Back to work.",
    }
}

} // verus!
