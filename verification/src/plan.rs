//! Decisions taken by the foreground commands: input validation, planning a
//! new session, and what `status` and `stop` do with the records and the
//! liveness facts the surrounding binary observes for them.

use vstd::prelude::*;
use crate::state::{Cycle, Mode, State, cycle_wf, state_wf};
use crate::{DEFAULT_BREAK_MINUTES, DEFAULT_WORK_MINUTES, MAX_MINUTES, MAX_SETS};

verus! {

/// Errors a foreground command can report before any state is touched.
#[derive(Clone, Copy, Debug, PartialEq, Eq, Structural)]
pub enum CmdError {
    MinutesOutOfRange,
    SetsOutOfRange,
    MissingSets,
    MissingSet,
    MissingWorkMinutes,
    MissingBreakMinutes,
    SetOutOfRange,
    TimestampOverflow,
    HomeNotSet,
}

/// The message printed for each command error.
pub open spec fn spec_message(e: CmdError) -> Seq<char> {
    match e {
        CmdError::MinutesOutOfRange => "minutes must be in 1..=1440"@,
        CmdError::SetsOutOfRange => "sets must be in 1..=100"@,
        CmdError::MissingSets => "invalid cycle args: missing --sets"@,
        CmdError::MissingSet => "invalid cycle args: missing --set"@,
        CmdError::MissingWorkMinutes => "invalid cycle args: missing --work-minutes"@,
        CmdError::MissingBreakMinutes => "invalid cycle args: missing --break-minutes"@,
        CmdError::SetOutOfRange => "invalid cycle args: --set must be in 1..=sets"@,
        CmdError::TimestampOverflow => "timestamp overflow"@,
        CmdError::HomeNotSet => "HOME is not set"@,
    }
}

impl CmdError {
    /// The message printed for this error.
    pub fn message(&self) -> (r: &'static str)
        ensures
            r@ == spec_message(*self),
    {
        match self {
            CmdError::MinutesOutOfRange => "minutes must be in 1..=1440",
            CmdError::SetsOutOfRange => "sets must be in 1..=100",
            CmdError::MissingSets => "invalid cycle args: missing --sets",
            CmdError::MissingSet => "invalid cycle args: missing --set",
            CmdError::MissingWorkMinutes => "invalid cycle args: missing --work-minutes",
            CmdError::MissingBreakMinutes => "invalid cycle args: missing --break-minutes",
            CmdError::SetOutOfRange => "invalid cycle args: --set must be in 1..=sets",
            CmdError::TimestampOverflow => "timestamp overflow",
            CmdError::HomeNotSet => "HOME is not set",
        }
    }
}

/// Checks that a session length is within the accepted range.
pub fn validate_minutes(minutes: u64) -> (r: Result<(), CmdError>)
    ensures
        r is Ok <==> 1 <= minutes <= MAX_MINUTES,
        r is Err ==> r == Result::<(), CmdError>::Err(CmdError::MinutesOutOfRange),
{
    if 1 <= minutes && minutes <= MAX_MINUTES {
        Ok(())
    } else {
        Err(CmdError::MinutesOutOfRange)
    }
}

/// Checks that a set count is within the accepted range.
pub fn validate_sets(sets: u64) -> (r: Result<(), CmdError>)
    ensures
        r is Ok <==> 1 <= sets <= MAX_SETS,
        r is Err ==> r == Result::<(), CmdError>::Err(CmdError::SetsOutOfRange),
{
    if 1 <= sets && sets <= MAX_SETS {
        Ok(())
    } else {
        Err(CmdError::SetsOutOfRange)
    }
}

/// A fully resolved request for a new session: the phase to start with, its
/// length, and the cycle record for multi-set runs.
#[derive(Clone, Copy, Debug, PartialEq, Eq, Structural)]
pub struct SessionRequest {
    pub mode: Mode,
    pub minutes: u64,
    pub cycle: Option<Cycle>,
}

/// A request a command hands on for spawning: duration within limits and
/// any cycle consistent with the requested phase.
pub open spec fn request_wf(req: SessionRequest) -> bool {
    &&& 1 <= req.minutes <= MAX_MINUTES
    &&& match req.cycle {
        None => true,
        Some(c) => {
            &&& cycle_wf(c)
            &&& req.minutes == (if req.mode is Work {
                c.work_minutes
            } else {
                c.break_minutes
            })
        },
    }
}

/// What `start_single_session` answers for the given arguments.
pub open spec fn spec_start_single_session(mode: Mode, minutes: Option<u64>) -> Result<
    SessionRequest,
    CmdError,
> {
    let m = match minutes {
        Some(m) => m,
        None => if mode is Work {
            DEFAULT_WORK_MINUTES
        } else {
            DEFAULT_BREAK_MINUTES
        },
    };
    if 1 <= m <= MAX_MINUTES {
        Ok(SessionRequest { mode, minutes: m, cycle: None })
    } else {
        Err(CmdError::MinutesOutOfRange)
    }
}

/// Plans a plain single session of the given phase: the length defaults per
/// phase, is validated, and no cycle record is produced.
pub fn start_single_session(mode: Mode, minutes: Option<u64>) -> (r: Result<
    SessionRequest,
    CmdError,
>)
    ensures
        r == spec_start_single_session(mode, minutes),
        r matches Ok(req) ==> request_wf(req) && req.cycle is None,
{
    let m = match minutes {
        Some(m) => m,
        None => match mode {
            Mode::Work => DEFAULT_WORK_MINUTES,
            Mode::Break => DEFAULT_BREAK_MINUTES,
        },
    };
    validate_minutes(m)?;
    Ok(SessionRequest { mode, minutes: m, cycle: None })
}

/// What `start_work` answers for the given arguments.
pub open spec fn spec_start_work(
    minutes: Option<u64>,
    sets: Option<u64>,
    break_minutes: Option<u64>,
) -> Result<SessionRequest, CmdError> {
    match sets {
        None => spec_start_single_session(Mode::Work, minutes),
        Some(s) => if !(1 <= s <= MAX_SETS) {
            Err(CmdError::SetsOutOfRange)
        } else if s <= 1 {
            spec_start_single_session(Mode::Work, minutes)
        } else {
            let wm = match minutes {
                Some(m) => m,
                None => DEFAULT_WORK_MINUTES,
            };
            let bm = match break_minutes {
                Some(m) => m,
                None => DEFAULT_BREAK_MINUTES,
            };
            if !(1 <= wm <= MAX_MINUTES) || !(1 <= bm <= MAX_MINUTES) {
                Err(CmdError::MinutesOutOfRange)
            } else {
                Ok(
                    SessionRequest {
                        mode: Mode::Work,
                        minutes: wm,
                        cycle: Some(
                            Cycle { set: 1, sets: s, work_minutes: wm, break_minutes: bm },
                        ),
                    },
                )
            }
        },
    }
}

/// Plans a work session. Without a set count, or with a single set, this is
/// a plain work session and any break length is ignored; with two or more
/// sets it carries a cycle record beginning at set 1.
pub fn start_work(minutes: Option<u64>, sets: Option<u64>, break_minutes: Option<u64>) -> (r:
    Result<SessionRequest, CmdError>)
    ensures
        r == spec_start_work(minutes, sets, break_minutes),
        r matches Ok(req) ==> request_wf(req) && req.mode is Work,
{
    let s = match sets {
        Some(s) => s,
        None => {
            return start_single_session(Mode::Work, minutes);
        },
    };
    validate_sets(s)?;
    if s <= 1 {
        return start_single_session(Mode::Work, minutes);
    }
    let wm = match minutes {
        Some(m) => m,
        None => DEFAULT_WORK_MINUTES,
    };
    let bm = match break_minutes {
        Some(m) => m,
        None => DEFAULT_BREAK_MINUTES,
    };
    validate_minutes(wm)?;
    validate_minutes(bm)?;
    Ok(
        SessionRequest {
            mode: Mode::Work,
            minutes: wm,
            cycle: Some(Cycle { set: 1, sets: s, work_minutes: wm, break_minutes: bm }),
        },
    )
}

/// For all valid arguments, a start with at most one set never carries a
/// cycle record, and a start with two or more sets carries one that begins
/// at set 1 of the requested total.
pub proof fn lemma_start_work_cycle(m: u64, s: u64, b: Option<u64>)
    requires
        1 <= m <= MAX_MINUTES,
        1 <= s <= MAX_SETS,
        b matches Some(bm) ==> 1 <= bm <= MAX_MINUTES,
    ensures
        s <= 1 ==> (spec_start_work(Some(m), Some(s), b) matches Ok(req) && req.cycle is None),
        s >= 2 ==> (spec_start_work(Some(m), Some(s), b) matches Ok(req)
            && req.cycle matches Some(c) && c.sets == s && c.set == 1),
{
}

/// What `parse_cycle` answers for the given arguments.
pub open spec fn spec_parse_cycle(
    sets: Option<u64>,
    set: Option<u64>,
    work_minutes: Option<u64>,
    break_minutes: Option<u64>,
) -> Result<Option<Cycle>, CmdError> {
    if sets is None && set is None && work_minutes is None && break_minutes is None {
        Ok(None)
    } else {
        match (sets, set, work_minutes, break_minutes) {
            (None, _, _, _) => Err(CmdError::MissingSets),
            (_, None, _, _) => Err(CmdError::MissingSet),
            (_, _, None, _) => Err(CmdError::MissingWorkMinutes),
            (_, _, _, None) => Err(CmdError::MissingBreakMinutes),
            (Some(s), Some(cur), Some(wm), Some(bm)) => if !(1 <= s <= MAX_SETS) {
                Err(CmdError::SetsOutOfRange)
            } else if s <= 1 {
                Ok(None)
            } else if cur == 0 || cur > s {
                Err(CmdError::SetOutOfRange)
            } else if !(1 <= wm <= MAX_MINUTES) {
                Err(CmdError::MinutesOutOfRange)
            } else if !(1 <= bm <= MAX_MINUTES) {
                Err(CmdError::MinutesOutOfRange)
            } else {
                Ok(Some(Cycle { set: cur, sets: s, work_minutes: wm, break_minutes: bm }))
            },
        }
    }
}

/// Rebuilds the cycle record from the arguments handed to a spawned daemon:
/// either all four are absent (no cycle), or all four must be present and
/// valid.
pub fn parse_cycle(
    sets: Option<u64>,
    set: Option<u64>,
    work_minutes: Option<u64>,
    break_minutes: Option<u64>,
) -> (r: Result<Option<Cycle>, CmdError>)
    ensures
        r == spec_parse_cycle(sets, set, work_minutes, break_minutes),
        r matches Ok(Some(c)) ==> cycle_wf(c),
{
    if sets.is_none() && set.is_none() && work_minutes.is_none() && break_minutes.is_none() {
        return Ok(None);
    }
    let s = match sets {
        Some(s) => s,
        None => {
            return Err(CmdError::MissingSets);
        },
    };
    let cur = match set {
        Some(v) => v,
        None => {
            return Err(CmdError::MissingSet);
        },
    };
    let wm = match work_minutes {
        Some(v) => v,
        None => {
            return Err(CmdError::MissingWorkMinutes);
        },
    };
    let bm = match break_minutes {
        Some(v) => v,
        None => {
            return Err(CmdError::MissingBreakMinutes);
        },
    };
    validate_sets(s)?;
    if s <= 1 {
        return Ok(None);
    }
    if cur == 0 || cur > s {
        return Err(CmdError::SetOutOfRange);
    }
    validate_minutes(wm)?;
    validate_minutes(bm)?;
    Ok(Some(Cycle { set: cur, sets: s, work_minutes: wm, break_minutes: bm }))
}

/// Builds the record a freshly planned session persists: the requested
/// phase starting now, with its end derived from the start. Fails only when
/// the end timestamp would not fit.
pub fn session_state(req: &SessionRequest, pid: i32, now: i64) -> (r: Result<State, CmdError>)
    requires
        request_wf(*req),
        pid >= 0,
        now >= 0,
    ensures
        r matches Ok(st) ==> {
            &&& state_wf(st)
            &&& st == (State {
                pid,
                mode: req.mode,
                start_ts: now,
                end_ts: (now + req.minutes * 60) as i64,
                minutes: req.minutes,
                cycle: req.cycle,
            })
        },
        r is Ok <==> now + req.minutes * 60 <= i64::MAX,
        r is Err ==> r == Result::<State, CmdError>::Err(CmdError::TimestampOverflow),
{
    let secs: i64 = (req.minutes as i64) * 60;
    if now > i64::MAX - secs {
        return Err(CmdError::TimestampOverflow);
    }
    Ok(
        State {
            pid,
            mode: req.mode,
            start_ts: now,
            end_ts: now + secs,
            minutes: req.minutes,
            cycle: req.cycle,
        },
    )
}

/// Which of the two state-file locations a record was found at.
#[derive(Clone, Copy, Debug, PartialEq, Eq, Structural)]
pub enum PathChoice {
    Primary,
    Legacy,
}

/// Picks the record `status` reports on: the primary location wins, the
/// legacy one is the fallback.
pub fn select_state(primary: Option<State>, legacy: Option<State>) -> (r: Option<
    (PathChoice, State),
>)
    ensures
        primary matches Some(st) ==> r == Some((PathChoice::Primary, st)),
        primary is None ==> (legacy matches Some(st) ==> r == Some((PathChoice::Legacy, st))),
        primary is None && legacy is None ==> r is None,
{
    match primary {
        Some(st) => Some((PathChoice::Primary, st)),
        None => match legacy {
            Some(st) => Some((PathChoice::Legacy, st)),
            None => None,
        },
    }
}

/// Seconds left until a deadline, never negative.
pub fn remaining_secs(end_ts: i64, now: i64) -> (r: u64)
    requires
        now >= 0,
    ensures
        r == (if end_ts > now {
            end_ts - now
        } else {
            0
        }),
{
    if end_ts > now {
        (end_ts - now) as u64
    } else {
        0
    }
}

/// Later observations of the same deadline never report more remaining
/// time: the value decreases monotonically toward zero.
pub proof fn lemma_remaining_monotone(end_ts: i64, now1: i64, now2: i64)
    requires
        now1 <= now2,
    ensures
        (if end_ts > now2 {
            end_ts - now2
        } else {
            0
        }) <= (if end_ts > now1 {
            end_ts - now1
        } else {
            0
        }),
{
}

/// What `status` reports.
#[derive(Clone, Copy, Debug, PartialEq, Eq, Structural)]
pub enum StatusView {
    /// No live timer; `clear` names a stale record to remove, if one was
    /// found whose owner is dead.
    NotRunning { clear: Option<PathChoice> },
    /// A live timer, with everything the report prints.
    Running {
        mode: Mode,
        pid: i32,
        cycle: Option<Cycle>,
        start_ts: i64,
        end_ts: i64,
        remaining_secs: u64,
    },
}

/// Decides the `status` report from the record found (if any), whether its
/// owning process is alive, and the current time. A record whose owner is
/// dead is reported as not running and marked for removal.
pub fn status_outcome(found: Option<(PathChoice, State)>, alive: bool, now: i64) -> (r: StatusView)
    requires
        now >= 0,
    ensures
        found is None ==> r == (StatusView::NotRunning { clear: None }),
        found matches Some((path, st)) ==> r == (if !alive {
            StatusView::NotRunning { clear: Some(path) }
        } else {
            StatusView::Running {
                mode: st.mode,
                pid: st.pid,
                cycle: st.cycle,
                start_ts: st.start_ts,
                end_ts: st.end_ts,
                remaining_secs: (if st.end_ts > now {
                    (st.end_ts - now) as u64
                } else {
                    0
                }),
            }
        }),
{
    match found {
        None => StatusView::NotRunning { clear: None },
        Some((path, st)) => {
            if !alive {
                StatusView::NotRunning { clear: Some(path) }
            } else {
                StatusView::Running {
                    mode: st.mode,
                    pid: st.pid,
                    cycle: st.cycle,
                    start_ts: st.start_ts,
                    end_ts: st.end_ts,
                    remaining_secs: remaining_secs(st.end_ts, now),
                }
            }
        },
    }
}

/// The exit code `status` ends with: 0 while a timer runs, 1 otherwise.
pub fn status_exit_code(view: &StatusView) -> (r: i32)
    ensures
        r == 0 <==> view is Running,
        r == 1 <==> view is NotRunning,
{
    match view {
        StatusView::Running { .. } => 0,
        StatusView::NotRunning { .. } => 1,
    }
}

/// What `stop` (and a new `start`) does with one state-file location.
#[derive(Clone, Copy, Debug, PartialEq, Eq, Structural)]
pub struct StopAction {
    /// Process to send the termination signal to, if any.
    pub terminate: Option<i32>,
    /// Whether the record at this location is to be removed.
    pub clear: bool,
}

/// Decides what to do with one state-file location: an existing record is
/// always cleared, and its owner is signalled only while still alive. An
/// absent record calls for nothing.
pub fn stop_existing(observed: &Option<State>, alive: bool) -> (r: StopAction)
    ensures
        r == stop_existing_spec(*observed, alive),
        observed is None ==> r == (StopAction { terminate: None, clear: false }),
        observed matches Some(st) ==> r == (StopAction {
            terminate: if alive {
                Some(st.pid)
            } else {
                None
            },
            clear: true,
        }),
{
    match observed {
        None => StopAction { terminate: None, clear: false },
        Some(st) => {
            if alive {
                StopAction { terminate: Some(st.pid), clear: true }
            } else {
                StopAction { terminate: None, clear: true }
            }
        },
    }
}

/// The exit code `stop` ends with: 0 when a live timer was stopped at
/// either location, 1 when nothing was running.
pub fn stop_exit_code(stopped_primary: bool, stopped_legacy: bool) -> (r: i32)
    ensures
        r == 0 <==> (stopped_primary || stopped_legacy),
        r == 1 <==> (!stopped_primary && !stopped_legacy),
{
    if stopped_primary || stopped_legacy {
        0
    } else {
        1
    }
}

/// With no record at either location — as after a completed `stop` —
/// another `stop` signals nothing, clears nothing, and reports that nothing
/// was running.
pub proof fn lemma_stop_idempotent()
    ensures
        forall|alive: bool|
            stop_existing_spec(None, alive) == (StopAction { terminate: None, clear: false }),
{
}

/// What `stop_existing` answers, at the specification level.
pub open spec fn stop_existing_spec(observed: Option<State>, alive: bool) -> StopAction {
    match observed {
        None => StopAction { terminate: None, clear: false },
        Some(st) => if alive {
            StopAction { terminate: Some(st.pid), clear: true }
        } else {
            StopAction { terminate: None, clear: true }
        },
    }
}

} // verus!
