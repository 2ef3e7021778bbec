//! The timer daemon's state machine. The daemon itself is a loop run by the
//! surrounding binary: it reads the state file, sleeps, and performs the
//! actions decided here. Every decision — whether the daemon still owns the
//! record, how long to sleep, and what the next phase is — is taken by the
//! verified functions of this module.

use vstd::prelude::*;
use crate::state::{Cycle, Mode, State, cycle_wf, spec_state_matches, state_wf};
use crate::{MAX_MINUTES, MAX_SETS};

verus! {

/// Checks a cycle record for well-formedness.
pub fn cycle_ok(c: &Cycle) -> (r: bool)
    ensures
        r == cycle_wf(*c),
{
    2 <= c.sets && c.sets <= MAX_SETS && 1 <= c.set && c.set <= c.sets && 1 <= c.work_minutes
        && c.work_minutes <= MAX_MINUTES && 1 <= c.break_minutes && c.break_minutes <= MAX_MINUTES
}

/// The record a daemon would run with, assembled from spawn parameters.
pub open spec fn daemon_state(
    pid: i32,
    mode: Mode,
    start_ts: i64,
    end_ts: i64,
    minutes: u64,
    cycle: Option<Cycle>,
) -> State {
    State { pid, mode, start_ts, end_ts, minutes, cycle }
}

/// Validates the parameters a spawned daemon was handed and assembles its
/// in-memory record: accepted exactly when they form a well-formed session
/// record.
pub fn daemon_init(
    pid: i32,
    mode: Mode,
    start_ts: i64,
    end_ts: i64,
    minutes: u64,
    cycle: Option<Cycle>,
) -> (r: Option<State>)
    ensures
        r == (if state_wf(daemon_state(pid, mode, start_ts, end_ts, minutes, cycle)) {
            Some(daemon_state(pid, mode, start_ts, end_ts, minutes, cycle))
        } else {
            None::<State>
        }),
        r matches Some(st) ==> state_wf(st),
{
    if pid < 0 || start_ts < 0 || minutes < 1 || minutes > MAX_MINUTES {
        return None;
    }
    let secs: i64 = (minutes as i64) * 60;
    if start_ts > i64::MAX - secs {
        return None;
    }
    if end_ts != start_ts + secs {
        return None;
    }
    match &cycle {
        None => Some(State { pid, mode, start_ts, end_ts, minutes, cycle }),
        Some(c) => {
            if !cycle_ok(c) {
                return None;
            }
            let want = match mode {
                Mode::Work => c.work_minutes,
                Mode::Break => c.break_minutes,
            };
            if minutes != want {
                return None;
            }
            Some(State { pid, mode, start_ts, end_ts, minutes, cycle })
        },
    }
}

/// Whether the record observed on disk still belongs to this daemon: it
/// must exist and carry exactly the daemon's own identity tuple.
pub open spec fn owns_record(cur: State, observed: Option<State>) -> bool {
    spec_state_matches(observed, cur.pid, cur.mode, cur.start_ts, cur.end_ts, cur.minutes)
}

/// What the daemon does next after reading the state file.
#[derive(Clone, Copy, Debug, PartialEq, Eq, Structural)]
pub enum DaemonDecision {
    /// The record no longer identifies this daemon: exit silently, with no
    /// further write and no notification.
    Evict,
    /// The deadline is ahead: sleep this many seconds, then look again.
    Wait { secs: u64 },
    /// The deadline has passed and the record is still owned: transition.
    Due,
}

/// What `daemon_decide` answers, at the specification level.
pub open spec fn daemon_decide_spec(cur: State, observed: Option<State>, now: i64) -> DaemonDecision {
    if !owns_record(cur, observed) {
        DaemonDecision::Evict
    } else if now < cur.end_ts {
        DaemonDecision::Wait { secs: (cur.end_ts - now) as u64 }
    } else {
        DaemonDecision::Due
    }
}

/// One observation step of the daemon loop: evict when the on-disk record
/// no longer matches this daemon's identity, sleep while the deadline is
/// ahead, and transition once it has passed.
pub fn daemon_decide(cur: &State, observed: &Option<State>, now: i64) -> (r: DaemonDecision)
    requires
        now >= 0,
    ensures
        r == daemon_decide_spec(*cur, *observed, now),
{
    if !crate::state::state_matches(observed, cur.pid, cur.mode, cur.start_ts, cur.end_ts,
        cur.minutes) {
        DaemonDecision::Evict
    } else if now < cur.end_ts {
        DaemonDecision::Wait { secs: (cur.end_ts - now) as u64 }
    } else {
        DaemonDecision::Due
    }
}

/// A daemon whose identity no longer matches the on-disk record always
/// evicts itself: the decision carries no record to write and no phase to
/// notify for.
pub proof fn lemma_superseded_evicts(cur: State, observed: Option<State>, now: i64)
    requires
        !owns_record(cur, observed),
    ensures
        daemon_decide_spec(cur, observed, now) == DaemonDecision::Evict,
{
}

/// What follows a phase whose deadline has passed.
#[derive(Clone, Copy, Debug, PartialEq, Eq, Structural)]
pub enum PhaseOutcome {
    /// The session (or the whole cycle) is over: clear the record, notify
    /// for the finished phase, and terminate.
    Finished { notify: Mode },
    /// The cycle continues: persist the next record, notify for the
    /// finished phase, and keep running as `next`.
    Continue { notify: Mode, next: State },
}

/// A daemon-side fatal condition; it terminates the loop before any
/// further write.
#[derive(Clone, Copy, Debug, PartialEq, Eq, Structural)]
pub enum DaemonError {
    TimestampOverflow,
}

/// The record for the phase that follows `cur`, starting at `now`.
pub open spec fn next_phase_state(cur: State, c: Cycle, now: i64) -> State {
    if cur.mode is Work {
        State {
            pid: cur.pid,
            mode: Mode::Break,
            start_ts: now,
            end_ts: (now + c.break_minutes * 60) as i64,
            minutes: c.break_minutes,
            cycle: Some(c),
        }
    } else {
        State {
            pid: cur.pid,
            mode: Mode::Work,
            start_ts: now,
            end_ts: (now + c.work_minutes * 60) as i64,
            minutes: c.work_minutes,
            cycle: Some(
                Cycle {
                    set: (c.set + 1) as u64,
                    sets: c.sets,
                    work_minutes: c.work_minutes,
                    break_minutes: c.break_minutes,
                },
            ),
        }
    }
}

/// What `transition` answers, at the specification level.
pub open spec fn transition_spec(cur: State, now: i64) -> Result<PhaseOutcome, DaemonError> {
    match cur.cycle {
        None => Ok(PhaseOutcome::Finished { notify: cur.mode }),
        Some(c) => if c.set >= c.sets {
            Ok(PhaseOutcome::Finished { notify: cur.mode })
        } else {
            let mins: u64 = if cur.mode is Work {
                c.break_minutes
            } else {
                c.work_minutes
            };
            if now + mins * 60 > i64::MAX {
                Err(DaemonError::TimestampOverflow)
            } else {
                Ok(
                    PhaseOutcome::Continue {
                        notify: cur.mode,
                        next: next_phase_state(cur, c, now),
                    },
                )
            }
        },
    }
}

/// Decides the transition once a phase's deadline has passed. A session
/// without a cycle, or a cycle on its last set, is finished; otherwise a
/// work phase is followed by a break of the same set, and a break by the
/// work phase of the next set. The finished phase is the one notified for.
pub fn transition(cur: &State, now: i64) -> (r: Result<PhaseOutcome, DaemonError>)
    requires
        state_wf(*cur),
        now >= 0,
    ensures
        r == transition_spec(*cur, now),
        r matches Ok(o) ==> (o matches PhaseOutcome::Continue { notify, next } ==> {
            &&& state_wf(next)
            &&& next.pid == cur.pid
            &&& next.mode != cur.mode
            &&& notify == cur.mode
        }),
{
    let c = match cur.cycle {
        None => {
            return Ok(PhaseOutcome::Finished { notify: cur.mode });
        },
        Some(c) => c,
    };
    if c.set >= c.sets {
        return Ok(PhaseOutcome::Finished { notify: cur.mode });
    }
    let mins: u64 = match cur.mode {
        Mode::Work => c.break_minutes,
        Mode::Break => c.work_minutes,
    };
    let secs: i64 = (mins as i64) * 60;
    if now > i64::MAX - secs {
        return Err(DaemonError::TimestampOverflow);
    }
    let next = match cur.mode {
        Mode::Work => State {
            pid: cur.pid,
            mode: Mode::Break,
            start_ts: now,
            end_ts: now + secs,
            minutes: c.break_minutes,
            cycle: Some(c),
        },
        Mode::Break => State {
            pid: cur.pid,
            mode: Mode::Work,
            start_ts: now,
            end_ts: now + secs,
            minutes: c.work_minutes,
            cycle: Some(
                Cycle {
                    set: c.set + 1,
                    sets: c.sets,
                    work_minutes: c.work_minutes,
                    break_minutes: c.break_minutes,
                },
            ),
        },
    };
    Ok(PhaseOutcome::Continue { notify: cur.mode, next })
}

/// The position of a phase within a cycle run: the work and break phases
/// of set `k` are the `2k-2`nd and `2k-1`st phases, counted from zero.
pub open spec fn phase_index(st: State) -> int {
    match st.cycle {
        None => 0,
        Some(c) => (c.set - 1) * 2 + (if st.mode is Work {
            0int
        } else {
            1int
        }),
    }
}

/// A cycle advances one phase at a time and never runs past its last set:
/// every transition that continues moves to the next phase index, keeps
/// the cycle's shape, and starts from a phase before the final work set's.
pub proof fn lemma_cycle_advances(cur: State, c: Cycle, now: i64, notify: Mode, next: State)
    requires
        state_wf(cur),
        cur.cycle == Some(c),
        now >= 0,
        transition_spec(cur, now) == Ok::<PhaseOutcome, DaemonError>(
            PhaseOutcome::Continue { notify, next },
        ),
    ensures
        phase_index(next) == phase_index(cur) + 1,
        0 <= phase_index(cur) < 2 * c.sets - 1,
        next.cycle matches Some(c2) && c2.sets == c.sets && c2.work_minutes == c.work_minutes
            && c2.break_minutes == c.break_minutes && c.set <= c2.set <= c.set + 1,
{
}

/// A three-set cycle of one-minute phases runs exactly the sequence
/// Work(set 1), Break(set 1), Work(set 2), Break(set 2), Work(set 3), and
/// then finishes with no further break — for every run of clock values at
/// which the five deadlines pass. The headroom bounds on the clock values
/// exclude only the deadlines a phase's end could not be stamped with,
/// which the daemon treats as fatal rather than run past.
pub proof fn lemma_three_set_cycle_sequence(st1: State, t1: i64, t2: i64, t3: i64, t4: i64, t5: i64)
    requires
        state_wf(st1),
        st1.mode is Work,
        st1.cycle == Some(Cycle { set: 1, sets: 3, work_minutes: 1, break_minutes: 1 }),
        0 <= t1 && t1 + 60 <= i64::MAX,
        0 <= t2 && t2 + 60 <= i64::MAX,
        0 <= t3 && t3 + 60 <= i64::MAX,
        0 <= t4 && t4 + 60 <= i64::MAX,
        0 <= t5,
    ensures
        ({
            let c1 = Cycle { set: 1, sets: 3, work_minutes: 1, break_minutes: 1 };
            let c2 = Cycle { set: 2, sets: 3, work_minutes: 1, break_minutes: 1 };
            let c3 = Cycle { set: 3, sets: 3, work_minutes: 1, break_minutes: 1 };
            let b1 = next_phase_state(st1, c1, t1);
            let w2 = next_phase_state(b1, c1, t2);
            let b2 = next_phase_state(w2, c2, t3);
            let w3 = next_phase_state(b2, c2, t4);
            &&& transition_spec(st1, t1) == Ok::<PhaseOutcome, DaemonError>(
                PhaseOutcome::Continue { notify: Mode::Work, next: b1 },
            )
            &&& b1.mode is Break && b1.cycle == Some(c1) && b1.start_ts == t1
            &&& transition_spec(b1, t2) == Ok::<PhaseOutcome, DaemonError>(
                PhaseOutcome::Continue { notify: Mode::Break, next: w2 },
            )
            &&& w2.mode is Work && w2.cycle == Some(c2) && w2.start_ts == t2
            &&& transition_spec(w2, t3) == Ok::<PhaseOutcome, DaemonError>(
                PhaseOutcome::Continue { notify: Mode::Work, next: b2 },
            )
            &&& b2.mode is Break && b2.cycle == Some(c2) && b2.start_ts == t3
            &&& transition_spec(b2, t4) == Ok::<PhaseOutcome, DaemonError>(
                PhaseOutcome::Continue { notify: Mode::Break, next: w3 },
            )
            &&& w3.mode is Work && w3.cycle == Some(c3) && w3.start_ts == t4
            &&& transition_spec(w3, t5) == Ok::<PhaseOutcome, DaemonError>(
                PhaseOutcome::Finished { notify: Mode::Work },
            )
        }),
{
}

/// A cycle ends exactly after the final work set: a finishing work phase
/// on the last set terminates the run, and a finishing break phase that is
/// not on the last set hands over to the work phase of the next set.
pub proof fn lemma_cycle_progress(cur: State, c: Cycle, now: i64)
    requires
        state_wf(cur),
        cur.cycle == Some(c),
        now >= 0,
        now + c.work_minutes * 60 <= i64::MAX,
        now + c.break_minutes * 60 <= i64::MAX,
    ensures
        cur.mode is Work && c.set >= c.sets ==> transition_spec(cur, now) == Ok::<
            PhaseOutcome,
            DaemonError,
        >(PhaseOutcome::Finished { notify: Mode::Work }),
        cur.mode is Work && c.set < c.sets ==> (transition_spec(cur, now) matches Ok(
            PhaseOutcome::Continue { notify, next },
        ) && next.mode is Break && next.cycle == Some(c)),
        cur.mode is Break && c.set < c.sets ==> (transition_spec(cur, now) matches Ok(
            PhaseOutcome::Continue { notify, next },
        ) && next.mode is Work && next.cycle == Some(
            Cycle {
                set: (c.set + 1) as u64,
                sets: c.sets,
                work_minutes: c.work_minutes,
                break_minutes: c.break_minutes,
            },
        )),
{
}

} // verus!
