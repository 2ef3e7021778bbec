use pomodoro::codec::{encode_state, parse_state};
use pomodoro::daemon::{
    cycle_ok, daemon_decide, daemon_init, transition, DaemonDecision, PhaseOutcome,
};
use pomodoro::plan::{
    parse_cycle, select_state, session_state, start_single_session, start_work, status_exit_code,
    status_outcome, stop_exit_code, stop_existing, validate_minutes, validate_sets, CmdError,
    PathChoice, StatusView, StopAction,
};
use pomodoro::clock::now_unix;
use pomodoro::paths::{state_path_for_dir, state_paths};
use pomodoro::process::{
    interpret_liveness_probe, interpret_termination, pid_can_be_alive, ProbeResult, ProcessError,
};
use pomodoro::state::{beep_count, mode_label, notify_body, state_matches, Cycle, Mode, State};
use pomodoro::timefmt::format_duration;

fn work_state(pid: i32, start_ts: i64, minutes: u64, cycle: Option<Cycle>) -> State {
    State {
        pid,
        mode: Mode::Work,
        start_ts,
        end_ts: start_ts + minutes as i64 * 60,
        minutes,
        cycle,
    }
}

#[test]
fn validate_minutes_bounds() {
    assert_eq!(validate_minutes(0), Err(CmdError::MinutesOutOfRange));
    assert_eq!(validate_minutes(1), Ok(()));
    assert_eq!(validate_minutes(1440), Ok(()));
    assert_eq!(validate_minutes(1441), Err(CmdError::MinutesOutOfRange));
}

#[test]
fn validate_sets_bounds() {
    assert_eq!(validate_sets(0), Err(CmdError::SetsOutOfRange));
    assert_eq!(validate_sets(1), Ok(()));
    assert_eq!(validate_sets(100), Ok(()));
    assert_eq!(validate_sets(101), Err(CmdError::SetsOutOfRange));
}

#[test]
fn start_with_one_set_has_no_cycle() {
    let req = start_work(Some(30), Some(1), Some(5)).unwrap();
    assert_eq!(req.mode, Mode::Work);
    assert_eq!(req.minutes, 30);
    assert!(req.cycle.is_none());
    let req = start_work(Some(30), None, None).unwrap();
    assert!(req.cycle.is_none());
}

#[test]
fn start_with_many_sets_begins_at_set_one() {
    let req = start_work(Some(25), Some(4), Some(5)).unwrap();
    let c = req.cycle.unwrap();
    assert_eq!(c.set, 1);
    assert_eq!(c.sets, 4);
    assert_eq!(c.work_minutes, 25);
    assert_eq!(c.break_minutes, 5);
    assert_eq!(req.minutes, 25);
}

#[test]
fn start_defaults() {
    let req = start_work(None, None, None).unwrap();
    assert_eq!(req.minutes, 25);
    let req = start_single_session(Mode::Break, None).unwrap();
    assert_eq!(req.minutes, 5);
    let req = start_work(None, Some(2), None).unwrap();
    let c = req.cycle.unwrap();
    assert_eq!(c.work_minutes, 25);
    assert_eq!(c.break_minutes, 5);
}

#[test]
fn start_with_zero_minutes_is_rejected() {
    assert_eq!(
        start_work(Some(0), None, None),
        Err(CmdError::MinutesOutOfRange)
    );
    assert_eq!(
        start_single_session(Mode::Break, Some(0)),
        Err(CmdError::MinutesOutOfRange)
    );
}

#[test]
fn parse_cycle_all_absent_is_no_cycle() {
    assert_eq!(parse_cycle(None, None, None, None), Ok(None));
}

#[test]
fn parse_cycle_missing_pieces() {
    assert_eq!(
        parse_cycle(None, Some(1), Some(25), Some(5)),
        Err(CmdError::MissingSets)
    );
    assert_eq!(
        parse_cycle(Some(3), None, Some(25), Some(5)),
        Err(CmdError::MissingSet)
    );
    assert_eq!(
        parse_cycle(Some(3), Some(1), None, Some(5)),
        Err(CmdError::MissingWorkMinutes)
    );
    assert_eq!(
        parse_cycle(Some(3), Some(1), Some(25), None),
        Err(CmdError::MissingBreakMinutes)
    );
}

#[test]
fn parse_cycle_ranges() {
    assert_eq!(
        parse_cycle(Some(3), Some(0), Some(25), Some(5)),
        Err(CmdError::SetOutOfRange)
    );
    assert_eq!(
        parse_cycle(Some(3), Some(4), Some(25), Some(5)),
        Err(CmdError::SetOutOfRange)
    );
    assert_eq!(parse_cycle(Some(1), Some(1), Some(25), Some(5)), Ok(None));
    let c = parse_cycle(Some(3), Some(2), Some(25), Some(5)).unwrap().unwrap();
    assert_eq!(c.set, 2);
    assert!(cycle_ok(&c));
}

#[test]
fn encode_is_canonical_json() {
    let st = work_state(123, 100, 25, None);
    assert_eq!(
        encode_state(&st).as_str(),
        "{\"pid\":123,\"mode\":\"work\",\"start_ts\":100,\"end_ts\":1600,\"minutes\":25,\"cycle\":null}"
    );
    let st = State {
        pid: 7,
        mode: Mode::Break,
        start_ts: 0,
        end_ts: 300,
        minutes: 5,
        cycle: Some(Cycle { set: 2, sets: 3, work_minutes: 25, break_minutes: 5 }),
    };
    assert_eq!(
        encode_state(&st).as_str(),
        "{\"pid\":7,\"mode\":\"break\",\"start_ts\":0,\"end_ts\":300,\"minutes\":5,\"cycle\":{\"set\":2,\"sets\":3,\"work_minutes\":25,\"break_minutes\":5}}"
    );
}

#[test]
fn round_trip_without_cycle() {
    let st = work_state(4242, 1700000000, 25, None);
    let text = encode_state(&st);
    assert_eq!(parse_state(text.as_str()), Some(st));
}

#[test]
fn round_trip_with_cycle() {
    let st = State {
        pid: 31337,
        mode: Mode::Break,
        start_ts: 1700000000,
        end_ts: 1700000300,
        minutes: 5,
        cycle: Some(Cycle { set: 3, sets: 7, work_minutes: 50, break_minutes: 5 }),
    };
    let text = encode_state(&st);
    assert_eq!(parse_state(text.as_str()), Some(st));
}

#[test]
fn parse_rejects_garbage() {
    assert_eq!(parse_state(""), None);
    assert_eq!(parse_state("not json at all"), None);
    assert_eq!(parse_state("{\"pid\":}"), None);
    assert_eq!(parse_state("{\"pid\":12"), None);
    assert_eq!(parse_state("\u{1}\u{2}\u{3}binary\u{fffd}"), None);
    // Trailing bytes after a full record are corruption too.
    assert_eq!(
        parse_state(
            "{\"pid\":123,\"mode\":\"work\",\"start_ts\":100,\"end_ts\":1600,\"minutes\":25,\"cycle\":null}x"
        ),
        None
    );
    // A pid too large for the field is corruption.
    assert_eq!(
        parse_state(
            "{\"pid\":3000000000,\"mode\":\"work\",\"start_ts\":100,\"end_ts\":1600,\"minutes\":25,\"cycle\":null}"
        ),
        None
    );
}

#[test]
fn parse_accepts_exactly_the_canonical_shape() {
    let canonical =
        "{\"pid\":1,\"mode\":\"work\",\"start_ts\":0,\"end_ts\":60,\"minutes\":1,\"cycle\":null}";
    assert!(parse_state(canonical).is_some());
    // Extra spacing or another field order is not the canonical shape.
    let spaced =
        "{\"pid\": 1,\"mode\":\"work\",\"start_ts\":0,\"end_ts\":60,\"minutes\":1,\"cycle\":null}";
    assert_eq!(parse_state(spaced), None);
    let reordered =
        "{\"mode\":\"work\",\"pid\":1,\"start_ts\":0,\"end_ts\":60,\"minutes\":1,\"cycle\":null}";
    assert_eq!(parse_state(reordered), None);
    // A leading zero is not canonical (and not JSON).
    let padded =
        "{\"pid\":01,\"mode\":\"work\",\"start_ts\":0,\"end_ts\":60,\"minutes\":1,\"cycle\":null}";
    assert_eq!(parse_state(padded), None);
    // A zero field parses: zero itself has no superfluous leading digit.
    let zero_start =
        "{\"pid\":1,\"mode\":\"work\",\"start_ts\":0,\"end_ts\":60,\"minutes\":1,\"cycle\":null}";
    assert_eq!(parse_state(zero_start).unwrap().start_ts, 0);
}

#[test]
fn parse_accepts_the_older_layout_without_a_cycle_field() {
    let legacy =
        "{\"pid\":123,\"mode\":\"work\",\"start_ts\":100,\"end_ts\":1600,\"minutes\":25}";
    assert_eq!(parse_state(legacy), Some(work_state(123, 100, 25, None)));
    // Trailing bytes after the older form are still corruption.
    let trailing =
        "{\"pid\":123,\"mode\":\"work\",\"start_ts\":100,\"end_ts\":1600,\"minutes\":25}x";
    assert_eq!(parse_state(trailing), None);
    // Re-encoding writes the current canonical form.
    let st = parse_state(legacy).unwrap();
    assert_eq!(
        encode_state(&st).as_str(),
        "{\"pid\":123,\"mode\":\"work\",\"start_ts\":100,\"end_ts\":1600,\"minutes\":25,\"cycle\":null}"
    );
}

#[test]
fn liveness_probe_interpretation() {
    assert!(!pid_can_be_alive(0));
    assert!(!pid_can_be_alive(-5));
    assert!(pid_can_be_alive(1));
    assert_eq!(interpret_liveness_probe(ProbeResult::Delivered), Ok(true));
    assert_eq!(
        interpret_liveness_probe(ProbeResult::PermissionDenied),
        Ok(true)
    );
    assert_eq!(interpret_liveness_probe(ProbeResult::NoSuchProcess), Ok(false));
    assert_eq!(
        interpret_liveness_probe(ProbeResult::Failed),
        Err(ProcessError::ProbeFailed)
    );
}

#[test]
fn termination_interpretation() {
    assert_eq!(interpret_termination(ProbeResult::Delivered), Ok(()));
    assert_eq!(interpret_termination(ProbeResult::NoSuchProcess), Ok(()));
    assert_eq!(
        interpret_termination(ProbeResult::PermissionDenied),
        Err(ProcessError::TerminateFailed)
    );
    assert_eq!(
        interpret_termination(ProbeResult::Failed),
        Err(ProcessError::TerminateFailed)
    );
}

#[test]
fn error_messages_are_fixed() {
    assert_eq!(
        CmdError::MinutesOutOfRange.message(),
        "minutes must be in 1..=1440"
    );
    assert_eq!(CmdError::SetsOutOfRange.message(), "sets must be in 1..=100");
    assert_eq!(
        CmdError::MissingSets.message(),
        "invalid cycle args: missing --sets"
    );
    assert_eq!(
        CmdError::SetOutOfRange.message(),
        "invalid cycle args: --set must be in 1..=sets"
    );
    assert_eq!(CmdError::TimestampOverflow.message(), "timestamp overflow");
    assert_eq!(CmdError::HomeNotSet.message(), "HOME is not set");
}

#[test]
fn state_matches_compares_the_identity_tuple() {
    let st = work_state(10, 100, 25, None);
    assert!(state_matches(&Some(st), 10, Mode::Work, 100, 1600, 25));
    assert!(!state_matches(&Some(st), 11, Mode::Work, 100, 1600, 25));
    assert!(!state_matches(&Some(st), 10, Mode::Break, 100, 1600, 25));
    assert!(!state_matches(&Some(st), 10, Mode::Work, 101, 1600, 25));
    assert!(!state_matches(&Some(st), 10, Mode::Work, 100, 1601, 25));
    assert!(!state_matches(&Some(st), 10, Mode::Work, 100, 1600, 26));
    assert!(!state_matches(&None, 10, Mode::Work, 100, 1600, 25));
}

#[test]
fn superseded_daemon_evicts_silently() {
    let mine = work_state(10, 100, 25, None);
    let other = work_state(99, 200, 25, None);
    assert_eq!(daemon_decide(&mine, &Some(other), 100), DaemonDecision::Evict);
    assert_eq!(daemon_decide(&mine, &None, 100), DaemonDecision::Evict);
}

#[test]
fn daemon_sleeps_until_the_deadline() {
    let mine = work_state(10, 100, 25, None);
    assert_eq!(
        daemon_decide(&mine, &Some(mine), 100),
        DaemonDecision::Wait { secs: 1500 }
    );
    assert_eq!(
        daemon_decide(&mine, &Some(mine), 1599),
        DaemonDecision::Wait { secs: 1 }
    );
    assert_eq!(daemon_decide(&mine, &Some(mine), 1600), DaemonDecision::Due);
    assert_eq!(daemon_decide(&mine, &Some(mine), 2000), DaemonDecision::Due);
}

#[test]
fn single_session_finishes_without_follow_up() {
    let st = work_state(10, 100, 25, None);
    assert_eq!(
        transition(&st, 1600),
        Ok(PhaseOutcome::Finished { notify: Mode::Work })
    );
}

#[test]
fn cycle_runs_work_break_alternation_until_the_last_work_set() {
    // Three sets of one minute work, one minute break.
    let req = start_work(Some(1), Some(3), Some(1)).unwrap();
    let mut now = 1000;
    let mut st = session_state(&req, 77, now).unwrap();
    let mut seen = Vec::new();
    loop {
        seen.push((st.mode, st.cycle.unwrap().set, st.minutes));
        now = st.end_ts;
        match transition(&st, now).unwrap() {
            PhaseOutcome::Continue { notify, next } => {
                assert_eq!(notify, st.mode);
                st = next;
            }
            PhaseOutcome::Finished { notify } => {
                assert_eq!(notify, Mode::Work);
                break;
            }
        }
    }
    assert_eq!(
        seen,
        vec![
            (Mode::Work, 1, 1),
            (Mode::Break, 1, 1),
            (Mode::Work, 2, 1),
            (Mode::Break, 2, 1),
            (Mode::Work, 3, 1),
        ]
    );
}

#[test]
fn transition_timestamps_follow_the_clock() {
    let req = start_work(Some(1), Some(2), Some(1)).unwrap();
    let st = session_state(&req, 5, 1000).unwrap();
    assert_eq!(st.start_ts, 1000);
    assert_eq!(st.end_ts, 1060);
    match transition(&st, 1063).unwrap() {
        PhaseOutcome::Continue { next, .. } => {
            assert_eq!(next.mode, Mode::Break);
            assert_eq!(next.start_ts, 1063);
            assert_eq!(next.end_ts, 1123);
            assert_eq!(next.pid, 5);
        }
        other => panic!("unexpected outcome {:?}", other),
    }
}

#[test]
fn session_state_overflow_is_an_error() {
    let req = start_work(Some(1440), None, None).unwrap();
    assert_eq!(
        session_state(&req, 1, i64::MAX - 10),
        Err(CmdError::TimestampOverflow)
    );
}

#[test]
fn status_prefers_the_primary_path() {
    let a = work_state(1, 100, 25, None);
    let b = work_state(2, 200, 25, None);
    assert_eq!(select_state(Some(a), Some(b)), Some((PathChoice::Primary, a)));
    assert_eq!(select_state(None, Some(b)), Some((PathChoice::Legacy, b)));
    assert_eq!(select_state(None, None), None);
}

#[test]
fn status_without_state_is_not_running() {
    let view = status_outcome(None, false, 100);
    assert_eq!(view, StatusView::NotRunning { clear: None });
    assert_eq!(status_exit_code(&view), 1);
}

#[test]
fn status_with_dead_owner_cleans_up_lazily() {
    let st = work_state(424242, 100, 25, None);
    let view = status_outcome(Some((PathChoice::Primary, st)), false, 200);
    assert_eq!(
        view,
        StatusView::NotRunning { clear: Some(PathChoice::Primary) }
    );
    assert_eq!(status_exit_code(&view), 1);
}

#[test]
fn status_reports_the_running_session() {
    let st = work_state(10, 1000, 25, None);
    let view = status_outcome(Some((PathChoice::Primary, st)), true, 1100);
    match view {
        StatusView::Running { mode, pid, remaining_secs, start_ts, end_ts, cycle } => {
            assert_eq!(mode, Mode::Work);
            assert_eq!(pid, 10);
            assert_eq!(start_ts, 1000);
            assert_eq!(end_ts, 2500);
            assert_eq!(remaining_secs, 1400);
            assert!(cycle.is_none());
        }
        other => panic!("unexpected view {:?}", other),
    }
    assert_eq!(status_exit_code(&view), 0);
}

#[test]
fn remaining_time_decreases_toward_zero() {
    let st = work_state(10, 0, 25, None);
    let mut last = u64::MAX;
    for now in [0, 1, 600, 1499, 1500, 1501] {
        match status_outcome(Some((PathChoice::Primary, st)), true, now) {
            StatusView::Running { remaining_secs, .. } => {
                assert!(remaining_secs <= last);
                last = remaining_secs;
            }
            other => panic!("unexpected view {:?}", other),
        }
    }
    assert_eq!(last, 0);
}

#[test]
fn stop_signals_only_live_owners_and_always_clears() {
    let st = work_state(10, 100, 25, None);
    assert_eq!(
        stop_existing(&Some(st), true),
        StopAction { terminate: Some(10), clear: true }
    );
    assert_eq!(
        stop_existing(&Some(st), false),
        StopAction { terminate: None, clear: true }
    );
    assert_eq!(
        stop_existing(&None, true),
        StopAction { terminate: None, clear: false }
    );
}

#[test]
fn second_stop_reports_not_running() {
    // First stop: a record exists, so it is cleared and reported stopped.
    let st = work_state(10, 100, 25, None);
    let first = stop_existing(&Some(st), true);
    assert!(first.clear);
    assert_eq!(stop_exit_code(true, false), 0);
    // Second stop: both locations are now empty; nothing to do, exit 1.
    let second_primary = stop_existing(&None, false);
    let second_legacy = stop_existing(&None, false);
    assert_eq!(second_primary, StopAction { terminate: None, clear: false });
    assert_eq!(second_legacy, StopAction { terminate: None, clear: false });
    assert_eq!(stop_exit_code(false, false), 1);
}

#[test]
fn format_duration_pads_and_adds_hours() {
    assert_eq!(format_duration(0).as_str(), "00:00");
    assert_eq!(format_duration(59).as_str(), "00:59");
    assert_eq!(format_duration(60).as_str(), "01:00");
    assert_eq!(format_duration(1500).as_str(), "25:00");
    assert_eq!(format_duration(3599).as_str(), "59:59");
    assert_eq!(format_duration(3600).as_str(), "01:00:00");
    assert_eq!(format_duration(3661).as_str(), "01:01:01");
    assert_eq!(format_duration(86399).as_str(), "23:59:59");
}

#[test]
fn notifications_differ_by_finished_phase() {
    assert_eq!(beep_count(Mode::Work), 2);
    assert_eq!(beep_count(Mode::Break), 1);
    assert_eq!(mode_label(Mode::Work), "work");
    assert_eq!(mode_label(Mode::Break), "break");
    assert_eq!(notify_body(Mode::Work), "Work finished. Time for a break.");
    assert_eq!(notify_body(Mode::Break), "Break finished. Back to work.");
}

#[test]
fn clock_reads_a_non_negative_time() {
    assert!(now_unix() >= 0);
    assert!(now_unix() >= 0);
}

#[test]
fn state_path_prefers_xdg_data_home() {
    let xdg = Some(String::from("/xdg"));
    let home = Some(String::from("/home/me"));
    assert_eq!(
        state_path_for_dir(&xdg, &home, "pomodoro").unwrap().as_str(),
        "/xdg/pomodoro/state.json"
    );
    // An empty XDG value falls back to the home layout.
    let empty = Some(String::new());
    assert_eq!(
        state_path_for_dir(&empty, &home, "pomodoro").unwrap().as_str(),
        "/home/me/.local/share/pomodoro/state.json"
    );
    assert_eq!(
        state_path_for_dir(&None, &home, "pomo").unwrap().as_str(),
        "/home/me/.local/share/pomo/state.json"
    );
    assert_eq!(
        state_path_for_dir(&None, &None, "pomodoro"),
        Err(CmdError::HomeNotSet)
    );
}

#[test]
fn both_state_paths_are_resolved_together() {
    let home = Some(String::from("/home/me"));
    let (primary, legacy) = state_paths(&None, &home).unwrap();
    assert_eq!(primary.as_str(), "/home/me/.local/share/pomodoro/state.json");
    assert_eq!(legacy.as_str(), "/home/me/.local/share/pomo/state.json");
    assert_eq!(state_paths(&None, &None), Err(CmdError::HomeNotSet));
}

#[test]
fn daemon_init_accepts_exactly_well_formed_records() {
    let st = daemon_init(9, Mode::Work, 100, 1600, 25, None).unwrap();
    assert_eq!(st, work_state(9, 100, 25, None));
    // End timestamp not derived from the start.
    assert_eq!(daemon_init(9, Mode::Work, 100, 1601, 25, None), None);
    // Out-of-range duration.
    assert_eq!(daemon_init(9, Mode::Work, 100, 100 + 1441 * 60, 1441, None), None);
    // Cycle duration must match the running phase.
    let c = Cycle { set: 1, sets: 3, work_minutes: 25, break_minutes: 5 };
    assert!(daemon_init(9, Mode::Work, 100, 1600, 25, Some(c)).is_some());
    assert_eq!(daemon_init(9, Mode::Break, 100, 1600, 25, Some(c)), None);
    assert!(daemon_init(9, Mode::Break, 100, 400, 5, Some(c)).is_some());
}
