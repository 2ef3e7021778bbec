//! The on-disk form of the session record: a single JSON object written in
//! one canonical shape, and a parser that accepts exactly that shape. A file
//! that does not parse is treated as corrupt by the callers and removed, so
//! corruption is self-healing and never surfaced as an error.

use vstd::prelude::*;
use vstd::string::StringExecFns;
use crate::scan::{
    dec_chars, is_digit, lemma_dec_chars_form, lemma_parse_dec_at, lemma_parse_u64_sound,
    match_at, parse_u64_at, expect_at, spec_parse_u64, push_dec,
};
use crate::state::{Cycle, Mode, State, spec_mode_chars, state_codec_wf};
use crate::state::mode_label;

verus! {

/// The canonical text of the cycle sub-object.
pub open spec fn cycle_chars(c: Cycle) -> Seq<char> {
    "{\"set\":"@ + dec_chars(c.set as nat) + ",\"sets\":"@ + dec_chars(c.sets as nat)
        + ",\"work_minutes\":"@ + dec_chars(c.work_minutes as nat) + ",\"break_minutes\":"@
        + dec_chars(c.break_minutes as nat) + "}"@
}

/// The canonical text of a session record: one JSON object, fields in a
/// fixed order, `cycle` written as `null` when absent.
pub open spec fn state_chars(st: State) -> Seq<char> {
    "{\"pid\":"@ + dec_chars(st.pid as nat) + ",\"mode\":\""@ + spec_mode_chars(st.mode)
        + "\",\"start_ts\":"@ + dec_chars(st.start_ts as nat) + ",\"end_ts\":"@ + dec_chars(
        st.end_ts as nat,
    ) + ",\"minutes\":"@ + dec_chars(st.minutes as nat) + ",\"cycle\":"@ + (match st.cycle {
        None => "null"@,
        Some(c) => cycle_chars(c),
    }) + "}"@
}

/// An older on-disk form of a record without a cycle: the object simply
/// omits the `cycle` field. The writer no longer produces it, but the
/// parser still accepts it, so records of the older layout are not taken
/// for corruption.
pub open spec fn state_chars_bare(st: State) -> Seq<char> {
    "{\"pid\":"@ + dec_chars(st.pid as nat) + ",\"mode\":\""@ + spec_mode_chars(st.mode)
        + "\",\"start_ts\":"@ + dec_chars(st.start_ts as nat) + ",\"end_ts\":"@ + dec_chars(
        st.end_ts as nat,
    ) + ",\"minutes\":"@ + dec_chars(st.minutes as nat) + "}"@
}

/// Renders a session record in its canonical on-disk form.
pub fn encode_state(st: &State) -> (r: String)
    requires
        state_codec_wf(*st),
    ensures
        r@ == state_chars(*st),
{
    let mut out = String::new();
    out.append("{\"pid\":");
    push_dec(&mut out, st.pid as u64);
    out.append(",\"mode\":\"");
    out.append(mode_label(st.mode));
    out.append("\",\"start_ts\":");
    push_dec(&mut out, st.start_ts as u64);
    out.append(",\"end_ts\":");
    push_dec(&mut out, st.end_ts as u64);
    out.append(",\"minutes\":");
    push_dec(&mut out, st.minutes);
    out.append(",\"cycle\":");
    match st.cycle {
        None => {
            out.append("null");
        },
        Some(c) => {
            out.append("{\"set\":");
            push_dec(&mut out, c.set);
            out.append(",\"sets\":");
            push_dec(&mut out, c.sets);
            out.append(",\"work_minutes\":");
            push_dec(&mut out, c.work_minutes);
            out.append(",\"break_minutes\":");
            push_dec(&mut out, c.break_minutes);
            out.append("}");
        },
    }
    out.append("}");
    proof {
        assert(out@ =~= state_chars(*st));
    }
    out
}

/// What parsing the cycle sub-object at a position yields.
pub open spec fn spec_parse_cycle_obj(s: Seq<char>, pos: int) -> Option<(Cycle, int)> {
    if !match_at(s, pos, "{\"set\":"@) {
        None
    } else {
        match spec_parse_u64(s, pos + "{\"set\":"@.len()) {
            None => None,
            Some((set, p2)) => if !match_at(s, p2, ",\"sets\":"@) {
                None
            } else {
                match spec_parse_u64(s, p2 + ",\"sets\":"@.len()) {
                    None => None,
                    Some((sets, p4)) => if !match_at(s, p4, ",\"work_minutes\":"@) {
                        None
                    } else {
                        match spec_parse_u64(s, p4 + ",\"work_minutes\":"@.len()) {
                            None => None,
                            Some((wm, p6)) => if !match_at(s, p6, ",\"break_minutes\":"@) {
                                None
                            } else {
                                match spec_parse_u64(s, p6 + ",\"break_minutes\":"@.len()) {
                                    None => None,
                                    Some((bm, p8)) => if !match_at(s, p8, "}"@) {
                                        None
                                    } else {
                                        Some(
                                            (
                                                Cycle {
                                                    set,
                                                    sets,
                                                    work_minutes: wm,
                                                    break_minutes: bm,
                                                },
                                                p8 + "}"@.len(),
                                            ),
                                        )
                                    },
                                }
                            },
                        }
                    },
                }
            },
        }
    }
}

/// What parsing the mode word at a position yields.
pub open spec fn spec_parse_mode(s: Seq<char>, pos: int) -> Option<(Mode, int)> {
    if match_at(s, pos, "work"@) {
        Some((Mode::Work, pos + "work"@.len()))
    } else if match_at(s, pos, "break"@) {
        Some((Mode::Break, pos + "break"@.len()))
    } else {
        None
    }
}

/// What parsing a whole state file yields: a record exactly when the text
/// is one canonical rendering — or the older form that omits the `cycle`
/// field — consumed to its end, with every numeric field within its
/// type's range.
pub open spec fn spec_parse_state(s: Seq<char>) -> Option<State> {
    if !match_at(s, 0, "{\"pid\":"@) {
        None
    } else {
        match spec_parse_u64(s, "{\"pid\":"@.len() as int) {
            None => None,
            Some((pid, p2)) => if pid > i32::MAX || !match_at(s, p2, ",\"mode\":\""@) {
                None
            } else {
                match spec_parse_mode(s, p2 + ",\"mode\":\""@.len()) {
                    None => None,
                    Some((mode, p4)) => if !match_at(s, p4, "\",\"start_ts\":"@) {
                        None
                    } else {
                        match spec_parse_u64(s, p4 + "\",\"start_ts\":"@.len()) {
                            None => None,
                            Some((start, p6)) => if start > i64::MAX || !match_at(
                                s,
                                p6,
                                ",\"end_ts\":"@,
                            ) {
                                None
                            } else {
                                match spec_parse_u64(s, p6 + ",\"end_ts\":"@.len()) {
                                    None => None,
                                    Some((end, p8)) => if end > i64::MAX || !match_at(
                                        s,
                                        p8,
                                        ",\"minutes\":"@,
                                    ) {
                                        None
                                    } else {
                                        match spec_parse_u64(s, p8 + ",\"minutes\":"@.len()) {
                                            None => None,
                                            Some((minutes, p10)) => if !match_at(
                                                s,
                                                p10,
                                                ",\"cycle\":"@,
                                            ) {
                                                if match_at(s, p10, "}"@) && p10 + "}"@.len()
                                                    == s.len() {
                                                    Some(
                                                        State {
                                                            pid: pid as i32,
                                                            mode,
                                                            start_ts: start as i64,
                                                            end_ts: end as i64,
                                                            minutes,
                                                            cycle: None,
                                                        },
                                                    )
                                                } else {
                                                    None
                                                }
                                            } else {
                                                spec_parse_tail(
                                                    s,
                                                    p10 + ",\"cycle\":"@.len(),
                                                    pid,
                                                    mode,
                                                    start,
                                                    end,
                                                    minutes,
                                                )
                                            },
                                        }
                                    },
                                }
                            },
                        }
                    },
                }
            },
        }
    }
}

/// The cycle part and the closing brace, ending the text.
pub open spec fn spec_parse_tail(
    s: Seq<char>,
    pos: int,
    pid: u64,
    mode: Mode,
    start: u64,
    end: u64,
    minutes: u64,
) -> Option<State> {
    let cyc = if match_at(s, pos, "null"@) {
        Some((None::<Cycle>, pos + "null"@.len()))
    } else {
        match spec_parse_cycle_obj(s, pos) {
            None => None,
            Some((c, p)) => Some((Some(c), p)),
        }
    };
    match cyc {
        None => None,
        Some((cycle, p)) => if !match_at(s, p, "}"@) || p + "}"@.len() != s.len() {
            None
        } else {
            Some(
                State {
                    pid: pid as i32,
                    mode,
                    start_ts: start as i64,
                    end_ts: end as i64,
                    minutes,
                    cycle,
                },
            )
        },
    }
}

/// Parses the cycle sub-object at a position.
fn parse_cycle_obj(s: &str, pos: usize) -> (r: Option<(Cycle, usize)>)
    requires
        pos <= s@.len(),
    ensures
        match r {
            Some(p) => spec_parse_cycle_obj(s@, pos as int) == Some((p.0, p.1 as int)) && p.1
                <= s@.len(),
            None => spec_parse_cycle_obj(s@, pos as int) is None,
        },
{
    let p1 = match expect_at(s, pos, "{\"set\":") {
        Some(p) => p,
        None => {
            return None;
        },
    };
    let (set, p2) = match parse_u64_at(s, p1) {
        Some(v) => v,
        None => {
            return None;
        },
    };
    let p3 = match expect_at(s, p2, ",\"sets\":") {
        Some(p) => p,
        None => {
            return None;
        },
    };
    let (sets, p4) = match parse_u64_at(s, p3) {
        Some(v) => v,
        None => {
            return None;
        },
    };
    let p5 = match expect_at(s, p4, ",\"work_minutes\":") {
        Some(p) => p,
        None => {
            return None;
        },
    };
    let (wm, p6) = match parse_u64_at(s, p5) {
        Some(v) => v,
        None => {
            return None;
        },
    };
    let p7 = match expect_at(s, p6, ",\"break_minutes\":") {
        Some(p) => p,
        None => {
            return None;
        },
    };
    let (bm, p8) = match parse_u64_at(s, p7) {
        Some(v) => v,
        None => {
            return None;
        },
    };
    let p9 = match expect_at(s, p8, "}") {
        Some(p) => p,
        None => {
            return None;
        },
    };
    Some((Cycle { set, sets, work_minutes: wm, break_minutes: bm }, p9))
}

/// Parses a state file. Exactly the canonical renderings are accepted,
/// plus the older layout whose object closes right after the minutes
/// field; anything else — other field orders, other spacing, other
/// values, trailing bytes — yields nothing and is treated as corruption
/// by the callers.
pub fn parse_state(s: &str) -> (r: Option<State>)
    ensures
        r == spec_parse_state(s@),
{
    let p1 = match expect_at(s, 0, "{\"pid\":") {
        Some(p) => p,
        None => {
            return None;
        },
    };
    let (pid, p2) = match parse_u64_at(s, p1) {
        Some(v) => v,
        None => {
            return None;
        },
    };
    if pid > 2147483647u64 {
        return None;
    }
    let p3 = match expect_at(s, p2, ",\"mode\":\"") {
        Some(p) => p,
        None => {
            return None;
        },
    };
    let (mode, p4) = match expect_at(s, p3, "work") {
        Some(p) => (Mode::Work, p),
        None => match expect_at(s, p3, "break") {
            Some(p) => (Mode::Break, p),
            None => {
                return None;
            },
        },
    };
    let p5 = match expect_at(s, p4, "\",\"start_ts\":") {
        Some(p) => p,
        None => {
            return None;
        },
    };
    let (start, p6) = match parse_u64_at(s, p5) {
        Some(v) => v,
        None => {
            return None;
        },
    };
    if start > 9223372036854775807u64 {
        return None;
    }
    let p7 = match expect_at(s, p6, ",\"end_ts\":") {
        Some(p) => p,
        None => {
            return None;
        },
    };
    let (end, p8) = match parse_u64_at(s, p7) {
        Some(v) => v,
        None => {
            return None;
        },
    };
    if end > 9223372036854775807u64 {
        return None;
    }
    let p9 = match expect_at(s, p8, ",\"minutes\":") {
        Some(p) => p,
        None => {
            return None;
        },
    };
    let (minutes, p10) = match parse_u64_at(s, p9) {
        Some(v) => v,
        None => {
            return None;
        },
    };
    let p11 = match expect_at(s, p10, ",\"cycle\":") {
        Some(p) => p,
        None => {
            // The older layout omits the cycle field: the object may close
            // right here instead.
            let p = match expect_at(s, p10, "}") {
                Some(p) => p,
                None => {
                    return None;
                },
            };
            if p != s.unicode_len() {
                return None;
            }
            return Some(
                State {
                    pid: pid as i32,
                    mode,
                    start_ts: start as i64,
                    end_ts: end as i64,
                    minutes,
                    cycle: None,
                },
            );
        },
    };
    let (cycle, p12) = match expect_at(s, p11, "null") {
        Some(p) => (None::<Cycle>, p),
        None => match parse_cycle_obj(s, p11) {
            Some((c, p)) => (Some(c), p),
            None => {
                return None;
            },
        },
    };
    let p13 = match expect_at(s, p12, "}") {
        Some(p) => p,
        None => {
            return None;
        },
    };
    if p13 != s.unicode_len() {
        return None;
    }
    Some(
        State {
            pid: pid as i32,
            mode,
            start_ts: start as i64,
            end_ts: end as i64,
            minutes,
            cycle,
        },
    )
}

/// A slice of a slice of `s` is the matching slice of the inner text.
proof fn lemma_subrange_sub(s: Seq<char>, pos: int, t: Seq<char>, a: int, b: int)
    requires
        0 <= pos,
        pos + t.len() <= s.len(),
        s.subrange(pos, pos + t.len() as int) == t,
        0 <= a <= b <= t.len(),
    ensures
        s.subrange(pos + a, pos + b) =~= t.subrange(a, b),
{
    assert forall|i: int| 0 <= i < b - a implies s.subrange(pos + a, pos + b)[i] == t.subrange(
        a,
        b,
    )[i] by {
        assert(s.subrange(pos, pos + t.len() as int)[a + i] == t[a + i]);
    }
}

/// Parsing at the position of a canonically rendered cycle sub-object
/// yields exactly that cycle.
#[verifier::rlimit(60)]
pub proof fn lemma_parse_cycle_at(s: Seq<char>, pos: int, c: Cycle)
    requires
        0 <= pos,
        pos + cycle_chars(c).len() <= s.len(),
        s.subrange(pos, pos + cycle_chars(c).len() as int) == cycle_chars(c),
    ensures
        spec_parse_cycle_obj(s, pos) == Some((c, pos + cycle_chars(c).len() as int)),
{
    reveal_strlit("{\"set\":");
    reveal_strlit(",\"sets\":");
    reveal_strlit(",\"work_minutes\":");
    reveal_strlit(",\"break_minutes\":");
    reveal_strlit("}");
    let l0 = "{\"set\":"@;
    let d0 = dec_chars(c.set as nat);
    let l1 = ",\"sets\":"@;
    let d1 = dec_chars(c.sets as nat);
    let l2 = ",\"work_minutes\":"@;
    let d2 = dec_chars(c.work_minutes as nat);
    let l3 = ",\"break_minutes\":"@;
    let d3 = dec_chars(c.break_minutes as nat);
    let l4 = "}"@;
    lemma_dec_chars_form(c.set as nat);
    lemma_dec_chars_form(c.sets as nat);
    lemma_dec_chars_form(c.work_minutes as nat);
    lemma_dec_chars_form(c.break_minutes as nat);
    let t = cycle_chars(c);
    let p1 = pos + l0.len();
    let p2 = p1 + d0.len();
    let p3 = p2 + l1.len();
    let p4 = p3 + d1.len();
    let p5 = p4 + l2.len();
    let p6 = p5 + d2.len();
    let p7 = p6 + l3.len();
    let p8 = p7 + d3.len();
    let p9 = p8 + l4.len();
    assert(t.len() == l0.len() + d0.len() + l1.len() + d1.len() + l2.len() + d2.len() + l3.len()
        + d3.len() + l4.len());
    lemma_subrange_sub(s, pos, t, 0, p1 - pos);
    lemma_subrange_sub(s, pos, t, p1 - pos, p2 - pos);
    lemma_subrange_sub(s, pos, t, p2 - pos, p3 - pos);
    lemma_subrange_sub(s, pos, t, p3 - pos, p4 - pos);
    lemma_subrange_sub(s, pos, t, p4 - pos, p5 - pos);
    lemma_subrange_sub(s, pos, t, p5 - pos, p6 - pos);
    lemma_subrange_sub(s, pos, t, p6 - pos, p7 - pos);
    lemma_subrange_sub(s, pos, t, p7 - pos, p8 - pos);
    lemma_subrange_sub(s, pos, t, p8 - pos, p9 - pos);
    assert(s.subrange(pos, p1) =~= l0) by {
        assert(t.subrange(0, p1 - pos) =~= l0);
    }
    assert(s.subrange(p1, p2) =~= d0) by {
        assert(t.subrange(p1 - pos, p2 - pos) =~= d0);
    }
    assert(s.subrange(p2, p3) =~= l1) by {
        assert(t.subrange(p2 - pos, p3 - pos) =~= l1);
    }
    assert(s.subrange(p3, p4) =~= d1) by {
        assert(t.subrange(p3 - pos, p4 - pos) =~= d1);
    }
    assert(s.subrange(p4, p5) =~= l2) by {
        assert(t.subrange(p4 - pos, p5 - pos) =~= l2);
    }
    assert(s.subrange(p5, p6) =~= d2) by {
        assert(t.subrange(p5 - pos, p6 - pos) =~= d2);
    }
    assert(s.subrange(p6, p7) =~= l3) by {
        assert(t.subrange(p6 - pos, p7 - pos) =~= l3);
    }
    assert(s.subrange(p7, p8) =~= d3) by {
        assert(t.subrange(p7 - pos, p8 - pos) =~= d3);
    }
    assert(s.subrange(p8, p9) =~= l4) by {
        assert(t.subrange(p8 - pos, p9 - pos) =~= l4);
    }
    assert(s[p2] == l1[0]) by {
        assert(s.subrange(p2, p3)[0] == l1[0]);
    }
    assert(s[p4] == l2[0]) by {
        assert(s.subrange(p4, p5)[0] == l2[0]);
    }
    assert(s[p6] == l3[0]) by {
        assert(s.subrange(p6, p7)[0] == l3[0]);
    }
    assert(s[p8] == l4[0]) by {
        assert(s.subrange(p8, p9)[0] == l4[0]);
    }
    assert(!is_digit(s[p2]) && !is_digit(s[p4]) && !is_digit(s[p6]) && !is_digit(s[p8]));
    lemma_parse_dec_at(s, p1, c.set);
    lemma_parse_dec_at(s, p3, c.sets);
    lemma_parse_dec_at(s, p5, c.work_minutes);
    lemma_parse_dec_at(s, p7, c.break_minutes);
    assert(match_at(s, pos, l0));
    assert(match_at(s, p2, l1));
    assert(match_at(s, p4, l2));
    assert(match_at(s, p6, l3));
    assert(match_at(s, p8, l4));
    assert(spec_parse_cycle_obj(s, pos) == Some((c, p9)));
}

/// Reading back a canonically rendered record yields exactly that record:
/// writing a session state and reading it back loses nothing.
#[verifier::rlimit(100)]
pub proof fn lemma_round_trip(st: State)
    requires
        state_codec_wf(st),
    ensures
        spec_parse_state(state_chars(st)) == Some(st),
{
    reveal_strlit("{\"pid\":");
    reveal_strlit(",\"mode\":\"");
    reveal_strlit("work");
    reveal_strlit("break");
    reveal_strlit("\",\"start_ts\":");
    reveal_strlit(",\"end_ts\":");
    reveal_strlit(",\"minutes\":");
    reveal_strlit(",\"cycle\":");
    reveal_strlit("null");
    reveal_strlit("{\"set\":");
    reveal_strlit("}");
    let s = state_chars(st);
    let a = "{\"pid\":"@;
    let b = dec_chars(st.pid as nat);
    let cc = ",\"mode\":\""@;
    let d = spec_mode_chars(st.mode);
    let e = "\",\"start_ts\":"@;
    let f = dec_chars(st.start_ts as nat);
    let g = ",\"end_ts\":"@;
    let h = dec_chars(st.end_ts as nat);
    let i_ = ",\"minutes\":"@;
    let j = dec_chars(st.minutes as nat);
    let k = ",\"cycle\":"@;
    let l = match st.cycle {
        None => "null"@,
        Some(c) => cycle_chars(c),
    };
    let m = "}"@;
    lemma_dec_chars_form(st.pid as nat);
    lemma_dec_chars_form(st.start_ts as nat);
    lemma_dec_chars_form(st.end_ts as nat);
    lemma_dec_chars_form(st.minutes as nat);
    let q1 = a.len() as int;
    let q2 = q1 + b.len();
    let q3 = q2 + cc.len();
    let q4 = q3 + d.len();
    let q5 = q4 + e.len();
    let q6 = q5 + f.len();
    let q7 = q6 + g.len();
    let q8 = q7 + h.len();
    let q9 = q8 + i_.len();
    let q10 = q9 + j.len();
    let q11 = q10 + k.len();
    let q12 = q11 + l.len();
    let q13 = q12 + m.len();
    assert(s.len() == q13);
    assert(s.subrange(0, q1) =~= a);
    assert(s.subrange(q1, q2) =~= b);
    assert(s.subrange(q2, q3) =~= cc);
    assert(s.subrange(q3, q4) =~= d);
    assert(s.subrange(q4, q5) =~= e);
    assert(s.subrange(q5, q6) =~= f);
    assert(s.subrange(q6, q7) =~= g);
    assert(s.subrange(q7, q8) =~= h);
    assert(s.subrange(q8, q9) =~= i_);
    assert(s.subrange(q9, q10) =~= j);
    assert(s.subrange(q10, q11) =~= k);
    assert(s.subrange(q11, q12) =~= l);
    assert(s.subrange(q12, q13) =~= m);
    assert(s[q2] == cc[0] && !is_digit(s[q2]));
    assert(s[q6] == g[0] && !is_digit(s[q6]));
    assert(s[q8] == i_[0] && !is_digit(s[q8]));
    assert(s[q10] == k[0] && !is_digit(s[q10]));
    lemma_parse_dec_at(s, q1, st.pid as u64);
    lemma_parse_dec_at(s, q5, st.start_ts as u64);
    lemma_parse_dec_at(s, q7, st.end_ts as u64);
    lemma_parse_dec_at(s, q9, st.minutes);
    assert(match_at(s, 0, a));
    assert(match_at(s, q2, cc));
    assert(match_at(s, q4, e));
    assert(match_at(s, q6, g));
    assert(match_at(s, q8, i_));
    assert(match_at(s, q10, k));
    assert(match_at(s, q12, m));
    match st.mode {
        Mode::Work => {
            assert(match_at(s, q3, "work"@));
            assert(spec_parse_mode(s, q3) == Some((Mode::Work, q4)));
        },
        Mode::Break => {
            assert(!match_at(s, q3, "work"@)) by {
                if match_at(s, q3, "work"@) {
                    assert(s.subrange(q3, q3 + "work"@.len() as int)[0] == "work"@[0]);
                }
                assert(s[q3] == "break"@[0]);
            }
            assert(match_at(s, q3, "break"@));
            assert(spec_parse_mode(s, q3) == Some((Mode::Break, q4)));
        },
    }
    match st.cycle {
        None => {
            assert(match_at(s, q11, "null"@));
            assert(spec_parse_tail(
                s,
                q11,
                st.pid as u64,
                st.mode,
                st.start_ts as u64,
                st.end_ts as u64,
                st.minutes,
            ) == Some(st));
        },
        Some(c) => {
            assert(!match_at(s, q11, "null"@)) by {
                reveal_strlit("{\"set\":");
                if match_at(s, q11, "null"@) {
                    assert(s.subrange(q11, q11 + "null"@.len() as int)[0] == "null"@[0]);
                }
                assert(l[0] == "{\"set\":"@[0]);
                assert(s[q11] == "{\"set\":"@[0]);
            }
            lemma_parse_cycle_at(s, q11, c);
            assert(spec_parse_tail(
                s,
                q11,
                st.pid as u64,
                st.mode,
                st.start_ts as u64,
                st.end_ts as u64,
                st.minutes,
            ) == Some(st));
        },
    }
    assert(spec_parse_state(s) == Some(st));
}

/// A record of the older layout — a cycle-less record whose object omits
/// the `cycle` field — still reads back whole: the legacy form is not
/// taken for corruption.
#[verifier::rlimit(100)]
pub proof fn lemma_parse_bare(st: State)
    requires
        state_codec_wf(st),
        st.cycle is None,
    ensures
        spec_parse_state(state_chars_bare(st)) == Some(st),
{
    reveal_strlit("{\"pid\":");
    reveal_strlit(",\"mode\":\"");
    reveal_strlit("work");
    reveal_strlit("break");
    reveal_strlit("\",\"start_ts\":");
    reveal_strlit(",\"end_ts\":");
    reveal_strlit(",\"minutes\":");
    reveal_strlit(",\"cycle\":");
    reveal_strlit("}");
    let s = state_chars_bare(st);
    let a = "{\"pid\":"@;
    let b = dec_chars(st.pid as nat);
    let cc = ",\"mode\":\""@;
    let d = spec_mode_chars(st.mode);
    let e = "\",\"start_ts\":"@;
    let f = dec_chars(st.start_ts as nat);
    let g = ",\"end_ts\":"@;
    let h = dec_chars(st.end_ts as nat);
    let i_ = ",\"minutes\":"@;
    let j = dec_chars(st.minutes as nat);
    let m = "}"@;
    lemma_dec_chars_form(st.pid as nat);
    lemma_dec_chars_form(st.start_ts as nat);
    lemma_dec_chars_form(st.end_ts as nat);
    lemma_dec_chars_form(st.minutes as nat);
    let q1 = a.len() as int;
    let q2 = q1 + b.len();
    let q3 = q2 + cc.len();
    let q4 = q3 + d.len();
    let q5 = q4 + e.len();
    let q6 = q5 + f.len();
    let q7 = q6 + g.len();
    let q8 = q7 + h.len();
    let q9 = q8 + i_.len();
    let q10 = q9 + j.len();
    let q11 = q10 + m.len();
    assert(s.len() == q11);
    assert(s.subrange(0, q1) =~= a);
    assert(s.subrange(q1, q2) =~= b);
    assert(s.subrange(q2, q3) =~= cc);
    assert(s.subrange(q3, q4) =~= d);
    assert(s.subrange(q4, q5) =~= e);
    assert(s.subrange(q5, q6) =~= f);
    assert(s.subrange(q6, q7) =~= g);
    assert(s.subrange(q7, q8) =~= h);
    assert(s.subrange(q8, q9) =~= i_);
    assert(s.subrange(q9, q10) =~= j);
    assert(s.subrange(q10, q11) =~= m);
    assert(s[q2] == cc[0] && !is_digit(s[q2]));
    assert(s[q6] == g[0] && !is_digit(s[q6]));
    assert(s[q8] == i_[0] && !is_digit(s[q8]));
    assert(s[q10] == m[0] && !is_digit(s[q10]));
    lemma_parse_dec_at(s, q1, st.pid as u64);
    lemma_parse_dec_at(s, q5, st.start_ts as u64);
    lemma_parse_dec_at(s, q7, st.end_ts as u64);
    lemma_parse_dec_at(s, q9, st.minutes);
    assert(match_at(s, 0, a));
    assert(match_at(s, q2, cc));
    assert(match_at(s, q4, e));
    assert(match_at(s, q6, g));
    assert(match_at(s, q8, i_));
    assert(match_at(s, q10, m));
    match st.mode {
        Mode::Work => {
            assert(match_at(s, q3, "work"@));
            assert(spec_parse_mode(s, q3) == Some((Mode::Work, q4)));
        },
        Mode::Break => {
            assert(!match_at(s, q3, "work"@)) by {
                if match_at(s, q3, "work"@) {
                    assert(s.subrange(q3, q3 + "work"@.len() as int)[0] == "work"@[0]);
                }
                assert(s[q3] == "break"@[0]);
            }
            assert(match_at(s, q3, "break"@));
            assert(spec_parse_mode(s, q3) == Some((Mode::Break, q4)));
        },
    }
    assert(!match_at(s, q10, ",\"cycle\":"@)) by {
        if match_at(s, q10, ",\"cycle\":"@) {
            assert(s.subrange(q10, q10 + ",\"cycle\":"@.len() as int)[0] == ",\"cycle\":"@[0]);
        }
        assert(s[q10] == "}"@[0]);
    }
    assert(spec_parse_state(s) == Some(st));
}

/// A successful cycle parse consumed exactly the canonical rendering of
/// the cycle it returned.
#[verifier::rlimit(60)]
pub proof fn lemma_parse_cycle_sound(s: Seq<char>, pos: int, c: Cycle, end: int)
    requires
        0 <= pos <= s.len(),
        spec_parse_cycle_obj(s, pos) == Some((c, end)),
    ensures
        pos < end <= s.len(),
        end - pos == cycle_chars(c).len(),
        s.subrange(pos, end) == cycle_chars(c),
{
    let l0 = "{\"set\":"@;
    let l1 = ",\"sets\":"@;
    let l2 = ",\"work_minutes\":"@;
    let l3 = ",\"break_minutes\":"@;
    let l4 = "}"@;
    assert(match_at(s, pos, l0));
    let p1 = pos + l0.len() as int;
    match spec_parse_u64(s, p1) {
        None => {
            assert(false);
        },
        Some((set, p2)) => {
            lemma_parse_u64_sound(s, p1, set, p2);
            assert(match_at(s, p2, l1));
            let p3 = p2 + l1.len() as int;
            match spec_parse_u64(s, p3) {
                None => {
                    assert(false);
                },
                Some((sets, p4)) => {
                    lemma_parse_u64_sound(s, p3, sets, p4);
                    assert(match_at(s, p4, l2));
                    let p5 = p4 + l2.len() as int;
                    match spec_parse_u64(s, p5) {
                        None => {
                            assert(false);
                        },
                        Some((wm, p6)) => {
                            lemma_parse_u64_sound(s, p5, wm, p6);
                            assert(match_at(s, p6, l3));
                            let p7 = p6 + l3.len() as int;
                            match spec_parse_u64(s, p7) {
                                None => {
                                    assert(false);
                                },
                                Some((bm, p8)) => {
                                    lemma_parse_u64_sound(s, p7, bm, p8);
                                    assert(match_at(s, p8, l4));
                                    assert(c == Cycle {
                                        set,
                                        sets,
                                        work_minutes: wm,
                                        break_minutes: bm,
                                    });
                                    assert(end == p8 + l4.len());
                                    assert(s.subrange(pos, end) =~= cycle_chars(c));
                                },
                            }
                        },
                    }
                },
            }
        },
    }
}

/// Only canonical renderings parse: a successful parse of a whole state
/// file means the text was exactly the canonical rendering of the record
/// returned — or, for a record without a cycle, the older form that omits
/// the field — and that record is representable by the codec.
#[verifier::rlimit(100)]
pub proof fn lemma_parse_sound(s: Seq<char>, st: State)
    requires
        spec_parse_state(s) == Some(st),
    ensures
        state_codec_wf(st),
        st.cycle is Some ==> s == state_chars(st),
        st.cycle is None ==> s == state_chars(st) || s == state_chars_bare(st),
{
    let a = "{\"pid\":"@;
    let cc = ",\"mode\":\""@;
    let e = "\",\"start_ts\":"@;
    let g = ",\"end_ts\":"@;
    let i_ = ",\"minutes\":"@;
    let k = ",\"cycle\":"@;
    let m = "}"@;
    assert(match_at(s, 0, a));
    let q1 = a.len() as int;
    match spec_parse_u64(s, q1) {
        None => {
            assert(false);
        },
        Some((pid, q2)) => {
            lemma_parse_u64_sound(s, q1, pid, q2);
            assert(pid <= i32::MAX);
            assert(match_at(s, q2, cc));
            let q3 = q2 + cc.len() as int;
            match spec_parse_mode(s, q3) {
                None => {
                    assert(false);
                },
                Some((mode, q4)) => {
                    assert(match_at(s, q4, e));
                    let q5 = q4 + e.len() as int;
                    match spec_parse_u64(s, q5) {
                        None => {
                            assert(false);
                        },
                        Some((start, q6)) => {
                            lemma_parse_u64_sound(s, q5, start, q6);
                            assert(match_at(s, q6, g));
                            let q7 = q6 + g.len() as int;
                            match spec_parse_u64(s, q7) {
                                None => {
                                    assert(false);
                                },
                                Some((end, q8)) => {
                                    lemma_parse_u64_sound(s, q7, end, q8);
                                    assert(match_at(s, q8, i_));
                                    let q9 = q8 + i_.len() as int;
                                    match spec_parse_u64(s, q9) {
                                        None => {
                                            assert(false);
                                        },
                                        Some((minutes, q10)) => {
                                            lemma_parse_u64_sound(s, q9, minutes, q10);
                                            if match_at(s, q10, k) {
                                                let q11 = q10 + k.len() as int;
                                                lemma_parse_tail_sound(
                                                    s,
                                                    q11,
                                                    pid,
                                                    mode,
                                                    start,
                                                    end,
                                                    minutes,
                                                    st,
                                                );
                                                assert(s.subrange(q3, q4) == spec_mode_chars(
                                                    st.mode,
                                                ));
                                                assert(s =~= state_chars(st));
                                            } else {
                                                assert(match_at(s, q10, m));
                                                assert(q10 + m.len() == s.len());
                                                assert(st.cycle is None);
                                                assert(s.subrange(q3, q4) == spec_mode_chars(
                                                    st.mode,
                                                ));
                                                assert(s =~= state_chars_bare(st));
                                            }
                                        },
                                    }
                                },
                            }
                        },
                    }
                },
            }
        },
    }
}

/// The tail of a successful parse: the cycle part and the closing brace
/// reach exactly the end of the text.
#[verifier::rlimit(60)]
proof fn lemma_parse_tail_sound(
    s: Seq<char>,
    pos: int,
    pid: u64,
    mode: Mode,
    start: u64,
    end: u64,
    minutes: u64,
    st: State,
)
    requires
        0 <= pos <= s.len(),
        spec_parse_tail(s, pos, pid, mode, start, end, minutes) == Some(st),
    ensures
        st == (State {
            pid: pid as i32,
            mode,
            start_ts: start as i64,
            end_ts: end as i64,
            minutes,
            cycle: st.cycle,
        }),
        match st.cycle {
            None => s.subrange(pos, pos + "null"@.len() as int) == "null"@ && pos + "null"@.len()
                + "}"@.len() == s.len(),
            Some(c) => s.subrange(pos, pos + cycle_chars(c).len() as int) == cycle_chars(c) && pos
                + cycle_chars(c).len() + "}"@.len() == s.len(),
        },
        s.subrange(s.len() - "}"@.len(), s.len() as int) == "}"@,
{
    if match_at(s, pos, "null"@) {
        let p = pos + "null"@.len() as int;
        assert(match_at(s, p, "}"@));
    } else {
        match spec_parse_cycle_obj(s, pos) {
            None => {
                assert(false);
            },
            Some((c, p)) => {
                lemma_parse_cycle_sound(s, pos, c, p);
                assert(match_at(s, p, "}"@));
            },
        }
    }
}

} // verus!
