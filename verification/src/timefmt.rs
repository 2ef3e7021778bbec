//! Rendering of a remaining duration as `MM:SS`, or `HH:MM:SS` once a full
//! hour is left, each part zero-padded to two digits.

use vstd::prelude::*;
use vstd::string::StringExecFns;
use crate::scan::{dec_chars, push_dec};

verus! {

/// A number zero-padded to at least two digits.
pub open spec fn pad2_chars(n: nat) -> Seq<char> {
    if n < 10 {
        seq!['0'] + dec_chars(n)
    } else {
        dec_chars(n)
    }
}

/// The rendering of a duration: hours, minutes and seconds, the hours part
/// present only when the duration reaches a full hour.
pub open spec fn spec_duration_chars(total_secs: nat) -> Seq<char> {
    let h = total_secs / 3600;
    let m = (total_secs % 3600) / 60;
    let s = total_secs % 60;
    if h > 0 {
        pad2_chars(h) + ":"@ + pad2_chars(m) + ":"@ + pad2_chars(s)
    } else {
        pad2_chars(m) + ":"@ + pad2_chars(s)
    }
}

/// Appends `n` zero-padded to at least two digits.
fn push_pad2(out: &mut String, n: u64)
    ensures
        final (out)@ == old(out)@ + pad2_chars(n as nat),
{
    if n < 10 {
        out.append("0");
        proof {
            reveal_strlit("0");
            assert("0"@ =~= seq!['0']);
        }
    }
    push_dec(out, n);
    proof {
        assert(out@ =~= old(out)@ + pad2_chars(n as nat));
    }
}

/// Renders a number of seconds as `MM:SS`, or as `HH:MM:SS` once a full
/// hour is left.
pub fn format_duration(total_secs: u64) -> (r: String)
    ensures
        r@ == spec_duration_chars(total_secs as nat),
{
    let hours = total_secs / 3600;
    let minutes = (total_secs % 3600) / 60;
    let seconds = total_secs % 60;
    let mut out = String::new();
    if hours > 0 {
        push_pad2(&mut out, hours);
        out.append(":");
    }
    push_pad2(&mut out, minutes);
    out.append(":");
    push_pad2(&mut out, seconds);
    proof {
        assert(out@ =~= spec_duration_chars(total_secs as nat));
    }
    out
}

} // verus!
