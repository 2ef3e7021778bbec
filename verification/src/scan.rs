//! Character-level helpers shared by the state-file codec and the duration
//! formatter: decimal rendering of unsigned numbers, decimal parsing, and
//! literal matching inside a string.

use vstd::prelude::*;
use vstd::arithmetic::div_mod::lemma_fundamental_div_mod;
use vstd::arithmetic::div_mod::lemma_fundamental_div_mod_converse;
use vstd::string::StrSliceExecFns;
use vstd::string::StringExecFns;

verus! {

/// Whether a character is a decimal digit.
pub open spec fn is_digit(c: char) -> bool {
    ||| c == '0'
    ||| c == '1'
    ||| c == '2'
    ||| c == '3'
    ||| c == '4'
    ||| c == '5'
    ||| c == '6'
    ||| c == '7'
    ||| c == '8'
    ||| c == '9'
}

/// The numeric value of a digit character; any other character reads as a
/// value no digit has.
pub open spec fn digit_val(c: char) -> int {
    if c == '0' {
        0
    } else if c == '1' {
        1
    } else if c == '2' {
        2
    } else if c == '3' {
        3
    } else if c == '4' {
        4
    } else if c == '5' {
        5
    } else if c == '6' {
        6
    } else if c == '7' {
        7
    } else if c == '8' {
        8
    } else if c == '9' {
        9
    } else {
        -1
    }
}

/// The numeric value of a digit character, executably.
pub fn digit_of(c: char) -> (r: Option<u64>)
    ensures
        match r {
            Some(d) => is_digit(c) && d == digit_val(c) && d < 10,
            None => !is_digit(c),
        },
{
    match c {
        '0' => Some(0),
        '1' => Some(1),
        '2' => Some(2),
        '3' => Some(3),
        '4' => Some(4),
        '5' => Some(5),
        '6' => Some(6),
        '7' => Some(7),
        '8' => Some(8),
        '9' => Some(9),
        _ => None,
    }
}

/// The character for a single digit value.
pub open spec fn digit_char(d: int) -> char {
    if d == 0 {
        '0'
    } else if d == 1 {
        '1'
    } else if d == 2 {
        '2'
    } else if d == 3 {
        '3'
    } else if d == 4 {
        '4'
    } else if d == 5 {
        '5'
    } else if d == 6 {
        '6'
    } else if d == 7 {
        '7'
    } else if d == 8 {
        '8'
    } else {
        '9'
    }
}

/// The canonical decimal rendering of a number: no sign, no leading zero
/// except for the number zero itself.
pub open spec fn dec_chars(n: nat) -> Seq<char>
    decreases n,
{
    if n < 10 {
        seq![digit_char(n as int)]
    } else {
        dec_chars(n / 10) + seq![digit_char((n % 10) as int)]
    }
}

/// The value of a sequence of digit characters, read left to right.
pub open spec fn digits_val(digs: Seq<char>) -> int
    decreases digs.len(),
{
    if digs.len() == 0 {
        0
    } else {
        digits_val(digs.drop_last()) * 10 + digit_val(digs.last())
    }
}

/// Whether every character of the sequence is a decimal digit.
pub open spec fn all_digits(digs: Seq<char>) -> bool {
    forall|i: int| 0 <= i < digs.len() ==> is_digit(digs[i])
}

/// The canonical rendering consists of digits, is never empty, and starts
/// with a zero only for the number zero.
pub proof fn lemma_dec_chars_form(n: nat)
    ensures
        dec_chars(n).len() >= 1,
        all_digits(dec_chars(n)),
        n > 0 ==> dec_chars(n)[0] != '0',
        n < 10 ==> dec_chars(n).len() == 1,
    decreases n,
{
    if n < 10 {
        assert(is_digit(dec_chars(n)[0]));
    } else {
        lemma_dec_chars_form(n / 10);
        let a = dec_chars(n / 10);
        let b = seq![digit_char((n % 10) as int)];
        assert(dec_chars(n) == a + b);
        assert(forall|i: int| 0 <= i < a.len() ==> (a + b)[i] == a[i]);
        assert(is_digit((a + b)[a.len() as int]));
        assert(dec_chars(n)[0] == a[0]);
    }
}

/// Reading back the canonical rendering gives the number itself.
pub proof fn lemma_digits_val_dec_chars(n: nat)
    ensures
        digits_val(dec_chars(n)) == n,
    decreases n,
{
    if n < 10 {
        let digs = dec_chars(n);
        assert(digs.drop_last() =~= Seq::<char>::empty());
        assert(digits_val(Seq::<char>::empty()) == 0);
        assert(digs.last() == digit_char(n as int));
        assert(digits_val(digs) == digit_val(digit_char(n as int)));
    } else {
        lemma_digits_val_dec_chars(n / 10);
        let a = dec_chars(n / 10);
        let b = seq![digit_char((n % 10) as int)];
        let digs = dec_chars(n);
        assert(digs == a + b);
        assert(digs.drop_last() =~= a);
        assert(digs.last() == digit_char((n % 10) as int));
        lemma_fundamental_div_mod(n as int, 10);
    }
}

/// The value of a digit sequence is never negative.
pub proof fn lemma_digits_val_nonneg(digs: Seq<char>)
    requires
        all_digits(digs),
    ensures
        digits_val(digs) >= 0,
    decreases digs.len(),
{
    if digs.len() > 0 {
        assert(all_digits(digs.drop_last()));
        lemma_digits_val_nonneg(digs.drop_last());
        assert(digit_val(digs.last()) >= 0);
    }
}

/// A prefix of a digit sequence never reads back to a larger value than
/// the whole sequence.
pub proof fn lemma_digits_val_prefix(digs: Seq<char>, i: int)
    requires
        all_digits(digs),
        0 <= i <= digs.len(),
    ensures
        digits_val(digs.subrange(0, i)) <= digits_val(digs),
    decreases digs.len() - i,
{
    if i == digs.len() {
        assert(digs.subrange(0, i) =~= digs);
    } else {
        lemma_digits_val_prefix(digs, i + 1);
        let a = digs.subrange(0, i);
        let b = digs.subrange(0, i + 1);
        assert(b.drop_last() =~= a);
        assert(all_digits(a));
        lemma_digits_val_nonneg(a);
        assert(digits_val(b) == digits_val(a) * 10 + digit_val(b.last()));
        assert(is_digit(digs[i]));
        assert(digit_val(b.last()) >= 0);
        assert(digits_val(a) <= digits_val(a) * 10);
    }
}

/// A digit sequence that does not start with a zero reads back to a
/// positive value.
pub proof fn lemma_digits_val_pos(digs: Seq<char>)
    requires
        all_digits(digs),
        digs.len() >= 1,
        digs[0] != '0',
    ensures
        digits_val(digs) >= 1,
    decreases digs.len(),
{
    if digs.len() == 1 {
        assert(digs.drop_last() =~= Seq::<char>::empty());
        assert(digits_val(Seq::<char>::empty()) == 0);
        assert(digs.last() == digs[0]);
        assert(digit_val(digs[0]) >= 1);
    } else {
        let front = digs.drop_last();
        assert(front[0] == digs[0]);
        assert(all_digits(front));
        lemma_digits_val_pos(front);
        assert(digits_val(digs) == digits_val(front) * 10 + digit_val(digs.last()));
        assert(digit_val(digs.last()) >= 0);
    }
}

/// A digit sequence without a superfluous leading zero is exactly the
/// canonical rendering of its value.
pub proof fn lemma_digits_canonical(digs: Seq<char>)
    requires
        all_digits(digs),
        digs.len() >= 1,
        digs[0] == '0' ==> digs.len() == 1,
    ensures
        digits_val(digs) >= 0,
        digs == dec_chars(digits_val(digs) as nat),
    decreases digs.len(),
{
    lemma_digits_val_nonneg(digs);
    let n = digits_val(digs);
    if digs.len() == 1 {
        assert(digs.drop_last() =~= Seq::<char>::empty());
        assert(digits_val(Seq::<char>::empty()) == 0);
        assert(is_digit(digs[0]));
        assert(n == digit_val(digs[0]));
        assert(0 <= n < 10);
        assert(digit_char(n) == digs[0]);
        assert(dec_chars(n as nat) =~= digs);
    } else {
        let front = digs.drop_last();
        let d = digit_val(digs.last());
        assert(is_digit(digs.last()));
        assert(0 <= d < 10);
        assert(front[0] == digs[0]);
        assert(all_digits(front));
        assert(front[0] != '0');
        lemma_digits_canonical(front);
        lemma_digits_val_pos(front);
        let m = digits_val(front);
        assert(n == m * 10 + d);
        assert(0 <= d < 10);
        lemma_fundamental_div_mod_converse(n, 10, m, d);
        assert(n >= 10);
        assert(dec_chars(n as nat) == dec_chars((n as nat) / 10) + seq![
            digit_char(((n as nat) % 10) as int),
        ]);
        assert((n as nat) / 10 == m && (n as nat) % 10 == d);
        assert(digit_char(d) == digs.last());
        assert(dec_chars(n as nat) =~= digs);
    }
}

/// The first position at or after `pos` that does not hold a digit.
pub open spec fn digit_run_end(s: Seq<char>, pos: int) -> int
    decreases s.len() - pos,
{
    if pos < 0 || pos >= s.len() || !is_digit(s[pos]) {
        pos
    } else {
        digit_run_end(s, pos + 1)
    }
}

/// A run of `k` digits at `pos`, stopped by the end of the string or a
/// non-digit, is exactly the digit run found there.
pub proof fn lemma_digit_run(s: Seq<char>, pos: int, k: int)
    requires
        0 <= pos,
        pos + k <= s.len(),
        0 <= k,
        forall|i: int| pos <= i < pos + k ==> is_digit(s[i]),
        pos + k == s.len() || !is_digit(s[pos + k]),
    ensures
        digit_run_end(s, pos) == pos + k,
    decreases k,
{
    if k > 0 {
        assert(is_digit(s[pos]));
        lemma_digit_run(s, pos + 1, k - 1);
    }
}

/// What parsing an unsigned decimal number at a position yields: the value
/// of the digit run there and the position after it, or nothing when no
/// digit stands at the position, the run has a leading zero, or the run
/// does not fit in 64 bits.
pub open spec fn spec_parse_u64(s: Seq<char>, pos: int) -> Option<(u64, int)> {
    let end = digit_run_end(s, pos);
    if end == pos {
        None
    } else if s[pos] == '0' && end > pos + 1 {
        None
    } else if digits_val(s.subrange(pos, end)) > u64::MAX {
        None
    } else {
        Some((digits_val(s.subrange(pos, end)) as u64, end))
    }
}

/// A successful number parse reads back exactly a canonical rendering:
/// the consumed characters are the rendering of the value returned.
pub proof fn lemma_parse_u64_sound(s: Seq<char>, pos: int, v: u64, end: int)
    requires
        0 <= pos <= s.len(),
        spec_parse_u64(s, pos) == Some((v, end)),
    ensures
        pos < end <= s.len(),
        end - pos == dec_chars(v as nat).len(),
        s.subrange(pos, end) == dec_chars(v as nat),
{
    lemma_run_end_bounds(s, pos);
    lemma_run_digits(s, pos);
    assert(end == digit_run_end(s, pos));
    let run = s.subrange(pos, end);
    assert(all_digits(run)) by {
        assert(forall|i: int| 0 <= i < run.len() ==> run[i] == s[pos + i]);
    }
    assert(run[0] == s[pos]);
    lemma_digits_canonical(run);
    assert(digits_val(run) == v);
}

/// Parsing at the position of a canonically rendered number that is not
/// followed by another digit yields exactly that number.
pub proof fn lemma_parse_dec_at(s: Seq<char>, pos: int, n: u64)
    requires
        0 <= pos,
        pos + dec_chars(n as nat).len() <= s.len(),
        s.subrange(pos, pos + dec_chars(n as nat).len() as int) == dec_chars(n as nat),
        pos + dec_chars(n as nat).len() == s.len() || !is_digit(
            s[pos + dec_chars(n as nat).len()],
        ),
    ensures
        spec_parse_u64(s, pos) == Some((n, pos + dec_chars(n as nat).len() as int)),
{
    let digs = dec_chars(n as nat);
    lemma_dec_chars_form(n as nat);
    assert(forall|i: int| pos <= i < pos + digs.len() ==> is_digit(s[i])) by {
        assert(forall|i: int|
            pos <= i < pos + digs.len() ==> s[i] == digs[i - pos] && is_digit(digs[i - pos]));
    }
    lemma_digit_run(s, pos, digs.len() as int);
    lemma_digits_val_dec_chars(n as nat);
    assert(s.subrange(pos, digit_run_end(s, pos)) == digs);
    assert(s[pos] == digs[0]) by {
        assert(s.subrange(pos, pos + digs.len() as int)[0] == digs[0]);
    }
    if n == 0 {
        assert(digs.len() == 1);
    } else {
        assert(s[pos] != '0');
    }
}

/// Appends the canonical decimal rendering of `n`.
pub fn push_dec(out: &mut String, n: u64)
    ensures
        final (out)@ == old(out)@ + dec_chars(n as nat),
    decreases n,
{
    if n >= 10 {
        push_dec(out, n / 10);
    }
    let d = (n % 10) as usize;
    let digits = "0123456789";
    proof {
        reveal_strlit("0123456789");
        assert(digits.is_ascii());
    }
    out.append(digits.substring_ascii(d, d + 1));
    proof {
        assert(digits@.subrange(d as int, d + 1) =~= seq![digit_char(d as int)]);
        assert(out@ =~= old(out)@ + dec_chars(n as nat));
    }
}

/// Whether the literal stands at the given position of the string.
pub open spec fn match_at(s: Seq<char>, pos: int, lit: Seq<char>) -> bool {
    &&& 0 <= pos
    &&& pos + lit.len() <= s.len()
    &&& s.subrange(pos, pos + lit.len() as int) == lit
}

/// Checks whether the literal stands at the given position; on success the
/// position right after it is returned.
pub fn expect_at(s: &str, pos: usize, lit: &str) -> (r: Option<usize>)
    requires
        pos <= s@.len(),
    ensures
        match r {
            Some(end) => {
                &&& match_at(s@, pos as int, lit@)
                &&& end == pos + lit@.len()
                &&& end <= s@.len()
            },
            None => !match_at(s@, pos as int, lit@),
        },
{
    let slen = s.unicode_len();
    let llen = lit.unicode_len();
    if slen - pos < llen {
        return None;
    }
    let mut i: usize = 0;
    while i < llen
        invariant
            i <= llen,
            pos + llen <= slen,
            slen == s@.len(),
            llen == lit@.len(),
            forall|j: int| 0 <= j < i ==> s@[pos + j] == lit@[j],
        decreases llen - i,
    {
        if s.get_char(pos + i) != lit.get_char(i) {
            proof {
                assert(s@.subrange(pos as int, pos + llen as int)[i as int] != lit@[i as int]);
            }
            return None;
        }
        i += 1;
    }
    proof {
        assert(s@.subrange(pos as int, pos + llen as int) =~= lit@);
    }
    Some(pos + llen)
}

/// Parses an unsigned decimal number at the given position: the value of
/// the digit run there and the position after it, or nothing when no digit
/// stands at the position or the run does not fit in 64 bits.
pub fn parse_u64_at(s: &str, pos: usize) -> (r: Option<(u64, usize)>)
    requires
        pos <= s@.len(),
    ensures
        match r {
            Some(p) => spec_parse_u64(s@, pos as int) == Some((p.0, p.1 as int)) && pos < p.1
                <= s@.len(),
            None => spec_parse_u64(s@, pos as int) is None,
        },
{
    let slen = s.unicode_len();
    let mut i: usize = pos;
    let mut acc: u64 = 0;
    loop
        invariant
            pos <= i <= slen,
            slen == s@.len(),
            digit_run_end(s@, pos as int) == digit_run_end(s@, i as int),
            forall|j: int| pos <= j < i ==> is_digit(s@[j]),
            acc == digits_val(s@.subrange(pos as int, i as int)),
        ensures
            pos <= i <= slen,
            digit_run_end(s@, pos as int) == i,
            forall|j: int| pos <= j < i ==> is_digit(s@[j]),
            acc == digits_val(s@.subrange(pos as int, i as int)),
        decreases slen - i,
    {
        if i >= slen {
            assert(digit_run_end(s@, i as int) == i as int);
            break;
        }
        let c = s.get_char(i);
        let d = match digit_of(c) {
            Some(d) => d,
            None => {
                assert(!is_digit(s@[i as int]));
                assert(digit_run_end(s@, i as int) == i as int);
                break;
            },
        };
        assert(is_digit(s@[i as int]));
        proof {
            let b = s@.subrange(pos as int, i + 1);
            assert(b.drop_last() =~= s@.subrange(pos as int, i as int));
            assert(b.last() == s@[i as int]);
            assert(digits_val(b) == acc * 10 + d);
        }
        if acc > 1844674407370955161u64 || (acc == 1844674407370955161u64 && d > 5) {
            proof {
                let end = digit_run_end(s@, pos as int);
                assert(end == digit_run_end(s@, i + 1) && i + 1 <= end <= slen) by {
                    lemma_run_end_bounds(s@, i + 1);
                }
                let run = s@.subrange(pos as int, end);
                assert(forall|j: int| pos <= j < end ==> is_digit(s@[j])) by {
                    lemma_run_digits(s@, pos as int);
                }
                assert(all_digits(run));
                assert(s@.subrange(pos as int, i + 1) =~= run.subrange(0, i + 1 - pos));
                lemma_digits_val_prefix(run, i + 1 - pos);
                assert(digits_val(run) > u64::MAX);
            }
            return None;
        }
        acc = acc * 10 + d;
        i += 1;
        proof {
            assert(digit_run_end(s@, i - 1) == digit_run_end(s@, i as int));
        }
    }
    if i == pos {
        assert(spec_parse_u64(s@, pos as int) is None);
        return None;
    }
    let c0 = s.get_char(pos);
    if c0 == '0' && i > pos + 1 {
        return None;
    }
    proof {
        assert(s@.subrange(pos as int, i as int) == s@.subrange(
            pos as int,
            digit_run_end(s@, pos as int),
        ));
    }
    Some((acc, i))
}

/// Every position of a digit run, from its start to its end, holds a
/// digit.
pub proof fn lemma_run_digits(s: Seq<char>, pos: int)
    ensures
        forall|j: int| pos <= j < digit_run_end(s, pos) ==> is_digit(s[j]),
    decreases s.len() - pos,
{
    if !(pos < 0 || pos >= s.len() || !is_digit(s[pos])) {
        lemma_run_digits(s, pos + 1);
    }
}

/// A digit run never runs past the end of the string, nor backwards.
pub proof fn lemma_run_end_bounds(s: Seq<char>, pos: int)
    requires
        0 <= pos <= s.len(),
    ensures
        pos <= digit_run_end(s, pos) <= s.len(),
    decreases s.len() - pos,
{
    if !(pos >= s.len() || !is_digit(s[pos])) {
        lemma_run_end_bounds(s, pos + 1);
    }
}

} // verus!
