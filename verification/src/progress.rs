//! Reading the `-progress pipe:1` key/value chunks an export writes while it runs.
//!
//! Times are in microseconds. ffmpeg's `out_time_ms` is in fact microseconds too, so both it and
//! `out_time_us` are read the same way.

use vstd::prelude::*;
use crate::numbers::{
    below_zero, decimal_below_zero, frac_part, frac_places, int_part, parse_decimal, parse_decimal_spec,
    parse_scaled, parse_scaled_spec, sign_part,
};
use crate::text::{
    all_digits, chars_of, int_body, lemma_digits_value_nonneg, copy_range, digits_value, find_char, index_of, is_ascii_digit,
    lemma_index_of, lemma_split_on_len, parse_i64, parse_i64_spec, split_chars, split_on, trim,
    trim_str, trim_ws, vec_eq,
};
use crate::numbers::all_ascii_digits;

verus! {

#[derive(Debug, Clone, Copy, PartialEq, Eq, Structural)]
pub struct ProgressUpdate {
    /// Output timestamp reached so far, in microseconds, or `None` if unknown.
    pub out_time_us: Option<i64>,
    /// True once ffmpeg reports `progress=end`.
    pub done: bool,
}

/// The seconds field of a timecode: two digits, optionally a `.` and one or more digits.
pub open spec fn seconds_field_ok(s: Seq<char>) -> bool {
    &&& s.len() >= 2
    &&& all_digits(s.take(2))
    &&& (s.len() == 2 || (s.len() >= 4 && s[2] == '.' && all_digits(s.skip(3))))
}

/// `HH:MM:SS[.frac]` (hours one or more digits, minutes and whole seconds two digits each),
/// after trimming, in microseconds; fractional digits past the sixth are dropped. `None` for
/// any other text, or a time beyond `i64` microseconds.
pub open spec fn timecode_us_spec(value: Seq<char>) -> Option<i64> {
    let t = trim_ws(value);
    let parts = split_on(t, ':');
    if parts.len() == 3 && parts[0].len() >= 1 && all_digits(parts[0]) && parts[1].len() == 2
        && all_digits(parts[1]) && seconds_field_ok(parts[2]) {
        match parse_scaled_spec(parts[2], 6) {
            Some(sec) => {
                let total = digits_value(parts[0]) * 3_600_000_000 + digits_value(parts[1])
                    * 60_000_000 + sec;
                if total <= i64::MAX {
                    Some(total as i64)
                } else {
                    None
                }
            },
            None => None,
        }
    } else {
        None
    }
}

/// Digit text without a sign reads as its digits' value, which is never negative.
proof fn lemma_parse_unsigned(s: Seq<char>)
    requires
        s.len() > 0,
        is_ascii_digit(s[0]),
    ensures
        int_body(s) == s,
        parse_i64_spec(s) is Some ==> parse_i64_spec(s)->0 == digits_value(s) && digits_value(s) >= 0,
        parse_i64_spec(s) is None ==> !all_digits(s) || digits_value(s) > i64::MAX,
{
    if all_digits(s) {
        lemma_digits_value_nonneg(s);
    }
}

/// A well-formed seconds field reads as a non-negative count of microseconds.
proof fn lemma_seconds_nonneg(p: Seq<char>)
    requires
        seconds_field_ok(p),
        parse_scaled_spec(p, 6) is Some,
    ensures
        parse_scaled_spec(p, 6)->0 >= 0,
{
    assert(is_ascii_digit(p.take(2)[0]));
    assert(int_body(p) == p);
    lemma_index_of(p, '.');
    let ip = int_part(p);
    assert(ip.len() >= 1 && ip[0] == p[0]) by {
        if index_of(p, '.') >= 0 {
            assert(index_of(p, '.') != 0);
        }
    }
    let text = sign_part(p) + ip + frac_places(frac_part(p), 6);
    assert(sign_part(p) =~= Seq::<char>::empty());
    assert(text[0] == p[0]);
    lemma_parse_unsigned(text);
}

proof fn lemma_two_digits(s: Seq<char>)
    requires
        s.len() == 2,
        all_digits(s),
    ensures
        0 <= digits_value(s) <= 99,
{
    reveal_with_fuel(digits_value, 3);
    assert(is_ascii_digit(s[0]) && is_ascii_digit(s[1]));
    assert(s.drop_last().last() == s[0]);
    assert(s.drop_last().drop_last().len() == 0);
}

fn seconds_ok(v: &Vec<char>) -> (r: bool)
    ensures
        r == seconds_field_ok(v@),
{
    if v.len() < 2 {
        return false;
    }
    let head = copy_range(v, 0, 2);
    assert(head@ =~= v@.take(2));
    if !all_ascii_digits(&head) {
        return false;
    }
    if v.len() == 2 {
        return true;
    }
    if v.len() < 4 || v[2] != '.' {
        return false;
    }
    let tail = copy_range(v, 3, v.len());
    assert(tail@ =~= v@.skip(3));
    all_ascii_digits(&tail)
}

/// Parse a `HH:MM:SS.micro` timecode into microseconds (see [`timecode_us_spec`]).
pub fn parse_timecode(value: &str) -> (r: Option<i64>)
    ensures
        r == timecode_us_spec(value@),
{
    let t = trim_str(value);
    let parts = split_chars(&t, ':');
    proof {
        lemma_split_on_len(t@, ':');
    }
    if parts.len() != 3 {
        return None;
    }
    if parts[0].len() < 1 || !all_ascii_digits(&parts[0]) || parts[1].len() != 2
        || !all_ascii_digits(&parts[1]) || !seconds_ok(&parts[2]) {
        return None;
    }
    let sec = match parse_scaled(&parts[2], 6) {
        Some(x) => x,
        None => {
            return None;
        },
    };
    proof {
        lemma_two_digits(parts[1]@);
        lemma_seconds_nonneg(parts[2]@);
        assert(is_ascii_digit(parts[0]@[0]));
        lemma_parse_unsigned(parts[0]@);
        assert(is_ascii_digit(parts[1]@[0]));
        lemma_parse_unsigned(parts[1]@);
    }
    let hours = match parse_i64(&parts[0]) {
        Some(h) => h,
        None => {
            return None;
        },
    };
    let minutes = match parse_i64(&parts[1]) {
        Some(m) => m,
        None => {
            return None;
        },
    };
    let total: i128 = (hours as i128) * 3_600_000_000 + (minutes as i128) * 60_000_000 + (sec as i128);
    if total <= 9223372036854775807i128 {
        Some(total as i64)
    } else {
        None
    }
}

/// An `out_time_us` value: a non-negative finite number of microseconds, exponent forms
/// included (fractions of a microsecond dropped); a value below zero, or text that is no finite
/// number, is ignored.
pub open spec fn micros_value(value: Seq<char>) -> Option<i64> {
    let t = trim_ws(value);
    match parse_decimal_spec(t, 0) {
        Some(us) => if decimal_below_zero(t) {
            None
        } else if us >= 0 {
            Some(us)
        } else {
            None
        },
        None => None,
    }
}

/// One `key=value` line applied to the state so far (the line is trimmed first; lines without
/// `=` and unknown keys change nothing).
pub open spec fn apply_line_spec(st: ProgressUpdate, raw: Seq<char>) -> ProgressUpdate {
    let line = trim_ws(raw);
    let eq = index_of(line, '=');
    if eq < 0 {
        st
    } else {
        let key = line.take(eq);
        let value = line.skip(eq + 1);
        if key == "out_time_us"@ || key == "out_time_ms"@ {
            match micros_value(value) {
                Some(us) => ProgressUpdate { out_time_us: Some(us), done: st.done },
                None => st,
            }
        } else if key == "out_time"@ {
            match timecode_us_spec(value) {
                Some(t) => ProgressUpdate { out_time_us: Some(t), done: st.done },
                None => st,
            }
        } else if key == "progress"@ {
            ProgressUpdate { out_time_us: st.out_time_us, done: value == "end"@ }
        } else {
            st
        }
    }
}

/// The lines applied in order, from no time known and not done.
pub open spec fn progress_of_lines(lines: Seq<Seq<char>>) -> ProgressUpdate
    decreases lines.len(),
{
    if lines.len() == 0 {
        ProgressUpdate { out_time_us: None, done: false }
    } else {
        apply_line_spec(progress_of_lines(lines.drop_last()), lines.last())
    }
}

/// What a chunk of progress text says: its `\n`-separated lines applied in order.
pub open spec fn progress_spec(text: Seq<char>) -> ProgressUpdate {
    progress_of_lines(split_on(text, '\n'))
}

fn micros_of(value: &Vec<char>) -> (r: Option<i64>)
    ensures
        r == micros_value(value@),
{
    let t = trim(value);
    match parse_decimal(&t, 0) {
        Some(us) => {
            if below_zero(&t) {
                None
            } else if us >= 0 {
                Some(us)
            } else {
                None
            }
        },
        None => None,
    }
}

fn same_text(v: &Vec<char>, s: &str) -> (r: bool)
    ensures
        r == (v@ == s@),
{
    let w = chars_of(s);
    vec_eq(v, &w)
}

fn apply_line(st: ProgressUpdate, raw: &Vec<char>) -> (r: ProgressUpdate)
    ensures
        r == apply_line_spec(st, raw@),
{
    let line = trim(raw);
    match find_char(&line, '=') {
        None => st,
        Some(eq) => {
            proof {
                lemma_index_of(line@, '=');
            }
            let key = copy_range(&line, 0, eq);
            let value = copy_range(&line, eq + 1, line.len());
            assert(key@ =~= line@.take(eq as int));
            assert(value@ =~= line@.skip(eq as int + 1));
            if same_text(&key, "out_time_us") || same_text(&key, "out_time_ms") {
                match micros_of(&value) {
                    Some(us) => ProgressUpdate { out_time_us: Some(us), done: st.done },
                    None => st,
                }
            } else if same_text(&key, "out_time") {
                let text = crate::text::string_from(&value);
                match parse_timecode(text.as_str()) {
                    Some(t) => ProgressUpdate { out_time_us: Some(t), done: st.done },
                    None => st,
                }
            } else if same_text(&key, "progress") {
                ProgressUpdate { out_time_us: st.out_time_us, done: same_text(&value, "end") }
            } else {
                st
            }
        },
    }
}

/// Parse one or more `-progress pipe:1` chunks (see [`progress_spec`]).
pub fn parse_progress(text: &str) -> (r: ProgressUpdate)
    ensures
        r == progress_spec(text@),
{
    let v = chars_of(text);
    let lines = split_chars(&v, '\n');
    let ghost ls = split_on(v@, '\n');
    let mut st = ProgressUpdate { out_time_us: None, done: false };
    let mut i: usize = 0;
    while i < lines.len()
        invariant
            i <= lines.len() == ls.len(),
            ls == split_on(v@, '\n'),
            forall|k: int| 0 <= k < lines.len() ==> #[trigger] lines[k]@ == ls[k],
            st == progress_of_lines(ls.take(i as int)),
        decreases lines.len() - i,
    {
        assert(ls.take(i as int + 1).drop_last() =~= ls.take(i as int));
        st = apply_line(st, &lines[i]);
        i += 1;
    }
    assert(ls.take(lines.len() as int) =~= ls);
    st
}

/// The share of an export done, in millionths from 0 to 1,000,000: the time reached over the
/// total, clamped; 0 when no time is known or the total is not positive.
pub open spec fn progress_fraction_spec(out_time_us: Option<i64>, duration_us: i64) -> int {
    match out_time_us {
        Some(t) => if duration_us > 0 {
            if t <= 0 {
                0
            } else if t >= duration_us {
                1_000_000
            } else {
                t * 1_000_000 / (duration_us as int)
            }
        } else {
            0
        },
        None => 0,
    }
}

/// Clamp an export progress fraction (in millionths) from the current and total times.
pub fn progress_fraction(out_time_us: Option<i64>, duration_us: i64) -> (r: i64)
    ensures
        r == progress_fraction_spec(out_time_us, duration_us),
        0 <= r <= 1_000_000,
{
    match out_time_us {
        Some(t) => if duration_us > 0 {
            if t <= 0 {
                0
            } else if t >= duration_us {
                1_000_000
            } else {
                let q: i128 = (t as i128) * 1_000_000 / (duration_us as i128);
                assert(q <= 1_000_000) by (nonlinear_arith)
                    requires
                        0 < t < duration_us,
                        q == (t as int) * 1_000_000 / (duration_us as int),
                ;
                assert(q >= 0) by (nonlinear_arith)
                    requires
                        0 < t < duration_us,
                        q == (t as int) * 1_000_000 / (duration_us as int),
                ;
                q as i64
            }
        } else {
            0
        },
        None => 0,
    }
}

} // verus!
