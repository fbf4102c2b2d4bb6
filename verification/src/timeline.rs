//! The editor's transport: the playhead, the trim points, and what each transport command and
//! playback tick does to them. Times are in microseconds.

use vstd::prelude::*;
use crate::keys::EditorCommand;
use crate::numbers::{
    below_zero, decimal_below_zero, decimal_form, decimal_form_ok, infinity_word, is_infinity_word, parse_decimal,
    parse_decimal_spec, round_div, round_div_i128,
};
use crate::text::{
    chars_of, dec_i64, dec_i64_padded, dec_int, dec_int_padded, split_chars,
    split_on, string_from, trim, trim_ws,
};

verus! {

/// `x` clamped into `lo..=hi` (as `clamp` does when `lo <= hi`).
pub open spec fn clamp(x: int, lo: int, hi: int) -> int {
    if x < lo {
        lo
    } else if x > hi {
        hi
    } else {
        x
    }
}

/// Where a seek lands: the target clamped into the clip (`0..=duration`); without a known
/// duration only negative targets are raised to 0.
pub open spec fn seek_spec(target: int, duration: Option<i64>) -> int {
    let max = match duration {
        Some(d) => d as int,
        None => target,
    };
    clamp(target, 0, max)
}

/// The playhead after seeking to `target`.
pub fn seek_target(target: i64, duration: Option<i64>) -> (r: i64)
    requires
        match duration {
            Some(d) => d >= 0,
            None => target >= 0,
        },
    ensures
        r == seek_spec(target as int, duration),
        0 <= r,
        duration is Some ==> r <= duration->0,
{
    let max = match duration {
        Some(d) => d,
        None => target,
    };
    if target < 0 {
        0
    } else if target > max {
        max
    } else {
        target
    }
}

/// Where a skip lands: the playhead moved by `delta`, clamped into `0..=duration` (an unknown
/// duration counts as 0).
pub open spec fn skip_spec(current: int, delta: int, duration: Option<i64>) -> int {
    let max = match duration {
        Some(d) => d as int,
        None => 0,
    };
    clamp(current + delta, 0, max)
}

/// The playhead after skipping by `delta`.
pub fn skip_target(current: i64, delta: i64, duration: Option<i64>) -> (r: i64)
    requires
        match duration {
            Some(d) => d >= 0,
            None => true,
        },
    ensures
        r == skip_spec(current as int, delta as int, duration),
{
    let max: i64 = match duration {
        Some(d) => d,
        None => 0,
    };
    let moved: i128 = (current as i128) + (delta as i128);
    if moved < 0 {
        0
    } else if moved > max as i128 {
        max
    } else {
        moved as i64
    }
}

/// Setting the in point: the playhead, but at least a tenth of a second before the out point,
/// clamped into `0..=trim_end`.
pub open spec fn set_in_spec(current: int, trim_end: int) -> int {
    let c = if current < trim_end - 100_000 {
        current
    } else {
        trim_end - 100_000
    };
    clamp(c, 0, trim_end)
}

/// The new trim start when the in point is set at the playhead.
pub fn set_in_point(current: i64, trim_end: i64) -> (r: i64)
    requires
        trim_end >= 0,
    ensures
        r == set_in_spec(current as int, trim_end as int),
        0 <= r <= trim_end,
{
    let limit: i64 = trim_end - 100_000;
    let c = if current < limit {
        current
    } else {
        limit
    };
    if c < 0 {
        0
    } else if c > trim_end {
        trim_end
    } else {
        c
    }
}

/// Setting the out point: the playhead, but at least a tenth of a second after the in point,
/// clamped into `0..=duration` (the current out point when the duration is unknown).
pub open spec fn set_out_spec(current: int, trim_start: int, trim_end: int, duration: Option<i64>) -> int {
    let max = match duration {
        Some(d) => d as int,
        None => trim_end,
    };
    let c = if current > trim_start + 100_000 {
        current
    } else {
        trim_start + 100_000
    };
    clamp(c, 0, max)
}

/// The new trim end when the out point is set at the playhead.
pub fn set_out_point(current: i64, trim_start: i64, trim_end: i64, duration: Option<i64>) -> (r: i64)
    requires
        match duration {
            Some(d) => d >= 0,
            None => trim_end >= 0,
        },
    ensures
        r == set_out_spec(current as int, trim_start as int, trim_end as int, duration),
{
    let max: i64 = match duration {
        Some(d) => d,
        None => trim_end,
    };
    let floor: i128 = (trim_start as i128) + 100_000;
    let c: i128 = if (current as i128) > floor {
        current as i128
    } else {
        floor
    };
    if c < 0 {
        0
    } else if c > max as i128 {
        max
    } else {
        c as i64
    }
}

/// One frame at a rate given in thousandths of a frame per second, in microseconds (rounded);
/// rates below 1 fps count as 1 fps.
pub open spec fn frame_step_spec(fps_milli: i64) -> int {
    let f = if fps_milli < 1000 {
        1000
    } else {
        fps_milli as int
    };
    round_div(1_000_000_000, f)
}

pub fn frame_step_us(fps_milli: i64) -> (r: i64)
    ensures
        r == frame_step_spec(fps_milli),
        0 <= r <= 1_000_000,
{
    let f: i64 = if fps_milli < 1000 {
        1000
    } else {
        fps_milli
    };
    let q = round_div_i128(1_000_000_000, f as i128);
    assert(0 <= q <= 1_000_000) by {
        let n: int = 2 * 1_000_000_000 + f;
        let d: int = 2 * (f as int);
        vstd::arithmetic::div_mod::lemma_fundamental_div_mod(n, d);
        vstd::arithmetic::div_mod::lemma_mod_bound(n, d);
        vstd::arithmetic::div_mod::lemma_div_pos_is_pos(n, d);
        let qq: int = n / d;
        let rr: int = n % d;
        assert(qq <= 1_000_000) by (nonlinear_arith)
            requires
                n == d * qq + rr,
                0 <= rr < d,
                d == 2 * (f as int),
                n == 2 * 1_000_000_000 + f,
                f >= 1000,
        ;
    }
    q as i64
}

/// What a transport command asks of the editor.
#[derive(Debug, Clone, Copy, PartialEq, Eq, Structural)]
pub enum TransportAction {
    TogglePlay,
    SetIn,
    SetOut,
    /// Move the playhead by this many microseconds.
    Skip(i64),
    /// Move the playhead to this time.
    Seek(i64),
    Export,
}

/// The transport action for an editor shortcut: a frame back or forward is one frame at the
/// clip's rate, a jump is five seconds, and the ends are 0 and the duration.
pub open spec fn command_action_spec(cmd: EditorCommand, fps_milli: i64, duration_us: i64) -> TransportAction {
    match cmd {
        EditorCommand::TogglePlay => TransportAction::TogglePlay,
        EditorCommand::SetIn => TransportAction::SetIn,
        EditorCommand::SetOut => TransportAction::SetOut,
        EditorCommand::FrameBack => TransportAction::Skip((-frame_step_spec(fps_milli)) as i64),
        EditorCommand::FrameForward => TransportAction::Skip(frame_step_spec(fps_milli) as i64),
        EditorCommand::JumpBack => TransportAction::Skip(-5_000_000i64),
        EditorCommand::JumpForward => TransportAction::Skip(5_000_000),
        EditorCommand::GoToStart => TransportAction::Seek(0),
        EditorCommand::GoToEnd => TransportAction::Seek(duration_us),
        EditorCommand::Export => TransportAction::Export,
    }
}

pub fn command_action(cmd: EditorCommand, fps_milli: i64, duration_us: i64) -> (r: TransportAction)
    ensures
        r == command_action_spec(cmd, fps_milli, duration_us),
{
    match cmd {
        EditorCommand::TogglePlay => TransportAction::TogglePlay,
        EditorCommand::SetIn => TransportAction::SetIn,
        EditorCommand::SetOut => TransportAction::SetOut,
        EditorCommand::FrameBack => TransportAction::Skip(-frame_step_us(fps_milli)),
        EditorCommand::FrameForward => TransportAction::Skip(frame_step_us(fps_milli)),
        EditorCommand::JumpBack => TransportAction::Skip(-5_000_000),
        EditorCommand::JumpForward => TransportAction::Skip(5_000_000),
        EditorCommand::GoToStart => TransportAction::Seek(0),
        EditorCommand::GoToEnd => TransportAction::Seek(duration_us),
        EditorCommand::Export => TransportAction::Export,
    }
}

/// Where playback (re)starts: from the top when the playhead sits at or past a known end,
/// otherwise from the playhead.
pub open spec fn play_start_spec(current: i64, duration: i64) -> i64 {
    if duration > 0 && current >= duration {
        0
    } else {
        current
    }
}

pub fn play_start(current: i64, duration: i64) -> (r: i64)
    ensures
        r == play_start_spec(current, duration),
{
    if duration > 0 && current >= duration {
        0
    } else {
        current
    }
}

/// What polling the playing decoder produced.
#[derive(Debug, Clone, Copy, PartialEq, Eq, Structural)]
pub enum PollOutcome {
    /// A frame was ready.
    Frame,
    /// No frame was ready yet.
    Empty,
    /// The decoder finished or stopped.
    Ended,
}

/// The playhead after one playback tick, and whether playback goes on.
#[derive(Debug, Clone, Copy, PartialEq, Eq, Structural)]
pub struct TickResult {
    pub current_us: i64,
    pub playing: bool,
}

/// One playback tick. `position` is the player's clock when it has one; `duration` counts
/// only when positive. Ended playback stops at the end (or where it is, with no known end).
/// A frame, or an empty poll with a clock, moves the playhead to the clock (or one frame on
/// without one); reaching the known end stops playback there. An empty poll without a clock
/// changes nothing.
pub open spec fn tick_spec(current: i64, poll: PollOutcome, position: Option<i64>, fps_milli: i64, duration: i64) -> TickResult {
    match poll {
        PollOutcome::Ended => TickResult {
            current_us: if duration > 0 {
                duration
            } else {
                current
            },
            playing: false,
        },
        _ => if poll == PollOutcome::Empty && position is None {
            TickResult { current_us: current, playing: true }
        } else {
            let next: int = match position {
                Some(p) => p as int,
                None => current + frame_step_spec(fps_milli),
            };
            if duration > 0 && next >= duration {
                TickResult { current_us: duration, playing: false }
            } else {
                TickResult { current_us: next as i64, playing: true }
            }
        },
    }
}

pub fn playback_tick(current: i64, poll: PollOutcome, position: Option<i64>, fps_milli: i64, duration: i64) -> (r: TickResult)
    requires
        position is None ==> current + 1_000_000 <= i64::MAX,
    ensures
        r == tick_spec(current, poll, position, fps_milli, duration),
{
    match poll {
        PollOutcome::Ended => TickResult {
            current_us: if duration > 0 {
                duration
            } else {
                current
            },
            playing: false,
        },
        _ => {
            if poll == PollOutcome::Empty && position.is_none() {
                return TickResult { current_us: current, playing: true };
            }
            let next: i64 = match position {
                Some(p) => p,
                None => current + frame_step_us(fps_milli),
            };
            if duration > 0 && next >= duration {
                TickResult { current_us: duration, playing: false }
            } else {
                TickResult { current_us: next, playing: true }
            }
        },
    }
}

// ---------------------------------------------------------------------------------------------
// The editable playhead field
// ---------------------------------------------------------------------------------------------

/// `M:SS.mmm`, or `H:MM:SS.mmm` past an hour, of a time rounded to the nearest millisecond
/// (negative times show as 0).
pub open spec fn format_timestamp_spec(us: i64) -> Seq<char> {
    let total_ms: int = if us < 0 {
        0
    } else {
        (us + 500) / 1000
    };
    let ms = total_ms % 1000;
    let s = (total_ms / 1000) % 60;
    let m = (total_ms / 60_000) % 60;
    let h = total_ms / 3_600_000;
    if h > 0 {
        dec_int(h) + seq![':'] + dec_int_padded(m, 2) + seq![':'] + dec_int_padded(s, 2) + seq!['.']
            + dec_int_padded(ms, 3)
    } else {
        dec_int(m) + seq![':'] + dec_int_padded(s, 2) + seq!['.'] + dec_int_padded(ms, 3)
    }
}

fn push_all(out: &mut Vec<char>, more: &Vec<char>)
    ensures
        final(out)@ == old(out)@ + more@,
{
    crate::text::append_chars(out, more);
}

/// Format a time for the editable playhead field (see [`format_timestamp_spec`]).
pub fn format_timestamp(us: i64) -> (r: String)
    ensures
        r@ == format_timestamp_spec(us),
{
    let total_ms: i64 = if us < 0 {
        0
    } else {
        ((us as i128 + 500) / 1000) as i64
    };
    let ms = total_ms % 1000;
    let s = (total_ms / 1000) % 60;
    let m = (total_ms / 60_000) % 60;
    let h = total_ms / 3_600_000;
    let mut out: Vec<char> = Vec::new();
    if h > 0 {
        push_all(&mut out, &dec_i64(h));
        out.push(':');
        push_all(&mut out, &dec_i64_padded(m, 2));
    } else {
        push_all(&mut out, &dec_i64(m));
    }
    out.push(':');
    push_all(&mut out, &dec_i64_padded(s, 2));
    out.push('.');
    push_all(&mut out, &dec_i64_padded(ms, 3));
    assert(out@ =~= format_timestamp_spec(us));
    string_from(&out)
}

/// One part of a timestamp, in microseconds: a finite number of seconds, not below zero,
/// exponent forms included (kept to the microsecond). A part too large for `i64`
/// microseconds, or a positive infinity, counts as `2^63` (beyond every clip). `None` for a part
/// that is no such number.
pub open spec fn part_value(t: Seq<char>) -> Option<int> {
    match parse_decimal_spec(t, 6) {
        Some(v) => if v < 0 || decimal_below_zero(t) {
            None
        } else {
            Some(v as int)
        },
        None => if (decimal_form_ok(t) && !decimal_below_zero(t)) || (is_infinity_word(t)
            && !(t.len() > 0 && t[0] == '-')) {
            Some(0x8000_0000_0000_0000)
        } else {
            None
        },
    }
}

/// A colon-separated timestamp (`S`, `M:SS`, `M:SS.mmm`, `H:MM:SS(.mmm)`) folded part by part
/// (each a [`part_value`]): the total is multiplied by 60 before each part is added. `None` for
/// a part that is no such number.
pub open spec fn fold_parts(parts: Seq<Seq<char>>) -> Option<int>
    decreases parts.len(),
{
    if parts.len() == 0 {
        Some(0)
    } else {
        match fold_parts(parts.drop_last()) {
            None => None,
            Some(total) => match part_value(trim_ws(parts.last())) {
                Some(v) => Some(total * 60 + v),
                None => None,
            },
        }
    }
}

/// Parse the playhead field into microseconds: blank text, or a part that is not a number of
/// seconds, gives `None`; a total beyond `i64` saturates at `i64::MAX` (a seek there lands at
/// the end of the clip).
pub open spec fn parse_timestamp_spec(text: Seq<char>) -> Option<i64> {
    let t = trim_ws(text);
    if t.len() == 0 {
        None
    } else {
        match fold_parts(split_on(t, ':')) {
            Some(total) => if total <= i64::MAX {
                Some(total as i64)
            } else {
                Some(i64::MAX)
            },
            None => None,
        }
    }
}

fn part_value_exec(part: &Vec<char>) -> (r: Option<i128>)
    ensures
        match r {
            Some(v) => part_value(part@) == Some(v as int),
            None => part_value(part@) is None,
        },
{
    match parse_decimal(part, 6) {
        Some(v) => if v < 0 || below_zero(part) {
            None
        } else {
            Some(v as i128)
        },
        None => if (decimal_form(part) && !below_zero(part)) || (infinity_word(part) && !(part.len()
            > 0 && part[0] == '-')) {
            Some(0x8000_0000_0000_0000i128)
        } else {
            None
        },
    }
}

/// A running total capped at `2^63`.
spec fn sat63(x: int) -> int {
    if x < 0x8000_0000_0000_0000 {
        x
    } else {
        0x8000_0000_0000_0000
    }
}

proof fn lemma_sat_step(t: int, v: int)
    requires
        t >= 0,
        0 <= v <= 0x8000_0000_0000_0000,
    ensures
        sat63(sat63(t) * 60 + v) == sat63(t * 60 + v),
{
}

proof fn lemma_fold_nonneg(parts: Seq<Seq<char>>)
    ensures
        fold_parts(parts) is Some ==> fold_parts(parts)->0 >= 0,
    decreases parts.len(),
{
    if parts.len() > 0 {
        lemma_fold_nonneg(parts.drop_last());
    }
}

/// Parse `S`, `M:SS`, `M:SS.mmm`, or `H:MM:SS(.mmm)` into microseconds (see
/// [`parse_timestamp_spec`]).
pub fn parse_timestamp(text: &str) -> (r: Option<i64>)
    ensures
        r == parse_timestamp_spec(text@),
{
    let t = trim(&chars_of(text));
    if t.len() == 0 {
        return None;
    }
    let parts = split_chars(&t, ':');
    let ghost ps = split_on(t@, ':');
    let big: i128 = 0x8000_0000_0000_0000;
    let mut total: i128 = 0;
    let mut i: usize = 0;
    while i < parts.len()
        invariant
            i <= parts.len() == ps.len(),
            t@ == trim_ws(text@),
            t@.len() > 0,
            ps == split_on(t@, ':'),
            forall|k: int| 0 <= k < parts.len() ==> #[trigger] parts[k]@ == ps[k],
            fold_parts(ps.take(i as int)) is Some,
            0 <= total <= big,
            big == 0x8000_0000_0000_0000,
            total == sat63(fold_parts(ps.take(i as int))->0),
        decreases parts.len() - i,
    {
        assert(ps.take(i as int + 1).drop_last() =~= ps.take(i as int));
        assert(ps.take(i as int + 1).last() == ps[i as int]);
        proof {
            lemma_fold_nonneg(ps.take(i as int));
        }
        let part = trim(&parts[i]);
        let v = match part_value_exec(&part) {
            Some(v) => v,
            None => {
                proof {
                    lemma_fold_none_extends(ps, i as int + 1);
                }
                return None;
            },
        };
        proof {
            lemma_sat_step(fold_parts(ps.take(i as int))->0, v as int);
            assert(fold_parts(ps.take(i as int + 1)) == Some(fold_parts(ps.take(i as int))->0 * 60 + v));
        }
        let next: i128 = total * 60 + v;
        total = if next > big {
            big
        } else {
            next
        };
        i += 1;
    }
    assert(ps.take(parts.len() as int) =~= ps);
    if total > 9223372036854775807i128 {
        Some(9223372036854775807i64)
    } else {
        Some(total as i64)
    }
}

/// Once a prefix fails to fold, the whole list fails.
proof fn lemma_fold_none_extends(ps: Seq<Seq<char>>, k: int)
    requires
        0 <= k <= ps.len(),
        fold_parts(ps.take(k)) is None,
    ensures
        fold_parts(ps) is None,
    decreases ps.len() - k,
{
    if k < ps.len() {
        assert(ps.take(k + 1).drop_last() =~= ps.take(k));
        lemma_fold_none_extends(ps, k + 1);
    } else {
        assert(ps.take(k) =~= ps);
    }
}

} // verus!
