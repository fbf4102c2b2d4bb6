//! Small decisions of the in-process decode/encode pipeline: the video filter chain for an
//! export, channel-layout names, the preview's tone-mapped frame size, and a stream's rate.

use vstd::prelude::*;
use crate::edit_spec::{CropSpec, EditSpec};
use crate::numbers::{round_div, round_div_i128};
use crate::text::{append_chars, chars_of, dec_i64, dec_i64_padded, dec_int, dec_int_padded, string_from};

verus! {

/// Seconds with four decimals (`{:.4}`) of a time in microseconds, the last place rounded
/// half away from zero; a negative time keeps its sign.
pub open spec fn secs4(us: i64) -> Seq<char> {
    let a: int = if us < 0 {
        -(us as int)
    } else {
        us as int
    };
    let t = round_div(a, 100);
    let body = dec_int(t / 10000) + seq!['.'] + dec_int_padded(t % 10000, 4);
    if us < 0 {
        seq!['-'] + body
    } else {
        body
    }
}

fn secs4_chars(us: i64) -> (r: Vec<char>)
    ensures
        r@ == secs4(us),
{
    let a: i128 = if us < 0 {
        -(us as i128)
    } else {
        us as i128
    };
    let t: i128 = round_div_i128(a, 100);
    assert(0 <= t <= 100_000_000_000_000_000) by {
        assert(t == (2 * a + 100) / 200);
    }
    let whole = (t / 10000) as i64;
    let frac = (t % 10000) as i64;
    let mut out: Vec<char> = Vec::new();
    if us < 0 {
        out.push('-');
    }
    append_chars(&mut out, &dec_i64(whole));
    out.push('.');
    append_chars(&mut out, &dec_i64_padded(frac, 4));
    assert(out@ =~= secs4(us));
    out
}

fn push_text(out: &mut Vec<char>, s: &str)
    ensures
        final(out)@ == old(out)@ + s@,
{
    append_chars(out, &chars_of(s));
}

pub open spec fn filter_head(start_us: i64, end_us: i64) -> Seq<char> {
    "trim=start="@ + secs4(start_us) + ":end="@ + secs4(end_us) + ",setpts=PTS-STARTPTS"@
}

pub open spec fn crop_step(crop: Option<CropSpec>) -> Seq<char> {
    match crop {
        Some(c) => ",crop="@ + dec_int(c.width as int) + seq![':'] + dec_int(c.height as int) + seq![':']
            + dec_int(c.x as int) + seq![':'] + dec_int(c.y as int),
        None => Seq::empty(),
    }
}

pub open spec fn scale_step(scale_height: Option<i64>) -> Seq<char> {
    match scale_height {
        Some(h) => ",scale=-2:"@ + dec_int(h as int),
        None => Seq::empty(),
    }
}

pub open spec fn fps_step(fps: Option<i64>) -> Seq<char> {
    match fps {
        Some(r) => ",fps="@ + dec_int(r as int),
        None => Seq::empty(),
    }
}

pub open spec fn format_step(ten_bit: bool) -> Seq<char> {
    if ten_bit {
        ",format=p010le"@
    } else {
        ",format=nv12"@
    }
}

/// The export's video filter chain: trim to the window and reset timestamps, then crop, scale
/// to a height (width kept even), set the frame rate, each when asked, and finally convert to
/// the encoder's pixel format (`p010le` for 10-bit, else `nv12`); steps joined by commas.
pub open spec fn video_filter_spec(crop: Option<CropSpec>, scale_height: Option<i64>, fps: Option<i64>, ten_bit: bool, start_us: i64, end_us: i64) -> Seq<char> {
    filter_head(start_us, end_us) + crop_step(crop) + scale_step(scale_height) + fps_step(fps)
        + format_step(ten_bit)
}

fn head_chars(start_us: i64, end_us: i64) -> (r: Vec<char>)
    ensures
        r@ == filter_head(start_us, end_us),
{
    let mut out: Vec<char> = Vec::new();
    push_text(&mut out, "trim=start=");
    append_chars(&mut out, &secs4_chars(start_us));
    push_text(&mut out, ":end=");
    append_chars(&mut out, &secs4_chars(end_us));
    push_text(&mut out, ",setpts=PTS-STARTPTS");
    assert(out@ =~= filter_head(start_us, end_us));
    out
}

fn crop_chars(crop: Option<CropSpec>) -> (r: Vec<char>)
    ensures
        r@ == crop_step(crop),
{
    let mut out: Vec<char> = Vec::new();
    if let Some(c) = crop {
        push_text(&mut out, ",crop=");
        append_chars(&mut out, &dec_i64(c.width));
        out.push(':');
        append_chars(&mut out, &dec_i64(c.height));
        out.push(':');
        append_chars(&mut out, &dec_i64(c.x));
        out.push(':');
        append_chars(&mut out, &dec_i64(c.y));
    }
    assert(out@ =~= crop_step(crop));
    out
}

fn tail_chars(scale_height: Option<i64>, fps: Option<i64>, ten_bit: bool) -> (r: Vec<char>)
    ensures
        r@ == scale_step(scale_height) + fps_step(fps) + format_step(ten_bit),
{
    let mut out: Vec<char> = Vec::new();
    if let Some(h) = scale_height {
        push_text(&mut out, ",scale=-2:");
        append_chars(&mut out, &dec_i64(h));
    }
    assert(out@ =~= scale_step(scale_height));
    let ghost a = out@;
    if let Some(r) = fps {
        push_text(&mut out, ",fps=");
        append_chars(&mut out, &dec_i64(r));
    }
    assert(out@ =~= a + fps_step(fps));
    let ghost b = out@;
    if ten_bit {
        push_text(&mut out, ",format=p010le");
    } else {
        push_text(&mut out, ",format=nv12");
    }
    assert(out@ =~= b + format_step(ten_bit));
    out
}

/// Build the export's video filter description (see [`video_filter_spec`]).
pub fn video_filter_descr(spec: &EditSpec, scale_height: Option<i64>, fps: Option<i64>, ten_bit: bool, start_us: i64, end_us: i64) -> (r: String)
    ensures
        r@ == video_filter_spec(spec.crop, scale_height, fps, ten_bit, start_us, end_us),
{
    let mut out = head_chars(start_us, end_us);
    append_chars(&mut out, &crop_chars(spec.crop));
    append_chars(&mut out, &tail_chars(scale_height, fps, ten_bit));
    assert(out@ =~= video_filter_spec(spec.crop, scale_height, fps, ten_bit, start_us, end_us));
    string_from(&out)
}

pub open spec fn layout_name_spec(nb_channels: i32) -> Seq<char> {
    if nb_channels == 1 {
        "mono"@
    } else if nb_channels == 6 {
        "5.1"@
    } else if nb_channels == 8 {
        "7.1"@
    } else {
        "stereo"@
    }
}

/// The channel-layout name for a channel count (stereo for anything unusual).
pub fn layout_name(nb_channels: i32) -> (r: &'static str)
    ensures
        r@ == layout_name_spec(nb_channels),
{
    if nb_channels == 1 {
        "mono"
    } else if nb_channels == 2 {
        "stereo"
    } else if nb_channels == 6 {
        "5.1"
    } else if nb_channels == 8 {
        "7.1"
    } else {
        "stereo"
    }
}

/// The largest even number not above `x` (for `x >= 0`).
pub open spec fn even_floor(x: int) -> int {
    x - x % 2
}

/// The tone-mapped preview size for a source: height at most 720 and even, width scaled to
/// keep the aspect (rounded) and even, both at least 2; sizes below 2 count as 2.
pub open spec fn placebo_dims_spec(src_w: i64, src_h: i64) -> (int, int) {
    let sw: int = if src_w < 2 {
        2
    } else {
        src_w as int
    };
    let sh: int = if src_h < 2 {
        2
    } else {
        src_h as int
    };
    let h0 = even_floor(if sh < 720 {
        sh
    } else {
        720
    });
    let h = if h0 < 2 {
        2
    } else {
        h0
    };
    let w0 = even_floor(round_div(sw * h, sh));
    let w = if w0 < 2 {
        2
    } else {
        w0
    };
    (w, h)
}

/// The preview size for a source (see [`placebo_dims_spec`]); the width is truncated to 32
/// bits, as an `as u32` cast does.
pub fn placebo_dims(src_w: i64, src_h: i64) -> (r: (u32, u32))
    ensures
        r.0 == (placebo_dims_spec(src_w, src_h).0 as u64) as u32,
        r.1 == placebo_dims_spec(src_w, src_h).1,
{
    let sw: i128 = if src_w < 2 {
        2
    } else {
        src_w as i128
    };
    let sh: i128 = if src_h < 2 {
        2
    } else {
        src_h as i128
    };
    let hc: i128 = if sh < 720 {
        sh
    } else {
        720
    };
    let h0 = hc - hc % 2;
    let h: i128 = if h0 < 2 {
        2
    } else {
        h0
    };
    assert(0 <= sw * h <= 0x7fff_ffff_ffff_ffff * 720) by (nonlinear_arith)
        requires
            2 <= sw <= 0x7fff_ffff_ffff_ffff,
            2 <= h <= 720,
    ;
    let q = round_div_i128(sw * h, sh);
    assert(0 <= q <= sw * h) by (nonlinear_arith)
        requires
            q == (2 * (sw * h) + sh) / (2 * sh),
            sh >= 2,
            sw * h >= 0,
    ;
    let w0 = q - q % 2;
    let w: i128 = if w0 < 2 {
        2
    } else {
        w0
    };
    ((w as u64) as u32, h as u32)
}

/// A stream's frame rate in thousandths of a frame per second: the real base rate when both
/// its parts are non-zero, else the average rate, rounded; 0 for a zero denominator.
pub open spec fn stream_fps_spec(r_num: i32, r_den: i32, avg_num: i32, avg_den: i32) -> int {
    let (num, den) = if r_num != 0 && r_den != 0 {
        (r_num, r_den)
    } else {
        (avg_num, avg_den)
    };
    if den != 0 {
        round_div(num as int * 1000, den as int)
    } else {
        0
    }
}

pub fn stream_fps(r_num: i32, r_den: i32, avg_num: i32, avg_den: i32) -> (r: i64)
    ensures
        r == stream_fps_spec(r_num, r_den, avg_num, avg_den),
{
    let (num, den) = if r_num != 0 && r_den != 0 {
        (r_num, r_den)
    } else {
        (avg_num, avg_den)
    };
    if den != 0 {
        let q = round_div_i128(num as i128 * 1000, den as i128);
        assert(-0x1_0000_0000_0000 <= q <= 0x1_0000_0000_0000) by (nonlinear_arith)
            requires
                q == crate::numbers::round_div(num as int * 1000, den as int),
                -0x8000_0000 <= num < 0x8000_0000,
                den != 0,
        {
            let n = num as int * 1000;
            let d = den as int;
            let an = if n < 0 { -n } else { n };
            let ad = if d < 0 { -d } else { d };
            assert(ad >= 1);
            assert((2 * an + ad) / (2 * ad) <= 2 * an + ad);
        }
        q as i64
    } else {
        0
    }
}

} // verus!
