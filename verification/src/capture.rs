//! Capture-software folders offered as watch presets (OBS and NVIDIA ShadowPlay), and what the
//! preview player reports when polled.

use vstd::prelude::*;
use crate::detect::{detect_obs_recording_folder, obs_recording_folder, opt_str, ObsConfigFiles};
use crate::paths::{posix, to_posix};
use crate::text::{chars_of, string_from, trim, trim_ws};

verus! {

/// Recording folders detected for the capture tools, in forward-slash form.
#[derive(Debug, Clone, PartialEq, Eq)]
pub struct CapturePresets {
    pub obs: Option<String>,
    pub nvidia_share: Option<String>,
}

impl Default for CapturePresets {
    fn default() -> (r: Self)
        ensures
            r.obs is None,
            r.nvidia_share is None,
    {
        CapturePresets { obs: None, nvidia_share: None }
    }
}

pub open spec fn posix_opt(o: Option<Seq<char>>) -> Option<Seq<char>> {
    match o {
        Some(s) => Some(posix(s)),
        None => None,
    }
}

/// The presets from OBS's configuration files and ShadowPlay's folder (when one was read):
/// each folder in forward-slash form.
pub fn detect_capture_presets(files: &ObsConfigFiles, nvidia: Option<&str>) -> (r: CapturePresets)
    ensures
        opt_str(&r.obs) == posix_opt(obs_recording_folder(files@)),
        opt_str(&r.nvidia_share) == posix_opt(match nvidia {
            Some(s) => Some(s@),
            None => None,
        }),
{
    let mut presets = CapturePresets::default();
    if let Some(obs) = detect_obs_recording_folder(files) {
        presets.obs = Some(to_posix(obs.as_str()));
    }
    if let Some(n) = nvidia {
        presets.nvidia_share = Some(to_posix(n));
    }
    presets
}

pub open spec fn is_high_surrogate(u: u16) -> bool {
    0xD800 <= u <= 0xDBFF
}

pub open spec fn is_low_surrogate(u: u16) -> bool {
    0xDC00 <= u <= 0xDFFF
}

/// UTF-16 decoding with replacement: a unit outside the surrogate range is the character with
/// that code; a high surrogate followed by a low one is the supplementary character they
/// encode; every other surrogate (an unpaired one) is U+FFFD.
pub open spec fn utf16_lossy(units: Seq<u16>) -> Seq<char>
    decreases units.len(),
{
    if units.len() == 0 {
        Seq::empty()
    } else {
        let u = units[0];
        if !(0xD800 <= u <= 0xDFFF) {
            seq![u as char] + utf16_lossy(units.drop_first())
        } else if is_high_surrogate(u) && units.len() > 1 && is_low_surrogate(units[1]) {
            seq![((0x10000 + (u - 0xD800) * 0x400 + (units[1] - 0xDC00)) as u32) as char] + utf16_lossy(
                units.skip(2),
            )
        } else {
            seq!['\u{FFFD}'] + utf16_lossy(units.drop_first())
        }
    }
}

pub open spec fn no_surrogates(units: Seq<u16>) -> bool {
    forall|i: int| 0 <= i < units.len() ==> !(0xD800 <= #[trigger] units[i] <= 0xDFFF)
}

/// `String::from_utf16_lossy`: the code units decoded as [`utf16_lossy`] states, which is what
/// std documents (each unpaired surrogate replaced by U+FFFD).
#[verifier::external_body]
fn from_utf16_lossy(units: &Vec<u16>) -> (r: String)
    ensures
        r@ == utf16_lossy(units@),
{
    String::from_utf16_lossy(units.as_slice())
}

/// Without surrogates every unit decodes to the character with that code, in order.
pub proof fn lemma_utf16_plain(units: Seq<u16>)
    requires
        no_surrogates(units),
    ensures
        utf16_lossy(units) == Seq::new(units.len(), |i: int| units[i] as char),
    decreases units.len(),
{
    if units.len() > 0 {
        let rest = units.drop_first();
        assert(no_surrogates(rest)) by {
            assert forall|i: int| 0 <= i < rest.len() implies !(0xD800 <= #[trigger] rest[i] <= 0xDFFF) by {
                assert(rest[i] == units[i + 1]);
            }
        }
        lemma_utf16_plain(rest);
        assert(!(0xD800 <= units[0] <= 0xDFFF));
        assert(utf16_lossy(units) =~= Seq::new(units.len(), |i: int| units[i] as char));
    }
}

/// Little-endian 16-bit units from pairs of bytes (a trailing odd byte is ignored).
pub open spec fn le_units(raw: Seq<u8>) -> Seq<u16> {
    Seq::new(raw.len() / 2, |i: int| (raw[2 * i] + raw[2 * i + 1] * 256) as u16)
}

/// The text with trailing NUL characters removed.
pub open spec fn trim_end_nul(s: Seq<char>) -> Seq<char>
    decreases s.len(),
{
    if s.len() > 0 && s.last() == '\0' {
        trim_end_nul(s.drop_last())
    } else {
        s
    }
}

/// ShadowPlay's folder from the decoded `DefaultPathW` text: trailing NULs and surrounding
/// white space removed; `None` when nothing is left.
pub open spec fn registry_text_spec(decoded: Seq<char>) -> Option<Seq<char>> {
    let t = trim_ws(trim_end_nul(decoded));
    if t.len() > 0 {
        Some(t)
    } else {
        None
    }
}

/// ShadowPlay's folder from the registry's raw `DefaultPathW` value: the UTF-16LE text, then
/// [`registry_text_spec`].
pub open spec fn registry_dir_spec(raw: Seq<u8>) -> Option<Seq<char>> {
    registry_text_spec(utf16_lossy(le_units(raw)))
}

/// The folder named by decoded registry text (see [`registry_text_spec`]).
pub fn registry_dir_from_text(decoded: &str) -> (r: Option<String>)
    ensures
        opt_str(&r) == registry_text_spec(decoded@),
{
    let decoded = chars_of(decoded);
    let mut end: usize = decoded.len();
    assert(decoded@.take(end as int) =~= decoded@);
    while end > 0 && decoded[end - 1] == '\0'
        invariant
            end <= decoded.len(),
            trim_end_nul(decoded@) == trim_end_nul(decoded@.take(end as int)),
        decreases end,
    {
        assert(decoded@.take(end as int).drop_last() =~= decoded@.take(end as int - 1));
        end -= 1;
    }
    let kept = crate::text::copy_range(&decoded, 0, end);
    let t = trim(&kept);
    if t.len() > 0 {
        Some(string_from(&t))
    } else {
        None
    }
}

/// Decode ShadowPlay's recording folder from the raw registry value (see
/// [`registry_dir_spec`]).
pub fn nvidia_dir_from_registry(raw: &Vec<u8>) -> (r: Option<String>)
    ensures
        opt_str(&r) == registry_dir_spec(raw@),
{
    let n = raw.len() / 2;
    let mut units: Vec<u16> = Vec::new();
    let mut i: usize = 0;
    while i < n
        invariant
            n == raw.len() / 2,
            i <= n,
            units@ == le_units(raw@).take(i as int),
        decreases n - i,
    {
        let lo = raw[2 * i] as u16;
        let hi = raw[2 * i + 1] as u16;
        units.push(lo + hi * 256);
        i += 1;
        assert(units@ =~= le_units(raw@).take(i as int));
    }
    assert(le_units(raw@).take(n as int) =~= le_units(raw@));
    let decoded = from_utf16_lossy(&units);
    registry_dir_from_text(decoded.as_str())
}

/// Result of polling the preview player for the next decoded frame.
#[derive(Debug, Clone, PartialEq, Eq)]
pub enum FramePoll {
    /// A frame is ready (raw RGBA, `width * height * 4` bytes).
    Frame(Vec<u8>),
    /// No frame ready yet (decoder still working).
    Empty,
    /// The decoder finished or died; playback should stop.
    Ended,
}

} // verus!
