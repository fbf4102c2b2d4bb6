//! Planning an in-process export: whether the video is re-encoded or stream-copied, the window
//! it covers, the audio tracks mixed into it, and where it is staged while written.

use vstd::prelude::*;
use crate::args::{encode_spec, output_settings_to_encode};
use crate::config::{OutputSettings, OutputSettingsModel, QualityMode, QualityPreset};
use crate::edit_spec::{AudioTrackSpec, EditSpec, EditSpecModel};
use crate::media::{MediaInfo, MediaModel};

verus! {

/// The video is re-encoded when a crop, a downscale or a frame-rate change is asked for, or
/// when the chosen quality wants it; otherwise it is stream-copied.
pub open spec fn needs_reencode_spec(spec: EditSpecModel, s: OutputSettingsModel, m: MediaModel) -> bool {
    let enc = encode_spec(s, m.fps_milli as int, m.height as int);
    spec.crop is Some || enc.video.scale_height is Some || enc.video.fps is Some || enc.reencode
}

/// Whether an export re-encodes its video (see [`needs_reencode_spec`]).
pub fn video_needs_reencode(spec: &EditSpec, settings: &OutputSettings, media: &MediaInfo) -> (r: bool)
    ensures
        r == needs_reencode_spec(spec@, settings@, media@),
{
    let resolved = output_settings_to_encode(settings, media);
    spec.crop.is_some() || resolved.video.scale_height.is_some() || resolved.video.fps.is_some() || resolved.reencode
}

/// An export stream-copies its video exactly when the quality is the `Original` preset, nothing
/// is cropped, and neither the height limit nor the frame-rate limit is below the source's.
pub proof fn law_stream_copy_only_for_untouched_original(spec: EditSpecModel, s: OutputSettingsModel, m: MediaModel)
    ensures
        !needs_reencode_spec(spec, s, m) <==> (
            s.quality_mode == QualityMode::Preset
            && s.quality_preset == QualityPreset::Original
            && spec.crop is None
            && !(s.max_height > 0 && s.max_height < m.height)
            && !(s.fps > 0 && s.fps * 1000 < m.fps_milli)
        ),
{
}

/// The time window an export covers: from the trim start (0 without a trim, never below 0) to
/// the trim end (the duration without a trim, never before the start).
pub open spec fn export_window_spec(spec: EditSpecModel, m: MediaModel) -> (i64, i64) {
    let s0 = match spec.trim {
        Some(t) => t.start_us,
        None => 0,
    };
    let start = if s0 < 0 {
        0
    } else {
        s0
    };
    let e0 = match spec.trim {
        Some(t) => t.end_us,
        None => m.duration_us,
    };
    let end = if e0 < start {
        start
    } else {
        e0
    };
    (start, end)
}

pub fn export_window(spec: &EditSpec, media: &MediaInfo) -> (r: (i64, i64))
    ensures
        r == export_window_spec(spec@, media@),
{
    let s0 = match spec.trim {
        Some(t) => t.start_us,
        None => 0,
    };
    let start = if s0 < 0 {
        0
    } else {
        s0
    };
    let e0 = match spec.trim {
        Some(t) => t.end_us,
        None => media.duration_us,
    };
    let end = if e0 < start {
        start
    } else {
        e0
    };
    (start, end)
}

/// The enabled tracks that exist in the file, in edit order, as (absolute stream index, gain):
/// a track's audio-relative index (negative counts as 0) picks from the file's audio streams.
pub open spec fn mixed_tracks_spec(tracks: Seq<AudioTrackSpec>, audio_abs: Seq<i32>) -> Seq<(i32, i64)>
    decreases tracks.len(),
{
    if tracks.len() == 0 {
        Seq::empty()
    } else {
        let prev = mixed_tracks_spec(tracks.drop_last(), audio_abs);
        let t = tracks.last();
        let k: int = if t.index < 0 {
            0
        } else {
            t.index as int
        };
        if t.enabled && k < audio_abs.len() {
            prev.push((audio_abs[k], t.volume_milli))
        } else {
            prev
        }
    }
}

pub fn mixed_tracks(tracks: &Vec<AudioTrackSpec>, audio_abs: &Vec<i32>) -> (r: Vec<(i32, i64)>)
    ensures
        r@ == mixed_tracks_spec(tracks@, audio_abs@),
{
    let mut out: Vec<(i32, i64)> = Vec::new();
    let mut i: usize = 0;
    while i < tracks.len()
        invariant
            i <= tracks.len(),
            out@ == mixed_tracks_spec(tracks@.take(i as int), audio_abs@),
        decreases tracks.len() - i,
    {
        assert(tracks@.take(i as int + 1).drop_last() =~= tracks@.take(i as int));
        let t = tracks[i];
        let k: i64 = if t.index < 0 {
            0
        } else {
            t.index
        };
        if t.enabled && (k as u64) < audio_abs.len() as u64 {
            out.push((audio_abs[k as usize], t.volume_milli));
        }
        i += 1;
    }
    assert(tracks@.take(tracks.len() as int) =~= tracks@);
    out
}

/// Where an export is written before it replaces the target: `<output>.part.mp4`.
pub fn part_path(output_path: &str) -> (r: String)
    ensures
        r@ == output_path@ + ".part.mp4"@,
{
    crate::exporting::concat_str(output_path, ".part.mp4")
}

/// Encoding stops once it has passed the end of the window by half a second or more.
pub fn past_window(last_us: i64, duration_us: i64) -> (r: bool)
    ensures
        r == (last_us >= duration_us + 500_000),
{
    (last_us as i128) >= (duration_us as i128) + 500_000
}

} // verus!
