//! The edits applied to one clip: a trim window, a crop rectangle and per-track audio levels.
//!
//! Times are in microseconds and audio gain in thousandths (1000 is unity, 0 is muted,
//! 2000 is +6 dB).

use vstd::prelude::*;
use crate::media::{MediaInfo, MediaModel};

verus! {

/// A trim window. `end_us` is exclusive (the cut ends at this timestamp).
#[derive(Debug, Clone, Copy, PartialEq, Eq, Structural)]
pub struct TrimSpec {
    pub start_us: i64,
    pub end_us: i64,
}

/// A pixel-space crop rectangle relative to the source frame.
#[derive(Debug, Clone, Copy, PartialEq, Eq, Structural)]
pub struct CropSpec {
    pub x: i64,
    pub y: i64,
    pub width: i64,
    pub height: i64,
}

/// Selection and level for one source audio track.
#[derive(Debug, Clone, Copy, PartialEq, Eq, Structural)]
pub struct AudioTrackSpec {
    /// Audio-relative index matching `AudioStreamInfo::index`.
    pub index: i64,
    pub enabled: bool,
    /// Linear gain in thousandths.
    pub volume_milli: i64,
}

/// A complete description of the edits to apply to one clip.
#[derive(Debug, Clone, PartialEq, Eq)]
pub struct EditSpec {
    pub trim: Option<TrimSpec>,
    pub crop: Option<CropSpec>,
    pub audio_tracks: Vec<AudioTrackSpec>,
}

pub struct EditSpecModel {
    pub trim: Option<TrimSpec>,
    pub crop: Option<CropSpec>,
    pub audio_tracks: Seq<AudioTrackSpec>,
}

impl View for EditSpec {
    type V = EditSpecModel;

    open spec fn view(&self) -> EditSpecModel {
        EditSpecModel { trim: self.trim, crop: self.crop, audio_tracks: self.audio_tracks@ }
    }
}

impl EditSpec {
    /// A copy of these edits.
    pub fn duplicate(&self) -> (r: EditSpec)
        ensures
            r@ == self@,
    {
        let mut tracks: Vec<AudioTrackSpec> = Vec::new();
        let mut i: usize = 0;
        while i < self.audio_tracks.len()
            invariant
                i <= self.audio_tracks.len(),
                tracks@ == self.audio_tracks@.take(i as int),
            decreases self.audio_tracks.len() - i,
        {
            tracks.push(self.audio_tracks[i]);
            i += 1;
            assert(tracks@ =~= self.audio_tracks@.take(i as int));
        }
        assert(self.audio_tracks@.take(i as int) =~= self.audio_tracks@);
        EditSpec { trim: self.trim, crop: self.crop, audio_tracks: tracks }
    }
}

/// Every source audio track, enabled at unity gain, in stream order.
pub open spec fn unity_tracks(m: MediaModel) -> Seq<AudioTrackSpec> {
    Seq::new(
        m.audio_streams.len(),
        |i: int| AudioTrackSpec { index: m.audio_streams[i].index, enabled: true, volume_milli: 1000 },
    )
}

/// An edit spec that applies no changes, selecting every source audio track at unity gain
/// (no tracks without media).
pub fn default_edit_spec(media: Option<&MediaInfo>) -> (r: EditSpec)
    ensures
        r@.trim is None,
        r@.crop is None,
        r@.audio_tracks == match media {
            Some(m) => unity_tracks(m@),
            None => Seq::empty(),
        },
{
    let mut tracks: Vec<AudioTrackSpec> = Vec::new();
    match media {
        None => {},
        Some(m) => {
            let mut i: usize = 0;
            while i < m.audio_streams.len()
                invariant
                    i <= m.audio_streams.len(),
                    tracks@ == unity_tracks(m@).take(i as int),
                decreases m.audio_streams.len() - i,
            {
                tracks.push(
                    AudioTrackSpec { index: m.audio_streams[i].index, enabled: true, volume_milli: 1000 },
                );
                i += 1;
                assert(tracks@ =~= unity_tracks(m@).take(i as int));
            }
            assert(unity_tracks(m@).take(i as int) =~= unity_tracks(m@));
        },
    }
    EditSpec { trim: None, crop: None, audio_tracks: tracks }
}

/// The output duration after trimming (never negative, at most `i64::MAX`), or the full
/// duration when untrimmed.
pub open spec fn effective_duration_spec(spec: EditSpecModel, m: MediaModel) -> int {
    match spec.trim {
        None => m.duration_us as int,
        Some(t) => {
            let d = t.end_us - t.start_us;
            if d < 0 {
                0
            } else if d > i64::MAX {
                i64::MAX as int
            } else {
                d
            }
        },
    }
}

/// The output duration in microseconds after trimming, or the full duration when untrimmed.
pub fn effective_duration(spec: &EditSpec, media: &MediaInfo) -> (r: i64)
    ensures
        r == effective_duration_spec(spec@, media@),
{
    match spec.trim {
        None => media.duration_us,
        Some(t) => {
            let d: i128 = (t.end_us as i128) - (t.start_us as i128);
            if d < 0 {
                0
            } else if d > 9223372036854775807i128 {
                9223372036854775807i64
            } else {
                d as i64
            }
        },
    }
}

/// The first problem with the trim window, if any.
pub open spec fn trim_problem(t: TrimSpec, m: MediaModel) -> Option<Seq<char>> {
    if t.start_us < 0 {
        Some("Trim start cannot be negative."@)
    } else if t.end_us <= t.start_us {
        Some("Trim end must be after the start."@)
    } else if t.end_us > m.duration_us + 500_000 {
        Some("Trim end is beyond the clip duration."@)
    } else {
        None
    }
}

/// The first problem with the crop rectangle, if any.
pub open spec fn crop_problem(c: CropSpec, m: MediaModel) -> Option<Seq<char>> {
    if c.width <= 0 || c.height <= 0 {
        Some("Crop width and height must be positive."@)
    } else if c.x < 0 || c.y < 0 {
        Some("Crop position cannot be negative."@)
    } else if c.x + c.width > m.width || c.y + c.height > m.height {
        Some("Crop rectangle extends outside the frame."@)
    } else {
        None
    }
}

/// The message for the first invalid part of an edit spec for this media, checking the trim,
/// then the crop, then the audio levels; `None` when it is valid. A trim end may run half a
/// second past the duration.
pub open spec fn validate_spec(spec: EditSpecModel, m: MediaModel) -> Option<Seq<char>> {
    let tp = match spec.trim {
        Some(t) => trim_problem(t, m),
        None => None,
    };
    let cp = match spec.crop {
        Some(c) => crop_problem(c, m),
        None => None,
    };
    if tp is Some {
        tp
    } else if cp is Some {
        cp
    } else if exists|i: int| 0 <= i < spec.audio_tracks.len() && #[trigger] spec.audio_tracks[i].volume_milli < 0 {
        Some("Audio volume cannot be negative."@)
    } else {
        None
    }
}

/// Returns an error message if the spec is invalid for the given media, otherwise `None`.
pub fn validate_edit_spec(spec: &EditSpec, media: &MediaInfo) -> (r: Option<String>)
    ensures
        match validate_spec(spec@, media@) {
            Some(msg) => r is Some && r->0@ == msg,
            None => r is None,
        },
{
    if let Some(t) = spec.trim {
        if t.start_us < 0 {
            return Some("Trim start cannot be negative.".to_string());
        }
        if t.end_us <= t.start_us {
            return Some("Trim end must be after the start.".to_string());
        }
        if (t.end_us as i128) > (media.duration_us as i128) + 500_000 {
            return Some("Trim end is beyond the clip duration.".to_string());
        }
    }
    if let Some(c) = spec.crop {
        if c.width <= 0 || c.height <= 0 {
            return Some("Crop width and height must be positive.".to_string());
        }
        if c.x < 0 || c.y < 0 {
            return Some("Crop position cannot be negative.".to_string());
        }
        if (c.x as i128) + (c.width as i128) > (media.width as i128) || (c.y as i128) + (c.height as i128)
            > (media.height as i128) {
            return Some("Crop rectangle extends outside the frame.".to_string());
        }
    }
    let mut i: usize = 0;
    while i < spec.audio_tracks.len()
        invariant
            i <= spec.audio_tracks.len(),
            match spec.trim {
                Some(t) => trim_problem(t, media@) is None,
                None => true,
            },
            match spec.crop {
                Some(c) => crop_problem(c, media@) is None,
                None => true,
            },
            forall|j: int| 0 <= j < i ==> #[trigger] spec.audio_tracks@[j].volume_milli >= 0,
        decreases spec.audio_tracks.len() - i,
    {
        if spec.audio_tracks[i].volume_milli < 0 {
            assert(spec@.audio_tracks[i as int].volume_milli < 0);
            return Some("Audio volume cannot be negative.".to_string());
        }
        i += 1;
    }
    None
}

} // verus!
