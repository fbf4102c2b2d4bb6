//! The clip editor's decisions: what a freshly probed clip starts with, how crop and audio
//! edits change the editor, which modal a dismissal closes, and whether a preview frame is
//! requested.

use vstd::prelude::*;
use crate::edit_spec::{AudioTrackSpec, CropSpec, EditSpec, EditSpecModel, TrimSpec};
use crate::media::{MediaInfo, MediaModel};
use crate::text::{chars_of, parse_i64, parse_i64_spec};

verus! {

/// Position of the first track with this index, or -1.
pub open spec fn track_pos(ts: Seq<AudioTrackSpec>, index: i64) -> int
    decreases ts.len(),
{
    if ts.len() == 0 {
        -1
    } else {
        let k = track_pos(ts.drop_last(), index);
        if k >= 0 {
            k
        } else if ts.last().index == index {
            ts.len() - 1
        } else {
            -1
        }
    }
}


fn find_track(ts: &Vec<AudioTrackSpec>, index: i64) -> (r: Option<usize>)
    ensures
        match r {
            Some(k) => k < ts.len() && k as int == track_pos(ts@, index),
            None => track_pos(ts@, index) == -1,
        },
{
    let mut i: usize = 0;
    while i < ts.len()
        invariant
            i <= ts.len(),
            track_pos(ts@.take(i as int), index) == -1,
        decreases ts.len() - i,
    {
        assert(ts@.take(i as int + 1).drop_last() =~= ts@.take(i as int));
        if ts[i].index == index {
            proof {
                lemma_track_prefix(ts@, i as int + 1, index);
            }
            return Some(i);
        }
        i += 1;
    }
    assert(ts@.take(ts.len() as int) =~= ts@);
    None
}

proof fn lemma_track_prefix(ts: Seq<AudioTrackSpec>, k: int, index: i64)
    requires
        0 <= k <= ts.len(),
        track_pos(ts.take(k), index) >= 0,
    ensures
        track_pos(ts, index) == track_pos(ts.take(k), index),
    decreases ts.len() - k,
{
    if k < ts.len() {
        assert(ts.take(k + 1).drop_last() =~= ts.take(k));
        lemma_track_prefix(ts, k + 1, index);
    } else {
        assert(ts.take(k) =~= ts);
    }
}

/// The enabled flag and gain an audio row opens with: the clip's stored setting for that
/// track, else the setting carried over from the last edited clip, else enabled at unity.
pub open spec fn track_setting_spec(index: i64, stored: Seq<AudioTrackSpec>, carried: Seq<AudioTrackSpec>) -> (bool, i64) {
    let a = track_pos(stored, index);
    let b = track_pos(carried, index);
    if a >= 0 {
        (stored[a].enabled, stored[a].volume_milli)
    } else if b >= 0 {
        (carried[b].enabled, carried[b].volume_milli)
    } else {
        (true, 1000)
    }
}

pub fn track_setting(index: i64, stored: &Vec<AudioTrackSpec>, carried: &Vec<AudioTrackSpec>) -> (r: (bool, i64))
    ensures
        r == track_setting_spec(index, stored@, carried@),
{
    match find_track(stored, index) {
        Some(k) => (stored[k].enabled, stored[k].volume_milli),
        None => match find_track(carried, index) {
            Some(k) => (carried[k].enabled, carried[k].volume_milli),
            None => (true, 1000),
        },
    }
}

/// Switching an audio row on or off changes the first row with that index and nothing else;
/// with no such row the rows are unchanged.
pub fn set_track_enabled(tracks: &mut Vec<AudioTrackSpec>, index: i64, on: bool)
    ensures
        track_pos(old(tracks)@, index) == -1 ==> final(tracks)@ == old(tracks)@,
        track_pos(old(tracks)@, index) >= 0 ==> final(tracks)@ == old(tracks)@.update(
            track_pos(old(tracks)@, index),
            (AudioTrackSpec { enabled: on, ..old(tracks)@[track_pos(old(tracks)@, index)] }),
        ),
{
    match find_track(tracks, index) {
        Some(k) => {
            let t = tracks[k];
            tracks.set(k, AudioTrackSpec { enabled: on, ..t });
        },
        None => {},
    }
}

/// Setting an audio row's gain changes the first row with that index and nothing else; with no
/// such row the rows are unchanged.
pub fn set_track_volume(tracks: &mut Vec<AudioTrackSpec>, index: i64, volume_milli: i64)
    ensures
        track_pos(old(tracks)@, index) == -1 ==> final(tracks)@ == old(tracks)@,
        track_pos(old(tracks)@, index) >= 0 ==> final(tracks)@ == old(tracks)@.update(
            track_pos(old(tracks)@, index),
            (AudioTrackSpec { volume_milli, ..old(tracks)@[track_pos(old(tracks)@, index)] }),
        ),
{
    match find_track(tracks, index) {
        Some(k) => {
            let t = tracks[k];
            tracks.set(k, AudioTrackSpec { volume_milli, ..t });
        },
        None => {},
    }
}

/// The audio rows a probed clip opens with: one per source audio stream, in stream order,
/// each with its [`track_setting_spec`].
pub open spec fn opening_tracks_spec(m: MediaModel, stored: Seq<AudioTrackSpec>, carried: Seq<AudioTrackSpec>) -> Seq<AudioTrackSpec> {
    Seq::new(
        m.audio_streams.len(),
        |i: int|
            {
                let ix = m.audio_streams[i].index;
                let st = track_setting_spec(ix, stored, carried);
                AudioTrackSpec { index: ix, enabled: st.0, volume_milli: st.1 }
            },
    )
}

pub fn opening_tracks(media: &MediaInfo, stored: &Vec<AudioTrackSpec>, carried: &Vec<AudioTrackSpec>) -> (r: Vec<AudioTrackSpec>)
    ensures
        r@ == opening_tracks_spec(media@, stored@, carried@),
{
    let mut out: Vec<AudioTrackSpec> = Vec::new();
    let mut i: usize = 0;
    while i < media.audio_streams.len()
        invariant
            i <= media.audio_streams.len(),
            out@ == opening_tracks_spec(media@, stored@, carried@).take(i as int),
        decreases media.audio_streams.len() - i,
    {
        let ix = media.audio_streams[i].index;
        let (enabled, volume_milli) = track_setting(ix, stored, carried);
        out.push(AudioTrackSpec { index: ix, enabled, volume_milli });
        i += 1;
        assert(out@ =~= opening_tracks_spec(media@, stored@, carried@).take(i as int));
    }
    assert(opening_tracks_spec(media@, stored@, carried@).take(i as int) =~= opening_tracks_spec(
        media@,
        stored@,
        carried@,
    ));
    out
}

/// The trim window a probed clip opens with: its stored window, else the whole clip.
pub open spec fn opening_trim_spec(stored: Option<EditSpecModel>, duration_us: i64) -> (i64, i64) {
    match stored {
        Some(e) => match e.trim {
            Some(t) => (t.start_us, t.end_us),
            None => (0, duration_us),
        },
        None => (0, duration_us),
    }
}

pub fn opening_trim(stored: Option<&EditSpec>, duration_us: i64) -> (r: (i64, i64))
    ensures
        r == opening_trim_spec(
            match stored {
                Some(e) => Some(e@),
                None => None,
            },
            duration_us,
        ),
{
    match stored {
        Some(e) => match e.trim {
            Some(t) => (t.start_us, t.end_us),
            None => (0, duration_us),
        },
        None => (0, duration_us),
    }
}

/// The crop a probed clip opens with: its stored crop (switched on), else the full frame
/// (switched off).
pub open spec fn opening_crop_spec(stored: Option<EditSpecModel>, m: MediaModel) -> (bool, CropSpec) {
    let full = CropSpec { x: 0, y: 0, width: m.width, height: m.height };
    match stored {
        Some(e) => match e.crop {
            Some(c) => (true, c),
            None => (false, full),
        },
        None => (false, full),
    }
}

pub fn opening_crop(stored: Option<&EditSpec>, media: &MediaInfo) -> (r: (bool, CropSpec))
    ensures
        r == opening_crop_spec(
            match stored {
                Some(e) => Some(e@),
                None => None,
            },
            media@,
        ),
{
    let full = CropSpec { x: 0, y: 0, width: media.width, height: media.height };
    match stored {
        Some(e) => match e.crop {
            Some(c) => (true, c),
            None => (false, full),
        },
        None => (false, full),
    }
}

/// Switching the crop on over an empty rectangle starts from the full frame (when the frame
/// size is known); otherwise the rectangle is kept.
pub open spec fn toggled_crop_spec(on: bool, crop: CropSpec, frame: Option<(i64, i64)>) -> CropSpec {
    match frame {
        Some((w, h)) => if on && crop.width <= 0 {
            CropSpec { x: 0, y: 0, width: w, height: h }
        } else {
            crop
        },
        None => crop,
    }
}

pub fn toggled_crop(on: bool, crop: CropSpec, frame: Option<(i64, i64)>) -> (r: CropSpec)
    ensures
        r == toggled_crop_spec(on, crop, frame),
{
    match frame {
        Some((w, h)) => if on && crop.width <= 0 {
            CropSpec { x: 0, y: 0, width: w, height: h }
        } else {
            crop
        },
        None => crop,
    }
}

/// A crop field typed into the editor: field 0 is x, 1 is y, 2 is the width, anything else the
/// height; text that is not an integer leaves the rectangle unchanged.
pub open spec fn edited_crop_spec(crop: CropSpec, field: u8, text: Seq<char>) -> CropSpec {
    match parse_i64_spec(text) {
        Some(v) => if field == 0 {
            CropSpec { x: v, ..crop }
        } else if field == 1 {
            CropSpec { y: v, ..crop }
        } else if field == 2 {
            CropSpec { width: v, ..crop }
        } else {
            CropSpec { height: v, ..crop }
        },
        None => crop,
    }
}

pub fn edited_crop(crop: CropSpec, field: u8, text: &str) -> (r: CropSpec)
    ensures
        r == edited_crop_spec(crop, field, text@),
{
    match parse_i64(&chars_of(text)) {
        Some(v) => if field == 0 {
            CropSpec { x: v, ..crop }
        } else if field == 1 {
            CropSpec { y: v, ..crop }
        } else if field == 2 {
            CropSpec { width: v, ..crop }
        } else {
            CropSpec { height: v, ..crop }
        },
        None => crop,
    }
}

/// The edit spec the editor commits: its trim window, its crop when switched on, and its
/// audio rows.
pub fn editor_spec(trim_start_us: i64, trim_end_us: i64, crop_enabled: bool, crop: CropSpec, tracks: &Vec<AudioTrackSpec>) -> (r: EditSpec)
    ensures
        r.trim == Some(TrimSpec { start_us: trim_start_us, end_us: trim_end_us }),
        r.crop == (if crop_enabled {
            Some(crop)
        } else {
            None
        }),
        r.audio_tracks@ == tracks@,
{
    let mut copy: Vec<AudioTrackSpec> = Vec::new();
    let mut i: usize = 0;
    while i < tracks.len()
        invariant
            i <= tracks.len(),
            copy@ == tracks@.take(i as int),
        decreases tracks.len() - i,
    {
        copy.push(tracks[i]);
        i += 1;
        assert(copy@ =~= tracks@.take(i as int));
    }
    assert(tracks@.take(i as int) =~= tracks@);
    EditSpec {
        trim: Some(TrimSpec { start_us: trim_start_us, end_us: trim_end_us }),
        crop: if crop_enabled {
            Some(crop)
        } else {
            None
        },
        audio_tracks: copy,
    }
}

/// Which open modal a dismissal (Escape, or a click on the backdrop) closes.
#[derive(Debug, Clone, Copy, PartialEq, Eq, Structural)]
pub enum ModalClose {
    Rename,
    Delete,
    Overwrite,
    AfterExport,
}

/// The rename dialog goes first, then the delete confirmation, then the overwrite question;
/// otherwise the after-export prompt is closed.
pub open spec fn modal_close_spec(rename_open: bool, delete_open: bool, overwrite_open: bool) -> ModalClose {
    if rename_open {
        ModalClose::Rename
    } else if delete_open {
        ModalClose::Delete
    } else if overwrite_open {
        ModalClose::Overwrite
    } else {
        ModalClose::AfterExport
    }
}

pub fn modal_to_close(rename_open: bool, delete_open: bool, overwrite_open: bool) -> (r: ModalClose)
    ensures
        r == modal_close_spec(rename_open, delete_open, overwrite_open),
{
    if rename_open {
        ModalClose::Rename
    } else if delete_open {
        ModalClose::Delete
    } else if overwrite_open {
        ModalClose::Overwrite
    } else {
        ModalClose::AfterExport
    }
}

/// What a request for a preview frame at the playhead does.
#[derive(Debug, Clone, Copy, PartialEq, Eq, Structural)]
pub enum FrameRequest {
    /// Nothing to show: the clip is playing, not probed, or has no scrub decoder.
    Skip,
    /// An extraction is already running: remember to extract again when it finishes.
    MarkDirty,
    /// Start extracting the frame.
    Extract,
}

/// Frames are extracted only while paused on a probed clip; requests made while one is in
/// flight are coalesced into one more extraction afterwards.
pub open spec fn frame_request_spec(playing: bool, probed: bool, extracting: bool, has_decoder: bool) -> FrameRequest {
    if playing || !probed {
        FrameRequest::Skip
    } else if extracting {
        FrameRequest::MarkDirty
    } else if !has_decoder {
        FrameRequest::Skip
    } else {
        FrameRequest::Extract
    }
}

pub fn frame_request(playing: bool, probed: bool, extracting: bool, has_decoder: bool) -> (r: FrameRequest)
    ensures
        r == frame_request_spec(playing, probed, extracting, has_decoder),
{
    if playing || !probed {
        FrameRequest::Skip
    } else if extracting {
        FrameRequest::MarkDirty
    } else if !has_decoder {
        FrameRequest::Skip
    } else {
        FrameRequest::Extract
    }
}

} // verus!
