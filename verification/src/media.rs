//! What probing a recording yields.
//!
//! Times and rates are held in integer units: durations in microseconds and frame rates in
//! thousandths of a frame per second (`fps_milli`), the three-decimal precision the frame-rate
//! parser keeps.

use vstd::prelude::*;

verus! {

/// One audio stream of a recording.
#[derive(Debug, Clone, PartialEq, Eq)]
pub struct AudioStreamInfo {
    /// Absolute stream index in the container.
    pub stream_index: i64,
    /// Audio-relative index (0 for the first audio stream).
    pub index: i64,
    pub codec: String,
    pub channels: i64,
    pub language: Option<String>,
    pub title: Option<String>,
}

pub struct AudioStreamModel {
    pub stream_index: i64,
    pub index: i64,
    pub codec: Seq<char>,
    pub channels: i64,
    pub language: Option<Seq<char>>,
    pub title: Option<Seq<char>>,
}

pub open spec fn opt_seq(o: Option<String>) -> Option<Seq<char>> {
    match o {
        Some(s) => Some(s@),
        None => None,
    }
}

impl View for AudioStreamInfo {
    type V = AudioStreamModel;

    open spec fn view(&self) -> AudioStreamModel {
        AudioStreamModel {
            stream_index: self.stream_index,
            index: self.index,
            codec: self.codec@,
            channels: self.channels,
            language: opt_seq(self.language),
            title: opt_seq(self.title),
        }
    }
}

/// Media facts about a recording.
#[derive(Debug, Clone, PartialEq, Eq)]
pub struct MediaInfo {
    /// Duration in microseconds.
    pub duration_us: i64,
    pub width: i64,
    pub height: i64,
    pub video_codec: String,
    /// Frame rate in thousandths of a frame per second (29.97 fps is 29970).
    pub fps_milli: i64,
    pub audio_streams: Vec<AudioStreamInfo>,
    pub size_bytes: Option<i64>,
}

pub struct MediaModel {
    pub duration_us: i64,
    pub width: i64,
    pub height: i64,
    pub video_codec: Seq<char>,
    pub fps_milli: i64,
    pub audio_streams: Seq<AudioStreamModel>,
    pub size_bytes: Option<i64>,
}

impl View for MediaInfo {
    type V = MediaModel;

    open spec fn view(&self) -> MediaModel {
        MediaModel {
            duration_us: self.duration_us,
            width: self.width,
            height: self.height,
            video_codec: self.video_codec@,
            fps_milli: self.fps_milli,
            audio_streams: Seq::new(self.audio_streams@.len(), |i: int| self.audio_streams@[i]@),
            size_bytes: self.size_bytes,
        }
    }
}

fn opt_string_copy(o: &Option<String>) -> (r: Option<String>)
    ensures
        opt_seq(r) == opt_seq(*o),
{
    match o {
        Some(s) => Some(s.clone()),
        None => None,
    }
}

impl AudioStreamInfo {
    /// A field-by-field copy.
    pub fn duplicate(&self) -> (r: Self)
        ensures
            r@ == self@,
    {
        AudioStreamInfo {
            stream_index: self.stream_index,
            index: self.index,
            codec: self.codec.clone(),
            channels: self.channels,
            language: opt_string_copy(&self.language),
            title: opt_string_copy(&self.title),
        }
    }
}

impl MediaInfo {
    /// A field-by-field copy.
    pub fn duplicate(&self) -> (r: Self)
        ensures
            r@ == self@,
    {
        let mut streams: Vec<AudioStreamInfo> = Vec::new();
        let mut i: usize = 0;
        while i < self.audio_streams.len()
            invariant
                i <= self.audio_streams.len(),
                streams@.len() == i,
                forall|j: int| 0 <= j < i ==> #[trigger] streams@[j]@ == self.audio_streams@[j]@,
            decreases self.audio_streams.len() - i,
        {
            streams.push(self.audio_streams[i].duplicate());
            i += 1;
        }
        let r = MediaInfo {
            duration_us: self.duration_us,
            width: self.width,
            height: self.height,
            video_codec: self.video_codec.clone(),
            fps_milli: self.fps_milli,
            audio_streams: streams,
            size_bytes: self.size_bytes,
        };
        assert(r@.audio_streams =~= self@.audio_streams);
        r
    }
}

} // verus!
