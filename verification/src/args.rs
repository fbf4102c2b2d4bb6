//! Resolving persisted output settings into concrete encode options for a clip.

use vstd::prelude::*;
use crate::config::{codec_token, OutputSettings, OutputSettingsModel, QualityMode, QualityPreset};
use crate::media::{opt_seq, MediaInfo};
use crate::text::{dec_i64, dec_int, string_from};

verus! {

#[derive(Debug, Clone, PartialEq, Eq)]
pub struct VideoEncodeOptions {
    pub codec: Option<String>,
    pub crf: Option<i64>,
    /// Target video bitrate in kbps. When set, takes precedence over `crf`.
    pub bitrate_kbps: Option<i64>,
    /// Max bitrate cap (kbps) for constrained-VBR: pairs with `crf` via -maxrate/-bufsize.
    pub maxrate_kbps: Option<i64>,
    pub preset: Option<String>,
    /// Output frame rate; when set, forces a re-encode.
    pub fps: Option<i64>,
    /// Downscale to this height (keeps aspect, even width); forces a re-encode.
    pub scale_height: Option<i64>,
}

pub struct VideoEncodeModel {
    pub codec: Option<Seq<char>>,
    pub crf: Option<i64>,
    pub bitrate_kbps: Option<i64>,
    pub maxrate_kbps: Option<i64>,
    pub preset: Option<Seq<char>>,
    pub fps: Option<i64>,
    pub scale_height: Option<i64>,
}

impl View for VideoEncodeOptions {
    type V = VideoEncodeModel;

    open spec fn view(&self) -> VideoEncodeModel {
        VideoEncodeModel {
            codec: opt_seq(self.codec),
            crf: self.crf,
            bitrate_kbps: self.bitrate_kbps,
            maxrate_kbps: self.maxrate_kbps,
            preset: opt_seq(self.preset),
            fps: self.fps,
            scale_height: self.scale_height,
        }
    }
}

impl Default for VideoEncodeOptions {
    fn default() -> (r: Self)
        ensures
            r@ == (VideoEncodeModel {
                codec: None,
                crf: None,
                bitrate_kbps: None,
                maxrate_kbps: None,
                preset: None,
                fps: None,
                scale_height: None,
            }),
    {
        VideoEncodeOptions {
            codec: None,
            crf: None,
            bitrate_kbps: None,
            maxrate_kbps: None,
            preset: None,
            fps: None,
            scale_height: None,
        }
    }
}

#[derive(Debug, Clone, PartialEq, Eq)]
pub struct AudioEncodeOptions {
    pub codec: Option<String>,
    pub bitrate: Option<String>,
}

pub struct AudioEncodeModel {
    pub codec: Option<Seq<char>>,
    pub bitrate: Option<Seq<char>>,
}

impl View for AudioEncodeOptions {
    type V = AudioEncodeModel;

    open spec fn view(&self) -> AudioEncodeModel {
        AudioEncodeModel { codec: opt_seq(self.codec), bitrate: opt_seq(self.bitrate) }
    }
}

impl Default for AudioEncodeOptions {
    fn default() -> (r: Self)
        ensures
            r@ == (AudioEncodeModel { codec: None, bitrate: None }),
    {
        AudioEncodeOptions { codec: None, bitrate: None }
    }
}

/// Resolved encoding choices the export consumes to plan the encoder + rate control.
#[derive(Debug, Clone, PartialEq, Eq)]
pub struct ResolvedEncode {
    pub video: VideoEncodeOptions,
    pub audio: AudioEncodeOptions,
    /// Whether the chosen quality wants a re-encode (edits may force one regardless).
    pub reencode: bool,
}

pub struct ResolvedEncodeModel {
    pub video: VideoEncodeModel,
    pub audio: AudioEncodeModel,
    pub reencode: bool,
}

impl View for ResolvedEncode {
    type V = ResolvedEncodeModel;

    open spec fn view(&self) -> ResolvedEncodeModel {
        ResolvedEncodeModel { video: self.video@, audio: self.audio@, reencode: self.reencode }
    }
}

/// CRF for a named preset (`Original` uses the balanced value).
pub open spec fn preset_crf_spec(p: QualityPreset) -> i64 {
    match p {
        QualityPreset::High => 18,
        QualityPreset::Balanced => 23,
        QualityPreset::Small => 28,
        QualityPreset::Original => 23,
    }
}

pub fn preset_crf(preset: QualityPreset) -> (r: i64)
    ensures
        r == preset_crf_spec(preset),
{
    match preset {
        QualityPreset::High => 18,
        QualityPreset::Balanced => 23,
        QualityPreset::Small => 28,
        QualityPreset::Original => 23,
    }
}

/// The encode options for settings and a source: fps and height are kept only when they lower
/// the source's; the quality mode picks CRF, bitrate, or both; `Original` is a stream copy.
pub open spec fn encode_spec(o: OutputSettingsModel, src_fps_milli: int, src_height: int) -> ResolvedEncodeModel {
    let fps = if o.fps > 0 && o.fps * 1000 < src_fps_milli {
        Some(o.fps)
    } else {
        None
    };
    let scale = if o.max_height > 0 && o.max_height < src_height {
        Some(o.max_height)
    } else {
        None
    };
    let base = VideoEncodeModel {
        codec: Some(codec_token(o.video_codec)),
        crf: None,
        bitrate_kbps: None,
        maxrate_kbps: None,
        preset: Some(o.encoder_preset),
        fps,
        scale_height: scale,
    };
    let (video, reencode) = match o.quality_mode {
        QualityMode::Bitrate => (VideoEncodeModel { bitrate_kbps: Some(o.video_bitrate_kbps), ..base }, true),
        QualityMode::Vbr => (VideoEncodeModel { crf: Some(o.crf), maxrate_kbps: Some(o.video_bitrate_kbps), ..base }, true),
        QualityMode::Crf => (VideoEncodeModel { crf: Some(o.crf), ..base }, true),
        QualityMode::Preset => if o.quality_preset == QualityPreset::Original {
            (VideoEncodeModel { crf: Some(18), ..base }, false)
        } else {
            (VideoEncodeModel { crf: Some(preset_crf_spec(o.quality_preset)), ..base }, true)
        },
    };
    ResolvedEncodeModel {
        video,
        audio: AudioEncodeModel {
            codec: Some("aac"@),
            bitrate: Some(dec_int(o.audio_bitrate_kbps as int) + seq!['k']),
        },
        reencode,
    }
}

/// Resolve persisted [`OutputSettings`] into concrete encode options for a clip.
/// fps and downscale are clamped against the source so we never up-rate or up-scale.
pub fn output_settings_to_encode(output: &OutputSettings, media: &MediaInfo) -> (r: ResolvedEncode)
    ensures
        r@ == encode_spec(output@, media.fps_milli as int, media.height as int),
{
    let fps = if output.fps > 0 && (output.fps as i128) * 1000 < media.fps_milli as i128 {
        Some(output.fps)
    } else {
        None
    };
    let scale_height = if output.max_height > 0 && output.max_height < media.height {
        Some(output.max_height)
    } else {
        None
    };
    let mut video = VideoEncodeOptions {
        codec: Some(output.video_codec.to_ffmpeg().to_string()),
        crf: None,
        bitrate_kbps: None,
        maxrate_kbps: None,
        preset: Some(output.encoder_preset.clone()),
        fps,
        scale_height,
    };
    let reencode = match output.quality_mode {
        QualityMode::Bitrate => {
            video.bitrate_kbps = Some(output.video_bitrate_kbps);
            true
        },
        QualityMode::Vbr => {
            video.crf = Some(output.crf);
            video.maxrate_kbps = Some(output.video_bitrate_kbps);
            true
        },
        QualityMode::Crf => {
            video.crf = Some(output.crf);
            true
        },
        QualityMode::Preset => {
            if output.quality_preset == QualityPreset::Original {
                video.crf = Some(18);
                false
            } else {
                video.crf = Some(preset_crf(output.quality_preset));
                true
            }
        },
    };
    let mut rate = dec_i64(output.audio_bitrate_kbps);
    rate.push('k');
    assert(rate@ =~= dec_int(output.audio_bitrate_kbps as int) + seq!['k']);
    ResolvedEncode {
        video,
        audio: AudioEncodeOptions { codec: Some("aac".to_string()), bitrate: Some(string_from(&rate)) },
        reencode,
    }
}

} // verus!
