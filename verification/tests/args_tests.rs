use qlipq::args::output_settings_to_encode;
use qlipq::config::{OutputSettings, QualityMode, QualityPreset, VideoCodecChoice};
use qlipq::media::MediaInfo;

fn media() -> MediaInfo {
    MediaInfo {
        duration_us: 60_000_000,
        width: 2560,
        height: 1440,
        video_codec: "h264".into(),
        fps_milli: 60_000,
        audio_streams: vec![],
        size_bytes: None,
    }
}

fn settings(configure: impl FnOnce(&mut OutputSettings)) -> OutputSettings {
    let mut s = OutputSettings::default();
    configure(&mut s);
    s
}

#[test]
fn args_tests_encode_original_is_stream_copy() {
    let r = output_settings_to_encode(&settings(|s| s.quality_preset = QualityPreset::Original), &media());
    assert!(!r.reencode);
}

#[test]
fn args_tests_encode_named_presets_map_to_crf() {
    assert_eq!(output_settings_to_encode(&settings(|s| s.quality_preset = QualityPreset::High), &media()).video.crf, Some(18));
    assert_eq!(output_settings_to_encode(&settings(|s| s.quality_preset = QualityPreset::Balanced), &media()).video.crf, Some(23));
    let small = output_settings_to_encode(&settings(|s| s.quality_preset = QualityPreset::Small), &media());
    assert_eq!(small.video.crf, Some(28));
    assert!(small.reencode);
}

#[test]
fn args_tests_encode_bitrate_mode() {
    let r = output_settings_to_encode(
        &settings(|s| {
            s.quality_mode = QualityMode::Bitrate;
            s.video_bitrate_kbps = 5000;
        }),
        &media(),
    );
    assert_eq!(r.video.bitrate_kbps, Some(5000));
    assert!(r.reencode);
}

#[test]
fn args_tests_encode_vbr_maps_to_crf_plus_maxrate() {
    let r = output_settings_to_encode(
        &settings(|s| {
            s.quality_mode = QualityMode::Vbr;
            s.crf = 22;
            s.video_bitrate_kbps = 9000;
        }),
        &media(),
    );
    assert_eq!(r.video.crf, Some(22));
    assert_eq!(r.video.maxrate_kbps, Some(9000));
    assert!(r.reencode);
}

#[test]
fn args_tests_encode_fps_maxheight_clamp_against_source() {
    let up = output_settings_to_encode(
        &settings(|s| {
            s.fps = 120;
            s.max_height = 2160;
        }),
        &media(),
    );
    assert_eq!(up.video.fps, None);
    assert_eq!(up.video.scale_height, None);
    let down = output_settings_to_encode(
        &settings(|s| {
            s.fps = 30;
            s.max_height = 1080;
        }),
        &media(),
    );
    assert_eq!(down.video.fps, Some(30));
    assert_eq!(down.video.scale_height, Some(1080));
}

#[test]
fn encode_carries_codec_preset_and_audio() {
    let r = output_settings_to_encode(
        &settings(|s| {
            s.video_codec = VideoCodecChoice::Libx265;
            s.encoder_preset = "slow".into();
            s.audio_bitrate_kbps = 160;
        }),
        &media(),
    );
    assert_eq!(r.video.codec.as_deref(), Some("libx265"));
    assert_eq!(r.video.preset.as_deref(), Some("slow"));
    assert_eq!(r.audio.codec.as_deref(), Some("aac"));
    assert_eq!(r.audio.bitrate.as_deref(), Some("160k"));
}

#[test]
fn encode_crf_mode_uses_crf() {
    let r = output_settings_to_encode(
        &settings(|s| {
            s.quality_mode = QualityMode::Crf;
            s.crf = 31;
        }),
        &media(),
    );
    assert_eq!(r.video.crf, Some(31));
    assert_eq!(r.video.bitrate_kbps, None);
    assert!(r.reencode);
}

#[test]
fn encode_fps_equal_to_source_is_not_forced() {
    let r = output_settings_to_encode(&settings(|s| s.fps = 60), &media());
    assert_eq!(r.video.fps, None);
}
