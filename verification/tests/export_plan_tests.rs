use qlipq::config::{OutputSettings, QualityMode, QualityPreset};
use qlipq::edit_spec::{AudioTrackSpec, CropSpec, EditSpec, TrimSpec};
use qlipq::export_plan::{export_window, mixed_tracks, part_path, past_window, video_needs_reencode};
use qlipq::media::MediaInfo;

fn media() -> MediaInfo {
    MediaInfo {
        duration_us: 60_000_000,
        width: 1920,
        height: 1080,
        video_codec: "h264".into(),
        fps_milli: 60_000,
        audio_streams: vec![],
        size_bytes: None,
    }
}

fn plain_spec() -> EditSpec {
    EditSpec { trim: None, crop: None, audio_tracks: vec![] }
}

fn original() -> OutputSettings {
    let mut s = OutputSettings::default();
    s.quality_mode = QualityMode::Preset;
    s.quality_preset = QualityPreset::Original;
    s.fps = 0;
    s.max_height = 0;
    s
}

#[test]
fn export_plan_original_untouched_is_stream_copy() {
    assert!(!video_needs_reencode(&plain_spec(), &original(), &media()));
}

#[test]
fn export_plan_crop_forces_reencode() {
    let mut spec = plain_spec();
    spec.crop = Some(CropSpec { x: 0, y: 0, width: 640, height: 360 });
    assert!(video_needs_reencode(&spec, &original(), &media()));
}

#[test]
fn export_plan_downscale_forces_reencode_but_not_upscale() {
    let mut s = original();
    s.max_height = 720;
    assert!(video_needs_reencode(&plain_spec(), &s, &media()));
    s.max_height = 2160;
    assert!(!video_needs_reencode(&plain_spec(), &s, &media()));
}

#[test]
fn export_plan_fps_cap_forces_reencode_only_below_source() {
    let mut s = original();
    s.fps = 30;
    assert!(video_needs_reencode(&plain_spec(), &s, &media()));
    s.fps = 60;
    assert!(!video_needs_reencode(&plain_spec(), &s, &media()));
}

#[test]
fn export_plan_named_preset_reencodes() {
    let mut s = original();
    s.quality_preset = QualityPreset::High;
    assert!(video_needs_reencode(&plain_spec(), &s, &media()));
}

#[test]
fn export_plan_window_defaults_to_whole_clip() {
    assert_eq!(export_window(&plain_spec(), &media()), (0, 60_000_000));
}

#[test]
fn export_plan_window_clamps_start_and_end() {
    let mut spec = plain_spec();
    spec.trim = Some(TrimSpec { start_us: -5, end_us: 10_000_000 });
    assert_eq!(export_window(&spec, &media()), (0, 10_000_000));
    spec.trim = Some(TrimSpec { start_us: 8_000_000, end_us: 2_000_000 });
    assert_eq!(export_window(&spec, &media()), (8_000_000, 8_000_000));
}

#[test]
fn export_plan_mixes_enabled_existing_tracks_in_order() {
    let tracks = vec![
        AudioTrackSpec { index: 1, enabled: true, volume_milli: 500 },
        AudioTrackSpec { index: 0, enabled: false, volume_milli: 1000 },
        AudioTrackSpec { index: 5, enabled: true, volume_milli: 1000 },
        AudioTrackSpec { index: -1, enabled: true, volume_milli: 2000 },
    ];
    let audio_abs = vec![1, 2];
    assert_eq!(mixed_tracks(&tracks, &audio_abs), vec![(2, 500), (1, 2000)]);
}

#[test]
fn export_plan_part_path_appends_suffix() {
    assert_eq!(part_path("C:/clips/out.mp4"), "C:/clips/out.mp4.part.mp4");
}

#[test]
fn export_plan_stops_half_a_second_past_the_window() {
    assert!(!past_window(10_499_999, 10_000_000));
    assert!(past_window(10_500_000, 10_000_000));
}
