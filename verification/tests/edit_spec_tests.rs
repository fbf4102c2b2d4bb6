use qlipq::edit_spec::{default_edit_spec, effective_duration, validate_edit_spec, AudioTrackSpec, CropSpec, EditSpec, TrimSpec};
use qlipq::media::{AudioStreamInfo, MediaInfo};

fn media() -> MediaInfo {
    MediaInfo {
        duration_us: 120_000_000,
        width: 1920,
        height: 1080,
        video_codec: "h264".into(),
        fps_milli: 60_000,
        audio_streams: vec![
            AudioStreamInfo { stream_index: 1, index: 0, codec: "aac".into(), channels: 2, language: None, title: Some("Desktop".into()) },
            AudioStreamInfo { stream_index: 2, index: 1, codec: "aac".into(), channels: 1, language: None, title: Some("Mic".into()) },
        ],
        size_bytes: None,
    }
}

#[test]
fn default_edit_spec_enables_every_track_at_unity() {
    let spec = default_edit_spec(Some(&media()));
    assert_eq!(
        spec.audio_tracks,
        vec![
            AudioTrackSpec { index: 0, enabled: true, volume_milli: 1000 },
            AudioTrackSpec { index: 1, enabled: true, volume_milli: 1000 },
        ]
    );
    assert!(spec.trim.is_none());
}

#[test]
fn default_edit_spec_without_media_has_no_tracks() {
    let spec = default_edit_spec(None);
    assert!(spec.audio_tracks.is_empty());
    assert!(spec.crop.is_none());
}

#[test]
fn effective_duration_reflects_trim() {
    let m = media();
    assert_eq!(effective_duration(&EditSpec { trim: None, crop: None, audio_tracks: vec![] }, &m), 120_000_000);
    assert_eq!(
        effective_duration(
            &EditSpec { trim: Some(TrimSpec { start_us: 10_000_000, end_us: 40_000_000 }), crop: None, audio_tracks: vec![] },
            &m
        ),
        30_000_000
    );
    assert_eq!(
        effective_duration(
            &EditSpec { trim: Some(TrimSpec { start_us: 40_000_000, end_us: 10_000_000 }), crop: None, audio_tracks: vec![] },
            &m
        ),
        0
    );
}

#[test]
fn validate_accepts_sane_spec() {
    let mut spec = default_edit_spec(Some(&media()));
    spec.trim = Some(TrimSpec { start_us: 5_000_000, end_us: 50_000_000 });
    spec.crop = Some(CropSpec { x: 0, y: 0, width: 1280, height: 720 });
    assert_eq!(validate_edit_spec(&spec, &media()), None);
}

#[test]
fn validate_rejects_inverted_trim() {
    let spec = EditSpec { trim: Some(TrimSpec { start_us: 30_000_000, end_us: 10_000_000 }), crop: None, audio_tracks: vec![] };
    assert!(validate_edit_spec(&spec, &media()).unwrap().contains("after the start"));
}

#[test]
fn validate_rejects_crop_outside_frame() {
    let spec = EditSpec { trim: None, crop: Some(CropSpec { x: 1000, y: 0, width: 1280, height: 720 }), audio_tracks: vec![] };
    assert!(validate_edit_spec(&spec, &media()).unwrap().contains("outside the frame"));
}

#[test]
fn validate_rejects_negative_volume() {
    let spec = EditSpec { trim: None, crop: None, audio_tracks: vec![AudioTrackSpec { index: 0, enabled: true, volume_milli: -1000 }] };
    assert!(validate_edit_spec(&spec, &media()).unwrap().contains("volume cannot be negative"));
}

#[test]
fn validate_reports_each_problem() {
    let m = media();
    let neg = EditSpec { trim: Some(TrimSpec { start_us: -1, end_us: 10 }), crop: None, audio_tracks: vec![] };
    assert_eq!(validate_edit_spec(&neg, &m).as_deref(), Some("Trim start cannot be negative."));
    let late = EditSpec { trim: Some(TrimSpec { start_us: 0, end_us: 120_500_001 }), crop: None, audio_tracks: vec![] };
    assert_eq!(validate_edit_spec(&late, &m).as_deref(), Some("Trim end is beyond the clip duration."));
    let grace = EditSpec { trim: Some(TrimSpec { start_us: 0, end_us: 120_500_000 }), crop: None, audio_tracks: vec![] };
    assert_eq!(validate_edit_spec(&grace, &m), None);
    let empty = EditSpec { trim: None, crop: Some(CropSpec { x: 0, y: 0, width: 0, height: 10 }), audio_tracks: vec![] };
    assert_eq!(validate_edit_spec(&empty, &m).as_deref(), Some("Crop width and height must be positive."));
    let left = EditSpec { trim: None, crop: Some(CropSpec { x: -1, y: 0, width: 10, height: 10 }), audio_tracks: vec![] };
    assert_eq!(validate_edit_spec(&left, &m).as_deref(), Some("Crop position cannot be negative."));
}
