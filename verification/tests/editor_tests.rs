use qlipq::edit_spec::{AudioTrackSpec, CropSpec, EditSpec, TrimSpec};
use qlipq::editor::{
    edited_crop, editor_spec, frame_request, modal_to_close, opening_crop, opening_tracks, opening_trim, toggled_crop,
    track_setting, FrameRequest, ModalClose,
};
use qlipq::media::{AudioStreamInfo, MediaInfo};
use qlipq::process_text::{export_error, version_banner};

fn media() -> MediaInfo {
    MediaInfo {
        duration_us: 90_000_000,
        width: 1920,
        height: 1080,
        video_codec: "h264".into(),
        fps_milli: 60_000,
        audio_streams: vec![
            AudioStreamInfo { stream_index: 1, index: 0, codec: "aac".into(), channels: 2, language: None, title: None },
            AudioStreamInfo { stream_index: 2, index: 1, codec: "aac".into(), channels: 1, language: None, title: None },
            AudioStreamInfo { stream_index: 3, index: 2, codec: "opus".into(), channels: 2, language: None, title: None },
        ],
        size_bytes: None,
    }
}

fn t(index: i64, enabled: bool, volume_milli: i64) -> AudioTrackSpec {
    AudioTrackSpec { index, enabled, volume_milli }
}

#[test]
fn audio_rows_prefer_stored_then_carried_then_unity() {
    let stored = vec![t(1, false, 500)];
    let carried = vec![t(1, true, 2000), t(2, false, 0)];
    assert_eq!(track_setting(1, &stored, &carried), (false, 500));
    assert_eq!(track_setting(2, &stored, &carried), (false, 0));
    assert_eq!(track_setting(0, &stored, &carried), (true, 1000));
    assert_eq!(opening_tracks(&media(), &stored, &carried), vec![t(0, true, 1000), t(1, false, 500), t(2, false, 0)]);
}

#[test]
fn opening_window_and_crop() {
    let m = media();
    assert_eq!(opening_trim(None, m.duration_us), (0, 90_000_000));
    let e = EditSpec { trim: Some(TrimSpec { start_us: 5, end_us: 9 }), crop: Some(CropSpec { x: 1, y: 2, width: 3, height: 4 }), audio_tracks: vec![] };
    assert_eq!(opening_trim(Some(&e), m.duration_us), (5, 9));
    assert_eq!(opening_crop(Some(&e), &m), (true, CropSpec { x: 1, y: 2, width: 3, height: 4 }));
    assert_eq!(opening_crop(None, &m), (false, CropSpec { x: 0, y: 0, width: 1920, height: 1080 }));
}

#[test]
fn crop_edits() {
    let empty = CropSpec { x: 0, y: 0, width: 0, height: 0 };
    assert_eq!(toggled_crop(true, empty, Some((1280, 720))), CropSpec { x: 0, y: 0, width: 1280, height: 720 });
    assert_eq!(toggled_crop(false, empty, Some((1280, 720))), empty);
    assert_eq!(toggled_crop(true, empty, None), empty);
    let c = CropSpec { x: 1, y: 2, width: 3, height: 4 };
    assert_eq!(edited_crop(c, 0, "10"), CropSpec { x: 10, ..c });
    assert_eq!(edited_crop(c, 2, "640"), CropSpec { width: 640, ..c });
    assert_eq!(edited_crop(c, 9, "7"), CropSpec { height: 7, ..c });
    assert_eq!(edited_crop(c, 1, "abc"), c);
}

#[test]
fn committed_spec() {
    let tracks = vec![t(0, true, 1000)];
    let c = CropSpec { x: 1, y: 2, width: 3, height: 4 };
    let on = editor_spec(1, 2, true, c, &tracks);
    assert_eq!(on, EditSpec { trim: Some(TrimSpec { start_us: 1, end_us: 2 }), crop: Some(c), audio_tracks: tracks.clone() });
    assert_eq!(editor_spec(1, 2, false, c, &tracks).crop, None);
}

#[test]
fn modal_and_frame_decisions() {
    assert_eq!(modal_to_close(true, true, true), ModalClose::Rename);
    assert_eq!(modal_to_close(false, true, true), ModalClose::Delete);
    assert_eq!(modal_to_close(false, false, true), ModalClose::Overwrite);
    assert_eq!(modal_to_close(false, false, false), ModalClose::AfterExport);
    assert_eq!(frame_request(true, true, false, true), FrameRequest::Skip);
    assert_eq!(frame_request(false, false, false, true), FrameRequest::Skip);
    assert_eq!(frame_request(false, true, true, true), FrameRequest::MarkDirty);
    assert_eq!(frame_request(false, true, false, false), FrameRequest::Skip);
    assert_eq!(frame_request(false, true, false, true), FrameRequest::Extract);
}

#[test]
fn tool_output_text() {
    assert_eq!(version_banner("ffmpeg version 7.1 Copyright\r\nbuilt with gcc\n"), "ffmpeg version 7.1 Copyright");
    assert_eq!(version_banner(""), "");
    let err: String = (1..=10).map(|i| format!("line {i}\n")).collect();
    assert_eq!(export_error(&err, "exit status: 1"), "line 3\nline 4\nline 5\nline 6\nline 7\nline 8\nline 9\nline 10");
    assert_eq!(export_error("", "exit status: 1"), "ffmpeg exited with status exit status: 1");
    assert_eq!(export_error("a\r\nb", "x"), "a\nb");
}

#[test]
fn editor_audio_toggle_and_volume_touch_only_the_named_track() {
    let mut rows = vec![
        AudioTrackSpec { index: 0, enabled: true, volume_milli: 1000 },
        AudioTrackSpec { index: 1, enabled: true, volume_milli: 1000 },
    ];
    qlipq::editor::set_track_enabled(&mut rows, 1, false);
    assert_eq!(rows[1], AudioTrackSpec { index: 1, enabled: false, volume_milli: 1000 });
    assert_eq!(rows[0], AudioTrackSpec { index: 0, enabled: true, volume_milli: 1000 });
    qlipq::editor::set_track_volume(&mut rows, 0, 250);
    assert_eq!(rows[0].volume_milli, 250);
    let before = rows.clone();
    qlipq::editor::set_track_volume(&mut rows, 7, 5);
    qlipq::editor::set_track_enabled(&mut rows, 7, false);
    assert_eq!(rows, before);
}
