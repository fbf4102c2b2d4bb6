use qlipq::edit_spec::{CropSpec, EditSpec};
use qlipq::filters::{layout_name, placebo_dims, stream_fps, video_filter_descr};

#[test]
fn filter_chain_for_trim_only() {
    let spec = EditSpec { trim: None, crop: None, audio_tracks: vec![] };
    assert_eq!(
        video_filter_descr(&spec, None, None, false, 5_000_000, 12_500_000),
        "trim=start=5.0000:end=12.5000,setpts=PTS-STARTPTS,format=nv12"
    );
}

#[test]
fn filter_chain_with_every_step() {
    let spec = EditSpec { trim: None, crop: Some(CropSpec { x: 100, y: 50, width: 1280, height: 720 }), audio_tracks: vec![] };
    assert_eq!(
        video_filter_descr(&spec, Some(720), Some(30), true, 1_234_567, 61_000_049),
        "trim=start=1.2346:end=61.0000,setpts=PTS-STARTPTS,crop=1280:720:100:50,scale=-2:720,fps=30,format=p010le"
    );
}

#[test]
fn channel_layout_names() {
    assert_eq!(layout_name(1), "mono");
    assert_eq!(layout_name(2), "stereo");
    assert_eq!(layout_name(6), "5.1");
    assert_eq!(layout_name(8), "7.1");
    assert_eq!(layout_name(3), "stereo");
}

#[test]
fn preview_dimensions_keep_aspect_and_evenness() {
    assert_eq!(placebo_dims(3840, 2160), (1280, 720));
    assert_eq!(placebo_dims(2560, 1080), (1706, 720));
    assert_eq!(placebo_dims(641, 481), (640, 480));
    assert_eq!(placebo_dims(0, 0), (2, 2));
}

#[test]
fn stream_rates() {
    assert_eq!(stream_fps(30000, 1001, 0, 1), 29_970);
    assert_eq!(stream_fps(0, 0, 25, 1), 25_000);
    assert_eq!(stream_fps(0, 1, 0, 0), 0);
}
