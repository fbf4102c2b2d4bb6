use qlipq::media::AudioStreamInfo;
use qlipq::probe::{build_probe_args, parse_ffprobe_output, parse_frame_rate, FfprobeFormat, FfprobeOutput, FfprobeStream};

#[test]
fn build_probe_args_requests_json() {
    assert_eq!(
        build_probe_args("clip.mkv"),
        vec!["-v", "error", "-print_format", "json", "-show_format", "-show_streams", "clip.mkv"]
    );
}

#[test]
fn parse_frame_rate_handles_rationals_and_integers() {
    assert_eq!(parse_frame_rate(Some("30000/1001")), 29_970);
    assert_eq!(parse_frame_rate(Some("60/1")), 60_000);
    assert_eq!(parse_frame_rate(Some("0/0")), 0);
    assert_eq!(parse_frame_rate(None), 0);
}

#[test]
fn parse_frame_rate_edge_cases() {
    assert_eq!(parse_frame_rate(Some("")), 0);
    assert_eq!(parse_frame_rate(Some("29.97")), 29_970);
    assert_eq!(parse_frame_rate(Some("25/0")), 25_000);
    assert_eq!(parse_frame_rate(Some("abc/1")), 0);
    assert_eq!(parse_frame_rate(Some("24000/1001")), 23_976);
}

#[test]
fn parse_ffprobe_extracts_video_and_audio_indices() {
    let t1 = vec![("title".to_string(), "Desktop".to_string())];
    let t2 = vec![("language".to_string(), "eng".to_string()), ("title".to_string(), "Mic".to_string())];

    let data = FfprobeOutput {
        streams: Some(vec![
            FfprobeStream {
                index: 0,
                codec_type: Some("video".into()),
                codec_name: Some("h264".into()),
                width: Some(2560),
                height: Some(1440),
                r_frame_rate: Some("60/1".into()),
                ..Default::default()
            },
            FfprobeStream { index: 1, codec_type: Some("audio".into()), codec_name: Some("aac".into()), channels: Some(2), tags: Some(t1), ..Default::default() },
            FfprobeStream { index: 2, codec_type: Some("audio".into()), codec_name: Some("aac".into()), channels: Some(1), tags: Some(t2), ..Default::default() },
        ]),
        format: Some(FfprobeFormat { duration: Some("63.500000".into()), size: Some("104857600".into()) }),
    };
    let info = parse_ffprobe_output(&data);
    assert_eq!(info.duration_us, 63_500_000);
    assert_eq!(info.width, 2560);
    assert_eq!(info.height, 1440);
    assert_eq!(info.video_codec, "h264");
    assert_eq!(info.fps_milli, 60_000);
    assert_eq!(info.size_bytes, Some(104857600));
    assert_eq!(
        info.audio_streams,
        vec![
            AudioStreamInfo { stream_index: 1, index: 0, codec: "aac".into(), channels: 2, language: None, title: Some("Desktop".into()) },
            AudioStreamInfo { stream_index: 2, index: 1, codec: "aac".into(), channels: 1, language: Some("eng".into()), title: Some("Mic".into()) },
        ]
    );
}

#[test]
fn parse_ffprobe_without_streams_uses_defaults() {
    let info = parse_ffprobe_output(&FfprobeOutput::default());
    assert_eq!(info.duration_us, 0);
    assert_eq!(info.width, 0);
    assert_eq!(info.video_codec, "unknown");
    assert_eq!(info.fps_milli, 0);
    assert!(info.audio_streams.is_empty());
    assert_eq!(info.size_bytes, None);
}

#[test]
fn parse_ffprobe_falls_back_to_average_rate_and_unknown_codec() {
    let data = FfprobeOutput {
        streams: Some(vec![FfprobeStream {
            index: 0,
            codec_type: Some("video".into()),
            avg_frame_rate: Some("30/1".into()),
            ..Default::default()
        }]),
        format: Some(FfprobeFormat { duration: Some(" 1.0 ".into()), size: Some("".into()) }),
    };
    let info = parse_ffprobe_output(&data);
    assert_eq!(info.fps_milli, 30_000);
    assert_eq!(info.video_codec, "unknown");
    assert_eq!(info.duration_us, 1_000_000);
    assert_eq!(info.size_bytes, None);
}

#[test]
fn probe_reports_with_repeated_tag_keys_are_not_well_formed() {
    let t = vec![("language".to_string(), "eng".to_string()), ("language".to_string(), "ger".to_string())];
    let bad = FfprobeOutput { streams: Some(vec![FfprobeStream { index: 0, tags: Some(t), ..Default::default() }]), format: None };
    assert!(!qlipq::probe::ffprobe_output_wf(&bad));
    let t = vec![("language".to_string(), "eng".to_string()), ("title".to_string(), "Mic".to_string())];
    let good = FfprobeOutput { streams: Some(vec![FfprobeStream { index: 0, tags: Some(t), ..Default::default() }]), format: None };
    assert!(qlipq::probe::ffprobe_output_wf(&good));
    assert!(qlipq::probe::ffprobe_output_wf(&FfprobeOutput::default()));
}
