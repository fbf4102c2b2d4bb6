use qlipq::config::{OutputSettings, QualityMode, QualityPreset, VideoCodecChoice};
use qlipq::hw::{plan_for_candidate, plan_hw_video};

fn settings(configure: impl FnOnce(&mut OutputSettings)) -> OutputSettings {
    let mut s = OutputSettings::default();
    configure(&mut s);
    s
}

#[test]
fn ten_bit_forces_hevc_even_for_h264_choice() {
    let p = plan_hw_video(&settings(|s| s.video_codec = VideoCodecChoice::Libx264), true, |_: &str| true).unwrap();
    assert_eq!(p.encoder, "hevc_nvenc");
    assert!(p.ten_bit);
}

#[test]
fn h265_choice_picks_hevc() {
    let p = plan_hw_video(&settings(|s| s.video_codec = VideoCodecChoice::Libx265), false, |_: &str| true).unwrap();
    assert_eq!(p.encoder, "hevc_nvenc");
}

#[test]
fn falls_back_past_unusable_vendors() {
    let amf = plan_hw_video(&settings(|_| {}), false, |n: &str| !n.contains("nvenc")).unwrap();
    assert_eq!(amf.encoder, "h264_amf");
    let qsv = plan_hw_video(&settings(|_| {}), false, |n: &str| n.contains("qsv")).unwrap();
    assert_eq!(qsv.encoder, "h264_qsv");
}

#[test]
fn none_when_no_hw_usable() {
    assert!(plan_hw_video(&settings(|_| {}), false, |_: &str| false).is_none());
}

#[test]
fn nvenc_crf_maps_to_cq_and_preset() {
    let p = plan_hw_video(
        &settings(|s| {
            s.quality_mode = QualityMode::Crf;
            s.crf = 20;
            s.encoder_preset = "slow".into();
        }),
        false,
        |_: &str| true,
    )
    .unwrap();
    assert!(p.opts.contains(&("rc", "vbr".to_string())));
    assert!(p.opts.contains(&("cq", "20".to_string())));
    assert!(p.opts.contains(&("preset", "p6".to_string())));
    assert_eq!(p.bitrate_kbps, None);
}

#[test]
fn nvenc_bitrate_mode_sets_bitrate() {
    let p = plan_hw_video(
        &settings(|s| {
            s.quality_mode = QualityMode::Bitrate;
            s.video_bitrate_kbps = 8000;
        }),
        false,
        |_: &str| true,
    )
    .unwrap();
    assert_eq!(p.bitrate_kbps, Some(8000));
    assert!(p.opts.iter().all(|(k, _)| *k != "cq"));
}

#[test]
fn nvenc_vbr_is_constrained_quality() {
    let p = plan_hw_video(
        &settings(|s| {
            s.quality_mode = QualityMode::Vbr;
            s.crf = 22;
            s.video_bitrate_kbps = 9000;
        }),
        false,
        |_: &str| true,
    )
    .unwrap();
    assert!(p.opts.contains(&("cq", "22".to_string())));
    assert_eq!(p.maxrate_kbps, Some(9000));
}

#[test]
fn preset_quality_maps_named_preset_to_cq() {
    let p = plan_hw_video(&settings(|s| s.quality_preset = QualityPreset::High), false, |_: &str| true).unwrap();
    assert!(p.opts.contains(&("cq", "18".to_string())));
}

#[test]
fn amf_uses_constant_qp_with_quality_bucket() {
    let p = plan_for_candidate(
        &settings(|s| {
            s.quality_mode = QualityMode::Vbr;
            s.crf = 24;
            s.video_bitrate_kbps = 7000;
            s.encoder_preset = "veryslow".into();
        }),
        false,
        1,
    );
    assert_eq!(p.encoder, "h264_amf");
    assert_eq!(
        p.opts,
        vec![
            ("quality", "quality".to_string()),
            ("rc", "cqp".to_string()),
            ("qp_i", "24".to_string()),
            ("qp_p", "24".to_string()),
        ]
    );
    assert_eq!(p.bitrate_kbps, None);
    assert_eq!(p.maxrate_kbps, Some(7000));
}

#[test]
fn amf_bitrate_mode_is_peak_constrained_vbr() {
    let p = plan_for_candidate(
        &settings(|s| {
            s.quality_mode = QualityMode::Bitrate;
            s.video_bitrate_kbps = 6000;
        }),
        false,
        1,
    );
    assert_eq!(p.opts, vec![("quality", "speed".to_string()), ("rc", "vbr_peak".to_string())]);
    assert_eq!(p.bitrate_kbps, Some(6000));
}

#[test]
fn qsv_uses_global_quality() {
    let p = plan_for_candidate(&settings(|s| s.quality_preset = QualityPreset::Small), true, 2);
    assert_eq!(p.encoder, "hevc_qsv");
    assert_eq!(p.opts, vec![("global_quality", "28".to_string())]);
    let b = plan_for_candidate(
        &settings(|s| {
            s.quality_mode = QualityMode::Bitrate;
            s.video_bitrate_kbps = 4000;
        }),
        false,
        2,
    );
    assert!(b.opts.is_empty());
    assert_eq!(b.bitrate_kbps, Some(4000));
}

#[test]
fn unknown_x264_preset_maps_to_middle_nvenc_preset() {
    let p = plan_for_candidate(&settings(|s| s.encoder_preset = "placebo".into()), false, 0);
    assert_eq!(p.opts[0], ("preset", "p5".to_string()));
    let q = plan_for_candidate(&settings(|s| s.encoder_preset = "ultrafast".into()), false, 0);
    assert_eq!(q.opts[0], ("preset", "p1".to_string()));
}
