use qlipq::probe::{parse_ffprobe_output, FfprobeOutput, FfprobeStream};
use qlipq::paths::{base_name, join_path, to_posix};
use qlipq::progress::progress_fraction;
use qlipq::queue::{add_tag, remove_tag, toggle_dismissed};
use qlipq::rename::{build_renamed_file_name, split_file_name, RenameVars};
use qlipq::timeline::{set_in_point, set_out_point, skip_target};

#[test]
fn law_base_name_of_join_on_examples() {
    for dir in ["", "C:\\rec\\", "/a/b", "x"] {
        assert_eq!(base_name(&join_path(dir, "clip.mp4")), "clip.mp4");
    }
}

#[test]
fn law_posix_idempotent_on_examples() {
    for p in ["C:\\a\\b", "a/b\\c", ""] {
        let once = to_posix(p);
        assert_eq!(to_posix(&once), once);
    }
}

#[test]
fn law_split_rejoins_on_examples() {
    for n in ["clip.final.mp4", "noext", ".hidden", "a."] {
        let (b, e) = split_file_name(n);
        if e.is_empty() {
            assert!(b == n || format!("{b}.") == n);
        } else {
            assert_eq!(format!("{b}.{e}"), n);
        }
    }
}

#[test]
fn law_renamed_keeps_extension_on_examples() {
    let vars = RenameVars { name: "raw.take2".into(), ext: "MKV".into(), recorded_at: None, source: Some("Game".into()), index: Some(3) };
    for t in ["{name}", "{source}-{index}", "", "..."] {
        let out = build_renamed_file_name(t, &vars);
        assert_eq!(split_file_name(&out).1, "MKV");
    }
}

#[test]
fn law_tags_add_remove_dismiss_on_examples() {
    let start = Some(vec!["a".to_string(), "b".to_string()]);
    let mut t = start.clone();
    add_tag(&mut t, " new ");
    let once = t.clone();
    add_tag(&mut t, " new ");
    assert_eq!(t, once);
    remove_tag(&mut t, "new");
    assert_eq!(t, start);
    toggle_dismissed(&mut t);
    toggle_dismissed(&mut t);
    assert_eq!(t, start);
}

#[test]
fn law_transport_gaps_on_examples() {
    for cur in [0i64, 50_000, 5_000_000, 9_999_999, 20_000_000] {
        let i = set_in_point(cur, 10_000_000);
        assert!(0 <= i && i <= 9_900_000);
        let o = set_out_point(cur, 3_000_000, 10_000_000, Some(12_000_000));
        assert!(o >= 3_100_000 && o <= 12_000_000);
    }
    let there = skip_target(4_000_000, 2_500_000, Some(10_000_000));
    assert_eq!(skip_target(there, -2_500_000, Some(10_000_000)), 4_000_000);
}

#[test]
fn law_progress_monotonic_on_examples() {
    let times = [-5i64, 0, 1, 2_500_000, 9_999_999, 10_000_000, 50_000_000];
    for w in times.windows(2) {
        assert!(progress_fraction(Some(w[0]), 10_000_000) <= progress_fraction(Some(w[1]), 10_000_000));
    }
}

#[test]
fn law_sanitized_names_are_legal_on_examples() {
    let out = qlipq::rename::sanitize_file_name(" a<b>\u{1}c:d|e?. ");
    assert_eq!(out, "a_b__c_d_e_");
    for c in out.chars() {
        assert!(!"<>:\"/\\|?*".contains(c) && (c as u32) >= 0x20);
    }
}

#[test]
fn law_generated_names_are_clean_on_examples() {
    let v = RenameVars { name: "..__raw__--".into(), ext: "mp4".into(), recorded_at: None, source: None, index: None };
    let out = qlipq::rename::apply_naming_template("-_{name}_{unknown}_ ", &v);
    assert_eq!(out, "raw");
    assert_eq!(qlipq::rename::apply_naming_template("{unknown}", &v), "clip");
    assert_eq!(qlipq::rename::apply_naming_template("a?*b", &v), "a_b");
}

#[test]
fn law_sanitize_ascii_on_examples() {
    for name in ["  a<b>. . ", "clip?.mp4", "...", " x\ty ", "ok"] {
        let once = qlipq::rename::sanitize_file_name(name);
        assert!(once.len() <= name.len());
        assert!(!once.ends_with('.') && !once.ends_with(' ') && !once.starts_with(' '));
        assert_eq!(qlipq::rename::sanitize_file_name(&once), once);
    }
}

#[test]
fn law_parsed_report_lists_each_audio_stream() {
    let s = |index: i64, kind: &str| FfprobeStream { index, codec_type: Some(kind.into()), ..Default::default() };
    let data = FfprobeOutput { streams: Some(vec![s(0, "audio"), s(1, "video"), s(2, "data"), s(3, "audio"), s(4, "video")]), format: None };
    let info = parse_ffprobe_output(&data);
    let got: Vec<(i64, i64)> = info.audio_streams.iter().map(|a| (a.index, a.stream_index)).collect();
    assert_eq!(got, vec![(0, 0), (1, 3)]);
    assert_eq!(info.video_codec, "unknown");
    assert_eq!(info.width, 0);
}

#[test]
fn law_dir_and_base_rejoin_on_examples() {
    for p in ["C:\\rec\\clip.mp4", "a/b/c.mkv", "clip.mp4", "x\\y"] {
        let joined = join_path(&qlipq::paths::dir_name(p), &base_name(p));
        assert_eq!(to_posix(&joined), to_posix(p));
    }
}
