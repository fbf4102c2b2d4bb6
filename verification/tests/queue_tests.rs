use qlipq::config::{ContainerFormat, OutputSettings, QualityMode, QualityPreset};
use qlipq::queue::{
    add_fresh_paths, add_tag, add_watched_folder, clamp_bitrate, clamp_crf, effective_output, forget_path, is_dismissed,
    remove_tag, remove_watched_folder, status_label, stored_tags, toggle_dismissed, toggle_override, OutputOverride,
    QueueStatus,
};

fn strs(v: &[&str]) -> Vec<String> {
    v.iter().map(|s| s.to_string()).collect()
}

#[test]
fn effective_output_applies_only_set_fields() {
    let base = OutputSettings::default();
    assert_eq!(effective_output(&base, None), base);
    let o = OutputOverride {
        crf: Some(30),
        container: Some(ContainerFormat::Mkv),
        encoder_preset: Some("slow".into()),
        ..Default::default()
    };
    let out = effective_output(&base, Some(&o));
    assert_eq!(out.crf, 30);
    assert_eq!(out.container, ContainerFormat::Mkv);
    assert_eq!(out.encoder_preset, "slow");
    assert_eq!(out.quality_mode, base.quality_mode);
    assert_eq!(out.audio_bitrate_kbps, base.audio_bitrate_kbps);
}

#[test]
fn toggling_override_seeds_quality_model() {
    let mut base = OutputSettings::default();
    base.quality_mode = QualityMode::Vbr;
    base.crf = 26;
    let on = toggle_override(true, &base).unwrap();
    assert_eq!(on.quality_mode, Some(QualityMode::Vbr));
    assert_eq!(on.quality_preset, Some(QualityPreset::Original));
    assert_eq!(on.crf, Some(26));
    assert_eq!(on.video_bitrate_kbps, Some(8000));
    assert_eq!(on.container, None);
    assert!(toggle_override(false, &base).is_none());
}

#[test]
fn typed_values_are_clamped() {
    assert_eq!(clamp_crf(-4), 0);
    assert_eq!(clamp_crf(99), 51);
    assert_eq!(clamp_crf(23), 23);
    assert_eq!(clamp_bitrate(5), 100);
    assert_eq!(clamp_bitrate(6000), 6000);
}

#[test]
fn tags_add_trimmed_once() {
    let mut tags: Option<Vec<String>> = None;
    add_tag(&mut tags, "   ");
    assert_eq!(tags, None);
    add_tag(&mut tags, "  best ");
    add_tag(&mut tags, "best");
    add_tag(&mut tags, "funny");
    assert_eq!(tags, Some(strs(&["best", "funny"])));
}

#[test]
fn remove_tag_drops_every_copy() {
    let mut tags = Some(strs(&["a", "b", "a", "c"]));
    remove_tag(&mut tags, "a");
    assert_eq!(tags, Some(strs(&["b", "c"])));
    let mut none: Option<Vec<String>> = None;
    remove_tag(&mut none, "a");
    assert_eq!(none, None);
}

#[test]
fn dismiss_toggles_and_restores() {
    let mut tags = Some(strs(&["keep"]));
    assert!(!is_dismissed(&tags));
    assert!(toggle_dismissed(&mut tags));
    assert!(is_dismissed(&tags));
    assert_eq!(tags, Some(strs(&["keep", "dismissed"])));
    assert!(!toggle_dismissed(&mut tags));
    assert_eq!(tags, Some(strs(&["keep"])));
    let mut none: Option<Vec<String>> = None;
    assert!(toggle_dismissed(&mut none));
    assert_eq!(none, Some(strs(&["dismissed"])));
}

#[test]
fn empty_tag_lists_are_not_stored() {
    assert_eq!(stored_tags(&Some(vec![])), None);
    assert_eq!(stored_tags(&None), None);
    assert_eq!(stored_tags(&Some(strs(&["x"]))), Some(strs(&["x"])));
}

#[test]
fn status_labels() {
    assert_eq!(status_label(QueueStatus::Pending), "Pending");
    assert_eq!(status_label(QueueStatus::Exporting), "Exporting");
    assert_eq!(status_label(QueueStatus::Error), "Error");
}

#[test]
fn scanning_adds_new_paths_once_in_posix_form() {
    let mut known = strs(&["C:/v/a.mp4"]);
    let fresh = add_fresh_paths(&mut known, &strs(&["C:\\v\\a.mp4", "C:\\v\\b.mp4", "C:/v/b.mp4", "C:/v/c.mkv"]));
    assert_eq!(fresh, strs(&["C:/v/b.mp4", "C:/v/c.mkv"]));
    assert_eq!(known, strs(&["C:/v/a.mp4", "C:/v/b.mp4", "C:/v/c.mkv"]));
    forget_path(&mut known, "C:/v/b.mp4");
    assert_eq!(known, strs(&["C:/v/a.mp4", "C:/v/c.mkv"]));
}

#[test]
fn watched_folders_have_no_duplicates() {
    let mut folders = strs(&["D:/rec"]);
    assert!(!add_watched_folder(&mut folders, "D:/rec"));
    assert!(add_watched_folder(&mut folders, "E:/clips"));
    assert_eq!(folders, strs(&["D:/rec", "E:/clips"]));
    remove_watched_folder(&mut folders, "D:/rec");
    assert_eq!(folders, strs(&["E:/clips"]));
}
