use qlipq::capture::{detect_capture_presets, nvidia_dir_from_registry};
use qlipq::detect::ObsConfigFiles;
use qlipq::edit_spec::{CropSpec, EditSpec};
use qlipq::media::MediaInfo;
use qlipq::queue::OutputOverride;
use qlipq::storage::{is_valid_name, rename_step, resolve_entry, CachedMedia, RenameStep, StoredEdit};

fn media() -> MediaInfo {
    MediaInfo {
        duration_us: 5_000_000,
        width: 1920,
        height: 1080,
        video_codec: "hevc".into(),
        fps_milli: 60_000,
        audio_streams: vec![],
        size_bytes: Some(10),
    }
}

#[test]
fn app_file_names_stay_in_the_data_folder() {
    assert!(is_valid_name("edits.json"));
    assert!(is_valid_name("a.b.c"));
    assert!(!is_valid_name("../x"));
    assert!(!is_valid_name("a/b"));
    assert!(!is_valid_name("a\\b"));
    assert!(!is_valid_name("x.."));
}

#[test]
fn rename_steps() {
    assert_eq!(rename_step("a", "a", true), RenameStep::AlreadyThere);
    assert_eq!(rename_step("a", "b", true), RenameStep::Blocked("A file already exists at b".to_string()));
    assert_eq!(rename_step("a", "b", false), RenameStep::Move);
}

#[test]
fn cache_entries_are_kept_only_when_unchanged() {
    let c = CachedMedia { size_bytes: 10, modified_ms: 99, media: media(), is_hdr: true };
    let hit = resolve_entry("p.mkv", 10, 99, Some(&c));
    assert_eq!(hit.cached, Some(c.clone()));
    assert_eq!(hit.path, "p.mkv");
    assert_eq!(resolve_entry("p.mkv", 11, 99, Some(&c)).cached, None);
    assert_eq!(resolve_entry("p.mkv", 10, 98, Some(&c)).cached, None);
    assert_eq!(resolve_entry("p.mkv", 10, 99, None).cached, None);
}

#[test]
fn stored_edit_drops_empty_tags() {
    let edit = Some(EditSpec { trim: None, crop: Some(CropSpec { x: 1, y: 2, width: 3, height: 4 }), audio_tracks: vec![] });
    let o = Some(OutputOverride { crf: Some(20), ..Default::default() });
    let s = StoredEdit::capture(&edit, &o, &Some(vec![]));
    assert_eq!(s.edit, edit);
    assert_eq!(s.output_override, o);
    assert_eq!(s.tags, None);
    let t = StoredEdit::capture(&None, &None, &Some(vec!["x".to_string()]));
    assert_eq!(t.tags, Some(vec!["x".to_string()]));
    assert_eq!(StoredEdit::default().edit, None);
}

#[test]
fn capture_presets_are_posix() {
    let files = ObsConfigFiles {
        user_ini: None,
        profiles: vec![("Default".to_string(), "[SimpleOutput]\nFilePath=D:\\Clips\n".to_string())],
    };
    let p = detect_capture_presets(&files, Some("E:\\Share"));
    assert_eq!(p.obs.as_deref(), Some("D:/Clips"));
    assert_eq!(p.nvidia_share.as_deref(), Some("E:/Share"));
    let none = detect_capture_presets(&ObsConfigFiles { user_ini: None, profiles: vec![] }, None);
    assert_eq!(none.obs, None);
    assert_eq!(none.nvidia_share, None);
}

#[test]
fn registry_path_is_decoded_and_trimmed() {
    let mut raw: Vec<u8> = Vec::new();
    for u in " D:\\Video ".encode_utf16() {
        raw.extend_from_slice(&u.to_le_bytes());
    }
    raw.extend_from_slice(&[0, 0, 0, 0, 7]);
    assert_eq!(nvidia_dir_from_registry(&raw).as_deref(), Some("D:\\Video"));
    assert_eq!(nvidia_dir_from_registry(&vec![0, 0]), None);
    assert_eq!(nvidia_dir_from_registry(&vec![]), None);
}

#[test]
fn registry_text_drops_trailing_nuls_and_white_space() {
    use_registry_text();
}

fn use_registry_text() {
    assert_eq!(qlipq::capture::registry_dir_from_text("  D:\\Video \0\0").as_deref(), Some("D:\\Video"));
    assert_eq!(qlipq::capture::registry_dir_from_text("\0\0"), None);
    assert_eq!(qlipq::capture::registry_dir_from_text(" \t "), None);
    assert_eq!(qlipq::capture::registry_dir_from_text("E:/A\0B"), Some("E:/A\0B".to_string()));
}
