use qlipq::obs::{infer_game_from_path, infer_game_from_path_checked, parse_obs_filename, recording_source, recording_source_checked};

#[test]
fn parses_obs_default_filename() {
    let r = parse_obs_filename("2024-01-31 18-09-05.mkv");
    let dt = r.recorded_at.unwrap();
    assert_eq!(dt.year, 2024);
    assert_eq!(dt.month, 1);
    assert_eq!(dt.day, 31);
    assert_eq!(dt.hour, 18);
    assert_eq!(dt.minute, 9);
    assert_eq!(dt.second, 5);
    assert_eq!(r.source, None);
    assert!(!r.is_replay);
}

#[test]
fn parses_replay_buffer_filename() {
    let r = parse_obs_filename("Replay 2024-12-01_07-30-00.mp4");
    assert!(r.is_replay);
    assert_eq!(r.recorded_at.unwrap().hour, 7);
    assert_eq!(r.source, None);
}

#[test]
fn extracts_leading_source() {
    let r = parse_obs_filename("Apex Legends 2024-03-15 21-45-10.mkv");
    assert_eq!(r.source.as_deref(), Some("Apex Legends"));
    assert_eq!(r.recorded_at.unwrap().day, 15);
}

#[test]
fn strips_replay_prefix_from_source() {
    let r = parse_obs_filename("Replay - Valorant - 2024-05-05 12-00-00.mp4");
    assert!(r.is_replay);
    assert_eq!(r.source.as_deref(), Some("Valorant"));
}

#[test]
fn supports_dotted_time_separators() {
    let r = parse_obs_filename("2024-06-28 14.02.59.mov");
    assert_eq!(r.recorded_at.unwrap().minute, 2);
}

#[test]
fn returns_no_timestamp_for_unrecognised() {
    let r = parse_obs_filename("random-clip.mp4");
    assert!(r.recorded_at.is_none());
    assert!(!r.is_replay);
}

#[test]
fn impossible_calendar_day_gives_no_timestamp() {
    let r = parse_obs_filename("Clip 2023-02-29 10-00-00.mp4");
    assert!(r.recorded_at.is_none());
    assert_eq!(r.source.as_deref(), Some("Clip"));
    let leap = parse_obs_filename("2024-02-29 23-59-59.mp4");
    assert_eq!(leap.recorded_at.unwrap().day, 29);
}

#[test]
fn replay_must_be_a_whole_word() {
    assert!(!parse_obs_filename("replayed.mp4").is_replay);
    assert!(parse_obs_filename("my_REPLAY.mp4").is_replay == false);
    assert!(parse_obs_filename("my REPLAY.mp4").is_replay);
    assert!(parse_obs_filename("Replay2024-01-01 10-00-00.mp4").is_replay);
}

#[test]
fn infer_game_returns_subfolder() {
    assert_eq!(
        infer_game_from_path("E:/Shadowplay", "E:/Shadowplay/Counter-strike 2/clip.mp4").as_deref(),
        Some("Counter-strike 2")
    );
}

#[test]
fn infer_game_ignores_files_in_root() {
    assert_eq!(infer_game_from_path("E:/OBS Recordings", "E:/OBS Recordings/clip.mkv"), None);
}

#[test]
fn infer_game_tolerates_separators() {
    assert_eq!(infer_game_from_path("E:\\Shadowplay\\", "E:\\Shadowplay\\Deadlock\\a.mp4").as_deref(), Some("Deadlock"));
    assert_eq!(infer_game_from_path("E:/Shadowplay", "E:/Shadowplay/Deadlock\\a.mp4").as_deref(), Some("Deadlock"));
}

#[test]
fn infer_game_matches_root_case_insensitively() {
    assert_eq!(infer_game_from_path("e:/shadowplay", "E:/Shadowplay/Apex/a.mp4").as_deref(), Some("Apex"));
}

#[test]
fn infer_game_returns_none_when_not_under_root() {
    assert_eq!(infer_game_from_path("E:/Shadowplay", "D:/Other/x.mp4"), None);
}

#[test]
fn infer_game_checked_reports_misaligned_root() {
    assert_eq!(infer_game_from_path_checked("E:/S", "E:/S/G/a.mp4"), Some(Some("G".to_string())));
    assert_eq!(infer_game_from_path_checked("", "x/y/z"), Some(None));
    // The Kelvin sign lower-cases to a one-byte `k`, so the root's byte length lands inside `€`.
    assert_eq!(infer_game_from_path_checked("\u{212A}", "k/\u{20AC}/x"), None);
}

#[test]
fn recording_source_prefers_file_name_label() {
    let roots = vec!["D:/Videos".to_string(), "E:/Clips".to_string()];
    assert_eq!(recording_source(Some("Scene".into()), &roots, "E:/Clips/Deadlock/a.mp4"), Some("Scene".to_string()));
    assert_eq!(recording_source(None, &roots, "E:/Clips/Deadlock/a.mp4"), Some("Deadlock".to_string()));
    assert_eq!(recording_source(None, &roots, "F:/other/a.mp4"), None);
}

#[test]
fn recording_source_tries_roots_only_until_a_game() {
    // The second root would cut the path inside a character, but the first already yields.
    let roots = vec!["k".to_string(), "\u{212A}".to_string()];
    assert_eq!(recording_source_checked(None, &roots, "k/\u{20AC}/x"), Some(Some("\u{20AC}".to_string())));
    assert_eq!(recording_source(None, &roots, "k/\u{20AC}/x"), Some("\u{20AC}".to_string()));
    // Here the first root yields nothing, so the misaligned one is tried.
    let roots = vec!["D:/Videos".to_string(), "\u{212A}".to_string()];
    assert_eq!(recording_source_checked(None, &roots, "k/\u{20AC}/x"), None);
    assert_eq!(recording_source_checked(Some("Scene".into()), &roots, "E:/a.mp4"), Some(Some("Scene".to_string())));
}
