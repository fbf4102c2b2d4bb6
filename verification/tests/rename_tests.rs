use qlipq::datetimes::LocalDateTime;
use qlipq::rename::{apply_naming_template, build_renamed_file_name, sanitize_file_name, split_file_name, RenameVars};

fn recorded_at() -> LocalDateTime {
    LocalDateTime { year: 2024, month: 1, day: 31, hour: 18, minute: 9, second: 5 }
}

fn vars(name: &str, ext: &str, recorded: Option<LocalDateTime>, source: Option<&str>, index: Option<i64>) -> RenameVars {
    RenameVars { name: name.into(), ext: ext.into(), recorded_at: recorded, source: source.map(|s| s.to_string()), index }
}

#[test]
fn expands_date_source_name_tokens() {
    let out = apply_naming_template("{date}_{source}_{name}", &vars("raw", "mp4", Some(recorded_at()), Some("Apex"), None));
    assert_eq!(out, "2024-01-31_Apex_raw");
}

#[test]
fn collapses_separators_when_token_empty() {
    let out = apply_naming_template("{date}_{source}_{name}", &vars("raw", "mp4", Some(recorded_at()), None, None));
    assert_eq!(out, "2024-01-31_raw");
}

#[test]
fn preserves_extension_when_building_filename() {
    let out = build_renamed_file_name("{datetime}", &vars("raw", "MKV", Some(recorded_at()), None, None));
    assert_eq!(out, "2024-01-31_18-09-05.MKV");
}

#[test]
fn falls_back_to_clip() {
    let out = apply_naming_template("{source}", &vars("x", "mp4", None, None, None));
    assert_eq!(out, "clip");
}

#[test]
fn sanitizes_illegal_chars_keeps_dashes() {
    assert_eq!(sanitize_file_name("a:b/c?d-2024-01-01"), "a_b_c_d-2024-01-01");
}

#[test]
fn split_file_name_separates_base_and_ext() {
    assert_eq!(split_file_name("clip.final.mp4"), ("clip.final".to_string(), "mp4".to_string()));
    assert_eq!(split_file_name("noext"), ("noext".to_string(), String::new()));
}

#[test]
fn index_token_renders_one_based() {
    let out = apply_naming_template("{name}-{index}", &vars("clip", "mp4", None, None, Some(3)));
    assert_eq!(out, "clip-3");
}

#[test]
fn unknown_and_malformed_tokens() {
    assert_eq!(apply_naming_template("{nope}x{", &vars("n", "e", None, None, None)), "x{");
    assert_eq!(apply_naming_template("{{name}}", &vars("n", "e", None, None, None)), "{n}");
    assert_eq!(apply_naming_template("{time}-{ext}", &vars("n", "e", Some(recorded_at()), None, None)), "18-09-05-e");
}

#[test]
fn sanitize_controls_and_trailing_dots() {
    assert_eq!(sanitize_file_name("a\u{1}b. . "), "a_b");
    assert_eq!(sanitize_file_name("  x|y  "), "x_y");
}

#[test]
fn tidy_collapses_runs_with_spaces() {
    assert_eq!(apply_naming_template("a _ b__c--d", &vars("", "", None, None, None)), "a b_c-d");
    assert_eq!(apply_naming_template("__{name}..", &vars("z", "", None, None, None)), "z");
}

#[test]
fn split_keeps_leading_dot_names_whole() {
    assert_eq!(split_file_name(".hidden"), (".hidden".to_string(), String::new()));
    assert_eq!(split_file_name("a."), ("a".to_string(), String::new()));
}
