use qlipq::config::{is_video_file, AfterExportAction, AppConfig, ContainerFormat, Keybinds, OutputSettings, QualityMode, QualityPreset, VideoCodecChoice};
use qlipq::desktop_config::{self, DesktopConfig};
use qlipq::config_json::{config_from_json, config_to_json, JsonValue, SCHEMA_URL};

fn s(v: &str) -> JsonValue {
    JsonValue::Str(v.to_string())
}

fn obj(members: Vec<(&str, JsonValue)>) -> JsonValue {
    JsonValue::Object(members.into_iter().map(|(k, v)| (k.to_string(), v)).collect())
}

#[test]
fn round_trips_defaults() {
    let cfg = AppConfig::default();
    assert_eq!(config_from_json(&config_to_json(&cfg)), cfg);
}

#[test]
fn lenient_reader_fills_in_missing_fields() {
    let merged = config_from_json(&obj(vec![("outputFolder", s("D:/out"))]));
    assert_eq!(merged.output_folder, "D:/out");
    assert_eq!(merged.naming_template, AppConfig::default().naming_template);
}

#[test]
fn lenient_reader_deep_merges_output_keeping_defaults() {
    let merged = config_from_json(&obj(vec![("output", obj(vec![("qualityMode", s("bitrate"))]))]));
    assert_eq!(merged.output.quality_mode, QualityMode::Bitrate);
    assert_eq!(merged.output.audio_bitrate_kbps, OutputSettings::default().audio_bitrate_kbps);
    assert_eq!(merged.output.container, ContainerFormat::Mp4);
}

#[test]
fn is_video_file_matches_case_insensitively() {
    let ext = AppConfig::default().video_extensions;
    assert!(is_video_file("clip.MKV", &ext));
    assert!(is_video_file("clip.mp4", &ext));
    assert!(!is_video_file("notes.txt", &ext));
    assert!(!is_video_file("noext", &ext));
}

#[test]
fn non_object_documents_give_defaults() {
    assert_eq!(config_from_json(&JsonValue::Null), AppConfig::default());
    assert_eq!(config_from_json(&JsonValue::Array(vec![s("x")])), AppConfig::default());
}

#[test]
fn wrong_types_and_unknown_names_keep_defaults() {
    let merged = config_from_json(&obj(vec![
        ("outputFolder", JsonValue::Number(3)),
        ("watchedFolders", JsonValue::Array(vec![s("A"), JsonValue::Bool(true), s("B")])),
        ("output", obj(vec![("qualityPreset", s("ultra")), ("videoCodec", s("libx265")), ("fps", JsonValue::Number(30))])),
        ("afterExport", obj(vec![("action", s("move")), ("moveFolder", s("M:/"))])),
    ]));
    assert_eq!(merged.output_folder, "");
    assert_eq!(merged.watched_folders, vec!["A".to_string(), "B".to_string()]);
    assert_eq!(merged.output.quality_preset, QualityPreset::Original);
    assert_eq!(merged.output.video_codec, VideoCodecChoice::Libx265);
    assert_eq!(merged.output.fps, 30);
    assert_eq!(merged.after_export.action, AfterExportAction::Move);
    assert_eq!(merged.after_export.move_folder, "M:/");
}

#[test]
fn crf_is_repaired_into_range() {
    let neg = config_from_json(&obj(vec![("output", obj(vec![("crf", JsonValue::Number(-3))]))]));
    assert_eq!(neg.output.crf, 20);
    let big = config_from_json(&obj(vec![("output", obj(vec![("crf", JsonValue::Number(99))]))]));
    assert_eq!(big.output.crf, 51);
    let ok = config_from_json(&obj(vec![("output", obj(vec![("crf", JsonValue::Number(30))]))]));
    assert_eq!(ok.output.crf, 30);
}

#[test]
fn serialized_document_leads_with_schema() {
    let doc = config_to_json(&AppConfig::default());
    match doc {
        JsonValue::Object(members) => {
            assert_eq!(members[0].0, "$schema");
            assert!(matches!(&members[0].1, JsonValue::Str(u) if u == SCHEMA_URL));
            assert_eq!(members.len(), 9);
        }
        _ => panic!("expected an object"),
    }
}

#[test]
fn round_trips_edited_config() {
    let mut cfg = AppConfig::default();
    cfg.output_folder = "D:/out".into();
    cfg.watched_folders = vec!["E:/a".into(), "E:/b".into()];
    cfg.output.quality_mode = QualityMode::Vbr;
    cfg.output.crf = 51;
    cfg.after_export.action = AfterExportAction::Prompt;
    assert_eq!(config_from_json(&config_to_json(&cfg)), cfg);
}

#[test]
fn keybinds_default_values() {
    let kb = Keybinds::default();
    assert_eq!(kb.play_pause, "Space");
    assert_eq!(kb.set_in, "I");
    assert_eq!(kb.export, "Ctrl+M");
}

#[test]
fn codec_and_container_tokens() {
    assert_eq!(VideoCodecChoice::Libx264.to_ffmpeg(), "libx264");
    assert_eq!(VideoCodecChoice::Libx265.to_ffmpeg(), "libx265");
    assert_eq!(ContainerFormat::Mkv.extension(), "mkv");
    assert_eq!(ContainerFormat::Mp4.extension(), "mp4");
}

#[test]
fn lenient_reader_ignores_schema_key() {
    let cfg = config_from_json(&obj(vec![("$schema", s("./config.schema.json")), ("outputFolder", s("E:/Out"))]));
    assert_eq!(cfg, AppConfig { output_folder: "E:/Out".into(), ..Default::default() });
}

#[test]
fn lenient_reader_partial_nested_object() {
    let cfg = config_from_json(&obj(vec![("output", obj(vec![("crf", JsonValue::Number(30))]))]));
    assert_eq!(cfg.output.crf, 30);
    assert_eq!(cfg.output.encoder_preset, AppConfig::default().output.encoder_preset);
}

#[test]
fn scanned_files_match_extensions_ignoring_ascii_case() {
    let exts = vec!["MP4".to_string(), "mkv".to_string()];
    assert!(qlipq::config::has_video_ext("clip.mp4", &exts));
    assert!(qlipq::config::has_video_ext("clip.MKV", &exts));
    assert!(qlipq::config::has_video_ext("a.b.Mp4", &exts));
    assert!(!qlipq::config::has_video_ext(".mp4", &exts));
    assert!(!qlipq::config::has_video_ext("noext", &exts));
    assert!(!qlipq::config::has_video_ext("..", &exts));
    assert!(!qlipq::config::has_video_ext("clip.mp4.txt", &exts));
    assert!(qlipq::config::has_video_ext("x.", &vec![String::new()]));
}

#[test]
fn config_text_parses_onto_defaults() {
    use_config_text();
}

fn use_config_text() {
    let cfg = qlipq::config_json::parse(r#"{ "$schema": "./config.schema.json", "outputFolder": "E:/Out", "output": { "crf": 30.9, "fps": 1e3, "videoBitrateKbps": 99999999999999999999 } }"#);
    assert_eq!(cfg.output_folder, "E:/Out");
    assert_eq!(cfg.output.crf, 30);
    assert_eq!(cfg.output.fps, 1000);
    assert_eq!(cfg.output.video_bitrate_kbps, i64::MAX);
    assert_eq!(qlipq::config_json::parse("not json at all"), AppConfig::default());
    assert_eq!(qlipq::config_json::parse(""), AppConfig::default());
    assert_eq!(qlipq::config_json::parse("[1, 2]"), AppConfig::default());
    let neg = qlipq::config_json::parse(r#"{ "output": { "crf": -0.5, "maxHeight": -1e30 } }"#);
    assert_eq!(neg.output.crf, 0);
    assert_eq!(neg.output.max_height, i64::MIN);
}

#[test]
fn missing_fields_default_and_schema_key_ignored() {
    let cfg = desktop_config::parse(r#"{ "$schema": "./config.schema.json", "outputFolder": "E:/Out" }"#);
    assert_eq!(cfg, DesktopConfig { output_folder: "E:/Out".into(), ..Default::default() });
}

#[test]
fn partial_nested_object_fills_defaults() {
    let cfg = desktop_config::parse(r#"{ "output": { "crf": 30 } }"#);
    assert_eq!(cfg.output.crf, 30);
    assert_eq!(cfg.output.encoder_preset, DesktopConfig::default().output.encoder_preset);
}

#[test]
fn keybinds_default_to_premiere() {
    let cfg = desktop_config::parse("{}");
    assert_eq!(cfg.keybinds.play_pause, "Space");
    assert_eq!(cfg.keybinds.set_in, "I");
    assert_eq!(cfg.keybinds.export, "Ctrl+M");
}

#[test]
fn malformed_falls_back_to_default() {
    assert_eq!(desktop_config::parse("not json at all"), DesktopConfig::default());
}

#[test]
fn parse_fills_in_missing_fields() {
    let merged = desktop_config::parse(r#"{"outputFolder":"D:/out"}"#);
    assert_eq!(merged.output_folder, "D:/out");
    assert_eq!(merged.naming_template, DesktopConfig::default().naming_template);
}

#[test]
fn parse_tolerates_empty_and_invalid_json() {
    assert_eq!(desktop_config::parse("").naming_template, "{date}_{source}_{name}");
    assert_eq!(desktop_config::parse("not json").naming_template, "{date}_{source}_{name}");
}

#[test]
fn parse_deep_merges_output_keeping_defaults() {
    let merged = desktop_config::parse(r#"{"output":{"qualityMode":"bitrate"}}"#);
    assert_eq!(merged.output.quality_mode, QualityMode::Bitrate);
    assert_eq!(merged.output.audio_bitrate_kbps, OutputSettings::default().audio_bitrate_kbps);
    assert_eq!(merged.output.container, ContainerFormat::Mp4);
}

#[test]
fn parse_accepts_numbers_as_is() {
    let merged = desktop_config::parse(r#"{"output":{"crf":99}}"#);
    assert_eq!(merged.output.crf, 99);
}

#[test]
fn parse_reverts_to_default_on_invalid_value() {
    let merged = desktop_config::parse(r#"{"outputFolder":"D:/out","output":{"qualityPreset":"ultra"}}"#);
    assert_eq!(merged, DesktopConfig::default());
}

#[test]
fn desktop_reader_is_strict_and_reads_key_bindings() {
    let cfg = desktop_config::parse(
        r#"{"autoplay":false,"debug":true,"hdrPreviewGamma":2.2,"keybinds":{"playPause":"K","export":"Ctrl+E"},"extra":[1]}"#,
    );
    assert!(!cfg.autoplay);
    assert!(cfg.debug);
    assert_eq!(cfg.keybinds.play_pause, "K");
    assert_eq!(cfg.keybinds.export, "Ctrl+E");
    assert_eq!(cfg.keybinds.set_in, "I");
    let d = DesktopConfig::default();
    for bad in [
        r#"{"output":{"crf":30.5}}"#,
        r#"{"output":{"crf":1e3}}"#,
        r#"{"hdrPreviewGamma":"2"}"#,
        r#"{"autoplay":1}"#,
        r#"{"outputFolder":null}"#,
        r#"{"watchedFolders":["a",1]}"#,
        r#"{"keybinds":{"setIn":5}}"#,
        r#"[[], "", [], "", 1.0, true, false, {}, {}, {}, "extra"]"#,
        "5",
    ] {
        assert_eq!(desktop_config::parse(bad), d, "{bad}");
    }
    let by_position = desktop_config::parse(r#"[["D:/rec"], "E:/out"]"#);
    assert_eq!(by_position.watched_folders, vec!["D:/rec".to_string()]);
    assert_eq!(by_position.output_folder, "E:/out");
    assert_eq!(by_position.keybinds, d.keybinds);
}
