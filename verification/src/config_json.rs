//! Lenient reading of `config.json` documents onto defaults, and the document written back.
//!
//! A document is held as a [`JsonValue`]: the JSON data model with each number given by its integer
//! reading. Missing fields keep defaults, present-but-wrong-typed fields keep defaults, enum values
//! are matched by name, a negative `crf` reverts to 20 and one above 51 clamps to 51; the written
//! document carries a `$schema` reference.

use vstd::prelude::*;
use crate::config::{codec_token, container_ext, default_after_export, default_app_config, default_output_settings, strs, AfterExportAction, AfterExportSettings, AfterExportSettingsModel, AppConfig, AppConfigModel, ContainerFormat, OutputSettings, OutputSettingsModel, QualityMode, QualityPreset, VideoCodecChoice};
use crate::text::str_eq;
use crate::json_text::{json_document, lower, lower_spec, parse_json};

verus! {

/// A JSON value. `Number` carries the integer reading of a JSON number (an integer as is, a
/// fraction truncated toward zero, saturating at the `i64` range); `Object` keeps its members in
/// order.
#[derive(Debug)]
pub enum JsonValue {
    Null,
    Bool(bool),
    Number(i64),
    Str(String),
    Array(Vec<JsonValue>),
    Object(Vec<(String, JsonValue)>),
}

/// The mathematical value of a [`JsonValue`].
pub enum JsonModel {
    Null,
    Bool(bool),
    Number(i64),
    Str(Seq<char>),
    Array(Seq<JsonModel>),
    Object(Seq<(Seq<char>, JsonModel)>),
}

pub open spec fn json_model(v: JsonValue) -> JsonModel
    decreases v,
{
    match v {
        JsonValue::Null => JsonModel::Null,
        JsonValue::Bool(b) => JsonModel::Bool(b),
        JsonValue::Number(n) => JsonModel::Number(n),
        JsonValue::Str(s) => JsonModel::Str(s@),
        JsonValue::Array(a) => JsonModel::Array(
            Seq::new(
                a@.len(),
                |i: int|
                    if 0 <= i < a@.len() {
                        json_model(a@[i])
                    } else {
                        JsonModel::Null
                    },
            ),
        ),
        JsonValue::Object(o) => JsonModel::Object(
            Seq::new(
                o@.len(),
                |i: int|
                    if 0 <= i < o@.len() {
                        (o@[i].0@, json_model(o@[i].1))
                    } else {
                        (Seq::empty(), JsonModel::Null)
                    },
            ),
        ),
    }
}

impl View for JsonValue {
    type V = JsonModel;

    open spec fn view(&self) -> JsonModel {
        json_model(*self)
    }
}

} // verus!

verus! {

/// `$schema` reference stamped onto written config documents.
pub const SCHEMA_URL: &'static str = "https://qlipq.com/schema/config.json";

/// The members of an object, as a model.
pub open spec fn members_model(o: Seq<(String, JsonValue)>) -> Seq<(Seq<char>, JsonModel)> {
    Seq::new(o.len(), |i: int| (o[i].0@, o[i].1@))
}

pub proof fn lemma_object_model(o: Vec<(String, JsonValue)>)
    ensures
        JsonValue::Object(o)@ == JsonModel::Object(members_model(o@)),
{
    let a = members_model(o@);
    let m = json_model(JsonValue::Object(o));
    match m {
        JsonModel::Object(b) => {
            assert(a =~= b);
        },
        _ => {},
    }
}

pub proof fn lemma_array_model(a: Vec<JsonValue>)
    ensures
        JsonValue::Array(a)@ == JsonModel::Array(Seq::new(a@.len(), |i: int| a@[i]@)),
{
    let x = Seq::new(a@.len(), |i: int| a@[i]@);
    let m = json_model(JsonValue::Array(a));
    match m {
        JsonModel::Array(y) => {
            assert(x =~= y);
        },
        _ => {},
    }
}

/// Position of the first member named `key`, or -1 (object keys are unique in parsed documents).
pub open spec fn key_index(e: Seq<(Seq<char>, JsonModel)>, key: Seq<char>) -> int
    decreases e.len(),
{
    if e.len() == 0 {
        -1
    } else {
        let k = key_index(e.drop_last(), key);
        if k >= 0 {
            k
        } else if e.last().0 == key {
            e.len() - 1
        } else {
            -1
        }
    }
}

pub proof fn lemma_key_index(e: Seq<(Seq<char>, JsonModel)>, key: Seq<char>)
    ensures
        -1 <= key_index(e, key) < e.len(),
        key_index(e, key) >= 0 ==> e[key_index(e, key)].0 == key,
        key_index(e, key) < 0 ==> forall|j: int| 0 <= j < e.len() ==> e[j].0 != key,
    decreases e.len(),
{
    if e.len() > 0 {
        lemma_key_index(e.drop_last(), key);
        assert forall|j: int| 0 <= j < e.len() - 1 implies e.drop_last()[j] == e[j] by {}
    }
}

/// The value of the member named `key`, if any.
pub open spec fn member(e: Seq<(Seq<char>, JsonModel)>, key: Seq<char>) -> Option<JsonModel> {
    let k = key_index(e, key);
    if k >= 0 {
        Some(e[k].1)
    } else {
        None
    }
}

pub open spec fn member_str(e: Seq<(Seq<char>, JsonModel)>, key: Seq<char>) -> Option<Seq<char>> {
    match member(e, key) {
        Some(JsonModel::Str(s)) => Some(s),
        _ => None,
    }
}

pub open spec fn member_int(e: Seq<(Seq<char>, JsonModel)>, key: Seq<char>) -> Option<i64> {
    match member(e, key) {
        Some(JsonModel::Number(n)) => Some(n),
        _ => None,
    }
}

pub open spec fn member_obj(e: Seq<(Seq<char>, JsonModel)>, key: Seq<char>) -> Option<
    Seq<(Seq<char>, JsonModel)>,
> {
    match member(e, key) {
        Some(JsonModel::Object(o)) => Some(o),
        _ => None,
    }
}

/// The string elements of an array, in order (other elements are skipped).
pub open spec fn json_strings(a: Seq<JsonModel>) -> Seq<Seq<char>>
    decreases a.len(),
{
    if a.len() == 0 {
        Seq::empty()
    } else {
        let p = json_strings(a.drop_last());
        match a.last() {
            JsonModel::Str(s) => p.push(s),
            _ => p,
        }
    }
}

pub open spec fn member_str_list(e: Seq<(Seq<char>, JsonModel)>, key: Seq<char>) -> Option<
    Seq<Seq<char>>,
> {
    match member(e, key) {
        Some(JsonModel::Array(a)) => Some(json_strings(a)),
        _ => None,
    }
}

pub open spec fn or_default<T>(o: Option<T>, d: T) -> T {
    match o {
        Some(v) => v,
        None => d,
    }
}

pub open spec fn after_action_named(s: Option<Seq<char>>, d: AfterExportAction) -> AfterExportAction {
    if s == Some("nothing"@) {
        AfterExportAction::Nothing
    } else if s == Some("delete"@) {
        AfterExportAction::Delete
    } else if s == Some("move"@) {
        AfterExportAction::Move
    } else if s == Some("rename"@) {
        AfterExportAction::Rename
    } else if s == Some("prompt"@) {
        AfterExportAction::Prompt
    } else {
        d
    }
}

pub open spec fn quality_mode_named(s: Option<Seq<char>>, d: QualityMode) -> QualityMode {
    if s == Some("preset"@) {
        QualityMode::Preset
    } else if s == Some("crf"@) {
        QualityMode::Crf
    } else if s == Some("bitrate"@) {
        QualityMode::Bitrate
    } else if s == Some("vbr"@) {
        QualityMode::Vbr
    } else {
        d
    }
}

pub open spec fn quality_preset_named(s: Option<Seq<char>>, d: QualityPreset) -> QualityPreset {
    if s == Some("original"@) {
        QualityPreset::Original
    } else if s == Some("high"@) {
        QualityPreset::High
    } else if s == Some("balanced"@) {
        QualityPreset::Balanced
    } else if s == Some("small"@) {
        QualityPreset::Small
    } else {
        d
    }
}

pub open spec fn video_codec_named(s: Option<Seq<char>>, d: VideoCodecChoice) -> VideoCodecChoice {
    if s == Some("libx264"@) {
        VideoCodecChoice::Libx264
    } else if s == Some("libx265"@) {
        VideoCodecChoice::Libx265
    } else {
        d
    }
}

pub open spec fn container_named(s: Option<Seq<char>>, d: ContainerFormat) -> ContainerFormat {
    if s == Some("mp4"@) {
        ContainerFormat::Mp4
    } else if s == Some("mkv"@) {
        ContainerFormat::Mkv
    } else {
        d
    }
}

/// A stored `crf`: negative reverts to the default 20, above 51 clamps to 51.
pub open spec fn repaired_crf(c: i64) -> i64 {
    if c < 0 {
        20
    } else if c > 51 {
        51
    } else {
        c
    }
}

pub open spec fn after_export_from(e: Seq<(Seq<char>, JsonModel)>) -> AfterExportSettingsModel {
    let d = default_after_export();
    AfterExportSettingsModel {
        action: after_action_named(member_str(e, "action"@), d.action),
        move_folder: or_default(member_str(e, "moveFolder"@), d.move_folder),
        rename_prefix: or_default(member_str(e, "renamePrefix"@), d.rename_prefix),
        rename_suffix: or_default(member_str(e, "renameSuffix"@), d.rename_suffix),
    }
}

pub open spec fn output_from(e: Seq<(Seq<char>, JsonModel)>) -> OutputSettingsModel {
    let d = default_output_settings();
    OutputSettingsModel {
        quality_mode: quality_mode_named(member_str(e, "qualityMode"@), d.quality_mode),
        quality_preset: quality_preset_named(member_str(e, "qualityPreset"@), d.quality_preset),
        crf: match member_int(e, "crf"@) {
            Some(c) => repaired_crf(c),
            None => d.crf,
        },
        video_bitrate_kbps: or_default(member_int(e, "videoBitrateKbps"@), d.video_bitrate_kbps),
        encoder_preset: or_default(member_str(e, "encoderPreset"@), d.encoder_preset),
        video_codec: video_codec_named(member_str(e, "videoCodec"@), d.video_codec),
        container: container_named(member_str(e, "container"@), d.container),
        fps: or_default(member_int(e, "fps"@), d.fps),
        max_height: or_default(member_int(e, "maxHeight"@), d.max_height),
        audio_bitrate_kbps: or_default(member_int(e, "audioBitrateKbps"@), d.audio_bitrate_kbps),
    }
}

/// The configuration a document describes: defaults, overridden by each well-typed field present.
/// A document that is not an object gives the defaults.
pub open spec fn config_from_json_spec(doc: JsonModel) -> AppConfigModel {
    let d = default_app_config();
    match doc {
        JsonModel::Object(o) => AppConfigModel {
            watched_folders: or_default(member_str_list(o, "watchedFolders"@), d.watched_folders),
            output_folder: or_default(member_str(o, "outputFolder"@), d.output_folder),
            video_extensions: or_default(
                member_str_list(o, "videoExtensions"@),
                d.video_extensions,
            ),
            naming_template: or_default(member_str(o, "namingTemplate"@), d.naming_template),
            ffmpeg_path: or_default(member_str(o, "ffmpegPath"@), d.ffmpeg_path),
            ffprobe_path: or_default(member_str(o, "ffprobePath"@), d.ffprobe_path),
            after_export: match member_obj(o, "afterExport"@) {
                Some(ae) => after_export_from(ae),
                None => d.after_export,
            },
            output: match member_obj(o, "output"@) {
                Some(out) => output_from(out),
                None => d.output,
            },
        },
        _ => d,
    }
}

/// The member named `key` of an object.
pub fn get_member<'a>(e: &'a Vec<(String, JsonValue)>, key: &str) -> (r: Option<&'a JsonValue>)
    ensures
        match r {
            Some(v) => member(members_model(e@), key@) == Some(v@),
            None => member(members_model(e@), key@).is_none(),
        },
{
    let ghost m = members_model(e@);
    let mut i: usize = 0;
    while i < e.len()
        invariant
            i <= e.len(),
            m == members_model(e@),
            key_index(m.take(i as int), key@) == -1,
        decreases e.len() - i,
    {
        assert(m.take(i as int + 1).drop_last() =~= m.take(i as int));
        if str_eq(e[i].0.as_str(), key) {
            proof {
                lemma_key_index_prefix(m, i as int + 1, key@);
            }
            return Some(&e[i].1);
        }
        i += 1;
    }
    assert(m.take(e.len() as int) =~= m);
    None
}

pub proof fn lemma_key_index_prefix(e: Seq<(Seq<char>, JsonModel)>, k: int, key: Seq<char>)
    requires
        0 <= k <= e.len(),
        key_index(e.take(k), key) >= 0,
    ensures
        key_index(e, key) == key_index(e.take(k), key),
    decreases e.len() - k,
{
    if k < e.len() {
        assert(e.take(k + 1).drop_last() =~= e.take(k));
        lemma_key_index_prefix(e, k + 1, key);
    } else {
        assert(e.take(k) =~= e);
    }
}

/// A string member (`read_str`).
pub fn read_string(e: &Vec<(String, JsonValue)>, key: &str) -> (r: Option<String>)
    ensures
        match r {
            Some(s) => member_str(members_model(e@), key@) == Some(s@),
            None => member_str(members_model(e@), key@).is_none(),
        },
{
    match get_member(e, key) {
        Some(JsonValue::Str(s)) => Some(s.clone()),
        _ => None,
    }
}

/// An integer member (`read_int`).
pub fn read_int(e: &Vec<(String, JsonValue)>, key: &str) -> (r: Option<i64>)
    ensures
        r == member_int(members_model(e@), key@),
{
    match get_member(e, key) {
        Some(JsonValue::Number(n)) => Some(*n),
        _ => None,
    }
}

/// The string elements of an array member (`read_string_list`).
pub fn read_string_list(e: &Vec<(String, JsonValue)>, key: &str) -> (r: Option<Vec<String>>)
    ensures
        match r {
            Some(v) => member_str_list(members_model(e@), key@) == Some(strs(v@)),
            None => member_str_list(members_model(e@), key@).is_none(),
        },
{
    match get_member(e, key) {
        Some(JsonValue::Array(a)) => {
            proof {
                lemma_array_model(*a);
            }
            let ghost am = Seq::new(a@.len(), |i: int| a@[i]@);
            let mut out: Vec<String> = Vec::new();
            let mut i: usize = 0;
            assert(am.take(0) =~= Seq::<JsonModel>::empty());
            assert(strs(out@) =~= Seq::<Seq<char>>::empty());
            while i < a.len()
                invariant
                    i <= a.len(),
                    am == Seq::new(a@.len(), |i: int| a@[i]@),
                    strs(out@) == json_strings(am.take(i as int)),
                decreases a.len() - i,
            {
                assert(am.take(i as int + 1).drop_last() =~= am.take(i as int));
                match &a[i] {
                    JsonValue::Str(s) => {
                        out.push(s.clone());
                        assert(strs(out@) =~= json_strings(am.take(i as int)).push(s@));
                    },
                    _ => {},
                }
                i += 1;
            }
            assert(am.take(a.len() as int) =~= am);
            Some(out)
        },
        _ => None,
    }
}

pub fn parse_after_action(s: &Option<String>, default: AfterExportAction) -> (r: AfterExportAction)
    ensures
        r == after_action_named(opt_view(s), default),
{
    match s {
        Some(v) => {
            let t = v.as_str();
            if str_eq(t, "nothing") {
                AfterExportAction::Nothing
            } else if str_eq(t, "delete") {
                AfterExportAction::Delete
            } else if str_eq(t, "move") {
                AfterExportAction::Move
            } else if str_eq(t, "rename") {
                AfterExportAction::Rename
            } else if str_eq(t, "prompt") {
                AfterExportAction::Prompt
            } else {
                default
            }
        },
        None => default,
    }
}

pub fn parse_quality_mode(s: &Option<String>, default: QualityMode) -> (r: QualityMode)
    ensures
        r == quality_mode_named(opt_view(s), default),
{
    match s {
        Some(v) => {
            let t = v.as_str();
            if str_eq(t, "preset") {
                QualityMode::Preset
            } else if str_eq(t, "crf") {
                QualityMode::Crf
            } else if str_eq(t, "bitrate") {
                QualityMode::Bitrate
            } else if str_eq(t, "vbr") {
                QualityMode::Vbr
            } else {
                default
            }
        },
        None => default,
    }
}

pub fn parse_quality_preset(s: &Option<String>, default: QualityPreset) -> (r: QualityPreset)
    ensures
        r == quality_preset_named(opt_view(s), default),
{
    match s {
        Some(v) => {
            let t = v.as_str();
            if str_eq(t, "original") {
                QualityPreset::Original
            } else if str_eq(t, "high") {
                QualityPreset::High
            } else if str_eq(t, "balanced") {
                QualityPreset::Balanced
            } else if str_eq(t, "small") {
                QualityPreset::Small
            } else {
                default
            }
        },
        None => default,
    }
}

pub fn parse_video_codec(s: &Option<String>, default: VideoCodecChoice) -> (r: VideoCodecChoice)
    ensures
        r == video_codec_named(opt_view(s), default),
{
    match s {
        Some(v) => {
            let t = v.as_str();
            if str_eq(t, "libx264") {
                VideoCodecChoice::Libx264
            } else if str_eq(t, "libx265") {
                VideoCodecChoice::Libx265
            } else {
                default
            }
        },
        None => default,
    }
}

pub fn parse_container(s: &Option<String>, default: ContainerFormat) -> (r: ContainerFormat)
    ensures
        r == container_named(opt_view(s), default),
{
    match s {
        Some(v) => {
            let t = v.as_str();
            if str_eq(t, "mp4") {
                ContainerFormat::Mp4
            } else if str_eq(t, "mkv") {
                ContainerFormat::Mkv
            } else {
                default
            }
        },
        None => default,
    }
}

pub open spec fn opt_view(s: &Option<String>) -> Option<Seq<char>> {
    match s {
        Some(v) => Some(v@),
        None => None,
    }
}

/// The `afterExport` section read onto its defaults.
pub fn after_export_from_json(ae: &Vec<(String, JsonValue)>) -> (r: AfterExportSettings)
    ensures
        r@ == after_export_from(members_model(ae@)),
{
    let mut a = AfterExportSettings::default();
    let action = read_string(ae, "action");
    a.action = parse_after_action(&action, a.action);
    if let Some(v) = read_string(ae, "moveFolder") {
        a.move_folder = v;
    }
    if let Some(v) = read_string(ae, "renamePrefix") {
        a.rename_prefix = v;
    }
    if let Some(v) = read_string(ae, "renameSuffix") {
        a.rename_suffix = v;
    }
    a
}

/// The `output` section read onto its defaults.
pub fn output_from_json(out: &Vec<(String, JsonValue)>) -> (r: OutputSettings)
    ensures
        r@ == output_from(members_model(out@)),
{
    let mut s = OutputSettings::default();
    let qm = read_string(out, "qualityMode");
    s.quality_mode = parse_quality_mode(&qm, s.quality_mode);
    let qp = read_string(out, "qualityPreset");
    s.quality_preset = parse_quality_preset(&qp, s.quality_preset);
    if let Some(c) = read_int(out, "crf") {
        s.crf = if c < 0 {
            20
        } else if c > 51 {
            51
        } else {
            c
        };
    }
    if let Some(v) = read_int(out, "videoBitrateKbps") {
        s.video_bitrate_kbps = v;
    }
    if let Some(v) = read_string(out, "encoderPreset") {
        s.encoder_preset = v;
    }
    let vc = read_string(out, "videoCodec");
    s.video_codec = parse_video_codec(&vc, s.video_codec);
    let ct = read_string(out, "container");
    s.container = parse_container(&ct, s.container);
    if let Some(v) = read_int(out, "fps") {
        s.fps = v;
    }
    if let Some(v) = read_int(out, "maxHeight") {
        s.max_height = v;
    }
    if let Some(v) = read_int(out, "audioBitrateKbps") {
        s.audio_bitrate_kbps = v;
    }
    s
}

/// Parse a config document onto defaults, tolerating missing and wrongly typed fields.
pub fn config_from_json(doc: &JsonValue) -> (r: AppConfig)
    ensures
        r@ == config_from_json_spec(doc@),
{
    let mut cfg = AppConfig::default();
    let obj = match doc {
        JsonValue::Object(o) => o,
        _ => {
            return cfg;
        },
    };
    proof {
        lemma_object_model(*obj);
    }
    if let Some(v) = read_string_list(obj, "watchedFolders") {
        cfg.watched_folders = v;
    }
    if let Some(v) = read_string(obj, "outputFolder") {
        cfg.output_folder = v;
    }
    if let Some(v) = read_string_list(obj, "videoExtensions") {
        cfg.video_extensions = v;
    }
    if let Some(v) = read_string(obj, "namingTemplate") {
        cfg.naming_template = v;
    }
    if let Some(v) = read_string(obj, "ffmpegPath") {
        cfg.ffmpeg_path = v;
    }
    if let Some(v) = read_string(obj, "ffprobePath") {
        cfg.ffprobe_path = v;
    }
    match get_member(obj, "afterExport") {
        Some(JsonValue::Object(ae)) => {
            proof {
                lemma_object_model(*ae);
            }
            cfg.after_export = after_export_from_json(ae);
        },
        _ => {},
    }
    match get_member(obj, "output") {
        Some(JsonValue::Object(out)) => {
            proof {
                lemma_object_model(*out);
            }
            cfg.output = output_from_json(out);
        },
        _ => {},
    }
    cfg
}

} // verus!

verus! {

pub open spec fn after_action_name(a: AfterExportAction) -> Seq<char> {
    match a {
        AfterExportAction::Nothing => "nothing"@,
        AfterExportAction::Delete => "delete"@,
        AfterExportAction::Move => "move"@,
        AfterExportAction::Rename => "rename"@,
        AfterExportAction::Prompt => "prompt"@,
    }
}

pub open spec fn quality_mode_name(m: QualityMode) -> Seq<char> {
    match m {
        QualityMode::Preset => "preset"@,
        QualityMode::Crf => "crf"@,
        QualityMode::Bitrate => "bitrate"@,
        QualityMode::Vbr => "vbr"@,
    }
}

pub open spec fn quality_preset_name(p: QualityPreset) -> Seq<char> {
    match p {
        QualityPreset::Original => "original"@,
        QualityPreset::High => "high"@,
        QualityPreset::Balanced => "balanced"@,
        QualityPreset::Small => "small"@,
    }
}

pub open spec fn string_array(l: Seq<Seq<char>>) -> JsonModel {
    JsonModel::Array(Seq::new(l.len(), |i: int| JsonModel::Str(l[i])))
}

pub open spec fn after_export_to_json_spec(a: AfterExportSettingsModel) -> JsonModel {
    JsonModel::Object(
        seq![
            ("action"@, JsonModel::Str(after_action_name(a.action))),
            ("moveFolder"@, JsonModel::Str(a.move_folder)),
            ("renamePrefix"@, JsonModel::Str(a.rename_prefix)),
            ("renameSuffix"@, JsonModel::Str(a.rename_suffix)),
        ],
    )
}

pub open spec fn output_to_json_spec(o: OutputSettingsModel) -> JsonModel {
    JsonModel::Object(
        seq![
            ("audioBitrateKbps"@, JsonModel::Number(o.audio_bitrate_kbps)),
            ("container"@, JsonModel::Str(container_ext(o.container))),
            ("crf"@, JsonModel::Number(o.crf)),
            ("encoderPreset"@, JsonModel::Str(o.encoder_preset)),
            ("fps"@, JsonModel::Number(o.fps)),
            ("maxHeight"@, JsonModel::Number(o.max_height)),
            ("qualityMode"@, JsonModel::Str(quality_mode_name(o.quality_mode))),
            ("qualityPreset"@, JsonModel::Str(quality_preset_name(o.quality_preset))),
            ("videoBitrateKbps"@, JsonModel::Number(o.video_bitrate_kbps)),
            ("videoCodec"@, JsonModel::Str(codec_token(o.video_codec))),
        ],
    )
}

/// The document written for a configuration: every field under its camelCase name (members in
/// sorted order), led by the `$schema` reference.
pub open spec fn config_to_json_spec(c: AppConfigModel) -> JsonModel {
    JsonModel::Object(
        seq![
            ("$schema"@, JsonModel::Str(SCHEMA_URL@)),
            ("afterExport"@, after_export_to_json_spec(c.after_export)),
            ("ffmpegPath"@, JsonModel::Str(c.ffmpeg_path)),
            ("ffprobePath"@, JsonModel::Str(c.ffprobe_path)),
            ("namingTemplate"@, JsonModel::Str(c.naming_template)),
            ("output"@, output_to_json_spec(c.output)),
            ("outputFolder"@, JsonModel::Str(c.output_folder)),
            ("videoExtensions"@, string_array(c.video_extensions)),
            ("watchedFolders"@, string_array(c.watched_folders)),
        ],
    )
}

fn str_value(s: &str) -> (r: JsonValue)
    ensures
        r@ == JsonModel::Str(s@),
{
    JsonValue::Str(s.to_string())
}

fn string_value(s: &String) -> (r: JsonValue)
    ensures
        r@ == JsonModel::Str(s@),
{
    JsonValue::Str(s.clone())
}

/// A JSON array of strings.
pub fn string_array_value(l: &Vec<String>) -> (r: JsonValue)
    ensures
        r@ == string_array(strs(l@)),
{
    let mut items: Vec<JsonValue> = Vec::new();
    let mut i: usize = 0;
    while i < l.len()
        invariant
            i <= l.len(),
            items.len() == i,
            forall|k: int| 0 <= k < i ==> #[trigger] items@[k]@ == JsonModel::Str(l@[k]@),
        decreases l.len() - i,
    {
        items.push(string_value(&l[i]));
        i += 1;
    }
    proof {
        lemma_array_model(items);
        assert(Seq::new(items@.len(), |k: int| items@[k]@) =~= Seq::new(
            strs(l@).len(),
            |k: int| JsonModel::Str(strs(l@)[k]),
        ));
    }
    JsonValue::Array(items)
}

fn after_action_text(a: AfterExportAction) -> (r: &'static str)
    ensures
        r@ == after_action_name(a),
{
    match a {
        AfterExportAction::Nothing => "nothing",
        AfterExportAction::Delete => "delete",
        AfterExportAction::Move => "move",
        AfterExportAction::Rename => "rename",
        AfterExportAction::Prompt => "prompt",
    }
}

fn quality_mode_text(m: QualityMode) -> (r: &'static str)
    ensures
        r@ == quality_mode_name(m),
{
    match m {
        QualityMode::Preset => "preset",
        QualityMode::Crf => "crf",
        QualityMode::Bitrate => "bitrate",
        QualityMode::Vbr => "vbr",
    }
}

fn quality_preset_text(p: QualityPreset) -> (r: &'static str)
    ensures
        r@ == quality_preset_name(p),
{
    match p {
        QualityPreset::Original => "original",
        QualityPreset::High => "high",
        QualityPreset::Balanced => "balanced",
        QualityPreset::Small => "small",
    }
}

fn member_entry(key: &str, v: JsonValue) -> (r: (String, JsonValue))
    ensures
        r.0@ == key@,
        r.1@ == v@,
{
    (key.to_string(), v)
}

/// The `afterExport` section as a document.
pub fn after_export_to_json(a: &AfterExportSettings) -> (r: JsonValue)
    ensures
        r@ == after_export_to_json_spec(a@),
{
    let mut m: Vec<(String, JsonValue)> = Vec::new();
    m.push(member_entry("action", str_value(after_action_text(a.action))));
    m.push(member_entry("moveFolder", string_value(&a.move_folder)));
    m.push(member_entry("renamePrefix", string_value(&a.rename_prefix)));
    m.push(member_entry("renameSuffix", string_value(&a.rename_suffix)));
    proof {
        lemma_object_model(m);
        match after_export_to_json_spec(a@) {
            JsonModel::Object(e) => {
                assert(members_model(m@) =~= e);
            },
            _ => {},
        }
    }
    JsonValue::Object(m)
}

} // verus!

verus! {

/// The `output` section as a document.
pub fn output_to_json(o: &OutputSettings) -> (r: JsonValue)
    ensures
        r@ == output_to_json_spec(o@),
{
    let mut m: Vec<(String, JsonValue)> = Vec::new();
    m.push(member_entry("audioBitrateKbps", JsonValue::Number(o.audio_bitrate_kbps)));
    m.push(member_entry("container", str_value(o.container.extension())));
    m.push(member_entry("crf", JsonValue::Number(o.crf)));
    m.push(member_entry("encoderPreset", string_value(&o.encoder_preset)));
    m.push(member_entry("fps", JsonValue::Number(o.fps)));
    m.push(member_entry("maxHeight", JsonValue::Number(o.max_height)));
    m.push(member_entry("qualityMode", str_value(quality_mode_text(o.quality_mode))));
    m.push(member_entry("qualityPreset", str_value(quality_preset_text(o.quality_preset))));
    m.push(member_entry("videoBitrateKbps", JsonValue::Number(o.video_bitrate_kbps)));
    m.push(member_entry("videoCodec", str_value(o.video_codec.to_ffmpeg())));
    proof {
        lemma_object_model(m);
        match output_to_json_spec(o@) {
            JsonModel::Object(e) => {
                assert(members_model(m@) =~= e);
            },
            _ => {},
        }
    }
    JsonValue::Object(m)
}

/// Serialize a configuration to its document, stamping the `$schema` reference.
pub fn config_to_json(cfg: &AppConfig) -> (r: JsonValue)
    ensures
        r@ == config_to_json_spec(cfg@),
{
    let mut m: Vec<(String, JsonValue)> = Vec::new();
    m.push(member_entry("$schema", str_value(SCHEMA_URL)));
    m.push(member_entry("afterExport", after_export_to_json(&cfg.after_export)));
    m.push(member_entry("ffmpegPath", string_value(&cfg.ffmpeg_path)));
    m.push(member_entry("ffprobePath", string_value(&cfg.ffprobe_path)));
    m.push(member_entry("namingTemplate", string_value(&cfg.naming_template)));
    m.push(member_entry("output", output_to_json(&cfg.output)));
    m.push(member_entry("outputFolder", string_value(&cfg.output_folder)));
    m.push(member_entry("videoExtensions", string_array_value(&cfg.video_extensions)));
    m.push(member_entry("watchedFolders", string_array_value(&cfg.watched_folders)));
    proof {
        lemma_object_model(m);
        match config_to_json_spec(cfg@) {
            JsonModel::Object(e) => {
                assert(members_model(m@) =~= e);
            },
            _ => {},
        }
    }
    JsonValue::Object(m)
}

} // verus!

verus! {

/// A member that no earlier member shares a name with is the one found.
pub proof fn lemma_key_at(e: Seq<(Seq<char>, JsonModel)>, k: int, key: Seq<char>)
    requires
        0 <= k < e.len(),
        e[k].0 == key,
        forall|j: int| 0 <= j < k ==> e[j].0 != key,
    ensures
        key_index(e, key) == k,
    decreases e.len(),
{
    let p = e.drop_last();
    lemma_key_index(p, key);
    if k == e.len() - 1 {
        if key_index(p, key) >= 0 {
            assert(p[key_index(p, key)] == e[key_index(p, key)]);
        }
    } else {
        assert(p[k] == e[k]);
        assert forall|j: int| 0 <= j < k implies p[j].0 != key by {
            assert(p[j] == e[j]);
        }
        lemma_key_at(p, k, key);
    }
}

pub proof fn lemma_json_strings_of_strings(l: Seq<Seq<char>>)
    ensures
        json_strings(Seq::new(l.len(), |i: int| JsonModel::Str(l[i]))) == l,
    decreases l.len(),
{
    let a = Seq::new(l.len(), |i: int| JsonModel::Str(l[i]));
    if l.len() > 0 {
        let l2 = l.drop_last();
        lemma_json_strings_of_strings(l2);
        assert(a.drop_last() =~= Seq::new(l2.len(), |i: int| JsonModel::Str(l2[i])));
        assert(json_strings(a) =~= l);
    } else {
        assert(json_strings(a) =~= l);
    }
}

pub proof fn lemma_enum_names()
    ensures
        forall|a: AfterExportAction, d: AfterExportAction|
            #[trigger] after_action_named(Some(after_action_name(a)), d) == a,
        forall|m: QualityMode, d: QualityMode|
            #[trigger] quality_mode_named(Some(quality_mode_name(m)), d) == m,
        forall|p: QualityPreset, d: QualityPreset|
            #[trigger] quality_preset_named(Some(quality_preset_name(p)), d) == p,
        forall|c: VideoCodecChoice, d: VideoCodecChoice|
            #[trigger] video_codec_named(Some(codec_token(c)), d) == c,
        forall|c: ContainerFormat, d: ContainerFormat|
            #[trigger] container_named(Some(container_ext(c)), d) == c,
{
    reveal_strlit("nothing");
    assert("nothing"@.len() == 7 && "nothing"@[0] == 'n' && "nothing"@[1] == 'o' && "nothing"@[6] == 'g');
    reveal_strlit("delete");
    assert("delete"@.len() == 6 && "delete"@[0] == 'd' && "delete"@[1] == 'e');
    reveal_strlit("move");
    assert("move"@.len() == 4 && "move"@[0] == 'm' && "move"@[1] == 'o');
    reveal_strlit("rename");
    assert("rename"@.len() == 6 && "rename"@[0] == 'r' && "rename"@[1] == 'e');
    reveal_strlit("prompt");
    assert("prompt"@.len() == 6 && "prompt"@[0] == 'p' && "prompt"@[1] == 'r');
    reveal_strlit("preset");
    assert("preset"@.len() == 6 && "preset"@[0] == 'p' && "preset"@[1] == 'r');
    reveal_strlit("crf");
    assert("crf"@.len() == 3 && "crf"@[0] == 'c' && "crf"@[1] == 'r');
    reveal_strlit("bitrate");
    assert("bitrate"@.len() == 7 && "bitrate"@[0] == 'b' && "bitrate"@[1] == 'i' && "bitrate"@[6] == 'e');
    reveal_strlit("vbr");
    assert("vbr"@.len() == 3 && "vbr"@[0] == 'v' && "vbr"@[1] == 'b');
    reveal_strlit("original");
    assert("original"@.len() == 8 && "original"@[0] == 'o' && "original"@[1] == 'r' && "original"@[6] == 'a');
    reveal_strlit("high");
    assert("high"@.len() == 4 && "high"@[0] == 'h' && "high"@[1] == 'i');
    reveal_strlit("balanced");
    assert("balanced"@.len() == 8 && "balanced"@[0] == 'b' && "balanced"@[1] == 'a' && "balanced"@[6] == 'e');
    reveal_strlit("small");
    assert("small"@.len() == 5 && "small"@[0] == 's' && "small"@[1] == 'm');
    reveal_strlit("libx264");
    assert("libx264"@.len() == 7 && "libx264"@[0] == 'l' && "libx264"@[1] == 'i' && "libx264"@[6] == '4');
    reveal_strlit("libx265");
    assert("libx265"@.len() == 7 && "libx265"@[0] == 'l' && "libx265"@[1] == 'i' && "libx265"@[6] == '5');
    reveal_strlit("mp4");
    assert("mp4"@.len() == 3 && "mp4"@[0] == 'm' && "mp4"@[1] == 'p');
    reveal_strlit("mkv");
    assert("mkv"@.len() == 3 && "mkv"@[0] == 'm' && "mkv"@[1] == 'k');
}

pub proof fn lemma_after_export_round_trip(a: AfterExportSettingsModel)
    ensures
        after_export_to_json_spec(a) matches JsonModel::Object(e) && after_export_from(e) == a,
{
    let e = seq![
        ("action"@, JsonModel::Str(after_action_name(a.action))),
        ("moveFolder"@, JsonModel::Str(a.move_folder)),
        ("renamePrefix"@, JsonModel::Str(a.rename_prefix)),
        ("renameSuffix"@, JsonModel::Str(a.rename_suffix)),
    ];
    reveal_strlit("action");
    assert("action"@.len() == 6 && "action"@[0] == 'a');
    reveal_strlit("moveFolder");
    assert("moveFolder"@.len() == 10 && "moveFolder"@[0] == 'm');
    reveal_strlit("renamePrefix");
    assert("renamePrefix"@.len() == 12 && "renamePrefix"@[0] == 'r');
    assert("renamePrefix"@[6] == 'P');
    reveal_strlit("renameSuffix");
    assert("renameSuffix"@.len() == 12 && "renameSuffix"@[0] == 'r');
    assert("renameSuffix"@[6] == 'S');
    lemma_key_at(e, 0, "action"@);
    lemma_key_at(e, 1, "moveFolder"@);
    lemma_key_at(e, 2, "renamePrefix"@);
    lemma_key_at(e, 3, "renameSuffix"@);
    lemma_enum_names();
    assert(after_action_named(Some(after_action_name(a.action)), AfterExportAction::Nothing)
        == a.action);
}

pub proof fn lemma_output_round_trip(o: OutputSettingsModel)
    requires
        0 <= o.crf <= 51,
    ensures
        output_to_json_spec(o) matches JsonModel::Object(e) && output_from(e) == o,
{
    let e = seq![
        ("audioBitrateKbps"@, JsonModel::Number(o.audio_bitrate_kbps)),
        ("container"@, JsonModel::Str(container_ext(o.container))),
        ("crf"@, JsonModel::Number(o.crf)),
        ("encoderPreset"@, JsonModel::Str(o.encoder_preset)),
        ("fps"@, JsonModel::Number(o.fps)),
        ("maxHeight"@, JsonModel::Number(o.max_height)),
        ("qualityMode"@, JsonModel::Str(quality_mode_name(o.quality_mode))),
        ("qualityPreset"@, JsonModel::Str(quality_preset_name(o.quality_preset))),
        ("videoBitrateKbps"@, JsonModel::Number(o.video_bitrate_kbps)),
        ("videoCodec"@, JsonModel::Str(codec_token(o.video_codec))),
    ];
    reveal_strlit("audioBitrateKbps");
    assert("audioBitrateKbps"@.len() == 16 && "audioBitrateKbps"@[0] == 'a');
    reveal_strlit("container");
    assert("container"@.len() == 9 && "container"@[0] == 'c');
    reveal_strlit("crf");
    assert("crf"@.len() == 3 && "crf"@[0] == 'c');
    reveal_strlit("encoderPreset");
    assert("encoderPreset"@.len() == 13 && "encoderPreset"@[0] == 'e');
    reveal_strlit("fps");
    assert("fps"@.len() == 3 && "fps"@[0] == 'f');
    reveal_strlit("maxHeight");
    assert("maxHeight"@.len() == 9 && "maxHeight"@[0] == 'm');
    reveal_strlit("qualityMode");
    assert("qualityMode"@.len() == 11 && "qualityMode"@[0] == 'q');
    reveal_strlit("qualityPreset");
    assert("qualityPreset"@.len() == 13 && "qualityPreset"@[0] == 'q');
    reveal_strlit("videoBitrateKbps");
    assert("videoBitrateKbps"@.len() == 16 && "videoBitrateKbps"@[0] == 'v');
    reveal_strlit("videoCodec");
    assert("videoCodec"@.len() == 10 && "videoCodec"@[0] == 'v');
    lemma_key_at(e, 0, "audioBitrateKbps"@);
    lemma_key_at(e, 1, "container"@);
    lemma_key_at(e, 2, "crf"@);
    lemma_key_at(e, 3, "encoderPreset"@);
    lemma_key_at(e, 4, "fps"@);
    lemma_key_at(e, 5, "maxHeight"@);
    lemma_key_at(e, 6, "qualityMode"@);
    lemma_key_at(e, 7, "qualityPreset"@);
    lemma_key_at(e, 8, "videoBitrateKbps"@);
    lemma_key_at(e, 9, "videoCodec"@);
    lemma_enum_names();
    assert(quality_mode_named(Some(quality_mode_name(o.quality_mode)), QualityMode::Preset)
        == o.quality_mode);
    assert(quality_preset_named(
        Some(quality_preset_name(o.quality_preset)),
        QualityPreset::Original,
    ) == o.quality_preset);
    assert(video_codec_named(Some(codec_token(o.video_codec)), VideoCodecChoice::Libx264)
        == o.video_codec);
    assert(container_named(Some(container_ext(o.container)), ContainerFormat::Mp4)
        == o.container);
}

/// Writing a configuration and reading the document back gives the same configuration, for every
/// configuration whose `crf` lies in the documented 0–51 range.
pub proof fn law_config_json_round_trip(c: AppConfigModel)
    requires
        0 <= c.output.crf <= 51,
    ensures
        config_from_json_spec(config_to_json_spec(c)) == c,
{
    let e = seq![
        ("$schema"@, JsonModel::Str(SCHEMA_URL@)),
        ("afterExport"@, after_export_to_json_spec(c.after_export)),
        ("ffmpegPath"@, JsonModel::Str(c.ffmpeg_path)),
        ("ffprobePath"@, JsonModel::Str(c.ffprobe_path)),
        ("namingTemplate"@, JsonModel::Str(c.naming_template)),
        ("output"@, output_to_json_spec(c.output)),
        ("outputFolder"@, JsonModel::Str(c.output_folder)),
        ("videoExtensions"@, string_array(c.video_extensions)),
        ("watchedFolders"@, string_array(c.watched_folders)),
    ];
    reveal_strlit("$schema");
    assert("$schema"@.len() == 7 && "$schema"@[0] == '$');
    reveal_strlit("afterExport");
    assert("afterExport"@.len() == 11 && "afterExport"@[0] == 'a');
    reveal_strlit("ffmpegPath");
    assert("ffmpegPath"@.len() == 10 && "ffmpegPath"@[0] == 'f');
    reveal_strlit("ffprobePath");
    assert("ffprobePath"@.len() == 11 && "ffprobePath"@[0] == 'f');
    reveal_strlit("namingTemplate");
    assert("namingTemplate"@.len() == 14 && "namingTemplate"@[0] == 'n');
    reveal_strlit("output");
    assert("output"@.len() == 6 && "output"@[0] == 'o');
    reveal_strlit("outputFolder");
    assert("outputFolder"@.len() == 12 && "outputFolder"@[0] == 'o');
    reveal_strlit("videoExtensions");
    assert("videoExtensions"@.len() == 15 && "videoExtensions"@[0] == 'v');
    reveal_strlit("watchedFolders");
    assert("watchedFolders"@.len() == 14 && "watchedFolders"@[0] == 'w');
    lemma_key_at(e, 1, "afterExport"@);
    lemma_key_at(e, 2, "ffmpegPath"@);
    lemma_key_at(e, 3, "ffprobePath"@);
    lemma_key_at(e, 4, "namingTemplate"@);
    lemma_key_at(e, 5, "output"@);
    lemma_key_at(e, 6, "outputFolder"@);
    lemma_key_at(e, 7, "videoExtensions"@);
    lemma_key_at(e, 8, "watchedFolders"@);
    lemma_json_strings_of_strings(c.video_extensions);
    lemma_json_strings_of_strings(c.watched_folders);
    lemma_after_export_round_trip(c.after_export);
    lemma_output_round_trip(c.output);
}

/// What a `config.json` text gives: its document read onto defaults (see
/// [`config_from_json_spec`], each number taken as its [`json_int_spec`]); the defaults for
/// text that is no JSON document.
pub open spec fn parse_spec(text: Seq<char>) -> AppConfigModel {
    match json_document(text) {
        Some(d) => config_from_json_spec(lower_spec(d)),
        None => default_app_config(),
    }
}

/// Parse `config.json` text onto defaults, tolerating missing and wrongly typed fields.
pub fn parse(text: &str) -> (r: AppConfig)
    ensures
        r@ == parse_spec(text@),
{
    match parse_json(text) {
        Some(doc) => config_from_json(&lower(&doc)),
        None => AppConfig::default(),
    }
}

} // verus!
