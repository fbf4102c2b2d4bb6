//! The desktop application's configuration and its strict reader: a document either reads
//! whole, each struct from an object (unknown members ignored, missing ones defaulted) or from
//! an array of its fields in order, or the whole configuration falls back to its defaults.

use vstd::prelude::*;
use crate::config::{
    default_after_export, default_keybinds, default_output_settings, default_video_extensions,
    default_video_extensions_vec, strs, AfterExportAction, AfterExportSettings, AfterExportSettingsModel,
    ContainerFormat, Keybinds, KeybindsModel, OutputSettings, OutputSettingsModel, QualityMode, QualityPreset,
    VideoCodecChoice,
};
use crate::json_text::{json_document, parse_json, JsonRaw, JsonRawModel};
use crate::config::{codec_token, container_ext};
use crate::config_json::{after_action_name, quality_mode_name, quality_preset_name};
use crate::text::{chars_of, dec_int, dec_nat, int_body, is_ascii_digit, parse_i64, parse_i64_spec, str_eq};
use crate::timestamp_law::lemma_dec_nat;

verus! {

// ---------------------------------------------------------------------------------------------
// Fields of a struct document
// ---------------------------------------------------------------------------------------------

/// Position of the first member named `key`, or -1.
pub open spec fn raw_key_index(e: Seq<(Seq<char>, JsonRawModel)>, key: Seq<char>) -> int
    decreases e.len(),
{
    if e.len() == 0 {
        -1
    } else {
        let k = raw_key_index(e.drop_last(), key);
        if k >= 0 {
            k
        } else if e.last().0 == key {
            e.len() - 1
        } else {
            -1
        }
    }
}

proof fn lemma_raw_key_index(e: Seq<(Seq<char>, JsonRawModel)>, key: Seq<char>)
    ensures
        -1 <= raw_key_index(e, key) < e.len(),
    decreases e.len(),
{
    if e.len() > 0 {
        lemma_raw_key_index(e.drop_last(), key);
    }
}

proof fn lemma_raw_key_index_prefix(e: Seq<(Seq<char>, JsonRawModel)>, k: int, key: Seq<char>)
    requires
        0 <= k <= e.len(),
        raw_key_index(e.take(k), key) >= 0,
    ensures
        raw_key_index(e, key) == raw_key_index(e.take(k), key),
    decreases e.len() - k,
{
    if k < e.len() {
        assert(e.take(k + 1).drop_last() =~= e.take(k));
        lemma_raw_key_index_prefix(e, k + 1, key);
    } else {
        assert(e.take(k) =~= e);
    }
}

/// Whether a document can hold a struct of `n` fields: an object, or an array of at most `n`
/// items.
pub open spec fn struct_shape_ok(m: JsonRawModel, n: int) -> bool {
    match m {
        JsonRawModel::Object(_) => true,
        JsonRawModel::Array(a) => a.len() <= n,
        _ => false,
    }
}

/// The field named `key` (at position `pos`) of a struct document: the member of that name of
/// an object, the item at that position of an array; `None` when absent.
pub open spec fn raw_field(m: JsonRawModel, key: Seq<char>, pos: int) -> Option<JsonRawModel> {
    match m {
        JsonRawModel::Object(e) => {
            let k = raw_key_index(e, key);
            if k >= 0 {
                Some(e[k].1)
            } else {
                None
            }
        },
        JsonRawModel::Array(a) => if pos < a.len() {
            Some(a[pos])
        } else {
            None
        },
        _ => None,
    }
}

fn struct_shape(v: &JsonRaw, n: usize) -> (r: bool)
    ensures
        r == struct_shape_ok(v@, n as int),
{
    match v {
        JsonRaw::Object(_) => true,
        JsonRaw::Array(a) => {
            proof {
                crate::json_text::lemma_raw_array(*a);
            }
            a.len() <= n
        },
        _ => false,
    }
}

fn field<'a>(v: &'a JsonRaw, key: &str, pos: usize) -> (r: Option<&'a JsonRaw>)
    ensures
        match r {
            Some(x) => raw_field(v@, key@, pos as int) == Some(x@),
            None => raw_field(v@, key@, pos as int) is None,
        },
{
    match v {
        JsonRaw::Object(e) => {
            proof {
                crate::json_text::lemma_raw_object(*e);
            }
            let ghost m = Seq::new(e@.len(), |i: int| (e@[i].0@, e@[i].1@));
            let mut i: usize = 0;
            while i < e.len()
                invariant
                    i <= e.len(),
                    m == Seq::new(e@.len(), |i: int| (e@[i].0@, e@[i].1@)),
                    v@ == JsonRawModel::Object(m),
                    raw_key_index(m.take(i as int), key@) == -1,
                decreases e.len() - i,
            {
                assert(m.take(i as int + 1).drop_last() =~= m.take(i as int));
                if str_eq(e[i].0.as_str(), key) {
                    proof {
                        lemma_raw_key_index_prefix(m, i as int + 1, key@);
                    }
                    return Some(&e[i].1);
                }
                i += 1;
            }
            assert(m.take(e.len() as int) =~= m);
            None
        },
        JsonRaw::Array(a) => {
            proof {
                crate::json_text::lemma_raw_array(*a);
            }
            if pos < a.len() {
                Some(&a[pos])
            } else {
                None
            }
        },
        _ => None,
    }
}

// ---------------------------------------------------------------------------------------------
// Values
// ---------------------------------------------------------------------------------------------

pub open spec fn str_of(m: JsonRawModel) -> Option<Seq<char>> {
    match m {
        JsonRawModel::Str(s) => Some(s),
        _ => None,
    }
}

pub open spec fn bool_of(m: JsonRawModel) -> Option<bool> {
    match m {
        JsonRawModel::Bool(b) => Some(b),
        _ => None,
    }
}

/// An `i64` field: a JSON integer in range (serde_json refuses a fraction or an exponent
/// form, which it prints with a `.` or an `e`).
pub open spec fn int_of(m: JsonRawModel) -> Option<i64> {
    match m {
        JsonRawModel::Number(t) => parse_i64_spec(t),
        _ => None,
    }
}

/// A floating-point field: any JSON number (its value is read by the host).
pub open spec fn number_of(m: JsonRawModel) -> bool {
    m is Number
}

pub open spec fn all_strs(a: Seq<JsonRawModel>) -> bool {
    forall|i: int| 0 <= i < a.len() ==> (#[trigger] a[i]) is Str
}

/// A list of strings: an array whose every item is a string.
pub open spec fn str_list_of(m: JsonRawModel) -> Option<Seq<Seq<char>>> {
    match m {
        JsonRawModel::Array(a) => if all_strs(a) {
            Some(Seq::new(a.len(), |i: int| a[i]->Str_0))
        } else {
            None
        },
        _ => None,
    }
}

pub open spec fn quality_mode_of(m: JsonRawModel) -> Option<QualityMode> {
    match m {
        JsonRawModel::Str(s) => if s == "preset"@ {
            Some(QualityMode::Preset)
        } else if s == "crf"@ {
            Some(QualityMode::Crf)
        } else if s == "bitrate"@ {
            Some(QualityMode::Bitrate)
        } else if s == "vbr"@ {
            Some(QualityMode::Vbr)
        } else {
            None
        },
        _ => None,
    }
}

pub open spec fn quality_preset_of(m: JsonRawModel) -> Option<QualityPreset> {
    match m {
        JsonRawModel::Str(s) => if s == "original"@ {
            Some(QualityPreset::Original)
        } else if s == "high"@ {
            Some(QualityPreset::High)
        } else if s == "balanced"@ {
            Some(QualityPreset::Balanced)
        } else if s == "small"@ {
            Some(QualityPreset::Small)
        } else {
            None
        },
        _ => None,
    }
}

pub open spec fn video_codec_of(m: JsonRawModel) -> Option<VideoCodecChoice> {
    match m {
        JsonRawModel::Str(s) => if s == "libx264"@ {
            Some(VideoCodecChoice::Libx264)
        } else if s == "libx265"@ {
            Some(VideoCodecChoice::Libx265)
        } else {
            None
        },
        _ => None,
    }
}

pub open spec fn container_of(m: JsonRawModel) -> Option<ContainerFormat> {
    match m {
        JsonRawModel::Str(s) => if s == "mp4"@ {
            Some(ContainerFormat::Mp4)
        } else if s == "mkv"@ {
            Some(ContainerFormat::Mkv)
        } else {
            None
        },
        _ => None,
    }
}

pub open spec fn action_of(m: JsonRawModel) -> Option<AfterExportAction> {
    match m {
        JsonRawModel::Str(s) => if s == "nothing"@ {
            Some(AfterExportAction::Nothing)
        } else if s == "delete"@ {
            Some(AfterExportAction::Delete)
        } else if s == "move"@ {
            Some(AfterExportAction::Move)
        } else if s == "rename"@ {
            Some(AfterExportAction::Rename)
        } else if s == "prompt"@ {
            Some(AfterExportAction::Prompt)
        } else {
            None
        },
        _ => None,
    }
}

// An absent field takes its default; a present one must read.

pub open spec fn str_or(f: Option<JsonRawModel>, d: Seq<char>) -> Option<Seq<char>> {
    match f {
        None => Some(d),
        Some(v) => str_of(v),
    }
}

pub open spec fn bool_or(f: Option<JsonRawModel>, d: bool) -> Option<bool> {
    match f {
        None => Some(d),
        Some(v) => bool_of(v),
    }
}

pub open spec fn int_or(f: Option<JsonRawModel>, d: i64) -> Option<i64> {
    match f {
        None => Some(d),
        Some(v) => int_of(v),
    }
}

pub open spec fn number_or(f: Option<JsonRawModel>) -> bool {
    match f {
        None => true,
        Some(v) => number_of(v),
    }
}

pub open spec fn list_or(f: Option<JsonRawModel>, d: Seq<Seq<char>>) -> Option<Seq<Seq<char>>> {
    match f {
        None => Some(d),
        Some(v) => str_list_of(v),
    }
}

pub open spec fn mode_or(f: Option<JsonRawModel>, d: QualityMode) -> Option<QualityMode> {
    match f {
        None => Some(d),
        Some(v) => quality_mode_of(v),
    }
}

pub open spec fn preset_or(f: Option<JsonRawModel>, d: QualityPreset) -> Option<QualityPreset> {
    match f {
        None => Some(d),
        Some(v) => quality_preset_of(v),
    }
}

pub open spec fn codec_or(f: Option<JsonRawModel>, d: VideoCodecChoice) -> Option<VideoCodecChoice> {
    match f {
        None => Some(d),
        Some(v) => video_codec_of(v),
    }
}

pub open spec fn container_or(f: Option<JsonRawModel>, d: ContainerFormat) -> Option<ContainerFormat> {
    match f {
        None => Some(d),
        Some(v) => container_of(v),
    }
}

pub open spec fn action_or(f: Option<JsonRawModel>, d: AfterExportAction) -> Option<AfterExportAction> {
    match f {
        None => Some(d),
        Some(v) => action_of(v),
    }
}

/// A string field, its default when absent.
fn string_field(v: &JsonRaw, key: &str, pos: usize, d: String) -> (r: Option<String>)
    ensures
        opt_view(r) == str_or(raw_field(v@, key@, pos as int), d@),
{
    match field(v, key, pos) {
        None => Some(d),
        Some(JsonRaw::Str(s)) => Some(s.clone()),
        Some(_) => None,
    }
}

pub open spec fn opt_view(r: Option<String>) -> Option<Seq<char>> {
    match r {
        Some(s) => Some(s@),
        None => None,
    }
}

fn bool_field(v: &JsonRaw, key: &str, pos: usize, d: bool) -> (r: Option<bool>)
    ensures
        r == bool_or(raw_field(v@, key@, pos as int), d),
{
    match field(v, key, pos) {
        None => Some(d),
        Some(JsonRaw::Bool(b)) => Some(*b),
        Some(_) => None,
    }
}

fn int_field(v: &JsonRaw, key: &str, pos: usize, d: i64) -> (r: Option<i64>)
    ensures
        r == int_or(raw_field(v@, key@, pos as int), d),
{
    match field(v, key, pos) {
        None => Some(d),
        Some(JsonRaw::Number(t)) => parse_i64(&chars_of(t.as_str())),
        Some(_) => None,
    }
}

fn number_field(v: &JsonRaw, key: &str, pos: usize) -> (r: bool)
    ensures
        r == number_or(raw_field(v@, key@, pos as int)),
{
    match field(v, key, pos) {
        None => true,
        Some(JsonRaw::Number(_)) => true,
        Some(_) => false,
    }
}

fn str_list_field(v: &JsonRaw, key: &str, pos: usize, d: Vec<String>) -> (r: Option<Vec<String>>)
    ensures
        match r {
            Some(l) => list_or(raw_field(v@, key@, pos as int), strs(d@))
                == Some(strs(l@)),
            None => list_or(raw_field(v@, key@, pos as int), strs(d@))
                is None,
        },
{
    match field(v, key, pos) {
        None => Some(d),
        Some(JsonRaw::Array(items)) => {
            proof {
                crate::json_text::lemma_raw_array(*items);
            }
            let ghost a = Seq::new(items@.len(), |i: int| items@[i]@);
            assert(raw_field(v@, key@, pos as int) == Some(JsonRawModel::Array(a)));
            let mut out: Vec<String> = Vec::new();
            let mut i: usize = 0;
            while i < items.len()
                invariant
                    i <= items.len(),
                    a == Seq::new(items@.len(), |i: int| items@[i]@),
                    raw_field(v@, key@, pos as int) == Some(JsonRawModel::Array(a)),
                    out@.len() == i,
                    forall|j: int| 0 <= j < i ==> (#[trigger] a[j]) is Str && a[j]->Str_0 == out@[j]@,
                decreases items.len() - i,
            {
                match &items[i] {
                    JsonRaw::Str(s) => {
                        out.push(s.clone());
                    },
                    _ => {
                        assert(!(a[i as int] is Str));
                        assert(!all_strs(a));
                        return None;
                    },
                }
                i += 1;
            }
            assert(all_strs(a));
            assert(strs(out@) =~= Seq::new(a.len(), |i: int| a[i]->Str_0));
            Some(out)
        },
        Some(_) => None,
    }
}


fn mode_field(v: &JsonRaw, key: &str, pos: usize, d: QualityMode) -> (r: Option<QualityMode>)
    ensures
        r == mode_or(raw_field(v@, key@, pos as int), d),
{
    match field(v, key, pos) {
        None => Some(d),
        Some(JsonRaw::Str(s)) => {
            let s = s.as_str();
            if str_eq(s, "preset") {
                Some(QualityMode::Preset)
            } else if str_eq(s, "crf") {
                Some(QualityMode::Crf)
            } else if str_eq(s, "bitrate") {
                Some(QualityMode::Bitrate)
            } else if str_eq(s, "vbr") {
                Some(QualityMode::Vbr)
            } else {
                None
            }
        },
        Some(_) => None,
    }
}

fn preset_field(v: &JsonRaw, key: &str, pos: usize, d: QualityPreset) -> (r: Option<QualityPreset>)
    ensures
        r == preset_or(raw_field(v@, key@, pos as int), d),
{
    match field(v, key, pos) {
        None => Some(d),
        Some(JsonRaw::Str(s)) => {
            let s = s.as_str();
            if str_eq(s, "original") {
                Some(QualityPreset::Original)
            } else if str_eq(s, "high") {
                Some(QualityPreset::High)
            } else if str_eq(s, "balanced") {
                Some(QualityPreset::Balanced)
            } else if str_eq(s, "small") {
                Some(QualityPreset::Small)
            } else {
                None
            }
        },
        Some(_) => None,
    }
}

fn codec_field(v: &JsonRaw, key: &str, pos: usize, d: VideoCodecChoice) -> (r: Option<VideoCodecChoice>)
    ensures
        r == codec_or(raw_field(v@, key@, pos as int), d),
{
    match field(v, key, pos) {
        None => Some(d),
        Some(JsonRaw::Str(s)) => {
            let s = s.as_str();
            if str_eq(s, "libx264") {
                Some(VideoCodecChoice::Libx264)
            } else if str_eq(s, "libx265") {
                Some(VideoCodecChoice::Libx265)
            } else {
                None
            }
        },
        Some(_) => None,
    }
}

fn container_field(v: &JsonRaw, key: &str, pos: usize, d: ContainerFormat) -> (r: Option<ContainerFormat>)
    ensures
        r == container_or(raw_field(v@, key@, pos as int), d),
{
    match field(v, key, pos) {
        None => Some(d),
        Some(JsonRaw::Str(s)) => {
            let s = s.as_str();
            if str_eq(s, "mp4") {
                Some(ContainerFormat::Mp4)
            } else if str_eq(s, "mkv") {
                Some(ContainerFormat::Mkv)
            } else {
                None
            }
        },
        Some(_) => None,
    }
}

fn action_field(v: &JsonRaw, key: &str, pos: usize, d: AfterExportAction) -> (r: Option<AfterExportAction>)
    ensures
        r == action_or(raw_field(v@, key@, pos as int), d),
{
    match field(v, key, pos) {
        None => Some(d),
        Some(JsonRaw::Str(s)) => {
            let s = s.as_str();
            if str_eq(s, "nothing") {
                Some(AfterExportAction::Nothing)
            } else if str_eq(s, "delete") {
                Some(AfterExportAction::Delete)
            } else if str_eq(s, "move") {
                Some(AfterExportAction::Move)
            } else if str_eq(s, "rename") {
                Some(AfterExportAction::Rename)
            } else if str_eq(s, "prompt") {
                Some(AfterExportAction::Prompt)
            } else {
                None
            }
        },
        Some(_) => None,
    }
}


// ---------------------------------------------------------------------------------------------
// Structs
// ---------------------------------------------------------------------------------------------

/// The after-export settings of a document, or `None` when a field does not read.
pub open spec fn after_export_strict(m: JsonRawModel) -> Option<AfterExportSettingsModel> {
    let d = default_after_export();
    let a = action_or(raw_field(m, "action"@, 0), d.action);
    let b = str_or(raw_field(m, "moveFolder"@, 1), d.move_folder);
    let c = str_or(raw_field(m, "renamePrefix"@, 2), d.rename_prefix);
    let e = str_or(raw_field(m, "renameSuffix"@, 3), d.rename_suffix);
    if struct_shape_ok(m, 4) && a is Some && b is Some && c is Some && e is Some {
        Some(AfterExportSettingsModel { action: a->0, move_folder: b->0, rename_prefix: c->0, rename_suffix: e->0 })
    } else {
        None
    }
}

fn after_export_from(v: &JsonRaw) -> (r: Option<AfterExportSettings>)
    ensures
        match r {
            Some(x) => after_export_strict(v@) == Some(x@),
            None => after_export_strict(v@) is None,
        },
{
    if !struct_shape(v, 4) {
        return None;
    }
    let d = AfterExportSettings::default();
    let action = match action_field(v, "action", 0, d.action) {
        Some(x) => x,
        None => return None,
    };
    let move_folder = match string_field(v, "moveFolder", 1, d.move_folder) {
        Some(x) => x,
        None => return None,
    };
    let rename_prefix = match string_field(v, "renamePrefix", 2, d.rename_prefix) {
        Some(x) => x,
        None => return None,
    };
    let rename_suffix = match string_field(v, "renameSuffix", 3, d.rename_suffix) {
        Some(x) => x,
        None => return None,
    };
    Some(AfterExportSettings { action, move_folder, rename_prefix, rename_suffix })
}

/// The output settings of a document, or `None` when a field does not read.
pub open spec fn output_strict(m: JsonRawModel) -> Option<OutputSettingsModel> {
    let d = default_output_settings();
    let qm = mode_or(raw_field(m, "qualityMode"@, 0), d.quality_mode);
    let qp = preset_or(raw_field(m, "qualityPreset"@, 1), d.quality_preset);
    let crf = int_or(raw_field(m, "crf"@, 2), d.crf);
    let vb = int_or(raw_field(m, "videoBitrateKbps"@, 3), d.video_bitrate_kbps);
    let ep = str_or(raw_field(m, "encoderPreset"@, 4), d.encoder_preset);
    let vc = codec_or(raw_field(m, "videoCodec"@, 5), d.video_codec);
    let ct = container_or(raw_field(m, "container"@, 6), d.container);
    let fps = int_or(raw_field(m, "fps"@, 7), d.fps);
    let mh = int_or(raw_field(m, "maxHeight"@, 8), d.max_height);
    let ab = int_or(raw_field(m, "audioBitrateKbps"@, 9), d.audio_bitrate_kbps);
    if struct_shape_ok(m, 10) && qm is Some && qp is Some && crf is Some && vb is Some && ep is Some
        && vc is Some && ct is Some && fps is Some && mh is Some && ab is Some {
        Some(
            OutputSettingsModel {
                quality_mode: qm->0,
                quality_preset: qp->0,
                crf: crf->0,
                video_bitrate_kbps: vb->0,
                encoder_preset: ep->0,
                video_codec: vc->0,
                container: ct->0,
                fps: fps->0,
                max_height: mh->0,
                audio_bitrate_kbps: ab->0,
            },
        )
    } else {
        None
    }
}

fn output_from(v: &JsonRaw) -> (r: Option<OutputSettings>)
    ensures
        match r {
            Some(x) => output_strict(v@) == Some(x@),
            None => output_strict(v@) is None,
        },
{
    if !struct_shape(v, 10) {
        return None;
    }
    let d = OutputSettings::default();
    let quality_mode = match mode_field(v, "qualityMode", 0, d.quality_mode) {
        Some(x) => x,
        None => return None,
    };
    let quality_preset = match preset_field(v, "qualityPreset", 1, d.quality_preset) {
        Some(x) => x,
        None => return None,
    };
    let crf = match int_field(v, "crf", 2, d.crf) {
        Some(x) => x,
        None => return None,
    };
    let video_bitrate_kbps = match int_field(v, "videoBitrateKbps", 3, d.video_bitrate_kbps) {
        Some(x) => x,
        None => return None,
    };
    let encoder_preset = match string_field(v, "encoderPreset", 4, d.encoder_preset) {
        Some(x) => x,
        None => return None,
    };
    let video_codec = match codec_field(v, "videoCodec", 5, d.video_codec) {
        Some(x) => x,
        None => return None,
    };
    let container = match container_field(v, "container", 6, d.container) {
        Some(x) => x,
        None => return None,
    };
    let fps = match int_field(v, "fps", 7, d.fps) {
        Some(x) => x,
        None => return None,
    };
    let max_height = match int_field(v, "maxHeight", 8, d.max_height) {
        Some(x) => x,
        None => return None,
    };
    let audio_bitrate_kbps = match int_field(v, "audioBitrateKbps", 9, d.audio_bitrate_kbps) {
        Some(x) => x,
        None => return None,
    };
    Some(
        OutputSettings {
            quality_mode,
            quality_preset,
            crf,
            video_bitrate_kbps,
            encoder_preset,
            video_codec,
            container,
            fps,
            max_height,
            audio_bitrate_kbps,
        },
    )
}

/// The key bindings of a document, or `None` when a field does not read.
pub open spec fn keybinds_strict(m: JsonRawModel) -> Option<KeybindsModel> {
    let d = default_keybinds();
    let a = str_or(raw_field(m, "playPause"@, 0), d.play_pause);
    let b = str_or(raw_field(m, "setIn"@, 1), d.set_in);
    let c = str_or(raw_field(m, "setOut"@, 2), d.set_out);
    let e = str_or(raw_field(m, "frameBack"@, 3), d.frame_back);
    let f = str_or(raw_field(m, "frameForward"@, 4), d.frame_forward);
    let g = str_or(raw_field(m, "jumpBack"@, 5), d.jump_back);
    let h = str_or(raw_field(m, "jumpForward"@, 6), d.jump_forward);
    let i = str_or(raw_field(m, "goToStart"@, 7), d.go_to_start);
    let j = str_or(raw_field(m, "goToEnd"@, 8), d.go_to_end);
    let k = str_or(raw_field(m, "export"@, 9), d.export);
    if struct_shape_ok(m, 10) && a is Some && b is Some && c is Some && e is Some && f is Some
        && g is Some && h is Some && i is Some && j is Some && k is Some {
        Some(
            KeybindsModel {
                play_pause: a->0,
                set_in: b->0,
                set_out: c->0,
                frame_back: e->0,
                frame_forward: f->0,
                jump_back: g->0,
                jump_forward: h->0,
                go_to_start: i->0,
                go_to_end: j->0,
                export: k->0,
            },
        )
    } else {
        None
    }
}

fn keybinds_from(v: &JsonRaw) -> (r: Option<Keybinds>)
    ensures
        match r {
            Some(x) => keybinds_strict(v@) == Some(x@),
            None => keybinds_strict(v@) is None,
        },
{
    if !struct_shape(v, 10) {
        return None;
    }
    let d = Keybinds::default();
    let play_pause = match string_field(v, "playPause", 0, d.play_pause) {
        Some(x) => x,
        None => return None,
    };
    let set_in = match string_field(v, "setIn", 1, d.set_in) {
        Some(x) => x,
        None => return None,
    };
    let set_out = match string_field(v, "setOut", 2, d.set_out) {
        Some(x) => x,
        None => return None,
    };
    let frame_back = match string_field(v, "frameBack", 3, d.frame_back) {
        Some(x) => x,
        None => return None,
    };
    let frame_forward = match string_field(v, "frameForward", 4, d.frame_forward) {
        Some(x) => x,
        None => return None,
    };
    let jump_back = match string_field(v, "jumpBack", 5, d.jump_back) {
        Some(x) => x,
        None => return None,
    };
    let jump_forward = match string_field(v, "jumpForward", 6, d.jump_forward) {
        Some(x) => x,
        None => return None,
    };
    let go_to_start = match string_field(v, "goToStart", 7, d.go_to_start) {
        Some(x) => x,
        None => return None,
    };
    let go_to_end = match string_field(v, "goToEnd", 8, d.go_to_end) {
        Some(x) => x,
        None => return None,
    };
    let export = match string_field(v, "export", 9, d.export) {
        Some(x) => x,
        None => return None,
    };
    Some(
        Keybinds {
            play_pause,
            set_in,
            set_out,
            frame_back,
            frame_forward,
            jump_back,
            jump_forward,
            go_to_start,
            go_to_end,
            export,
        },
    )
}


// ---------------------------------------------------------------------------------------------
// The desktop configuration
// ---------------------------------------------------------------------------------------------

/// The desktop application's configuration (`config.json`). The HDR preview gamma, a
/// floating-point value, is kept by the host; the reader here only checks that it is a number.
#[derive(Debug, Clone, PartialEq, Eq)]
pub struct DesktopConfig {
    pub watched_folders: Vec<String>,
    pub output_folder: String,
    /// Extensions (no dot) considered video files.
    pub video_extensions: Vec<String>,
    pub naming_template: String,
    /// Start playback when a clip opens.
    pub autoplay: bool,
    /// Verbose logging.
    pub debug: bool,
    pub after_export: AfterExportSettings,
    pub output: OutputSettings,
    pub keybinds: Keybinds,
}

pub struct DesktopConfigModel {
    pub watched_folders: Seq<Seq<char>>,
    pub output_folder: Seq<char>,
    pub video_extensions: Seq<Seq<char>>,
    pub naming_template: Seq<char>,
    pub autoplay: bool,
    pub debug: bool,
    pub after_export: AfterExportSettingsModel,
    pub output: OutputSettingsModel,
    pub keybinds: KeybindsModel,
}

impl View for DesktopConfig {
    type V = DesktopConfigModel;

    open spec fn view(&self) -> DesktopConfigModel {
        DesktopConfigModel {
            watched_folders: strs(self.watched_folders@),
            output_folder: self.output_folder@,
            video_extensions: strs(self.video_extensions@),
            naming_template: self.naming_template@,
            autoplay: self.autoplay,
            debug: self.debug,
            after_export: self.after_export@,
            output: self.output@,
            keybinds: self.keybinds@,
        }
    }
}

pub open spec fn default_desktop_config() -> DesktopConfigModel {
    DesktopConfigModel {
        watched_folders: Seq::empty(),
        output_folder: Seq::empty(),
        video_extensions: default_video_extensions(),
        naming_template: "{date}_{source}_{name}"@,
        autoplay: true,
        debug: false,
        after_export: default_after_export(),
        output: default_output_settings(),
        keybinds: default_keybinds(),
    }
}

impl Default for DesktopConfig {
    fn default() -> (r: Self)
        ensures
            r@ == default_desktop_config(),
    {
        let watched: Vec<String> = Vec::new();
        assert(strs(watched@) =~= Seq::<Seq<char>>::empty());
        DesktopConfig {
            watched_folders: watched,
            output_folder: String::new(),
            video_extensions: default_video_extensions_vec(),
            naming_template: "{date}_{source}_{name}".to_string(),
            autoplay: true,
            debug: false,
            after_export: AfterExportSettings::default(),
            output: OutputSettings::default(),
            keybinds: Keybinds::default(),
        }
    }
}

pub open spec fn after_or(f: Option<JsonRawModel>, d: AfterExportSettingsModel) -> Option<AfterExportSettingsModel> {
    match f {
        None => Some(d),
        Some(v) => after_export_strict(v),
    }
}

pub open spec fn output_or(f: Option<JsonRawModel>, d: OutputSettingsModel) -> Option<OutputSettingsModel> {
    match f {
        None => Some(d),
        Some(v) => output_strict(v),
    }
}

pub open spec fn keybinds_or(f: Option<JsonRawModel>, d: KeybindsModel) -> Option<KeybindsModel> {
    match f {
        None => Some(d),
        Some(v) => keybinds_strict(v),
    }
}

/// The configuration a document holds: each field read strictly, an absent one defaulted;
/// `None` when any field present does not read (a wrong type, an unknown enum name, a fraction
/// where an integer belongs, an array with more items than the struct has fields).
pub open spec fn desktop_strict(m: JsonRawModel) -> Option<DesktopConfigModel> {
    let d = default_desktop_config();
    let wf = list_or(raw_field(m, "watchedFolders"@, 0), d.watched_folders);
    let of = str_or(raw_field(m, "outputFolder"@, 1), d.output_folder);
    let ve = list_or(raw_field(m, "videoExtensions"@, 2), d.video_extensions);
    let nt = str_or(raw_field(m, "namingTemplate"@, 3), d.naming_template);
    let gamma = number_or(raw_field(m, "hdrPreviewGamma"@, 4));
    let ap = bool_or(raw_field(m, "autoplay"@, 5), d.autoplay);
    let db = bool_or(raw_field(m, "debug"@, 6), d.debug);
    let ae = after_or(raw_field(m, "afterExport"@, 7), d.after_export);
    let out = output_or(raw_field(m, "output"@, 8), d.output);
    let kb = keybinds_or(raw_field(m, "keybinds"@, 9), d.keybinds);
    if struct_shape_ok(m, 10) && wf is Some && of is Some && ve is Some && nt is Some && gamma
        && ap is Some && db is Some && ae is Some && out is Some && kb is Some {
        Some(
            DesktopConfigModel {
                watched_folders: wf->0,
                output_folder: of->0,
                video_extensions: ve->0,
                naming_template: nt->0,
                autoplay: ap->0,
                debug: db->0,
                after_export: ae->0,
                output: out->0,
                keybinds: kb->0,
            },
        )
    } else {
        None
    }
}

/// Read a configuration document strictly (see [`desktop_strict`]).
pub fn desktop_config_from_json(v: &JsonRaw) -> (r: Option<DesktopConfig>)
    ensures
        match r {
            Some(x) => desktop_strict(v@) == Some(x@),
            None => desktop_strict(v@) is None,
        },
{
    if !struct_shape(v, 10) {
        return None;
    }
    let d = DesktopConfig::default();
    let watched_folders = match str_list_field(v, "watchedFolders", 0, d.watched_folders) {
        Some(x) => x,
        None => return None,
    };
    let output_folder = match string_field(v, "outputFolder", 1, d.output_folder) {
        Some(x) => x,
        None => return None,
    };
    let video_extensions = match str_list_field(v, "videoExtensions", 2, d.video_extensions) {
        Some(x) => x,
        None => return None,
    };
    let naming_template = match string_field(v, "namingTemplate", 3, d.naming_template) {
        Some(x) => x,
        None => return None,
    };
    if !number_field(v, "hdrPreviewGamma", 4) {
        return None;
    }
    let autoplay = match bool_field(v, "autoplay", 5, d.autoplay) {
        Some(x) => x,
        None => return None,
    };
    let debug = match bool_field(v, "debug", 6, d.debug) {
        Some(x) => x,
        None => return None,
    };
    let after_export = match field(v, "afterExport", 7) {
        None => d.after_export,
        Some(x) => match after_export_from(x) {
            Some(a) => a,
            None => return None,
        },
    };
    let output = match field(v, "output", 8) {
        None => d.output,
        Some(x) => match output_from(x) {
            Some(o) => o,
            None => return None,
        },
    };
    let keybinds = match field(v, "keybinds", 9) {
        None => d.keybinds,
        Some(x) => match keybinds_from(x) {
            Some(k) => k,
            None => return None,
        },
    };
    Some(
        DesktopConfig {
            watched_folders,
            output_folder,
            video_extensions,
            naming_template,
            autoplay,
            debug,
            after_export,
            output,
            keybinds,
        },
    )
}

/// What the desktop `config.json` text gives: its document read strictly, or the defaults when
/// the text is no JSON document or the document does not read.
pub open spec fn parse_spec(text: Seq<char>) -> DesktopConfigModel {
    match json_document(text) {
        Some(d) => match desktop_strict(d) {
            Some(c) => c,
            None => default_desktop_config(),
        },
        None => default_desktop_config(),
    }
}

/// Parse the desktop `config.json` text (see [`parse_spec`]).
pub fn parse(text: &str) -> (r: DesktopConfig)
    ensures
        r@ == parse_spec(text@),
{
    match parse_json(text) {
        Some(doc) => match desktop_config_from_json(&doc) {
            Some(c) => c,
            None => DesktopConfig::default(),
        },
        None => DesktopConfig::default(),
    }
}


// ---------------------------------------------------------------------------------------------
// Reading back what is written
// ---------------------------------------------------------------------------------------------

/// A list of strings as a JSON array.
pub open spec fn strings_doc(l: Seq<Seq<char>>) -> JsonRawModel {
    JsonRawModel::Array(Seq::new(l.len(), |i: int| JsonRawModel::Str(l[i])))
}

/// An integer as the JSON number serde_json writes for it.
pub open spec fn int_doc(n: i64) -> JsonRawModel {
    JsonRawModel::Number(dec_int(n as int))
}

/// The after-export settings as written: every field under its camelCase name.
pub open spec fn after_export_doc(a: AfterExportSettingsModel) -> JsonRawModel {
    JsonRawModel::Object(
        seq![
            ("action"@, JsonRawModel::Str(after_action_name(a.action))),
            ("moveFolder"@, JsonRawModel::Str(a.move_folder)),
            ("renamePrefix"@, JsonRawModel::Str(a.rename_prefix)),
            ("renameSuffix"@, JsonRawModel::Str(a.rename_suffix)),
        ],
    )
}

/// The output settings as written.
pub open spec fn output_doc(o: OutputSettingsModel) -> JsonRawModel {
    JsonRawModel::Object(
        seq![
            ("qualityMode"@, JsonRawModel::Str(quality_mode_name(o.quality_mode))),
            ("qualityPreset"@, JsonRawModel::Str(quality_preset_name(o.quality_preset))),
            ("crf"@, int_doc(o.crf)),
            ("videoBitrateKbps"@, int_doc(o.video_bitrate_kbps)),
            ("encoderPreset"@, JsonRawModel::Str(o.encoder_preset)),
            ("videoCodec"@, JsonRawModel::Str(codec_token(o.video_codec))),
            ("container"@, JsonRawModel::Str(container_ext(o.container))),
            ("fps"@, int_doc(o.fps)),
            ("maxHeight"@, int_doc(o.max_height)),
            ("audioBitrateKbps"@, int_doc(o.audio_bitrate_kbps)),
        ],
    )
}

/// The key bindings as written.
pub open spec fn keybinds_doc(k: KeybindsModel) -> JsonRawModel {
    JsonRawModel::Object(
        seq![
            ("playPause"@, JsonRawModel::Str(k.play_pause)),
            ("setIn"@, JsonRawModel::Str(k.set_in)),
            ("setOut"@, JsonRawModel::Str(k.set_out)),
            ("frameBack"@, JsonRawModel::Str(k.frame_back)),
            ("frameForward"@, JsonRawModel::Str(k.frame_forward)),
            ("jumpBack"@, JsonRawModel::Str(k.jump_back)),
            ("jumpForward"@, JsonRawModel::Str(k.jump_forward)),
            ("goToStart"@, JsonRawModel::Str(k.go_to_start)),
            ("goToEnd"@, JsonRawModel::Str(k.go_to_end)),
            ("export"@, JsonRawModel::Str(k.export)),
        ],
    )
}

/// A desktop configuration as written, with `gamma` the text of its HDR preview gamma.
pub open spec fn desktop_doc(c: DesktopConfigModel, gamma: Seq<char>) -> JsonRawModel {
    JsonRawModel::Object(
        seq![
            ("watchedFolders"@, strings_doc(c.watched_folders)),
            ("outputFolder"@, JsonRawModel::Str(c.output_folder)),
            ("videoExtensions"@, strings_doc(c.video_extensions)),
            ("namingTemplate"@, JsonRawModel::Str(c.naming_template)),
            ("hdrPreviewGamma"@, JsonRawModel::Number(gamma)),
            ("autoplay"@, JsonRawModel::Bool(c.autoplay)),
            ("debug"@, JsonRawModel::Bool(c.debug)),
            ("afterExport"@, after_export_doc(c.after_export)),
            ("output"@, output_doc(c.output)),
            ("keybinds"@, keybinds_doc(c.keybinds)),
        ],
    )
}

/// A member that no earlier member shares a name with is the one found.
proof fn lemma_raw_key_at(e: Seq<(Seq<char>, JsonRawModel)>, k: int, key: Seq<char>)
    requires
        0 <= k < e.len(),
        e[k].0 == key,
        forall|j: int| 0 <= j < k ==> e[j].0 != key,
    ensures
        raw_key_index(e, key) == k,
    decreases e.len(),
{
    let p = e.drop_last();
    lemma_raw_key_index(p, key);
    if k == e.len() - 1 {
        if raw_key_index(p, key) >= 0 {
            lemma_raw_key_found(p, key);
            assert(p[raw_key_index(p, key)] == e[raw_key_index(p, key)]);
        }
    } else {
        assert(p[k] == e[k]);
        assert forall|j: int| 0 <= j < k implies p[j].0 != key by {
            assert(p[j] == e[j]);
        }
        lemma_raw_key_at(p, k, key);
    }
}

proof fn lemma_raw_key_found(e: Seq<(Seq<char>, JsonRawModel)>, key: Seq<char>)
    ensures
        raw_key_index(e, key) >= 0 ==> e[raw_key_index(e, key)].0 == key,
    decreases e.len(),
{
    if e.len() > 0 {
        lemma_raw_key_found(e.drop_last(), key);
        lemma_raw_key_index(e.drop_last(), key);
        if raw_key_index(e.drop_last(), key) >= 0 {
            assert(e.drop_last()[raw_key_index(e.drop_last(), key)] == e[raw_key_index(e.drop_last(), key)]);
        }
    }
}

/// Every integer reads back from the text written for it.
pub proof fn lemma_int_doc(n: i64)
    ensures
        int_of(int_doc(n)) == Some(n),
{
    if n < 0 {
        let d = dec_nat((-(n as int)) as nat);
        lemma_dec_nat((-(n as int)) as nat);
        assert(is_ascii_digit(d[0]));
        assert(int_body(seq!['-'] + d) =~= d);
    } else {
        let d = dec_nat(n as nat);
        lemma_dec_nat(n as nat);
        assert(is_ascii_digit(d[0]));
        assert(int_body(d) == d);
    }
}

proof fn lemma_strings_doc(l: Seq<Seq<char>>)
    ensures
        str_list_of(strings_doc(l)) == Some(l),
{
    let a = Seq::new(l.len(), |i: int| JsonRawModel::Str(l[i]));
    assert(all_strs(a));
    assert(Seq::new(a.len(), |i: int| a[i]->Str_0) =~= l);
}

/// The strict reader reads every enum value back from the name written for it: after-export
/// actions, quality modes and presets, codecs and containers.
pub proof fn law_desktop_enum_names()
    ensures
        forall|a: AfterExportAction| #[trigger] action_of(JsonRawModel::Str(after_action_name(a))) == Some(a),
        forall|m: QualityMode| #[trigger] quality_mode_of(JsonRawModel::Str(quality_mode_name(m))) == Some(m),
        forall|p: QualityPreset|
            #[trigger] quality_preset_of(JsonRawModel::Str(quality_preset_name(p))) == Some(p),
        forall|c: VideoCodecChoice| #[trigger] video_codec_of(JsonRawModel::Str(codec_token(c))) == Some(c),
        forall|c: ContainerFormat| #[trigger] container_of(JsonRawModel::Str(container_ext(c))) == Some(c),
{
    crate::config_json::lemma_enum_names();
    reveal_strlit("nothing");
    assert("nothing"@.len() == 7 && "nothing"@[0] == 'n');
    reveal_strlit("delete");
    assert("delete"@.len() == 6 && "delete"@[0] == 'd');
    reveal_strlit("move");
    assert("move"@.len() == 4 && "move"@[0] == 'm');
    reveal_strlit("rename");
    assert("rename"@.len() == 6 && "rename"@[0] == 'r');
    reveal_strlit("prompt");
    assert("prompt"@.len() == 6 && "prompt"@[0] == 'p');
    reveal_strlit("preset");
    assert("preset"@.len() == 6 && "preset"@[0] == 'p');
    reveal_strlit("crf");
    assert("crf"@.len() == 3 && "crf"@[0] == 'c');
    reveal_strlit("bitrate");
    assert("bitrate"@.len() == 7 && "bitrate"@[0] == 'b');
    reveal_strlit("vbr");
    assert("vbr"@.len() == 3 && "vbr"@[0] == 'v');
    reveal_strlit("original");
    assert("original"@.len() == 8 && "original"@[0] == 'o');
    reveal_strlit("high");
    assert("high"@.len() == 4 && "high"@[0] == 'h');
    reveal_strlit("balanced");
    assert("balanced"@.len() == 8 && "balanced"@[0] == 'b');
    reveal_strlit("small");
    assert("small"@.len() == 5 && "small"@[0] == 's');
    reveal_strlit("libx264");
    assert("libx264"@.len() == 7 && "libx264"@[6] == '4');
    reveal_strlit("libx265");
    assert("libx265"@.len() == 7 && "libx265"@[6] == '5');
    reveal_strlit("mp4");
    assert("mp4"@.len() == 3 && "mp4"@[1] == 'p');
    reveal_strlit("mkv");
    assert("mkv"@.len() == 3 && "mkv"@[1] == 'k');
}

proof fn lemma_after_export_doc(a: AfterExportSettingsModel)
    ensures
        after_export_strict(after_export_doc(a)) == Some(a),
{
    let e = seq![
        ("action"@, JsonRawModel::Str(after_action_name(a.action))),
        ("moveFolder"@, JsonRawModel::Str(a.move_folder)),
        ("renamePrefix"@, JsonRawModel::Str(a.rename_prefix)),
        ("renameSuffix"@, JsonRawModel::Str(a.rename_suffix)),
    ];
    reveal_strlit("action");
    assert("action"@.len() == 6 && "action"@[0] == 'a');
    reveal_strlit("moveFolder");
    assert("moveFolder"@.len() == 10 && "moveFolder"@[0] == 'm');
    reveal_strlit("renamePrefix");
    assert("renamePrefix"@.len() == 12 && "renamePrefix"@[6] == 'P');
    reveal_strlit("renameSuffix");
    assert("renameSuffix"@.len() == 12 && "renameSuffix"@[6] == 'S');
    lemma_raw_key_at(e, 0, "action"@);
    lemma_raw_key_at(e, 1, "moveFolder"@);
    lemma_raw_key_at(e, 2, "renamePrefix"@);
    lemma_raw_key_at(e, 3, "renameSuffix"@);
    law_desktop_enum_names();
    assert(action_of(JsonRawModel::Str(after_action_name(a.action))) == Some(a.action));
}

proof fn lemma_output_doc(o: OutputSettingsModel)
    ensures
        output_strict(output_doc(o)) == Some(o),
{
    let e = seq![
        ("qualityMode"@, JsonRawModel::Str(quality_mode_name(o.quality_mode))),
        ("qualityPreset"@, JsonRawModel::Str(quality_preset_name(o.quality_preset))),
        ("crf"@, int_doc(o.crf)),
        ("videoBitrateKbps"@, int_doc(o.video_bitrate_kbps)),
        ("encoderPreset"@, JsonRawModel::Str(o.encoder_preset)),
        ("videoCodec"@, JsonRawModel::Str(codec_token(o.video_codec))),
        ("container"@, JsonRawModel::Str(container_ext(o.container))),
        ("fps"@, int_doc(o.fps)),
        ("maxHeight"@, int_doc(o.max_height)),
        ("audioBitrateKbps"@, int_doc(o.audio_bitrate_kbps)),
    ];
    reveal_strlit("qualityMode");
    assert("qualityMode"@.len() == 11 && "qualityMode"@[0] == 'q');
    reveal_strlit("qualityPreset");
    assert("qualityPreset"@.len() == 13 && "qualityPreset"@[0] == 'q');
    reveal_strlit("crf");
    assert("crf"@.len() == 3 && "crf"@[0] == 'c');
    reveal_strlit("videoBitrateKbps");
    assert("videoBitrateKbps"@.len() == 16 && "videoBitrateKbps"@[0] == 'v');
    reveal_strlit("encoderPreset");
    assert("encoderPreset"@.len() == 13 && "encoderPreset"@[0] == 'e');
    reveal_strlit("videoCodec");
    assert("videoCodec"@.len() == 10 && "videoCodec"@[0] == 'v');
    reveal_strlit("container");
    assert("container"@.len() == 9 && "container"@[0] == 'c');
    reveal_strlit("fps");
    assert("fps"@.len() == 3 && "fps"@[0] == 'f');
    reveal_strlit("maxHeight");
    assert("maxHeight"@.len() == 9 && "maxHeight"@[0] == 'm');
    reveal_strlit("audioBitrateKbps");
    assert("audioBitrateKbps"@.len() == 16 && "audioBitrateKbps"@[0] == 'a');
    lemma_raw_key_at(e, 0, "qualityMode"@);
    lemma_raw_key_at(e, 1, "qualityPreset"@);
    lemma_raw_key_at(e, 2, "crf"@);
    lemma_raw_key_at(e, 3, "videoBitrateKbps"@);
    lemma_raw_key_at(e, 4, "encoderPreset"@);
    lemma_raw_key_at(e, 5, "videoCodec"@);
    lemma_raw_key_at(e, 6, "container"@);
    lemma_raw_key_at(e, 7, "fps"@);
    lemma_raw_key_at(e, 8, "maxHeight"@);
    lemma_raw_key_at(e, 9, "audioBitrateKbps"@);
    law_desktop_enum_names();
    assert(quality_mode_of(JsonRawModel::Str(quality_mode_name(o.quality_mode))) == Some(o.quality_mode));
    assert(quality_preset_of(JsonRawModel::Str(quality_preset_name(o.quality_preset))) == Some(
        o.quality_preset,
    ));
    assert(video_codec_of(JsonRawModel::Str(codec_token(o.video_codec))) == Some(o.video_codec));
    assert(container_of(JsonRawModel::Str(container_ext(o.container))) == Some(o.container));
    lemma_int_doc(o.crf);
    lemma_int_doc(o.video_bitrate_kbps);
    lemma_int_doc(o.fps);
    lemma_int_doc(o.max_height);
    lemma_int_doc(o.audio_bitrate_kbps);
}

proof fn lemma_keybinds_doc(k: KeybindsModel)
    ensures
        keybinds_strict(keybinds_doc(k)) == Some(k),
{
    let e = seq![
        ("playPause"@, JsonRawModel::Str(k.play_pause)),
        ("setIn"@, JsonRawModel::Str(k.set_in)),
        ("setOut"@, JsonRawModel::Str(k.set_out)),
        ("frameBack"@, JsonRawModel::Str(k.frame_back)),
        ("frameForward"@, JsonRawModel::Str(k.frame_forward)),
        ("jumpBack"@, JsonRawModel::Str(k.jump_back)),
        ("jumpForward"@, JsonRawModel::Str(k.jump_forward)),
        ("goToStart"@, JsonRawModel::Str(k.go_to_start)),
        ("goToEnd"@, JsonRawModel::Str(k.go_to_end)),
        ("export"@, JsonRawModel::Str(k.export)),
    ];
    reveal_strlit("playPause");
    assert("playPause"@.len() == 9 && "playPause"@[0] == 'p');
    reveal_strlit("setIn");
    assert("setIn"@.len() == 5 && "setIn"@[0] == 's');
    reveal_strlit("setOut");
    assert("setOut"@.len() == 6 && "setOut"@[0] == 's');
    reveal_strlit("frameBack");
    assert("frameBack"@.len() == 9 && "frameBack"@[0] == 'f');
    reveal_strlit("frameForward");
    assert("frameForward"@.len() == 12 && "frameForward"@[0] == 'f');
    reveal_strlit("jumpBack");
    assert("jumpBack"@.len() == 8 && "jumpBack"@[0] == 'j');
    reveal_strlit("jumpForward");
    assert("jumpForward"@.len() == 11 && "jumpForward"@[0] == 'j');
    reveal_strlit("goToStart");
    assert("goToStart"@.len() == 9 && "goToStart"@[0] == 'g');
    reveal_strlit("goToEnd");
    assert("goToEnd"@.len() == 7 && "goToEnd"@[0] == 'g');
    reveal_strlit("export");
    assert("export"@.len() == 6 && "export"@[0] == 'e');
    lemma_raw_key_at(e, 0, "playPause"@);
    lemma_raw_key_at(e, 1, "setIn"@);
    lemma_raw_key_at(e, 2, "setOut"@);
    lemma_raw_key_at(e, 3, "frameBack"@);
    lemma_raw_key_at(e, 4, "frameForward"@);
    lemma_raw_key_at(e, 5, "jumpBack"@);
    lemma_raw_key_at(e, 6, "jumpForward"@);
    lemma_raw_key_at(e, 7, "goToStart"@);
    lemma_raw_key_at(e, 8, "goToEnd"@);
    lemma_raw_key_at(e, 9, "export"@);
}

/// The strict desktop reader reads back what is written: a configuration written as a
/// document, each field under its camelCase name (whatever number stands for the HDR preview
/// gamma), reads as that same configuration.
pub proof fn law_desktop_round_trip(c: DesktopConfigModel, gamma: Seq<char>)
    ensures
        desktop_strict(desktop_doc(c, gamma)) == Some(c),
{
    let e = seq![
        ("watchedFolders"@, strings_doc(c.watched_folders)),
        ("outputFolder"@, JsonRawModel::Str(c.output_folder)),
        ("videoExtensions"@, strings_doc(c.video_extensions)),
        ("namingTemplate"@, JsonRawModel::Str(c.naming_template)),
        ("hdrPreviewGamma"@, JsonRawModel::Number(gamma)),
        ("autoplay"@, JsonRawModel::Bool(c.autoplay)),
        ("debug"@, JsonRawModel::Bool(c.debug)),
        ("afterExport"@, after_export_doc(c.after_export)),
        ("output"@, output_doc(c.output)),
        ("keybinds"@, keybinds_doc(c.keybinds)),
    ];
    reveal_strlit("watchedFolders");
    assert("watchedFolders"@.len() == 14 && "watchedFolders"@[0] == 'w');
    reveal_strlit("outputFolder");
    assert("outputFolder"@.len() == 12 && "outputFolder"@[0] == 'o');
    reveal_strlit("videoExtensions");
    assert("videoExtensions"@.len() == 15 && "videoExtensions"@[0] == 'v');
    reveal_strlit("namingTemplate");
    assert("namingTemplate"@.len() == 14 && "namingTemplate"@[0] == 'n');
    reveal_strlit("hdrPreviewGamma");
    assert("hdrPreviewGamma"@.len() == 15 && "hdrPreviewGamma"@[0] == 'h');
    reveal_strlit("autoplay");
    assert("autoplay"@.len() == 8 && "autoplay"@[0] == 'a');
    reveal_strlit("debug");
    assert("debug"@.len() == 5 && "debug"@[0] == 'd');
    reveal_strlit("afterExport");
    assert("afterExport"@.len() == 11 && "afterExport"@[0] == 'a');
    reveal_strlit("output");
    assert("output"@.len() == 6 && "output"@[0] == 'o');
    reveal_strlit("keybinds");
    assert("keybinds"@.len() == 8 && "keybinds"@[0] == 'k');
    lemma_raw_key_at(e, 0, "watchedFolders"@);
    lemma_raw_key_at(e, 1, "outputFolder"@);
    lemma_raw_key_at(e, 2, "videoExtensions"@);
    lemma_raw_key_at(e, 3, "namingTemplate"@);
    lemma_raw_key_at(e, 4, "hdrPreviewGamma"@);
    lemma_raw_key_at(e, 5, "autoplay"@);
    lemma_raw_key_at(e, 6, "debug"@);
    lemma_raw_key_at(e, 7, "afterExport"@);
    lemma_raw_key_at(e, 8, "output"@);
    lemma_raw_key_at(e, 9, "keybinds"@);
    lemma_strings_doc(c.watched_folders);
    lemma_strings_doc(c.video_extensions);
    lemma_after_export_doc(c.after_export);
    lemma_output_doc(c.output);
    lemma_keybinds_doc(c.keybinds);
}

} // verus!
