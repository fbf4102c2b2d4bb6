//! Persisted settings: output quality model, after-export behaviour, editor shortcuts and the
//! application configuration, with their defaults.

use vstd::prelude::*;
use crate::text::{
    ascii_lower_seq, chars_of, copy_range, eq_ignore_ascii_case, last_index_of, lemma_last_index_of, lower_chars,
    rfind_char, unicode_lower,
};

verus! {

/// How output video quality/bitrate is controlled. `Vbr` = CRF capped by a max bitrate.
#[derive(Debug, Clone, Copy, PartialEq, Eq, Structural)]
pub enum QualityMode {
    Preset,
    Crf,
    Bitrate,
    Vbr,
}

/// Named quality presets; `Original` stream-copies when possible.
#[derive(Debug, Clone, Copy, PartialEq, Eq, Structural)]
pub enum QualityPreset {
    Original,
    High,
    Balanced,
    Small,
}

#[derive(Debug, Clone, Copy, PartialEq, Eq, Structural)]
pub enum VideoCodecChoice {
    Libx264,
    Libx265,
}

#[derive(Debug, Clone, Copy, PartialEq, Eq, Structural)]
pub enum ContainerFormat {
    Mp4,
    Mkv,
}

/// What to do with the source recording after a successful export.
#[derive(Debug, Clone, Copy, PartialEq, Eq, Structural)]
pub enum AfterExportAction {
    Nothing,
    Delete,
    Move,
    Rename,
    Prompt,
}

pub open spec fn codec_token(c: VideoCodecChoice) -> Seq<char> {
    match c {
        VideoCodecChoice::Libx264 => "libx264"@,
        VideoCodecChoice::Libx265 => "libx265"@,
    }
}

pub open spec fn container_ext(c: ContainerFormat) -> Seq<char> {
    match c {
        ContainerFormat::Mp4 => "mp4"@,
        ContainerFormat::Mkv => "mkv"@,
    }
}

impl VideoCodecChoice {
    /// The ffmpeg encoder token (e.g. `libx264`).
    pub fn to_ffmpeg(self) -> (r: &'static str)
        ensures
            r@ == codec_token(self),
    {
        match self {
            VideoCodecChoice::Libx264 => "libx264",
            VideoCodecChoice::Libx265 => "libx265",
        }
    }
}

impl ContainerFormat {
    /// The container file extension (no dot).
    pub fn extension(self) -> (r: &'static str)
        ensures
            r@ == container_ext(self),
    {
        match self {
            ContainerFormat::Mp4 => "mp4",
            ContainerFormat::Mkv => "mkv",
        }
    }
}

/// Default encoding settings applied to every export.
#[derive(Debug, Clone, PartialEq, Eq)]
pub struct OutputSettings {
    pub quality_mode: QualityMode,
    pub quality_preset: QualityPreset,
    /// Constant Rate Factor (0–51, lower = better); used when `quality_mode` is `Crf`.
    pub crf: i64,
    /// Target video bitrate in kbps; used when `quality_mode` is `Bitrate`.
    pub video_bitrate_kbps: i64,
    pub encoder_preset: String,
    pub video_codec: VideoCodecChoice,
    pub container: ContainerFormat,
    /// Target frame rate; 0 keeps the source rate. Never up-rates.
    pub fps: i64,
    /// Downscale so height ≤ this many pixels; 0 keeps the source size. Never up-scales.
    pub max_height: i64,
    pub audio_bitrate_kbps: i64,
}

/// The mathematical value of [`OutputSettings`]: text fields as character sequences.
pub struct OutputSettingsModel {
    pub quality_mode: QualityMode,
    pub quality_preset: QualityPreset,
    pub crf: i64,
    pub video_bitrate_kbps: i64,
    pub encoder_preset: Seq<char>,
    pub video_codec: VideoCodecChoice,
    pub container: ContainerFormat,
    pub fps: i64,
    pub max_height: i64,
    pub audio_bitrate_kbps: i64,
}

impl View for OutputSettings {
    type V = OutputSettingsModel;

    open spec fn view(&self) -> OutputSettingsModel {
        OutputSettingsModel {
            quality_mode: self.quality_mode,
            quality_preset: self.quality_preset,
            crf: self.crf,
            video_bitrate_kbps: self.video_bitrate_kbps,
            encoder_preset: self.encoder_preset@,
            video_codec: self.video_codec,
            container: self.container,
            fps: self.fps,
            max_height: self.max_height,
            audio_bitrate_kbps: self.audio_bitrate_kbps,
        }
    }
}

pub open spec fn default_output_settings() -> OutputSettingsModel {
    OutputSettingsModel {
        quality_mode: QualityMode::Preset,
        quality_preset: QualityPreset::Original,
        crf: 20,
        video_bitrate_kbps: 8000,
        encoder_preset: "veryfast"@,
        video_codec: VideoCodecChoice::Libx264,
        container: ContainerFormat::Mp4,
        fps: 0,
        max_height: 0,
        audio_bitrate_kbps: 192,
    }
}

impl Default for OutputSettings {
    fn default() -> (r: Self)
        ensures
            r@ == default_output_settings(),
    {
        OutputSettings {
            quality_mode: QualityMode::Preset,
            quality_preset: QualityPreset::Original,
            crf: 20,
            video_bitrate_kbps: 8000,
            encoder_preset: "veryfast".to_string(),
            video_codec: VideoCodecChoice::Libx264,
            container: ContainerFormat::Mp4,
            fps: 0,
            max_height: 0,
            audio_bitrate_kbps: 192,
        }
    }
}

impl OutputSettings {
    /// A field-by-field copy.
    pub fn duplicate(&self) -> (r: Self)
        ensures
            r@ == self@,
    {
        OutputSettings {
            quality_mode: self.quality_mode,
            quality_preset: self.quality_preset,
            crf: self.crf,
            video_bitrate_kbps: self.video_bitrate_kbps,
            encoder_preset: self.encoder_preset.clone(),
            video_codec: self.video_codec,
            container: self.container,
            fps: self.fps,
            max_height: self.max_height,
            audio_bitrate_kbps: self.audio_bitrate_kbps,
        }
    }
}

#[derive(Debug, Clone, PartialEq, Eq)]
pub struct AfterExportSettings {
    pub action: AfterExportAction,
    /// Destination folder for the `Move` action.
    pub move_folder: String,
    /// Prefix/suffix added to the source file name for the `Rename` action.
    pub rename_prefix: String,
    pub rename_suffix: String,
}

pub struct AfterExportSettingsModel {
    pub action: AfterExportAction,
    pub move_folder: Seq<char>,
    pub rename_prefix: Seq<char>,
    pub rename_suffix: Seq<char>,
}

impl View for AfterExportSettings {
    type V = AfterExportSettingsModel;

    open spec fn view(&self) -> AfterExportSettingsModel {
        AfterExportSettingsModel {
            action: self.action,
            move_folder: self.move_folder@,
            rename_prefix: self.rename_prefix@,
            rename_suffix: self.rename_suffix@,
        }
    }
}

pub open spec fn default_after_export() -> AfterExportSettingsModel {
    AfterExportSettingsModel {
        action: AfterExportAction::Nothing,
        move_folder: Seq::empty(),
        rename_prefix: Seq::empty(),
        rename_suffix: Seq::empty(),
    }
}

impl Default for AfterExportSettings {
    fn default() -> (r: Self)
        ensures
            r@ == default_after_export(),
    {
        AfterExportSettings {
            action: AfterExportAction::Nothing,
            move_folder: String::new(),
            rename_prefix: String::new(),
            rename_suffix: String::new(),
        }
    }
}

/// Editor keyboard shortcuts. Each value is a key combo string like `"Space"`, `"I"`, `"Shift+Left"`,
/// or `"Ctrl+M"` (modifiers `Ctrl`/`Shift`/`Alt`/`Cmd` joined with `+`, then the key). Defaults align
/// to Adobe Premiere Pro where it has an equivalent.
#[derive(Debug, Clone, PartialEq, Eq)]
pub struct Keybinds {
    pub play_pause: String,
    pub set_in: String,
    pub set_out: String,
    pub frame_back: String,
    pub frame_forward: String,
    pub jump_back: String,
    pub jump_forward: String,
    pub go_to_start: String,
    pub go_to_end: String,
    pub export: String,
}

pub struct KeybindsModel {
    pub play_pause: Seq<char>,
    pub set_in: Seq<char>,
    pub set_out: Seq<char>,
    pub frame_back: Seq<char>,
    pub frame_forward: Seq<char>,
    pub jump_back: Seq<char>,
    pub jump_forward: Seq<char>,
    pub go_to_start: Seq<char>,
    pub go_to_end: Seq<char>,
    pub export: Seq<char>,
}

impl View for Keybinds {
    type V = KeybindsModel;

    open spec fn view(&self) -> KeybindsModel {
        KeybindsModel {
            play_pause: self.play_pause@,
            set_in: self.set_in@,
            set_out: self.set_out@,
            frame_back: self.frame_back@,
            frame_forward: self.frame_forward@,
            jump_back: self.jump_back@,
            jump_forward: self.jump_forward@,
            go_to_start: self.go_to_start@,
            go_to_end: self.go_to_end@,
            export: self.export@,
        }
    }
}

pub open spec fn default_keybinds() -> KeybindsModel {
    KeybindsModel {
        play_pause: "Space"@,
        set_in: "I"@,
        set_out: "O"@,
        frame_back: "Left"@,
        frame_forward: "Right"@,
        jump_back: "Shift+Left"@,
        jump_forward: "Shift+Right"@,
        go_to_start: "Home"@,
        go_to_end: "End"@,
        export: "Ctrl+M"@,
    }
}

impl Default for Keybinds {
    fn default() -> (r: Self)
        ensures
            r@ == default_keybinds(),
    {
        Keybinds {
            play_pause: "Space".to_string(),
            set_in: "I".to_string(),
            set_out: "O".to_string(),
            frame_back: "Left".to_string(),
            frame_forward: "Right".to_string(),
            jump_back: "Shift+Left".to_string(),
            jump_forward: "Shift+Right".to_string(),
            go_to_start: "Home".to_string(),
            go_to_end: "End".to_string(),
            export: "Ctrl+M".to_string(),
        }
    }
}

/// The views of a sequence of strings.
pub open spec fn strs(v: Seq<String>) -> Seq<Seq<char>> {
    Seq::new(v.len(), |i: int| v[i]@)
}

/// The extensions treated as editable video by default.
pub open spec fn default_video_extensions() -> Seq<Seq<char>> {
    seq!["mp4"@, "mkv"@, "mov"@, "flv"@, "webm"@, "ts"@]
}

/// Container extensions qlipq treats as editable video by default.
pub fn default_video_extensions_vec() -> (r: Vec<String>)
    ensures
        strs(r@) == default_video_extensions(),
{
    let mut v: Vec<String> = Vec::new();
    v.push("mp4".to_string());
    v.push("mkv".to_string());
    v.push("mov".to_string());
    v.push("flv".to_string());
    v.push("webm".to_string());
    v.push("ts".to_string());
    assert(strs(v@) =~= default_video_extensions());
    v
}

/// Persisted application configuration.
#[derive(Debug, Clone, PartialEq, Eq)]
pub struct AppConfig {
    pub watched_folders: Vec<String>,
    pub output_folder: String,
    /// Lower-case extensions (no dot) considered video files.
    pub video_extensions: Vec<String>,
    pub naming_template: String,
    pub ffmpeg_path: String,
    pub ffprobe_path: String,
    pub after_export: AfterExportSettings,
    pub output: OutputSettings,
}

pub struct AppConfigModel {
    pub watched_folders: Seq<Seq<char>>,
    pub output_folder: Seq<char>,
    pub video_extensions: Seq<Seq<char>>,
    pub naming_template: Seq<char>,
    pub ffmpeg_path: Seq<char>,
    pub ffprobe_path: Seq<char>,
    pub after_export: AfterExportSettingsModel,
    pub output: OutputSettingsModel,
}

impl View for AppConfig {
    type V = AppConfigModel;

    open spec fn view(&self) -> AppConfigModel {
        AppConfigModel {
            watched_folders: strs(self.watched_folders@),
            output_folder: self.output_folder@,
            video_extensions: strs(self.video_extensions@),
            naming_template: self.naming_template@,
            ffmpeg_path: self.ffmpeg_path@,
            ffprobe_path: self.ffprobe_path@,
            after_export: self.after_export@,
            output: self.output@,
        }
    }
}

pub open spec fn default_app_config() -> AppConfigModel {
    AppConfigModel {
        watched_folders: Seq::empty(),
        output_folder: Seq::empty(),
        video_extensions: default_video_extensions(),
        naming_template: "{date}_{source}_{name}"@,
        ffmpeg_path: "ffmpeg"@,
        ffprobe_path: "ffprobe"@,
        after_export: default_after_export(),
        output: default_output_settings(),
    }
}

impl Default for AppConfig {
    fn default() -> (r: Self)
        ensures
            r@ == default_app_config(),
    {
        let watched: Vec<String> = Vec::new();
        assert(strs(watched@) =~= Seq::<Seq<char>>::empty());
        AppConfig {
            watched_folders: watched,
            output_folder: String::new(),
            video_extensions: default_video_extensions_vec(),
            naming_template: "{date}_{source}_{name}".to_string(),
            ffmpeg_path: "ffmpeg".to_string(),
            ffprobe_path: "ffprobe".to_string(),
            after_export: AfterExportSettings::default(),
            output: OutputSettings::default(),
        }
    }
}

/// Whether `name` has an extension (text after its last `.`) whose lower-cased form is one of
/// `exts`.
pub open spec fn is_video_file_spec(name: Seq<char>, exts: Seq<Seq<char>>) -> bool {
    let d = last_index_of(name, '.');
    d >= 0 && exists|i: int| 0 <= i < exts.len() && exts[i] == unicode_lower(name.skip(d + 1))
}

/// True if the file extension (case-insensitive) is one of the configured video types.
pub fn is_video_file(file_name: &str, video_extensions: &[String]) -> (r: bool)
    ensures
        r == is_video_file_spec(file_name@, strs(video_extensions@)),
{
    let name = chars_of(file_name);
    match rfind_char(&name, '.') {
        None => false,
        Some(dot) => {
            proof {
                lemma_last_index_of(name@, '.');
            }
            let tail = copy_range(&name, dot + 1, name.len());
            assert(tail@ =~= name@.skip(dot + 1));
            let ext = lower_chars(&tail);
            let mut i: usize = 0;
            while i < video_extensions.len()
                invariant
                    i <= video_extensions@.len(),
                    last_index_of(file_name@, '.') == dot as int,
                    ext@ == unicode_lower(file_name@.skip(dot + 1)),
                    forall|j: int| 0 <= j < i ==> video_extensions@[j]@ != ext@,
                decreases video_extensions@.len() - i,
            {
                let cand = chars_of(video_extensions[i].as_str());
                if cand.len() == ext.len() {
                    let mut k: usize = 0;
                    let mut same = true;
                    while k < cand.len()
                        invariant
                            cand.len() == ext.len(),
                            k <= cand.len(),
                            same == (forall|m: int| 0 <= m < k ==> cand@[m] == ext@[m]),
                        decreases cand.len() - k,
                    {
                        if cand[k] != ext[k] {
                            same = false;
                        }
                        k += 1;
                    }
                    if same {
                        assert(cand@ =~= ext@);
                        assert(strs(video_extensions@)[i as int] == ext@);
                        return true;
                    }
                    assert(cand@ != ext@) by {
                        if cand@ == ext@ {
                            assert(forall|m: int| 0 <= m < k ==> cand@[m] == ext@[m]);
                        }
                    }
                }
                i += 1;
            }
            assert forall|j: int| 0 <= j < strs(video_extensions@).len() implies strs(
                video_extensions@,
            )[j] != unicode_lower(file_name@.skip(dot + 1)) by {}
            false
        },
    }
}

/// `Path::extension` of a file name: the text after its last `.`; none without a dot, for a
/// name whose only dot leads it (such as `.mp4`), and for `..`.
pub open spec fn path_extension(name: Seq<char>) -> Option<Seq<char>> {
    let d = last_index_of(name, '.');
    if name == seq!['.', '.'] || d <= 0 {
        None
    } else {
        Some(name.skip(d + 1))
    }
}

/// Whether a scanned file counts as a video: its [`path_extension`] equals one of `exts`,
/// ignoring ASCII case.
pub open spec fn has_video_ext_spec(name: Seq<char>, exts: Seq<Seq<char>>) -> bool {
    match path_extension(name) {
        Some(e) => exists|i: int| 0 <= i < exts.len() && ascii_lower_seq(#[trigger] exts[i]) == ascii_lower_seq(e),
        None => false,
    }
}

/// Whether a file found while scanning a folder is a video, by its name (see
/// [`has_video_ext_spec`]).
pub fn has_video_ext(file_name: &str, extensions: &[String]) -> (r: bool)
    ensures
        r == has_video_ext_spec(file_name@, strs(extensions@)),
{
    let name = chars_of(file_name);
    if name.len() == 2 && name[0] == '.' && name[1] == '.' {
        assert(name@ =~= seq!['.', '.']);
        return false;
    }
    proof {
        lemma_last_index_of(name@, '.');
    }
    match rfind_char(&name, '.') {
        None => false,
        Some(dot) => {
            if dot == 0 {
                return false;
            }
            assert(name@ != seq!['.', '.']) by {
                if name@ == seq!['.', '.'] {
                    assert(name@.len() == 2 && name@[0] == '.' && name@[1] == '.');
                }
            }
            let ext = copy_range(&name, dot + 1, name.len());
            assert(ext@ =~= name@.skip(dot + 1));
            assert(path_extension(file_name@) == Some(ext@));
            let mut i: usize = 0;
            while i < extensions.len()
                invariant
                    i <= extensions@.len(),
                    path_extension(file_name@) == Some(ext@),
                    forall|j: int| 0 <= j < i ==> ascii_lower_seq(#[trigger] strs(extensions@)[j]) != ascii_lower_seq(ext@),
                decreases extensions@.len() - i,
            {
                let cand = chars_of(extensions[i].as_str());
                assert(strs(extensions@)[i as int] == cand@);
                if eq_ignore_ascii_case(&cand, &ext) {
                    assert(ascii_lower_seq(strs(extensions@)[i as int]) == ascii_lower_seq(ext@));
                    return true;
                }
                i += 1;
            }
            false
        },
    }
}

} // verus!
