//! Deciding the names and the file moves around an export: the output name, the overwrite
//! alternative, the after-export action, a manual rename, and what an export's outcome does to
//! the clip.

use vstd::prelude::*;
use vstd::string::StrSliceExecFns;
use crate::config::{AfterExportAction, AfterExportSettings, AfterExportSettingsModel};
use crate::datetimes::{format_datetime, format_datetime_spec, LocalDateTime};
use crate::paths::{base_name, base_name_spec, dir_name, dir_name_spec, join_path, join_path_spec};
use crate::queue::QueueStatus;
use crate::rename::{build_renamed_file_name, renamed_file_name_spec, split_file_name, split_file_name_spec, RenameVars, RenameVarsModel};
use crate::text::{chars_of, str_eq, string_from, trim_str, trim_ws};

verus! {

/// `a` followed by `b`.
pub fn concat_str(a: &str, b: &str) -> (r: String)
    ensures
        r@ == a@ + b@,
{
    let mut v = chars_of(a);
    let w = chars_of(b);
    crate::text::append_chars(&mut v, &w);
    string_from(&v)
}

/// `.ext`, or nothing for an empty extension.
pub open spec fn dot_ext(ext: Seq<char>) -> Seq<char> {
    if ext.len() == 0 {
        Seq::empty()
    } else {
        seq!['.'] + ext
    }
}

fn dot_ext_of(ext: &str) -> (r: String)
    ensures
        r@ == dot_ext(ext@),
{
    if ext.unicode_len() == 0 {
        String::new()
    } else {
        proof {
            reveal_strlit(".");
        }
        concat_str(".", ext)
    }
}

/// The overwrite alternative for an existing output: the file name stamped with the current
/// local time (`name_YYYY-MM-DD_HH-MM-SS.ext`) in the same folder.
pub open spec fn append_timestamp_spec(path: Seq<char>, now: LocalDateTime) -> Seq<char> {
    let parts = split_file_name_spec(base_name_spec(path));
    let stamped = parts.0 + seq!['_'] + format_datetime_spec(now) + dot_ext(parts.1);
    join_path_spec(dir_name_spec(path), stamped)
}

/// Stamp an output path with the current local time (see [`append_timestamp_spec`]).
pub fn append_timestamp(path: &str, now: &LocalDateTime) -> (r: String)
    ensures
        r@ == append_timestamp_spec(path@, *now),
{
    let base = base_name(path);
    let (name, ext) = split_file_name(base.as_str());
    proof {
        reveal_strlit("_");
    }
    let with_sep = concat_str(name.as_str(), "_");
    let stamp = format_datetime(now);
    let with_stamp = concat_str(with_sep.as_str(), stamp.as_str());
    let d = dot_ext_of(ext.as_str());
    let stamped = concat_str(with_stamp.as_str(), d.as_str());
    assert(stamped@ =~= name@ + seq!['_'] + format_datetime_spec(*now) + dot_ext(ext@));
    let dir = dir_name(path);
    join_path(dir.as_str(), stamped.as_str())
}

pub open spec fn opt_view(o: Option<&str>) -> Option<Seq<char>> {
    match o {
        Some(s) => Some(s@),
        None => None,
    }
}

/// The export file name: the naming template applied to the clip's name, extension, recording
/// time and source.
pub open spec fn export_name_spec(
    template: Seq<char>,
    recorded_at: Option<LocalDateTime>,
    source: Option<Seq<char>>,
    name: Seq<char>,
    ext: Seq<char>,
) -> Seq<char> {
    renamed_file_name_spec(
        template,
        RenameVarsModel { name, ext, recorded_at, source, index: None },
    )
}

/// Build the export file name for a clip (see [`export_name_spec`]).
pub fn build_export_name(
    template: &str,
    recorded_at: Option<LocalDateTime>,
    source: Option<&str>,
    name: &str,
    ext: &str,
) -> (r: String)
    ensures
        r@ == export_name_spec(template@, recorded_at, opt_view(source), name@, ext@),
{
    let vars = RenameVars {
        name: name.to_string(),
        ext: ext.to_string(),
        recorded_at,
        source: match source {
            Some(s) => Some(s.to_string()),
            None => None,
        },
        index: None,
    };
    assert(vars@ == (RenameVarsModel { name: name@, ext: ext@, recorded_at, source: opt_view(source), index: None }));
    build_renamed_file_name(template, &vars)
}

/// What to do with the source recording once an export has finished.
#[derive(Debug, Clone, PartialEq, Eq)]
pub enum AfterExportPlan {
    /// Leave it where it is.
    Nothing,
    /// Delete the recording at this path.
    Delete(String),
    /// Ask for a folder, then move the recording at this path there.
    PickMoveFolder(String),
    /// Move (rename) the recording from the first path to the second.
    Move(String, String),
}

pub enum AfterExportPlanModel {
    Nothing,
    Delete(Seq<char>),
    PickMoveFolder(Seq<char>),
    Move(Seq<char>, Seq<char>),
}

impl View for AfterExportPlan {
    type V = AfterExportPlanModel;

    open spec fn view(&self) -> AfterExportPlanModel {
        match self {
            AfterExportPlan::Nothing => AfterExportPlanModel::Nothing,
            AfterExportPlan::Delete(p) => AfterExportPlanModel::Delete(p@),
            AfterExportPlan::PickMoveFolder(p) => AfterExportPlanModel::PickMoveFolder(p@),
            AfterExportPlan::Move(a, b) => AfterExportPlanModel::Move(a@, b@),
        }
    }
}

/// Where moving a recording into a folder puts it.
pub open spec fn move_destination_spec(folder: Seq<char>, path: Seq<char>) -> Seq<char> {
    join_path_spec(folder, base_name_spec(path))
}

pub fn move_destination(folder: &str, path: &str) -> (r: String)
    ensures
        r@ == move_destination_spec(folder@, path@),
{
    let b = base_name(path);
    join_path(folder, b.as_str())
}

/// The after-export step for a recording: delete it; move it into the configured folder (or
/// ask for one when none is set); or rename it in place to `prefix + name + suffix`, keeping
/// its extension. `Nothing` and `Prompt` do nothing here.
pub open spec fn after_export_spec(
    action: AfterExportAction,
    s: AfterExportSettingsModel,
    path: Seq<char>,
    file_name: Seq<char>,
) -> AfterExportPlanModel {
    match action {
        AfterExportAction::Delete => AfterExportPlanModel::Delete(path),
        AfterExportAction::Move => if s.move_folder.len() == 0 {
            AfterExportPlanModel::PickMoveFolder(path)
        } else {
            AfterExportPlanModel::Move(path, move_destination_spec(s.move_folder, path))
        },
        AfterExportAction::Rename => {
            let parts = split_file_name_spec(file_name);
            let renamed = s.rename_prefix + parts.0 + s.rename_suffix + dot_ext(parts.1);
            AfterExportPlanModel::Move(path, join_path_spec(dir_name_spec(path), renamed))
        },
        _ => AfterExportPlanModel::Nothing,
    }
}

/// Plan the after-export action for a recording (see [`after_export_spec`]).
pub fn plan_after_export(
    action: AfterExportAction,
    settings: &AfterExportSettings,
    path: &str,
    file_name: &str,
) -> (r: AfterExportPlan)
    ensures
        r@ == after_export_spec(action, settings@, path@, file_name@),
{
    match action {
        AfterExportAction::Delete => AfterExportPlan::Delete(path.to_string()),
        AfterExportAction::Move => {
            if settings.move_folder.as_str().unicode_len() == 0 {
                AfterExportPlan::PickMoveFolder(path.to_string())
            } else {
                AfterExportPlan::Move(path.to_string(), move_destination(settings.move_folder.as_str(), path))
            }
        },
        AfterExportAction::Rename => {
            let (name, ext) = split_file_name(file_name);
            let a = concat_str(settings.rename_prefix.as_str(), name.as_str());
            let b = concat_str(a.as_str(), settings.rename_suffix.as_str());
            let d = dot_ext_of(ext.as_str());
            let renamed = concat_str(b.as_str(), d.as_str());
            let dir = dir_name(path);
            AfterExportPlan::Move(path.to_string(), join_path(dir.as_str(), renamed.as_str()))
        },
        _ => AfterExportPlan::Nothing,
    }
}

/// The path a manual rename leads to: the typed name, trimmed, with the clip's extension
/// kept, in the clip's folder; `None` when the trimmed name is blank.
pub open spec fn rename_target_spec(path: Seq<char>, file_name: Seq<char>, value: Seq<char>) -> Option<Seq<char>> {
    let t = trim_ws(value);
    if t.len() == 0 {
        None
    } else {
        let ext = split_file_name_spec(file_name).1;
        Some(join_path_spec(dir_name_spec(path), t + dot_ext(ext)))
    }
}

/// Where a manual rename moves a clip (see [`rename_target_spec`]).
pub fn rename_target(path: &str, file_name: &str, value: &str) -> (r: Option<String>)
    ensures
        match rename_target_spec(path@, file_name@, value@) {
            Some(p) => r is Some && r->0@ == p,
            None => r is None,
        },
{
    let t = string_from(&trim_str(value));
    if t.as_str().unicode_len() == 0 {
        return None;
    }
    let (_, ext) = split_file_name(file_name);
    let d = dot_ext_of(ext.as_str());
    let new_name = concat_str(t.as_str(), d.as_str());
    let dir = dir_name(path);
    Some(join_path(dir.as_str(), new_name.as_str()))
}

/// What an export's outcome does to its clip.
#[derive(Debug, Clone, PartialEq, Eq)]
pub struct ExportFinish {
    pub status: QueueStatus,
    pub error: Option<String>,
    /// Record the output path as the clip's export.
    pub record_export: bool,
    /// Ask the user which after-export action to take.
    pub prompt: bool,
    /// The after-export action to run now.
    pub run_action: Option<AfterExportAction>,
}

/// A cancelled export (the error text `cancelled`) puts the clip back to pending with no error;
/// a failure marks it as an error with the message; a success marks it done, records the
/// output, and either prompts for or runs the configured after-export action.
pub open spec fn finish_spec(result: Result<(), Seq<char>>, after: AfterExportAction) -> (QueueStatus, Option<Seq<char>>, bool, bool, Option<AfterExportAction>) {
    match result {
        Err(e) => if e == "cancelled"@ {
            (QueueStatus::Pending, None, false, false, None)
        } else {
            (QueueStatus::Error, Some(e), false, false, None)
        },
        Ok(_) => if after == AfterExportAction::Prompt {
            (QueueStatus::Done, None, true, true, None)
        } else {
            (QueueStatus::Done, None, true, false, Some(after))
        },
    }
}

pub open spec fn result_view(r: Result<(), String>) -> Result<(), Seq<char>> {
    match r {
        Ok(u) => Ok(u),
        Err(e) => Err(e@),
    }
}

/// Decide what an export's outcome does (see [`finish_spec`]).
pub fn finish_export(result: Result<(), String>, after: AfterExportAction) -> (r: ExportFinish)
    ensures
        (r.status, match r.error {
            Some(e) => Some(e@),
            None => None,
        }, r.record_export, r.prompt, r.run_action) == finish_spec(result_view(result), after),
{
    match result {
        Err(e) => {
            if str_eq(e.as_str(), "cancelled") {
                ExportFinish { status: QueueStatus::Pending, error: None, record_export: false, prompt: false, run_action: None }
            } else {
                ExportFinish { status: QueueStatus::Error, error: Some(e), record_export: false, prompt: false, run_action: None }
            }
        },
        Ok(_) => {
            if after == AfterExportAction::Prompt {
                ExportFinish { status: QueueStatus::Done, error: None, record_export: true, prompt: true, run_action: None }
            } else {
                ExportFinish { status: QueueStatus::Done, error: None, record_export: true, prompt: false, run_action: Some(after) }
            }
        },
    }
}

} // verus!
