//! What is kept on disk about recordings: app-file names, the per-file edit store entries, the
//! probe cache and its validity, and the decision a file rename makes.

use vstd::prelude::*;
use crate::edit_spec::{EditSpec, EditSpecModel};
use crate::media::MediaInfo;
use crate::queue::{
    stored_tags, stored_tags_spec, tags_model, OutputOverride, OutputOverrideModel,
};
use crate::text::{chars_of, str_eq};

verus! {

pub open spec fn has_char(n: Seq<char>, c: char) -> bool {
    exists|i: int| 0 <= i < n.len() && n[i] == c
}

pub open spec fn has_dot_dot(n: Seq<char>) -> bool {
    exists|i: int| 0 <= i < n.len() - 1 && n[i] == '.' && #[trigger] n[i + 1] == '.'
}

/// A name for a file in the app's data folder: no `/`, no `\` and no `..`.
pub open spec fn valid_name_spec(n: Seq<char>) -> bool {
    !has_char(n, '/') && !has_char(n, '\\') && !has_dot_dot(n)
}

/// Whether a name may be used for a file in the app's data folder.
pub fn is_valid_name(name: &str) -> (r: bool)
    ensures
        r == valid_name_spec(name@),
{
    let v = chars_of(name);
    let mut i: usize = 0;
    while i < v.len()
        invariant
            v@ == name@,
            i <= v.len(),
            forall|j: int| 0 <= j < i ==> v@[j] != '/' && v@[j] != '\\',
            forall|j: int| 0 <= j < i && j + 1 < v.len() ==> !(v@[j] == '.' && #[trigger] v@[j + 1] == '.'),
        decreases v.len() - i,
    {
        if v[i] == '/' || v[i] == '\\' {
            return false;
        }
        if v[i] == '.' && i + 1 < v.len() && v[i + 1] == '.' {
            assert(has_dot_dot(v@));
            return false;
        }
        i += 1;
    }
    true
}

/// Per-file edit state persisted to the edit store.
#[derive(Debug, Clone, PartialEq, Eq)]
pub struct StoredEdit {
    pub edit: Option<EditSpec>,
    pub output_override: Option<OutputOverride>,
    pub tags: Option<Vec<String>>,
}

impl Default for StoredEdit {
    fn default() -> (r: Self)
        ensures
            r.edit is None,
            r.output_override is None,
            r.tags is None,
    {
        StoredEdit { edit: None, output_override: None, tags: None }
    }
}

pub open spec fn edit_model(e: Option<EditSpec>) -> Option<EditSpecModel> {
    match e {
        Some(x) => Some(x@),
        None => None,
    }
}

pub open spec fn ovr_model(o: Option<OutputOverride>) -> Option<OutputOverrideModel> {
    match o {
        Some(x) => Some(x@),
        None => None,
    }
}

fn copy_override(o: &OutputOverride) -> (r: OutputOverride)
    ensures
        r@ == o@,
{
    OutputOverride {
        quality_mode: o.quality_mode,
        quality_preset: o.quality_preset,
        crf: o.crf,
        video_bitrate_kbps: o.video_bitrate_kbps,
        encoder_preset: match &o.encoder_preset {
            Some(s) => Some(s.clone()),
            None => None,
        },
        video_codec: o.video_codec,
        container: o.container,
        fps: o.fps,
        max_height: o.max_height,
        audio_bitrate_kbps: o.audio_bitrate_kbps,
    }
}

impl StoredEdit {
    /// The entry that persists a clip's edits, override and tags (an empty tag list is not
    /// kept).
    pub fn capture(edit: &Option<EditSpec>, output_override: &Option<OutputOverride>, tags: &Option<Vec<String>>) -> (r: StoredEdit)
        ensures
            edit_model(r.edit) == edit_model(*edit),
            ovr_model(r.output_override) == ovr_model(*output_override),
            tags_model(r.tags) == stored_tags_spec(tags_model(*tags)),
    {
        StoredEdit {
            edit: match edit {
                Some(e) => Some(e.duplicate()),
                None => None,
            },
            output_override: match output_override {
                Some(o) => Some(copy_override(o)),
                None => None,
            },
            tags: stored_tags(tags),
        }
    }
}

/// A cached probe result for one recording. `size_bytes` and `modified_ms` tie it to the file
/// as it was when probed.
#[derive(Debug, Clone, PartialEq, Eq)]
pub struct CachedMedia {
    pub size_bytes: i64,
    pub modified_ms: i64,
    pub media: MediaInfo,
    pub is_hdr: bool,
}

/// A cache entry is still valid when the file's size and modification time both match.
pub open spec fn cache_valid(c: CachedMedia, size: i64, modified_ms: i64) -> bool {
    c.size_bytes == size && c.modified_ms == modified_ms
}

/// One recording's on-disk stats paired with its cached probe, if that is still valid.
#[derive(Debug, Clone, PartialEq, Eq)]
pub struct MediaResolution {
    pub path: String,
    pub size: i64,
    pub modified_ms: i64,
    pub cached: Option<CachedMedia>,
}

/// Pair a file's stats with its cache entry, keeping the entry only when it is still valid.
pub fn resolve_entry(path: &str, size: i64, modified_ms: i64, cached: Option<&CachedMedia>) -> (r: MediaResolution)
    ensures
        r.path@ == path@,
        r.size == size,
        r.modified_ms == modified_ms,
        r.cached is Some <==> (cached is Some && cache_valid(*cached->0, size, modified_ms)),
        r.cached is Some ==> r.cached->0.size_bytes == size && r.cached->0.modified_ms == modified_ms
            && r.cached->0.is_hdr == cached->0.is_hdr && r.cached->0.media@ == cached->0.media@,
{
    let kept = match cached {
        Some(c) => if c.size_bytes == size && c.modified_ms == modified_ms {
            Some(
                CachedMedia {
                    size_bytes: c.size_bytes,
                    modified_ms: c.modified_ms,
                    media: c.media.duplicate(),
                    is_hdr: c.is_hdr,
                },
            )
        } else {
            None
        },
        None => None,
    };
    MediaResolution { path: path.to_string(), size, modified_ms, cached: kept }
}

/// A file's path, size and modification time (milliseconds since the Unix epoch).
#[derive(Debug, Clone, PartialEq, Eq)]
pub struct FileInfo {
    pub path: String,
    pub size: i64,
    pub modified_ms: i64,
}

/// What renaming a file on disk comes to, before any file is touched.
#[derive(Debug, Clone, PartialEq, Eq)]
pub enum RenameStep {
    /// Source and target are the same path: nothing to do.
    AlreadyThere,
    /// Something already exists at the target: refuse, with this message.
    Blocked(String),
    /// Move the file.
    Move,
}

/// The same path needs no move; an existing target blocks the rename
/// (`A file already exists at <target>`); otherwise the file is moved.
pub open spec fn rename_step_spec(from: Seq<char>, to: Seq<char>, target_exists: bool) -> Option<Option<Seq<char>>> {
    if from == to {
        None
    } else if target_exists {
        Some(Some("A file already exists at "@ + to))
    } else {
        Some(None)
    }
}

/// Decide a rename (see [`rename_step_spec`]): `None` in the model is "already there",
/// `Some(Some(msg))` is blocked, `Some(None)` is a move.
pub fn rename_step(from: &str, to: &str, target_exists: bool) -> (r: RenameStep)
    ensures
        rename_step_spec(from@, to@, target_exists) == match r {
            RenameStep::AlreadyThere => None,
            RenameStep::Blocked(m) => Some(Some(m@)),
            RenameStep::Move => Some(None),
        },
{
    if str_eq(from, to) {
        RenameStep::AlreadyThere
    } else if target_exists {
        RenameStep::Blocked(crate::exporting::concat_str("A file already exists at ", to))
    } else {
        RenameStep::Move
    }
}

} // verus!
