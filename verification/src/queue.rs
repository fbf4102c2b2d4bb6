//! The editing queue: clip status, per-clip output overrides, tags, and the set of known paths.

use vstd::prelude::*;
use vstd::string::StrSliceExecFns;
use crate::config::{
    ContainerFormat, OutputSettings, OutputSettingsModel, QualityMode, QualityPreset,
    VideoCodecChoice,
};
use crate::media::opt_seq;
use crate::paths::{posix, to_posix};
use crate::text::{first_where, lemma_first_where, lemma_first_where_prefix, lemma_first_where_step, str_eq, trim_str, trim_ws, string_from};

verus! {

/// Lifecycle of a clip in the editing queue.
#[derive(Debug, Clone, Copy, PartialEq, Eq, Structural)]
pub enum QueueStatus {
    Pending,
    Ready,
    Editing,
    Exporting,
    Done,
    Error,
}

pub open spec fn status_label_spec(s: QueueStatus) -> Seq<char> {
    match s {
        QueueStatus::Pending => "Pending"@,
        QueueStatus::Ready => "Ready"@,
        QueueStatus::Editing => "Editing"@,
        QueueStatus::Exporting => "Exporting"@,
        QueueStatus::Done => "Done"@,
        QueueStatus::Error => "Error"@,
    }
}

/// The label shown for a status.
pub fn status_label(status: QueueStatus) -> (r: &'static str)
    ensures
        r@ == status_label_spec(status),
{
    match status {
        QueueStatus::Pending => "Pending",
        QueueStatus::Ready => "Ready",
        QueueStatus::Editing => "Editing",
        QueueStatus::Exporting => "Exporting",
        QueueStatus::Done => "Done",
        QueueStatus::Error => "Error",
    }
}

/// Per-clip output overrides, merged over the global [`OutputSettings`] on export. Every field
/// is optional so only set values apply.
#[derive(Debug, Clone, PartialEq, Eq)]
pub struct OutputOverride {
    pub quality_mode: Option<QualityMode>,
    pub quality_preset: Option<QualityPreset>,
    pub crf: Option<i64>,
    pub video_bitrate_kbps: Option<i64>,
    pub encoder_preset: Option<String>,
    pub video_codec: Option<VideoCodecChoice>,
    pub container: Option<ContainerFormat>,
    pub fps: Option<i64>,
    pub max_height: Option<i64>,
    pub audio_bitrate_kbps: Option<i64>,
}

pub struct OutputOverrideModel {
    pub quality_mode: Option<QualityMode>,
    pub quality_preset: Option<QualityPreset>,
    pub crf: Option<i64>,
    pub video_bitrate_kbps: Option<i64>,
    pub encoder_preset: Option<Seq<char>>,
    pub video_codec: Option<VideoCodecChoice>,
    pub container: Option<ContainerFormat>,
    pub fps: Option<i64>,
    pub max_height: Option<i64>,
    pub audio_bitrate_kbps: Option<i64>,
}

impl View for OutputOverride {
    type V = OutputOverrideModel;

    open spec fn view(&self) -> OutputOverrideModel {
        OutputOverrideModel {
            quality_mode: self.quality_mode,
            quality_preset: self.quality_preset,
            crf: self.crf,
            video_bitrate_kbps: self.video_bitrate_kbps,
            encoder_preset: opt_seq(self.encoder_preset),
            video_codec: self.video_codec,
            container: self.container,
            fps: self.fps,
            max_height: self.max_height,
            audio_bitrate_kbps: self.audio_bitrate_kbps,
        }
    }
}

pub open spec fn empty_override() -> OutputOverrideModel {
    OutputOverrideModel {
        quality_mode: None,
        quality_preset: None,
        crf: None,
        video_bitrate_kbps: None,
        encoder_preset: None,
        video_codec: None,
        container: None,
        fps: None,
        max_height: None,
        audio_bitrate_kbps: None,
    }
}

impl Default for OutputOverride {
    fn default() -> (r: Self)
        ensures
            r@ == empty_override(),
    {
        OutputOverride {
            quality_mode: None,
            quality_preset: None,
            crf: None,
            video_bitrate_kbps: None,
            encoder_preset: None,
            video_codec: None,
            container: None,
            fps: None,
            max_height: None,
            audio_bitrate_kbps: None,
        }
    }
}

pub open spec fn pick<T>(o: Option<T>, base: T) -> T {
    match o {
        Some(v) => v,
        None => base,
    }
}

/// The settings a clip exports with: each override field that is set wins over the global one.
pub open spec fn merge_output(base: OutputSettingsModel, o: Option<OutputOverrideModel>) -> OutputSettingsModel {
    match o {
        None => base,
        Some(o) => OutputSettingsModel {
            quality_mode: pick(o.quality_mode, base.quality_mode),
            quality_preset: pick(o.quality_preset, base.quality_preset),
            crf: pick(o.crf, base.crf),
            video_bitrate_kbps: pick(o.video_bitrate_kbps, base.video_bitrate_kbps),
            encoder_preset: pick(o.encoder_preset, base.encoder_preset),
            video_codec: pick(o.video_codec, base.video_codec),
            container: pick(o.container, base.container),
            fps: pick(o.fps, base.fps),
            max_height: pick(o.max_height, base.max_height),
            audio_bitrate_kbps: pick(o.audio_bitrate_kbps, base.audio_bitrate_kbps),
        },
    }
}

pub open spec fn override_model(o: Option<&OutputOverride>) -> Option<OutputOverrideModel> {
    match o {
        Some(v) => Some(v@),
        None => None,
    }
}

/// The settings a clip exports with: the global settings with the clip's overrides applied.
pub fn effective_output(base: &OutputSettings, o: Option<&OutputOverride>) -> (r: OutputSettings)
    ensures
        r@ == merge_output(base@, override_model(o)),
{
    let mut out = base.duplicate();
    if let Some(o) = o {
        if let Some(v) = o.quality_mode {
            out.quality_mode = v;
        }
        if let Some(v) = o.quality_preset {
            out.quality_preset = v;
        }
        if let Some(v) = o.crf {
            out.crf = v;
        }
        if let Some(v) = o.video_bitrate_kbps {
            out.video_bitrate_kbps = v;
        }
        if let Some(v) = &o.encoder_preset {
            out.encoder_preset = v.clone();
        }
        if let Some(v) = o.video_codec {
            out.video_codec = v;
        }
        if let Some(v) = o.container {
            out.container = v;
        }
        if let Some(v) = o.fps {
            out.fps = v;
        }
        if let Some(v) = o.max_height {
            out.max_height = v;
        }
        if let Some(v) = o.audio_bitrate_kbps {
            out.audio_bitrate_kbps = v;
        }
    }
    out
}

/// Turning the override on seeds it with the global quality model (mode, preset, CRF and
/// bitrate); turning it off clears it.
pub open spec fn seeded_override(on: bool, base: OutputSettingsModel) -> Option<OutputOverrideModel> {
    if on {
        Some(
            OutputOverrideModel {
                quality_mode: Some(base.quality_mode),
                quality_preset: Some(base.quality_preset),
                crf: Some(base.crf),
                video_bitrate_kbps: Some(base.video_bitrate_kbps),
                ..empty_override()
            },
        )
    } else {
        None
    }
}

/// The override a clip gets when its override switch is turned on or off.
pub fn toggle_override(on: bool, base: &OutputSettings) -> (r: Option<OutputOverride>)
    ensures
        match r {
            Some(v) => seeded_override(on, base@) == Some(v@),
            None => seeded_override(on, base@) is None,
        },
{
    if on {
        let mut o = OutputOverride::default();
        o.quality_mode = Some(base.quality_mode);
        o.quality_preset = Some(base.quality_preset);
        o.crf = Some(base.crf);
        o.video_bitrate_kbps = Some(base.video_bitrate_kbps);
        Some(o)
    } else {
        None
    }
}

/// A CRF typed into the editor: clamped to 0..=51.
pub fn clamp_crf(v: i64) -> (r: i64)
    ensures
        r == (if v < 0 {
            0
        } else if v > 51 {
            51
        } else {
            v
        }),
{
    if v < 0 {
        0
    } else if v > 51 {
        51
    } else {
        v
    }
}

/// A video bitrate typed into the editor: at least 100 kbps.
pub fn clamp_bitrate(v: i64) -> (r: i64)
    ensures
        r == (if v < 100 {
            100
        } else {
            v
        }),
{
    if v < 100 {
        100
    } else {
        v
    }
}

// ---------------------------------------------------------------------------------------------
// Tags
// ---------------------------------------------------------------------------------------------

/// The tag that hides a clip from the queue.
pub open spec fn dismissed_tag() -> Seq<char> {
    "dismissed"@
}

pub open spec fn strings_model(v: Seq<String>) -> Seq<Seq<char>> {
    Seq::new(v.len(), |i: int| v[i]@)
}

pub open spec fn tags_model(t: Option<Vec<String>>) -> Option<Seq<Seq<char>>> {
    match t {
        Some(v) => Some(strings_model(v@)),
        None => None,
    }
}

pub open spec fn or_empty(t: Option<Seq<Seq<char>>>) -> Seq<Seq<char>> {
    match t {
        Some(v) => v,
        None => Seq::empty(),
    }
}

pub open spec fn eq_pred(t: Seq<char>) -> spec_fn(Seq<char>) -> bool {
    |x: Seq<char>| x == t
}

/// Position of the first tag equal to `t`, or -1.
pub open spec fn tag_pos(v: Seq<Seq<char>>, t: Seq<char>) -> int {
    first_where(v, eq_pred(t))
}

/// Adding a tag: the text is trimmed; blank text changes nothing; otherwise the tag list is
/// created if absent and the tag appended unless already present.
pub open spec fn add_tag_spec(tags: Option<Seq<Seq<char>>>, raw: Seq<char>) -> Option<Seq<Seq<char>>> {
    let t = trim_ws(raw);
    if t.len() == 0 {
        tags
    } else {
        let cur = or_empty(tags);
        if cur.contains(t) {
            Some(cur)
        } else {
            Some(cur.push(t))
        }
    }
}

/// The list without any element equal to `t`, the others kept in order.
pub open spec fn remove_all(v: Seq<Seq<char>>, t: Seq<char>) -> Seq<Seq<char>>
    decreases v.len(),
{
    if v.len() == 0 {
        v
    } else {
        let p = remove_all(v.drop_last(), t);
        if v.last() == t {
            p
        } else {
            p.push(v.last())
        }
    }
}

pub open spec fn remove_tag_spec(tags: Option<Seq<Seq<char>>>, t: Seq<char>) -> Option<Seq<Seq<char>>> {
    match tags {
        Some(v) => Some(remove_all(v, t)),
        None => None,
    }
}

/// Dismissing toggles the `dismissed` tag: its first occurrence is removed, or it is appended
/// (creating the list) when absent.
pub open spec fn toggle_dismissed_spec(tags: Option<Seq<Seq<char>>>) -> Seq<Seq<char>> {
    let cur = or_empty(tags);
    let k = tag_pos(cur, dismissed_tag());
    if k >= 0 {
        cur.remove(k)
    } else {
        cur.push(dismissed_tag())
    }
}

pub open spec fn is_dismissed_spec(tags: Option<Seq<Seq<char>>>) -> bool {
    or_empty(tags).contains(dismissed_tag())
}

/// What is persisted of a tag list: nothing when it is absent or empty.
pub open spec fn stored_tags_spec(tags: Option<Seq<Seq<char>>>) -> Option<Seq<Seq<char>>> {
    match tags {
        Some(v) => if v.len() > 0 {
            Some(v)
        } else {
            None
        },
        None => None,
    }
}

fn find_tag(v: &Vec<String>, t: &str) -> (r: Option<usize>)
    ensures
        match r {
            Some(k) => k < v.len() && k as int == tag_pos(strings_model(v@), t@),
            None => tag_pos(strings_model(v@), t@) == -1,
        },
{
    let ghost m = strings_model(v@);
    let mut i: usize = 0;
    while i < v.len()
        invariant
            i <= v.len(),
            m == strings_model(v@),
            first_where(m.take(i as int), eq_pred(t@)) == -1,
        decreases v.len() - i,
    {
        proof {
            lemma_first_where_step(m, i as int, eq_pred(t@));
        }
        if str_eq(v[i].as_str(), t) {
            proof {
                lemma_first_where_prefix(m, i as int + 1, eq_pred(t@));
            }
            return Some(i);
        }
        i += 1;
    }
    assert(m.take(v.len() as int) =~= m);
    None
}

proof fn lemma_tag_pos_contains(v: Seq<Seq<char>>, t: Seq<char>)
    ensures
        (tag_pos(v, t) >= 0) == v.contains(t),
        tag_pos(v, t) >= 0 ==> v[tag_pos(v, t)] == t,
        -1 <= tag_pos(v, t) < v.len(),
{
    lemma_first_where(v, eq_pred(t));
    if v.contains(t) {
        let j = choose|j: int| 0 <= j < v.len() && v[j] == t;
        assert(eq_pred(t)(v[j]));
    }
}

/// Whether a clip's tags include `dismissed`.
pub fn is_dismissed(tags: &Option<Vec<String>>) -> (r: bool)
    ensures
        r == is_dismissed_spec(tags_model(*tags)),
{
    match tags {
        None => {
            assert(or_empty(tags_model(*tags)) =~= Seq::<Seq<char>>::empty());
            false
        },
        Some(v) => {
            proof {
                lemma_tag_pos_contains(strings_model(v@), dismissed_tag());
            }
            find_tag(v, "dismissed").is_some()
        },
    }
}

/// Add a tag to a clip's tag list (see [`add_tag_spec`]).
pub fn add_tag(tags: &mut Option<Vec<String>>, raw: &str)
    ensures
        tags_model(*final(tags)) == add_tag_spec(tags_model(*old(tags)), raw@),
{
    let t = string_from(&trim_str(raw));
    if t.as_str().unicode_len() == 0 {
        return;
    }
    let mut cur: Vec<String> = match tags.take() {
        Some(v) => v,
        None => Vec::new(),
    };
    assert(strings_model(cur@) =~= or_empty(tags_model(*old(tags))));
    proof {
        lemma_tag_pos_contains(strings_model(cur@), t@);
    }
    if find_tag(&cur, t.as_str()).is_none() {
        cur.push(t);
        assert(strings_model(cur@) =~= or_empty(tags_model(*old(tags))).push(trim_ws(raw@)));
    }
    *tags = Some(cur);
}

/// Remove every occurrence of a tag from a clip's tag list.
pub fn remove_tag(tags: &mut Option<Vec<String>>, t: &str)
    ensures
        tags_model(*final(tags)) == remove_tag_spec(tags_model(*old(tags)), t@),
{
    match tags.take() {
        None => {},
        Some(v) => {
            let ghost m = strings_model(v@);
            let mut kept: Vec<String> = Vec::new();
            let mut i: usize = 0;
            while i < v.len()
                invariant
                    i <= v.len(),
                    m == strings_model(v@),
                    strings_model(kept@) == remove_all(m.take(i as int), t@),
                decreases v.len() - i,
            {
                assert(m.take(i as int + 1).drop_last() =~= m.take(i as int));
                if !str_eq(v[i].as_str(), t) {
                    let s = v[i].clone();
                    assert(s@ == m[i as int]);
                    kept.push(s);
                    assert(strings_model(kept@) =~= remove_all(m.take(i as int), t@).push(m[i as int]));
                }
                i += 1;
            }
            assert(m.take(v.len() as int) =~= m);
            *tags = Some(kept);
        },
    }
}

/// Toggle the `dismissed` tag (see [`toggle_dismissed_spec`]); returns whether the clip is now
/// dismissed by this call (the tag was added).
pub fn toggle_dismissed(tags: &mut Option<Vec<String>>) -> (added: bool)
    ensures
        *final(tags) is Some,
        tags_model(*final(tags)) == Some(toggle_dismissed_spec(tags_model(*old(tags)))),
        added == (tag_pos(or_empty(tags_model(*old(tags))), dismissed_tag()) < 0),
{
    let mut cur: Vec<String> = match tags.take() {
        Some(v) => v,
        None => Vec::new(),
    };
    let ghost m = strings_model(cur@);
    assert(m =~= or_empty(tags_model(*old(tags))));
    let added = match find_tag(&cur, "dismissed") {
        Some(k) => {
            cur.remove(k);
            assert(strings_model(cur@) =~= m.remove(k as int));
            false
        },
        None => {
            cur.push("dismissed".to_string());
            assert(strings_model(cur@) =~= m.push(dismissed_tag()));
            true
        },
    };
    *tags = Some(cur);
    added
}

/// The tag list as persisted (dropped when empty).
pub fn stored_tags(tags: &Option<Vec<String>>) -> (r: Option<Vec<String>>)
    ensures
        tags_model(r) == stored_tags_spec(tags_model(*tags)),
{
    match tags {
        Some(v) => if v.len() > 0 {
            let c = clone_strings(v);
            Some(c)
        } else {
            None
        },
        None => None,
    }
}

fn clone_strings(v: &Vec<String>) -> (r: Vec<String>)
    ensures
        strings_model(r@) == strings_model(v@),
{
    let mut out: Vec<String> = Vec::new();
    let mut i: usize = 0;
    while i < v.len()
        invariant
            i <= v.len(),
            out@.len() == i,
            forall|j: int| 0 <= j < i ==> #[trigger] out@[j]@ == v@[j]@,
        decreases v.len() - i,
    {
        let s = v[i].clone();
        assert(s@ == v@[i as int]@);
        out.push(s);
        i += 1;
    }
    assert(strings_model(out@) =~= strings_model(v@));
    out
}

// ---------------------------------------------------------------------------------------------
// Known paths and watched folders
// ---------------------------------------------------------------------------------------------

/// Scanning in paths: each is put in forward-slash form; one not yet known joins the known
/// list and the fresh list, in order; a known one is skipped. Returns `(known, fresh)`.
pub open spec fn fresh_spec(known: Seq<Seq<char>>, raw: Seq<Seq<char>>) -> (Seq<Seq<char>>, Seq<Seq<char>>)
    decreases raw.len(),
{
    if raw.len() == 0 {
        (known, Seq::empty())
    } else {
        let prev = fresh_spec(known, raw.drop_last());
        let p = posix(raw.last());
        if prev.0.contains(p) {
            prev
        } else {
            (prev.0.push(p), prev.1.push(p))
        }
    }
}

/// Add scanned paths to the known list (see [`fresh_spec`]); returns the fresh ones.
pub fn add_fresh_paths(known: &mut Vec<String>, raw: &Vec<String>) -> (fresh: Vec<String>)
    ensures
        (strings_model(final(known)@), strings_model(fresh@)) == fresh_spec(strings_model(old(known)@), strings_model(raw@)),
{
    let ghost k0 = strings_model(known@);
    let ghost rm = strings_model(raw@);
    let mut fresh: Vec<String> = Vec::new();
    let mut i: usize = 0;
    assert(rm.take(0) =~= Seq::<Seq<char>>::empty());
    while i < raw.len()
        invariant
            i <= raw.len(),
            rm == strings_model(raw@),
            (strings_model(known@), strings_model(fresh@)) == fresh_spec(k0, rm.take(i as int)),
        decreases raw.len() - i,
    {
        assert(rm.take(i as int + 1).drop_last() =~= rm.take(i as int));
        assert(rm.take(i as int + 1).last() == raw@[i as int]@);
        let p = to_posix(raw[i].as_str());
        proof {
            lemma_tag_pos_contains(strings_model(known@), p@);
        }
        if find_tag(known, p.as_str()).is_none() {
            let q = p.clone();
            assert(q@ == p@);
            known.push(p);
            fresh.push(q);
            assert(strings_model(known@) =~= fresh_spec(k0, rm.take(i as int)).0.push(posix(rm[i as int])));
            assert(strings_model(fresh@) =~= fresh_spec(k0, rm.take(i as int)).1.push(posix(rm[i as int])));
        }
        i += 1;
    }
    assert(rm.take(raw.len() as int) =~= rm);
    fresh
}

/// Drop a path from the known list (every occurrence).
pub fn forget_path(known: &mut Vec<String>, path: &str)
    ensures
        strings_model(final(known)@) == remove_all(strings_model(old(known)@), path@),
{
    let mut taken: Vec<String> = Vec::new();
    core::mem::swap(&mut taken, known);
    let mut t: Option<Vec<String>> = Some(taken);
    remove_tag(&mut t, path);
    match t {
        Some(v) => {
            *known = v;
        },
        None => {},
    }
}

/// Watching a folder: added at the end unless already watched. Returns whether it was added.
pub fn add_watched_folder(folders: &mut Vec<String>, folder: &str) -> (added: bool)
    ensures
        added == !strings_model(old(folders)@).contains(folder@),
        strings_model(final(folders)@) == if added {
            strings_model(old(folders)@).push(folder@)
        } else {
            strings_model(old(folders)@)
        },
{
    proof {
        lemma_tag_pos_contains(strings_model(folders@), folder@);
    }
    if find_tag(folders, folder).is_some() {
        return false;
    }
    let ghost before = strings_model(folders@);
    folders.push(folder.to_string());
    assert(strings_model(folders@) =~= before.push(folder@));
    true
}

/// Stop watching a folder (every entry equal to it is removed).
pub fn remove_watched_folder(folders: &mut Vec<String>, folder: &str)
    ensures
        strings_model(final(folders)@) == remove_all(strings_model(old(folders)@), folder@),
{
    forget_path(folders, folder);
}

} // verus!
