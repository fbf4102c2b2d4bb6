//! Properties of the library as a whole, proved over the functions' specifications.

use vstd::prelude::*;
use crate::args::encode_spec;
use crate::config::{OutputSettingsModel, QualityMode, QualityPreset};
use crate::detect::{obs_recording_folder, ObsConfigFilesModel};
use crate::hw::{candidate_name, hw_plan_spec, wants_hevc};
use crate::keys::{binding_spec, KeyModel, Modifiers};
use crate::paths::{base_name_spec, dir_name_spec, is_sep, join_path_spec, posix, trim_end_seps};
use crate::probe::{
    audio_info, audio_streams_spec, is_kind, media_spec, or_unknown, or_zero, stream_list, video_of, video_pred,
    FfprobeOutputModel, FfprobeStreamModel,
};
use crate::progress::progress_fraction_spec;
use crate::queue::{
    add_tag_spec, dismissed_tag, fresh_spec, is_dismissed_spec, merge_output, or_empty,
    remove_all, remove_tag_spec, tag_pos, toggle_dismissed_spec, eq_pred,
};
use crate::rename::{
    collapse_seps, collapse_state, flush_run, is_illegal, is_tsep, naming_template_spec, renamed_file_name_spec,
    sanitize_char, sanitize_spec, split_file_name_spec, strip_leading_seps, strip_trailing_dots_spaces,
    strip_trailing_seps, tidy_spec, RenameVarsModel,
};
use crate::text::{is_ws, last_index_of, lemma_first_where, lemma_last_index_of, trim_end_ws, trim_start_ws, trim_ws};
use crate::tag_filter::{tag_in_lists, visible_spec};
use crate::timeline::{set_in_spec, set_out_spec, skip_spec};

verus! {

// ---------------------------------------------------------------------------------------------
// Paths and names
// ---------------------------------------------------------------------------------------------

/// Normalising separators twice is the same as once.
pub proof fn law_posix_idempotent(s: Seq<char>)
    ensures
        posix(posix(s)) == posix(s),
{
    assert(posix(posix(s)) =~= posix(s));
}

proof fn lemma_posix_concat(a: Seq<char>, b: Seq<char>)
    ensures
        posix(a + b) == posix(a) + posix(b),
{
    assert(posix(a + b) =~= posix(a) + posix(b));
}

/// The last occurrence of `c` in `a + [c] + b`, when `b` has none, is right after `a`.
pub proof fn lemma_last_after_prefix(a: Seq<char>, b: Seq<char>, c: char)
    requires
        !b.contains(c),
    ensures
        last_index_of(a + seq![c] + b, c) == a.len(),
{
    let s = a + seq![c] + b;
    lemma_last_index_of(s, c);
    let k = last_index_of(s, c);
    assert(s[a.len() as int] == c);
    if k > a.len() {
        assert(s[k] == b[k - a.len() - 1]);
        assert(b.contains(c));
    }
}

/// The file name of `dir` joined with a name that holds no separator is that name.
pub proof fn law_base_name_of_join(dir: Seq<char>, name: Seq<char>)
    requires
        !name.contains('/'),
        !name.contains('\\'),
    ensures
        base_name_spec(join_path_spec(dir, name)) == name,
{
    assert(posix(name) =~= name);
    if dir.len() == 0 {
        lemma_last_index_of(name, '/');
        if last_index_of(name, '/') >= 0 {
            assert(name.contains('/'));
        }
        assert(name.skip(0) =~= name);
    } else {
        let head = trim_end_seps(dir);
        let p = head + seq!['/'] + name;
        lemma_posix_concat(head + seq!['/'], name);
        lemma_posix_concat(head, seq!['/']);
        assert(posix(seq!['/']) =~= seq!['/']);
        assert(posix(p) == posix(head) + seq!['/'] + name);
        lemma_last_after_prefix(posix(head), name, '/');
        assert(posix(p).skip(posix(head).len() as int + 1) =~= name);
    }
}

/// Splitting a path into its directory and file name and joining them again gives back the
/// path in forward-slash form, when no two separators stand side by side and the last one is
/// not the path's first character.
pub proof fn law_dir_and_base_rejoin(p: Seq<char>)
    requires
        forall|i: int| 0 <= i < p.len() - 1 ==> !(is_sep(#[trigger] p[i]) && is_sep(p[i + 1])),
        last_index_of(posix(p), '/') != 0,
    ensures
        posix(join_path_spec(dir_name_spec(p), base_name_spec(p))) == posix(p),
{
    let n = posix(p);
    lemma_last_index_of(n, '/');
    let k = last_index_of(n, '/');
    if k < 0 {
        assert(n.skip(0) =~= n);
        law_posix_idempotent(p);
    } else {
        let dir = p.take(k);
        assert(is_sep(p[k]));
        assert(!is_sep(p[k - 1]));
        assert(dir.last() == p[k - 1]);
        assert(trim_end_seps(dir) == dir);
        let base = n.skip(k + 1);
        lemma_posix_concat(dir + seq!['/'], base);
        lemma_posix_concat(dir, seq!['/']);
        assert(posix(seq!['/']) =~= seq!['/']);
        assert(posix(base) =~= base);
        assert(posix(dir) + seq!['/'] + base =~= n);
    }
}

/// A file name split into base and extension puts back together as the name: `base.ext`, or
/// just the base when there is no extension.
pub proof fn law_split_rejoins(n: Seq<char>)
    ensures
        split_file_name_spec(n).1.len() > 0 ==> split_file_name_spec(n).0 + seq!['.']
            + split_file_name_spec(n).1 == n,
        split_file_name_spec(n).1.len() == 0 ==> (split_file_name_spec(n).0 == n
            || split_file_name_spec(n).0 + seq!['.'] == n),
{
    lemma_last_index_of(n, '.');
    let d = last_index_of(n, '.');
    if d > 0 {
        assert(n.take(d) + seq!['.'] + n.skip(d + 1) =~= n);
    }
}

/// A renamed file keeps the extension it was given: splitting the new name gives back the
/// template's base name and that extension (one without a dot).
pub proof fn law_renamed_keeps_extension(t: Seq<char>, v: RenameVarsModel)
    requires
        v.ext.len() > 0,
        !v.ext.contains('.'),
    ensures
        split_file_name_spec(renamed_file_name_spec(t, v)) == (naming_template_spec(t, v), v.ext),
{
    let base = naming_template_spec(t, v);
    assert(base.len() > 0) by {
        reveal_strlit("clip");
    }
    lemma_last_after_prefix(base, v.ext, '.');
    let n = base + seq!['.'] + v.ext;
    assert(n.take(base.len() as int) =~= base);
    assert(n.skip(base.len() as int + 1) =~= v.ext);
}

// ---------------------------------------------------------------------------------------------
// Encoding
// ---------------------------------------------------------------------------------------------

/// Encode options never raise the frame rate or the height above the source's, and a
/// re-encode is wanted exactly unless the quality is the `Original` preset.
pub proof fn law_encode_never_raises(o: OutputSettingsModel, src_fps_milli: int, src_height: int)
    ensures
        encode_spec(o, src_fps_milli, src_height).video.fps is Some ==> {
            let f = encode_spec(o, src_fps_milli, src_height).video.fps->0;
            0 < f && f * 1000 < src_fps_milli
        },
        encode_spec(o, src_fps_milli, src_height).video.scale_height is Some ==> {
            let h = encode_spec(o, src_fps_milli, src_height).video.scale_height->0;
            0 < h < src_height
        },
        encode_spec(o, src_fps_milli, src_height).reencode == !(o.quality_mode == QualityMode::Preset
            && o.quality_preset == QualityPreset::Original),
{
}

/// A 10-bit output always gets an HEVC encoder, whichever vendor is used.
pub proof fn law_ten_bit_forces_hevc(s: OutputSettingsModel, i: int)
    requires
        0 <= i < 3,
    ensures
        hw_plan_spec(s, true, i).encoder.take(5) == "hevc_"@,
        hw_plan_spec(s, true, i).ten_bit,
{
    reveal_strlit("hevc_");
    reveal_strlit("hevc_nvenc");
    reveal_strlit("hevc_amf");
    reveal_strlit("hevc_qsv");
    assert(wants_hevc(s, true));
    assert(candidate_name(true, i).take(5) =~= "hevc_"@);
}

// ---------------------------------------------------------------------------------------------
// Tags and overrides
// ---------------------------------------------------------------------------------------------

proof fn lemma_pos_contains(v: Seq<Seq<char>>, t: Seq<char>)
    ensures
        (tag_pos(v, t) >= 0) == v.contains(t),
        tag_pos(v, t) >= 0 ==> v[tag_pos(v, t)] == t,
        -1 <= tag_pos(v, t) < v.len(),
        forall|j: int| 0 <= j < v.len() && (tag_pos(v, t) < 0 || j < tag_pos(v, t)) ==> v[j] != t,
{
    lemma_first_where(v, eq_pred(t));
    assert forall|j: int| 0 <= j < v.len() && (tag_pos(v, t) < 0 || j < tag_pos(v, t)) implies v[j]
        != t by {
        assert(!eq_pred(t)(v[j]));
    }
    if v.contains(t) {
        let j = choose|j: int| 0 <= j < v.len() && v[j] == t;
        assert(eq_pred(t)(v[j]));
    }
}

/// Dismissing a clip and then un-dismissing it gives back its tags as they were.
pub proof fn law_dismiss_twice_restores(v: Seq<Seq<char>>)
    requires
        !v.contains(dismissed_tag()),
    ensures
        toggle_dismissed_spec(Some(toggle_dismissed_spec(Some(v)))) == v,
{
    lemma_pos_contains(v, dismissed_tag());
    let w = v.push(dismissed_tag());
    assert(toggle_dismissed_spec(Some(v)) == w);
    lemma_pos_contains(w, dismissed_tag());
    assert(w[v.len() as int] == dismissed_tag());
    let k = tag_pos(w, dismissed_tag());
    if k < v.len() {
        assert(w[k] == v[k]);
        assert(v.contains(dismissed_tag()));
    }
    assert(w.remove(v.len() as int) =~= v);
}

/// Toggling `dismissed` flips whether a clip is dismissed (when the tag occurs at most once).
pub proof fn law_dismiss_flips(tags: Option<Seq<Seq<char>>>)
    requires
        forall|i: int, j: int|
            0 <= i < or_empty(tags).len() && 0 <= j < or_empty(tags).len() && or_empty(tags)[i]
                == dismissed_tag() && or_empty(tags)[j] == dismissed_tag() ==> i == j,
    ensures
        is_dismissed_spec(Some(toggle_dismissed_spec(tags))) != is_dismissed_spec(tags),
{
    let v = or_empty(tags);
    lemma_pos_contains(v, dismissed_tag());
    let k = tag_pos(v, dismissed_tag());
    if k >= 0 {
        let r = v.remove(k);
        if r.contains(dismissed_tag()) {
            let j = choose|j: int| 0 <= j < r.len() && r[j] == dismissed_tag();
            if j < k {
                assert(v[j] == dismissed_tag());
            } else {
                assert(v[j + 1] == dismissed_tag());
            }
        }
    } else {
        let r = v.push(dismissed_tag());
        assert(r[v.len() as int] == dismissed_tag());
    }
}

/// Adding the same tag twice is the same as adding it once.
pub proof fn law_add_tag_idempotent(tags: Option<Seq<Seq<char>>>, raw: Seq<char>)
    ensures
        add_tag_spec(add_tag_spec(tags, raw), raw) == add_tag_spec(tags, raw),
{
    let t = trim_ws(raw);
    if t.len() > 0 {
        let cur = or_empty(tags);
        if !cur.contains(t) {
            let w = cur.push(t);
            assert(w[cur.len() as int] == t);
            assert(w.contains(t));
        }
    }
}

proof fn lemma_remove_absent(v: Seq<Seq<char>>, t: Seq<char>)
    requires
        !v.contains(t),
    ensures
        remove_all(v, t) == v,
    decreases v.len(),
{
    if v.len() > 0 {
        assert(!v.drop_last().contains(t)) by {
            if v.drop_last().contains(t) {
                let j = choose|j: int| 0 <= j < v.drop_last().len() && v.drop_last()[j] == t;
                assert(v[j] == t);
            }
        }
        lemma_remove_absent(v.drop_last(), t);
        assert(v.last() != t);
        assert(v.drop_last().push(v.last()) =~= v);
    }
}

/// Removing a tag that was just added (and was not there before) gives back the tags as they
/// were.
pub proof fn law_remove_undoes_add(v: Seq<Seq<char>>, raw: Seq<char>)
    requires
        trim_ws(raw).len() > 0,
        !v.contains(trim_ws(raw)),
    ensures
        remove_tag_spec(add_tag_spec(Some(v), raw), trim_ws(raw)) == Some(v),
{
    let t = trim_ws(raw);
    let w = v.push(t);
    assert(w.drop_last() =~= v);
    lemma_remove_absent(v, t);
}

/// After removing a tag, no copy of it is left.
pub proof fn law_remove_tag_removes(v: Seq<Seq<char>>, t: Seq<char>)
    ensures
        !remove_all(v, t).contains(t),
    decreases v.len(),
{
    if v.len() > 0 {
        law_remove_tag_removes(v.drop_last(), t);
        let p = remove_all(v.drop_last(), t);
        if v.last() != t {
            if p.push(v.last()).contains(t) {
                let j = choose|j: int| 0 <= j < p.push(v.last()).len() && p.push(v.last())[j] == t;
                if j < p.len() {
                    assert(p[j] == t);
                }
            }
        }
    }
}

/// With no override a clip exports with the global settings.
pub proof fn law_no_override_is_global(base: OutputSettingsModel)
    ensures
        merge_output(base, None) == base,
{
}

// ---------------------------------------------------------------------------------------------
// The transport
// ---------------------------------------------------------------------------------------------

/// The in point stays at least a tenth of a second before the out point (when the out point
/// leaves room for that).
pub proof fn law_in_before_out(current: int, trim_end: int)
    requires
        trim_end >= 100_000,
    ensures
        0 <= set_in_spec(current, trim_end) <= trim_end - 100_000,
{
}

/// The out point stays at least a tenth of a second after the in point (when the clip leaves
/// room for that).
pub proof fn law_out_after_in(current: int, trim_start: int, trim_end: int, duration: Option<i64>)
    requires
        trim_start >= 0,
        trim_start + 100_000 <= match duration {
            Some(d) => d as int,
            None => trim_end,
        },
    ensures
        set_out_spec(current, trim_start, trim_end, duration) >= trim_start + 100_000,
{
}

/// Skipping forward and then back by the same amount returns to the start, when both moves
/// stay inside the clip.
pub proof fn law_skip_back_and_forth(current: int, delta: int, d: i64)
    requires
        0 <= current <= d,
        0 <= current + delta <= d,
    ensures
        skip_spec(skip_spec(current, delta, Some(d)), -delta, Some(d)) == current,
{
}

/// Export progress never goes backwards as the time reached grows.
pub proof fn law_progress_monotonic(t1: i64, t2: i64, duration: i64)
    requires
        t1 <= t2,
    ensures
        progress_fraction_spec(Some(t1), duration) <= progress_fraction_spec(Some(t2), duration),
{
    if duration > 0 && 0 < t1 && t2 < duration {
        vstd::arithmetic::mul::lemma_mul_inequality(t1 as int, t2 as int, 1_000_000);
        vstd::arithmetic::div_mod::lemma_div_is_ordered(t1 * 1_000_000, t2 * 1_000_000, duration as int);
    }
    if duration > 0 && 0 < t1 && t1 < duration && t2 >= duration {
        assert(t1 * 1_000_000 / (duration as int) <= 1_000_000) by {
            vstd::arithmetic::div_mod::lemma_div_is_ordered(t1 * 1_000_000, duration * 1_000_000, duration as int);
            vstd::arithmetic::div_mod::lemma_div_multiples_vanish(1_000_000, duration as int);
            assert(duration * 1_000_000 == 1_000_000 * duration) by (nonlinear_arith);
        }
    }
    if duration > 0 && 0 < t1 && t1 < duration {
        assert(t1 * 1_000_000 / (duration as int) >= 0) by {
            vstd::arithmetic::div_mod::lemma_div_pos_is_pos(t1 * 1_000_000, duration as int);
        }
    }
}

// ---------------------------------------------------------------------------------------------
// Reports, configuration, shortcuts, scanning
// ---------------------------------------------------------------------------------------------

pub open spec fn audio_pred() -> spec_fn(FfprobeStreamModel) -> bool {
    |s: FfprobeStreamModel| is_kind(s, "audio"@)
}

/// The parsed audio list has one entry per audio stream of the report, in report order: the
/// `i`-th entry is numbered `i` among the audio streams and carries that stream's index, codec,
/// channel count and tags.
pub proof fn law_audio_streams_numbered(ss: Seq<FfprobeStreamModel>)
    requires
        ss.len() <= i64::MAX,
    ensures
        audio_streams_spec(ss).len() == ss.filter(audio_pred()).len(),
        forall|i: int|
            0 <= i < audio_streams_spec(ss).len() ==> #[trigger] audio_streams_spec(ss)[i] == audio_info(
                ss.filter(audio_pred())[i],
                i as i64,
            ),
        forall|i: int| 0 <= i < audio_streams_spec(ss).len() ==> #[trigger] audio_streams_spec(ss)[i].index == i,
        forall|i: int|
            0 <= i < audio_streams_spec(ss).len() ==> #[trigger] audio_streams_spec(ss)[i].stream_index
                == ss.filter(audio_pred())[i].index,
    decreases ss.len(),
{
    reveal(Seq::filter);
    if ss.len() > 0 {
        law_audio_streams_numbered(ss.drop_last());
        let prev = audio_streams_spec(ss.drop_last());
        let f = ss.filter(audio_pred());
        let fp = ss.drop_last().filter(audio_pred());
        assert forall|i: int| 0 <= i < audio_streams_spec(ss).len() implies #[trigger] audio_streams_spec(ss)[i] == audio_info(f[i], i as i64) by {
            if i < prev.len() {
                assert(prev[i] == audio_info(fp[i], i as i64));
            }
        }
    }
}

/// What a parsed report says: its video facts come from the first `video` stream (0 and
/// `unknown` without one), and its audio list is [`law_audio_streams_numbered`]'s.
pub proof fn law_parsed_report(d: FfprobeOutputModel)
    requires
        stream_list(d).len() <= i64::MAX,
    ensures
        media_spec(d).audio_streams.len() == stream_list(d).filter(audio_pred()).len(),
        forall|i: int|
            0 <= i < media_spec(d).audio_streams.len() ==> #[trigger] media_spec(d).audio_streams[i]
                == audio_info(stream_list(d).filter(audio_pred())[i], i as i64),
        video_of(d) is None ==> media_spec(d).width == 0 && media_spec(d).height == 0
            && media_spec(d).video_codec == "unknown"@,
        video_of(d) matches Some(v) ==> media_spec(d).width == or_zero(v.width) && media_spec(d).height
            == or_zero(v.height) && media_spec(d).video_codec == or_unknown(v.codec_name)
            && v.codec_type == Some("video"@),
        video_of(d) is Some <==> exists|i: int| 0 <= i < stream_list(d).len() && is_kind(#[trigger] stream_list(d)[i], "video"@),
{
    law_audio_streams_numbered(stream_list(d));
    let ss = stream_list(d);
    lemma_first_where(ss, video_pred());
    if exists|i: int| 0 <= i < ss.len() && is_kind(#[trigger] ss[i], "video"@) {
        let i = choose|i: int| 0 <= i < ss.len() && is_kind(#[trigger] ss[i], "video"@);
        assert(video_pred()(ss[i]));
    }
}

/// Without any OBS profile no recording folder is detected.
pub proof fn law_no_profiles_no_folder(f: ObsConfigFilesModel)
    requires
        f.profiles.len() == 0,
    ensures
        obs_recording_folder(f) is None,
{
}

/// An empty (or blank) binding never matches any key.
pub proof fn law_blank_binding_never_matches(b: Seq<char>, key: KeyModel, mods: Modifiers)
    requires
        trim_ws(b).len() == 0,
    ensures
        !binding_spec(b, key, mods),
{
}

/// Scanning keeps the known list free of duplicates, and every fresh path is one that was not
/// known before.
pub proof fn law_fresh_paths_distinct(known: Seq<Seq<char>>, raw: Seq<Seq<char>>)
    requires
        forall|i: int, j: int| 0 <= i < j < known.len() ==> known[i] != known[j],
    ensures
        forall|i: int, j: int|
            0 <= i < j < fresh_spec(known, raw).0.len() ==> fresh_spec(known, raw).0[i] != fresh_spec(
                known,
                raw,
            ).0[j],
        forall|i: int| 0 <= i < fresh_spec(known, raw).1.len() ==> !known.contains(#[trigger] fresh_spec(known, raw).1[i]),
        fresh_spec(known, raw).0 == known + fresh_spec(known, raw).1,
    decreases raw.len(),
{
    if raw.len() > 0 {
        law_fresh_paths_distinct(known, raw.drop_last());
        let prev = fresh_spec(known, raw.drop_last());
        let p = posix(raw.last());
        if !prev.0.contains(p) {
            assert forall|i: int, j: int| 0 <= i < j < prev.0.push(p).len() implies prev.0.push(p)[i]
                != prev.0.push(p)[j] by {
                if j == prev.0.len() {
                    assert(prev.0[i] != p);
                }
            }
            assert forall|i: int| 0 <= i < prev.1.push(p).len() implies !known.contains(
                #[trigger] prev.1.push(p)[i],
            ) by {
                if i == prev.1.len() {
                    if known.contains(p) {
                        let j = choose|j: int| 0 <= j < known.len() && known[j] == p;
                        assert(prev.0[j] == p);
                    }
                }
            }
            assert(prev.0.push(p) =~= known + prev.1.push(p));
        }
    }
}

/// The tag filters offered never include `dismissed`, and without a filter a clip shows
/// exactly when it is not dismissed.
pub proof fn law_filters_hide_dismissed(lists: Seq<Option<Seq<Seq<char>>>>, tags: Option<Seq<Seq<char>>>, offered: Seq<Seq<char>>)
    ensures
        !tag_in_lists(lists, dismissed_tag()),
        visible_spec(tags, None, offered) == !is_dismissed_spec(tags),
{
}

// ---------------------------------------------------------------------------------------------
// Clean file names
// ---------------------------------------------------------------------------------------------

/// A character that may stand in a Windows file name: no control character, none of `<>:"/\|?*`.
pub open spec fn legal_char(c: char) -> bool {
    !is_illegal(c) && c as u32 >= 0x20
}

pub open spec fn all_legal(s: Seq<char>) -> bool {
    forall|i: int| 0 <= i < s.len() ==> legal_char(#[trigger] s[i])
}

/// `r` is the first `r.len()` characters of `s`.
spec fn prefix_of(r: Seq<char>, s: Seq<char>) -> bool {
    r.len() <= s.len() && forall|i: int| 0 <= i < r.len() ==> r[i] == s[i]
}

/// `r` is the last `r.len()` characters of `s`.
spec fn suffix_of(r: Seq<char>, s: Seq<char>) -> bool {
    r.len() <= s.len() && forall|i: int| 0 <= i < r.len() ==> r[i] == s[i + (s.len() - r.len())]
}

proof fn lemma_strip_dots_prefix(s: Seq<char>)
    ensures
        prefix_of(strip_trailing_dots_spaces(s), s),
        strip_trailing_dots_spaces(s).len() > 0 ==> strip_trailing_dots_spaces(s).last() != '.'
            && strip_trailing_dots_spaces(s).last() != ' ',
    decreases s.len(),
{
    if s.len() > 0 && (s.last() == ' ' || s.last() == '.') {
        lemma_strip_dots_prefix(s.drop_last());
    }
}

proof fn lemma_trim_end_prefix(s: Seq<char>)
    ensures
        prefix_of(trim_end_ws(s), s),
        trim_end_ws(s).len() > 0 ==> !is_ws(trim_end_ws(s).last()),
    decreases s.len(),
{
    if s.len() > 0 && is_ws(s.last()) {
        lemma_trim_end_prefix(s.drop_last());
    }
}

proof fn lemma_trim_start_suffix(s: Seq<char>)
    ensures
        suffix_of(trim_start_ws(s), s),
        trim_start_ws(s).len() > 0 ==> !is_ws(trim_start_ws(s)[0]),
    decreases s.len(),
{
    if s.len() > 0 && is_ws(s[0]) {
        lemma_trim_start_suffix(s.drop_first());
    }
}

proof fn lemma_strip_trailing_seps_prefix(s: Seq<char>)
    ensures
        prefix_of(strip_trailing_seps(s), s),
        strip_trailing_seps(s).len() > 0 ==> !is_tsep(strip_trailing_seps(s).last()),
    decreases s.len(),
{
    if s.len() > 0 && is_tsep(s.last()) {
        lemma_strip_trailing_seps_prefix(s.drop_last());
    }
}

proof fn lemma_strip_leading_seps_suffix(s: Seq<char>)
    ensures
        suffix_of(strip_leading_seps(s), s),
        strip_leading_seps(s).len() > 0 ==> !is_tsep(strip_leading_seps(s)[0]),
    decreases s.len(),
{
    if s.len() > 0 && is_tsep(s[0]) {
        lemma_strip_leading_seps_suffix(s.drop_first());
    }
}

proof fn lemma_flush_legal(o: Seq<char>, r: Seq<char>)
    requires
        all_legal(o),
        all_legal(r),
    ensures
        all_legal(flush_run(o, r)),
{
    if r.len() > 0 {
        assert(legal_char(r[0]));
    }
}

proof fn lemma_collapse_legal(s: Seq<char>)
    requires
        all_legal(s),
    ensures
        all_legal(collapse_state(s).0),
        all_legal(collapse_state(s).1),
    decreases s.len(),
{
    if s.len() > 0 {
        assert(all_legal(s.drop_last())) by {
            assert forall|i: int| 0 <= i < s.drop_last().len() implies legal_char(#[trigger] s.drop_last()[i]) by {
                assert(s.drop_last()[i] == s[i]);
            }
        }
        lemma_collapse_legal(s.drop_last());
        let (o, r) = collapse_state(s.drop_last());
        assert(legal_char(s[s.len() - 1]));
        if !is_tsep(s.last()) {
            lemma_flush_legal(o, r);
        }
    }
}

/// A sanitised file name holds no control character and none of `<>:"/\|?*`, and neither
/// begins nor ends with white space.
pub proof fn law_sanitized_names_are_legal(name: Seq<char>)
    ensures
        all_legal(sanitize_spec(name)),
        sanitize_spec(name).len() > 0 ==> !is_ws(sanitize_spec(name)[0]) && !is_ws(sanitize_spec(name).last()),
{
    let m = Seq::new(name.len(), |i: int| sanitize_char(name[i]));
    assert(all_legal(m));
    let a = strip_trailing_dots_spaces(m);
    lemma_strip_dots_prefix(m);
    let b = trim_start_ws(a);
    lemma_trim_start_suffix(a);
    let c = trim_end_ws(b);
    lemma_trim_end_prefix(b);
    assert(all_legal(c)) by {
        assert forall|i: int| 0 <= i < c.len() implies legal_char(#[trigger] c[i]) by {
            assert(c[i] == b[i]);
            assert(b[i] == a[i + (a.len() - b.len())]);
            assert(a[i + (a.len() - b.len())] == m[i + (a.len() - b.len())]);
        }
    }
    if c.len() > 0 {
        assert(c[0] == b[0]);
    }
}

/// On ASCII names sanitising also leaves no dot or space at the end and no space at the start,
/// never lengthens the name, and changes nothing a second time.
pub proof fn law_sanitize_ascii(name: Seq<char>)
    requires
        forall|i: int| 0 <= i < name.len() ==> (name[i] as u32) < 128,
    ensures
        all_legal(sanitize_spec(name)),
        sanitize_spec(name).len() > 0 ==> sanitize_spec(name).last() != '.' && sanitize_spec(name).last()
            != ' ' && sanitize_spec(name)[0] != ' ',
        sanitize_spec(name).len() <= name.len(),
        sanitize_spec(sanitize_spec(name)) == sanitize_spec(name),
{
    law_sanitized_names_are_legal(name);
    let m = Seq::new(name.len(), |i: int| sanitize_char(name[i]));
    let a = strip_trailing_dots_spaces(m);
    lemma_strip_dots_prefix(m);
    let b = trim_start_ws(a);
    lemma_trim_start_suffix(a);
    assert(trim_end_ws(b) == b) by {
        if b.len() > 0 {
            let c = b.last();
            assert(c == a[b.len() - 1 + (a.len() - b.len())]);
            assert(c == m[a.len() - 1]);
            assert((name[a.len() - 1] as u32) < 128);
            assert(c != ' ' && c != '.');
            assert(!is_ws(c));
        }
    }
    let r = sanitize_spec(name);
    assert(r == b);
    if r.len() > 0 {
        assert(r.last() == a.last());
    }
    // A second pass: every character is kept, nothing trails, nothing leads.
    let m2 = Seq::new(r.len(), |i: int| sanitize_char(r[i]));
    assert(m2 =~= r) by {
        assert forall|i: int| 0 <= i < r.len() implies m2[i] == r[i] by {
            assert(legal_char(r[i]));
        }
    }
    assert(strip_trailing_dots_spaces(r) == r);
    if r.len() > 0 {
        assert(!is_ws(r[0]));
        assert(!is_ws(r.last())) by {
            let j = r.len() - 1 + (a.len() - r.len());
            assert(r.last() == a[j]);
            assert(a[j] == m[j]);
            assert((name[j] as u32) < 128);
        }
    }
    assert(trim_start_ws(r) == r);
    assert(trim_end_ws(r) == r);
}

/// A name generated from a naming template is never empty, holds no control character and
/// none of `<>:"/\|?*`, and neither begins nor ends with a separator (`_`, `.`, `-`, white
/// space).
pub proof fn law_generated_names_are_clean(t: Seq<char>, v: RenameVarsModel)
    ensures
        naming_template_spec(t, v).len() > 0,
        all_legal(naming_template_spec(t, v)),
        !is_tsep(naming_template_spec(t, v)[0]),
        !is_tsep(naming_template_spec(t, v).last()),
{
    reveal_strlit("clip");
    let x = crate::rename::expand_from(t, 0, v);
    let s0 = sanitize_spec(x);
    law_sanitized_names_are_legal(x);
    lemma_collapse_legal(s0);
    let k = collapse_seps(s0);
    lemma_flush_legal(collapse_state(s0).0, collapse_state(s0).1);
    let l = strip_leading_seps(k);
    lemma_strip_leading_seps_suffix(k);
    let r = strip_trailing_seps(l);
    lemma_strip_trailing_seps_prefix(l);
    assert(r == tidy_spec(s0));
    assert(all_legal(r)) by {
        assert forall|i: int| 0 <= i < r.len() implies legal_char(#[trigger] r[i]) by {
            assert(r[i] == l[i]);
            assert(l[i] == k[i + (k.len() - l.len())]);
        }
    }
    if r.len() > 0 {
        assert(r[0] == l[0]);
    } else {
        let c = "clip"@;
        assert(legal_char(c[0]) && legal_char(c[1]) && legal_char(c[2]) && legal_char(c[3]));
    }
}

} // verus!
