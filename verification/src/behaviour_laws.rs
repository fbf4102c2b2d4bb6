//! What the editor's shortcuts, the edit-spec check, OBS label cleaning, the NVENC preset
//! ladder and the export progress reader are for, stated over all inputs.

use vstd::prelude::*;
use crate::edit_spec::{validate_spec, EditSpecModel};
use crate::hw::{amf_quality_spec, nvenc_preset_spec};
use crate::keys::{binding_spec, shortcut_spec, EditorCommand, KeyModel, Modifiers};
use crate::config::{KeybindsModel, QualityPreset};
use crate::args::preset_crf_spec;
use crate::json_text::json_int_spec;
use crate::desktop_config::lemma_int_doc;
use crate::numbers::{frac_part, frac_places, int_part, lemma_decimal_plain, lemma_no_exp, sign_part};
use crate::timestamp_law::{lemma_dec_nat, lemma_split_join, lemma_split_single, lemma_trim_noop};
use crate::progress::{apply_line_spec, micros_value, progress_spec, ProgressUpdate};
use crate::numbers::lemma_plain_number;
use crate::media::MediaModel;
use crate::config::{AfterExportAction, AfterExportSettingsModel};
use crate::exporting::{after_export_spec, append_timestamp_spec, dot_ext, move_destination_spec, AfterExportPlanModel};
use crate::filters::layout_name_spec;
use crate::laws::{law_base_name_of_join, lemma_last_after_prefix};
use crate::datetimes::{format_datetime_spec, LocalDateTime};
use crate::paths::{base_name_spec, dir_name_spec, posix};
use crate::rename::split_file_name_spec;
use crate::timeline::seek_spec;
use crate::obs::{skip_label_seps, source_label, strip_leading_replay, strip_trailing_label_seps};
use crate::text::{
    dec_int, dec_int_padded, dec_nat, index_of, zeros, int_body, is_ascii_digit, is_ws, last_index_of, split_on, lemma_index_of, lemma_last_index_of, trim_start_ws,
    trim_ws,
};
use crate::timeline::{command_action_spec, TransportAction};

verus! {

// ---------------------------------------------------------------------------------------------
// Editor shortcuts
// ---------------------------------------------------------------------------------------------

/// The editor's shortcuts: the five-second jumps go the same distance in opposite directions;
/// a frame step back is the negation of a frame step forward, which is one frame at the clip's
/// rate (rates below 1 fps count as 1 fps), rounded to the nearest microsecond, and positive
/// for every rate below two million frames per second; going to the start seeks to 0 and going
/// to the end seeks to the duration; the other shortcuts ask for their own action.
pub proof fn law_transport_shortcuts(fps_milli: i64, duration_us: i64)
    ensures
        command_action_spec(EditorCommand::JumpForward, fps_milli, duration_us) == TransportAction::Skip(
            5_000_000i64,
        ),
        command_action_spec(EditorCommand::JumpBack, fps_milli, duration_us) == TransportAction::Skip(
            -5_000_000i64,
        ),
        command_action_spec(EditorCommand::FrameForward, fps_milli, duration_us) matches TransportAction::Skip(
            s,
        ) && s >= 0 && command_action_spec(EditorCommand::FrameBack, fps_milli, duration_us)
            == TransportAction::Skip((-s) as i64) && 2 * (s * (if fps_milli < 1000 {
            1000
        } else {
            fps_milli as int
        }) - 1_000_000_000) <= (if fps_milli < 1000 {
            1000
        } else {
            fps_milli as int
        }) && 2 * (1_000_000_000 - s * (if fps_milli < 1000 {
            1000
        } else {
            fps_milli as int
        })) <= (if fps_milli < 1000 {
            1000
        } else {
            fps_milli as int
        }) && (fps_milli < 2_000_000_000 ==> s > 0),
        command_action_spec(EditorCommand::GoToStart, fps_milli, duration_us) == TransportAction::Seek(0),
        command_action_spec(EditorCommand::GoToEnd, fps_milli, duration_us) == TransportAction::Seek(
            duration_us,
        ),
        command_action_spec(EditorCommand::TogglePlay, fps_milli, duration_us) == TransportAction::TogglePlay,
        command_action_spec(EditorCommand::SetIn, fps_milli, duration_us) == TransportAction::SetIn,
        command_action_spec(EditorCommand::SetOut, fps_milli, duration_us) == TransportAction::SetOut,
        command_action_spec(EditorCommand::Export, fps_milli, duration_us) == TransportAction::Export,
{
    let f: int = if fps_milli < 1000 {
        1000
    } else {
        fps_milli as int
    };
    let n: int = 2 * 1_000_000_000 + f;
    let d: int = 2 * f;
    vstd::arithmetic::div_mod::lemma_fundamental_div_mod(n, d);
    let q: int = n / d;
    let r: int = n % d;
    assert(0 <= r < d) by {
        vstd::arithmetic::div_mod::lemma_mod_bound(n, d);
    }
    assert(2 * (q * f - 1_000_000_000) <= f && 2 * (1_000_000_000 - q * f) <= f && q >= 0
        && q <= 1_000_000 && (f < 2_000_000_000 ==> q > 0)) by (nonlinear_arith)
        requires
            n == d * q + r,
            0 <= r < d,
            d == 2 * f,
            n == 2 * 1_000_000_000 + f,
            f >= 1000,
    ;
}

// ---------------------------------------------------------------------------------------------
// The edit-spec check
// ---------------------------------------------------------------------------------------------

/// An edit spec is accepted exactly when its trim (if any) starts at or after 0, ends after it
/// starts and at most half a second past the clip; its crop (if any) has a positive size, a
/// non-negative position and lies inside the frame; and no audio level is negative.
pub proof fn law_edit_spec_accepted_exactly(spec: EditSpecModel, m: MediaModel)
    ensures
        validate_spec(spec, m) is None <==> ((spec.trim matches Some(t) ==> 0 <= t.start_us
            && t.start_us < t.end_us && t.end_us <= m.duration_us + 500_000) && (spec.crop matches Some(
            c,
        ) ==> c.width > 0 && c.height > 0 && c.x >= 0 && c.y >= 0 && c.x + c.width <= m.width && c.y
            + c.height <= m.height) && forall|i: int|
            0 <= i < spec.audio_tracks.len() ==> #[trigger] spec.audio_tracks[i].volume_milli >= 0),
{
}

/// The trim, if any, starts at or after 0, ends after it starts and at most half a second past
/// the clip.
pub open spec fn trim_fits(spec: EditSpecModel, m: MediaModel) -> bool {
    match spec.trim {
        Some(t) => 0 <= t.start_us && t.start_us < t.end_us && t.end_us <= m.duration_us + 500_000,
        None => true,
    }
}

/// The message names the first problem found, checking the trim, then the crop, then the audio
/// levels; in particular a crop of positive size at a non-negative position that sticks out of
/// the frame is reported as such.
pub proof fn law_edit_spec_messages(spec: EditSpecModel, m: MediaModel)
    ensures
        (spec.trim matches Some(t) && t.start_us < 0) ==> validate_spec(spec, m) == Some(
            "Trim start cannot be negative."@,
        ),
        (spec.trim matches Some(t) && t.start_us >= 0 && t.end_us <= t.start_us) ==> validate_spec(
            spec,
            m,
        ) == Some("Trim end must be after the start."@),
        (spec.trim matches Some(t) && 0 <= t.start_us < t.end_us && t.end_us > m.duration_us
            + 500_000) ==> validate_spec(spec, m) == Some("Trim end is beyond the clip duration."@),
        (spec.crop matches Some(c) && trim_fits(spec, m) && (c.width <= 0 || c.height <= 0))
            ==> validate_spec(spec, m) == Some("Crop width and height must be positive."@),
        (spec.crop matches Some(c) && trim_fits(spec, m) && c.width > 0 && c.height > 0 && (c.x < 0
            || c.y < 0)) ==> validate_spec(spec, m) == Some("Crop position cannot be negative."@),
        (spec.crop matches Some(c) && trim_fits(spec, m) && c.width > 0 && c.height > 0 && c.x >= 0
            && c.y >= 0 && (c.x + c.width > m.width || c.y + c.height > m.height)) ==> validate_spec(
            spec,
            m,
        ) == Some("Crop rectangle extends outside the frame."@),
{
}

// ---------------------------------------------------------------------------------------------
// OBS source labels
// ---------------------------------------------------------------------------------------------

proof fn lemma_strip_ignores_trailing_seps(l: Seq<char>, r: Seq<char>)
    requires
        forall|i: int| 0 <= i < r.len() ==> (#[trigger] r[i] == '_' || r[i] == '-' || r[i] == '.'),
    ensures
        strip_trailing_label_seps(l + r) == strip_trailing_label_seps(l),
    decreases r.len(),
{
    if r.len() == 0 {
        assert(l + r =~= l);
    } else {
        let r2 = r.drop_last();
        assert((l + r).drop_last() =~= l + r2);
        assert((l + r).last() == r[r.len() - 1]);
        lemma_strip_ignores_trailing_seps(l, r2);
    }
}

/// Separators (`_`, `-`, `.`) between the source label and the timestamp never reach the
/// label: the text before the timestamp with any run of them appended gives the same source
/// as without it. So `Apex_2024-03-15 21-45-10` is labelled `Apex`, as `Apex 2024-03-15
/// 21-45-10` is.
pub proof fn law_label_ignores_trailing_separators(lead: Seq<char>, seps: Seq<char>)
    requires
        forall|i: int| 0 <= i < seps.len() ==> (#[trigger] seps[i] == '_' || seps[i] == '-' || seps[i] == '.'),
    ensures
        source_label(lead + seps) == source_label(lead),
{
    lemma_strip_ignores_trailing_seps(lead, seps);
}

/// A label's trailing separators are gone: when the text before the timestamp ends in a
/// character that is neither a separator nor white space, followed by separators, the source
/// (if any) ends in that character.
pub proof fn law_label_ends_before_separators(word: Seq<char>, seps: Seq<char>)
    requires
        word.len() > 0,
        !(word.last() == '_' || word.last() == '-' || word.last() == '.'),
        !is_ws(word.last()),
        forall|i: int| 0 <= i < seps.len() ==> (#[trigger] seps[i] == '_' || seps[i] == '-' || seps[i] == '.'),
    ensures
        source_label(word + seps) matches Some(src) ==> src.last() == word.last(),
{
    lemma_strip_ignores_trailing_seps(word, seps);
    assert(strip_trailing_label_seps(word) == word);
    let c = trim_ws(word);
    lemma_trim_keeps_last(word);
    let l = strip_leading_replay(c);
    lemma_leading_replay_keeps_last(c);
    if l.len() > 0 {
        lemma_trim_keeps_last(l);
    } else {
        assert(trim_ws(l) =~= l);
    }
}

proof fn lemma_trim_start_keeps_last(s: Seq<char>)
    requires
        s.len() > 0,
        !is_ws(s.last()),
    ensures
        trim_start_ws(s).len() > 0,
        trim_start_ws(s).last() == s.last(),
    decreases s.len(),
{
    if is_ws(s[0]) {
        assert(s.len() > 1);
        lemma_trim_start_keeps_last(s.drop_first());
    }
}

/// Trimming white space keeps a last character that is not white space.
proof fn lemma_trim_keeps_last(s: Seq<char>)
    requires
        s.len() > 0,
        !is_ws(s.last()),
    ensures
        trim_ws(s).len() > 0,
        trim_ws(s).last() == s.last(),
{
    lemma_trim_start_keeps_last(s);
}

proof fn lemma_skip_seps_keeps_last(s: Seq<char>)
    ensures
        skip_label_seps(s).len() > 0 ==> skip_label_seps(s).last() == s.last(),
    decreases s.len(),
{
    if s.len() > 0 && crate::obs::is_label_sep(s[0]) {
        lemma_skip_seps_keeps_last(s.drop_first());
        if skip_label_seps(s).len() > 0 {
            assert(s.drop_first().len() > 0);
            assert(s.drop_first().last() == s.last());
        }
    }
}

/// Dropping a leading `replay` keeps the last character (when anything is left).
proof fn lemma_leading_replay_keeps_last(c: Seq<char>)
    ensures
        strip_leading_replay(c).len() > 0 ==> strip_leading_replay(c).last() == c.last(),
{
    if c.len() >= 7 && crate::obs::replay_letters_at(c, 0) && crate::obs::is_label_sep(c[6]) {
        lemma_skip_seps_keeps_last(c.skip(6));
        if skip_label_seps(c.skip(6)).len() > 0 {
            assert(c.skip(6).last() == c.last());
        }
    }
}

// ---------------------------------------------------------------------------------------------
// Encoder speed presets
// ---------------------------------------------------------------------------------------------

/// Position of an x264 speed preset on its ladder, fastest first (`ultrafast` 0 … `veryslow`
/// 8); -1 for any other name.
pub open spec fn x264_speed_rank(x: Seq<char>) -> int {
    if x == "ultrafast"@ {
        0
    } else if x == "superfast"@ {
        1
    } else if x == "veryfast"@ {
        2
    } else if x == "faster"@ {
        3
    } else if x == "fast"@ {
        4
    } else if x == "medium"@ {
        5
    } else if x == "slow"@ {
        6
    } else if x == "slower"@ {
        7
    } else if x == "veryslow"@ {
        8
    } else {
        -1
    }
}

/// The number of an NVENC preset `p1` … `p7` (1 fastest, 7 slowest); 0 for any other text.
pub open spec fn nvenc_level(p: Seq<char>) -> int {
    if p.len() == 2 && p[0] == 'p' && '1' <= p[1] <= '7' {
        (p[1] as u32) - ('0' as u32)
    } else {
        0
    }
}

/// The AMF quality buckets in order of speed: `speed` 0, `balanced` 1, `quality` 2; -1 otherwise.
pub open spec fn amf_bucket(q: Seq<char>) -> int {
    if q == "speed"@ {
        0
    } else if q == "balanced"@ {
        1
    } else if q == "quality"@ {
        2
    } else {
        -1
    }
}

proof fn lemma_preset_names()
    ensures
        x264_speed_rank("ultrafast"@) == 0,
        x264_speed_rank("superfast"@) == 1,
        x264_speed_rank("veryfast"@) == 2,
        x264_speed_rank("faster"@) == 3,
        x264_speed_rank("fast"@) == 4,
        x264_speed_rank("medium"@) == 5,
        x264_speed_rank("slow"@) == 6,
        x264_speed_rank("slower"@) == 7,
        x264_speed_rank("veryslow"@) == 8,
        nvenc_level("p1"@) == 1,
        nvenc_level("p2"@) == 2,
        nvenc_level("p3"@) == 3,
        nvenc_level("p4"@) == 4,
        nvenc_level("p5"@) == 5,
        nvenc_level("p6"@) == 6,
        nvenc_level("p7"@) == 7,
        amf_bucket("speed"@) == 0,
        amf_bucket("balanced"@) == 1,
        amf_bucket("quality"@) == 2,
{
    reveal_strlit("ultrafast");
    reveal_strlit("superfast");
    reveal_strlit("veryfast");
    reveal_strlit("faster");
    reveal_strlit("fast");
    reveal_strlit("medium");
    reveal_strlit("slow");
    reveal_strlit("slower");
    reveal_strlit("veryslow");
    reveal_strlit("p1");
    reveal_strlit("p2");
    reveal_strlit("p3");
    reveal_strlit("p4");
    reveal_strlit("p5");
    reveal_strlit("p6");
    reveal_strlit("p7");
    reveal_strlit("speed");
    reveal_strlit("balanced");
    reveal_strlit("quality");
    assert("superfast"@ != "ultrafast"@) by {
        assert("superfast"@[0] != "ultrafast"@[0]);
    }
    assert("veryfast"@ != "ultrafast"@ && "veryfast"@ != "superfast"@) by {
        assert("veryfast"@.len() != "ultrafast"@.len());
    }
    assert("faster"@ != "ultrafast"@ && "faster"@ != "superfast"@ && "faster"@ != "veryfast"@) by {
        assert("faster"@.len() == 6);
    }
    assert("fast"@ != "ultrafast"@ && "fast"@ != "superfast"@ && "fast"@ != "veryfast"@
        && "fast"@ != "faster"@) by {
        assert("fast"@.len() == 4);
    }
    assert("medium"@ != "ultrafast"@ && "medium"@ != "superfast"@ && "medium"@ != "veryfast"@
        && "medium"@ != "faster"@ && "medium"@ != "fast"@) by {
        assert("medium"@[0] == 'm' && "faster"@[0] == 'f');
    }
    assert("slow"@ != "ultrafast"@ && "slow"@ != "superfast"@ && "slow"@ != "veryfast"@ && "slow"@
        != "faster"@ && "slow"@ != "fast"@ && "slow"@ != "medium"@) by {
        assert("slow"@[0] == 's' && "fast"@[0] == 'f' && "superfast"@.len() == 9);
    }
    assert("slower"@ != "ultrafast"@ && "slower"@ != "superfast"@ && "slower"@ != "veryfast"@
        && "slower"@ != "faster"@ && "slower"@ != "fast"@ && "slower"@ != "medium"@ && "slower"@
        != "slow"@) by {
        assert("slower"@[0] == 's' && "faster"@[0] == 'f' && "medium"@[0] == 'm');
        assert("slower"@.len() == 6 && "ultrafast"@.len() == 9 && "superfast"@.len() == 9);
        assert("veryfast"@.len() == 8 && "fast"@.len() == 4 && "slow"@.len() == 4);
    }
    assert("veryslow"@ != "ultrafast"@ && "veryslow"@ != "superfast"@ && "veryslow"@ != "veryfast"@
        && "veryslow"@ != "faster"@ && "veryslow"@ != "fast"@ && "veryslow"@ != "medium"@
        && "veryslow"@ != "slow"@ && "veryslow"@ != "slower"@) by {
        assert("veryslow"@[4] == 's' && "veryfast"@[4] == 'f' && "veryslow"@.len() == 8);
    }
    assert("balanced"@ != "speed"@ && "quality"@ != "speed"@ && "quality"@ != "balanced"@) by {
        assert("balanced"@.len() == 8 && "speed"@.len() == 5 && "quality"@.len() == 7);
    }
}

/// The NVENC preset follows the x264 speed ladder: every ladder name maps to one of `p1` …
/// `p7`, never to a slower NVENC preset than a slower x264 name does; the fastest names map to
/// `p1` and the slowest to `p7`, and from `superfast` to `slower` every step down the ladder is
/// a step down the NVENC presets (so `veryfast` is `p2` and `medium` is `p5`). A name off the
/// ladder is treated as `medium`.
pub proof fn law_nvenc_follows_speed_ladder(x: Seq<char>, y: Seq<char>)
    ensures
        x264_speed_rank(x) >= 0 ==> 1 <= nvenc_level(nvenc_preset_spec(x)) <= 7,
        0 <= x264_speed_rank(x) <= x264_speed_rank(y) ==> nvenc_level(nvenc_preset_spec(x))
            <= nvenc_level(nvenc_preset_spec(y)),
        1 <= x264_speed_rank(x) < x264_speed_rank(y) <= 7 ==> nvenc_level(nvenc_preset_spec(x))
            < nvenc_level(nvenc_preset_spec(y)),
        x264_speed_rank(x) == 0 ==> nvenc_level(nvenc_preset_spec(x)) == 1,
        x264_speed_rank(x) == 8 ==> nvenc_level(nvenc_preset_spec(x)) == 7,
        x264_speed_rank(x) < 0 ==> nvenc_preset_spec(x) == nvenc_preset_spec("medium"@),
{
    lemma_preset_names();
}

/// The AMF quality bucket follows the same ladder and agrees with the NVENC preset: `speed`
/// exactly where NVENC uses `p1` … `p3`, `quality` exactly where it uses `p6` or `p7`, and
/// `balanced` in between and for names off the ladder.
pub proof fn law_amf_follows_nvenc(x: Seq<char>, y: Seq<char>)
    ensures
        0 <= x264_speed_rank(x) <= x264_speed_rank(y) ==> amf_bucket(amf_quality_spec(x)) <= amf_bucket(
            amf_quality_spec(y),
        ),
        x264_speed_rank(x) >= 0 ==> (amf_bucket(amf_quality_spec(x)) == 0 <==> nvenc_level(
            nvenc_preset_spec(x),
        ) <= 3),
        x264_speed_rank(x) >= 0 ==> (amf_bucket(amf_quality_spec(x)) == 2 <==> nvenc_level(
            nvenc_preset_spec(x),
        ) >= 6),
        x264_speed_rank(x) >= 0 ==> amf_bucket(amf_quality_spec(x)) >= 0,
        x264_speed_rank(x) < 0 ==> amf_bucket(amf_quality_spec(x)) == 1,
{
    lemma_preset_names();
}

// ---------------------------------------------------------------------------------------------
// Key bindings
// ---------------------------------------------------------------------------------------------

/// The binding a command is triggered by.
pub open spec fn binding_of(kb: KeybindsModel, c: EditorCommand) -> Seq<char> {
    match c {
        EditorCommand::TogglePlay => kb.play_pause,
        EditorCommand::SetIn => kb.set_in,
        EditorCommand::SetOut => kb.set_out,
        EditorCommand::FrameBack => kb.frame_back,
        EditorCommand::FrameForward => kb.frame_forward,
        EditorCommand::JumpBack => kb.jump_back,
        EditorCommand::JumpForward => kb.jump_forward,
        EditorCommand::GoToStart => kb.go_to_start,
        EditorCommand::GoToEnd => kb.go_to_end,
        EditorCommand::Export => kb.export,
    }
}

/// The order in which bindings are tried when two match the same press.
pub open spec fn shortcut_priority(c: EditorCommand) -> int {
    match c {
        EditorCommand::TogglePlay => 0,
        EditorCommand::SetIn => 1,
        EditorCommand::SetOut => 2,
        EditorCommand::FrameBack => 3,
        EditorCommand::FrameForward => 4,
        EditorCommand::JumpBack => 5,
        EditorCommand::JumpForward => 6,
        EditorCommand::GoToStart => 7,
        EditorCommand::GoToEnd => 8,
        EditorCommand::Export => 9,
    }
}

/// A press runs the command whose own binding matches it, the first in the settings' order
/// when several do; it runs nothing exactly when no binding matches.
pub proof fn law_shortcut_runs_bound_command(kb: KeybindsModel, key: KeyModel, mods: Modifiers)
    ensures
        shortcut_spec(kb, key, mods) matches Some(c) ==> binding_spec(binding_of(kb, c), key, mods)
            && forall|d: EditorCommand|
            shortcut_priority(d) < shortcut_priority(c) ==> !binding_spec(
                #[trigger] binding_of(kb, d),
                key,
                mods,
            ),
        shortcut_spec(kb, key, mods) is None <==> forall|d: EditorCommand|
            !binding_spec(#[trigger] binding_of(kb, d), key, mods),
{
    if shortcut_spec(kb, key, mods) is None {
        assert forall|d: EditorCommand| !binding_spec(#[trigger] binding_of(kb, d), key, mods) by {
            match d {
                _ => {},
            }
        }
    }
    match shortcut_spec(kb, key, mods) {
        Some(c) => {
            assert forall|d: EditorCommand| shortcut_priority(d) < shortcut_priority(c) implies !binding_spec(
                #[trigger] binding_of(kb, d),
                key,
                mods,
            ) by {
                match d {
                    _ => {},
                }
            }
            assert(!(forall|d: EditorCommand| !binding_spec(#[trigger] binding_of(kb, d), key, mods))) by {
                assert(binding_spec(binding_of(kb, c), key, mods));
            }
        },
        None => {},
    }
}

// ---------------------------------------------------------------------------------------------
// Quality presets
// ---------------------------------------------------------------------------------------------

/// The named presets trade size for quality: `High` has the lowest CRF, then `Balanced`, then
/// `Small`; `Original`, when it has to be encoded, is encoded as `Balanced`; all lie in 0–51.
pub proof fn law_preset_quality_ladder()
    ensures
        preset_crf_spec(QualityPreset::High) < preset_crf_spec(QualityPreset::Balanced),
        preset_crf_spec(QualityPreset::Balanced) < preset_crf_spec(QualityPreset::Small),
        preset_crf_spec(QualityPreset::Original) == preset_crf_spec(QualityPreset::Balanced),
        forall|p: QualityPreset| 0 <= #[trigger] preset_crf_spec(p) <= 51,
{
}

// ---------------------------------------------------------------------------------------------
// JSON numbers in the lenient reader
// ---------------------------------------------------------------------------------------------

/// The lenient reader reads every integer back from the text written for it.
pub proof fn law_json_int_reads_integers(n: i64)
    ensures
        json_int_spec(dec_int(n as int)) == n,
{
    let t = dec_int(n as int);
    lemma_int_doc(n);
    let body = int_body(t);
    let d = if n < 0 {
        dec_nat((-(n as int)) as nat)
    } else {
        dec_nat(n as nat)
    };
    if n < 0 {
        lemma_dec_nat((-(n as int)) as nat);
    } else {
        lemma_dec_nat(n as nat);
    }
    assert(is_ascii_digit(d[0]));
    assert(body == d) by {
        if n < 0 {
            assert(int_body(seq!['-'] + d) =~= d);
        }
    }
    assert forall|i: int| 0 <= i < body.len() implies body[i] != 'e' && body[i] != 'E' && body[i] != '.' by {
        assert(is_ascii_digit(body[i]));
    }
    lemma_no_exp(body);
    lemma_index_of(body, '.');
    lemma_decimal_plain(t, 0);
    assert(frac_places(frac_part(t), 0) =~= Seq::<char>::empty());
    assert(sign_part(t) + int_part(t) + frac_places(frac_part(t), 0) =~= t);
}

// ---------------------------------------------------------------------------------------------
// Audio layouts, seeking, moving and renaming recordings
// ---------------------------------------------------------------------------------------------

/// The channel count a layout name stands for (0 for any other text).
pub open spec fn layout_channels(name: Seq<char>) -> int {
    if name == "mono"@ {
        1
    } else if name == "stereo"@ {
        2
    } else if name == "5.1"@ {
        6
    } else if name == "7.1"@ {
        8
    } else {
        0
    }
}

/// The layout chosen for a channel count has that many channels when it is one of the known
/// counts (1, 2, 6, 8); any other count is mixed as stereo.
pub proof fn law_layout_matches_channels(n: i32)
    ensures
        (n == 1 || n == 2 || n == 6 || n == 8) ==> layout_channels(layout_name_spec(n)) == n,
        !(n == 1 || n == 2 || n == 6 || n == 8) ==> layout_channels(layout_name_spec(n)) == 2,
{
    reveal_strlit("mono");
    reveal_strlit("stereo");
    reveal_strlit("5.1");
    reveal_strlit("7.1");
    assert("mono"@.len() == 4 && "stereo"@.len() == 6 && "5.1"@.len() == 3 && "7.1"@.len() == 3);
    assert("5.1"@[0] == '5' && "7.1"@[0] == '7');
}

/// A seek with a known duration lands inside the clip: on the target when it lies in
/// `0..=duration`, else on the nearer end.
pub proof fn law_seek_lands_in_clip(target: int, d: i64)
    requires
        d >= 0,
    ensures
        0 <= seek_spec(target, Some(d)) <= d,
        0 <= target <= d ==> seek_spec(target, Some(d)) == target,
        target < 0 ==> seek_spec(target, Some(d)) == 0,
        target > d ==> seek_spec(target, Some(d)) == d,
        target >= 0 ==> seek_spec(target, None) == target,
        target < 0 ==> seek_spec(target, None) == 0,
{
}

proof fn lemma_base_name_has_no_separator(p: Seq<char>)
    ensures
        !base_name_spec(p).contains('/'),
        !base_name_spec(p).contains('\\'),
{
    let n = posix(p);
    lemma_last_index_of(n, '/');
    let k = last_index_of(n, '/');
    let b = n.skip(k + 1);
    if b.contains('/') {
        let j = choose|j: int| 0 <= j < b.len() && b[j] == '/';
        assert(n[j + k + 1] == '/');
    }
    if b.contains('\\') {
        let j = choose|j: int| 0 <= j < b.len() && b[j] == '\\';
        assert(n[j + k + 1] == '\\');
    }
}

/// Moving a recording into a folder keeps its file name.
pub proof fn law_move_keeps_file_name(folder: Seq<char>, path: Seq<char>)
    ensures
        base_name_spec(move_destination_spec(folder, path)) == base_name_spec(path),
{
    lemma_base_name_has_no_separator(path);
    law_base_name_of_join(folder, base_name_spec(path));
}

pub open spec fn no_separator(s: Seq<char>) -> bool {
    !s.contains('/') && !s.contains('\\')
}

proof fn lemma_no_separator_concat(a: Seq<char>, b: Seq<char>)
    requires
        no_separator(a),
        no_separator(b),
    ensures
        no_separator(a + b),
{
    let c = a + b;
    if c.contains('/') {
        let j = choose|j: int| 0 <= j < c.len() && c[j] == '/';
        if j < a.len() {
            assert(a[j] == '/');
        } else {
            assert(b[j - a.len()] == '/');
        }
    }
    if c.contains('\\') {
        let j = choose|j: int| 0 <= j < c.len() && c[j] == '\\';
        if j < a.len() {
            assert(a[j] == '\\');
        } else {
            assert(b[j - a.len()] == '\\');
        }
    }
}

proof fn lemma_no_separator_parts(n: Seq<char>)
    requires
        no_separator(n),
    ensures
        no_separator(split_file_name_spec(n).0),
        no_separator(dot_ext(split_file_name_spec(n).1)),
{
    let d = last_index_of(n, '.');
    lemma_last_index_of(n, '.');
    let p = split_file_name_spec(n);
    if p.0.contains('/') {
        let j = choose|j: int| 0 <= j < p.0.len() && p.0[j] == '/';
        assert(n[j] == '/');
    }
    if p.0.contains('\\') {
        let j = choose|j: int| 0 <= j < p.0.len() && p.0[j] == '\\';
        assert(n[j] == '\\');
    }
    if p.1.contains('/') {
        let j = choose|j: int| 0 <= j < p.1.len() && p.1[j] == '/';
        assert(n[j + d + 1] == '/');
    }
    if p.1.contains('\\') {
        let j = choose|j: int| 0 <= j < p.1.len() && p.1[j] == '\\';
        assert(n[j + d + 1] == '\\');
    }
    if p.1.len() > 0 {
        assert(no_separator(seq!['.'])) by {
            if seq!['.'].contains('/') || seq!['.'].contains('\\') {
                assert(seq!['.'][0] == '.');
            }
        }
        lemma_no_separator_concat(seq!['.'], p.1);
    } else {
        assert(dot_ext(p.1) =~= Seq::<char>::empty());
    }
}

/// Renaming a recording after export moves it, in its own folder, to the name made of the
/// configured prefix, its base name, the suffix, and its extension (when prefix, suffix and
/// file name hold no path separator).
pub proof fn law_rename_after_export(s: AfterExportSettingsModel, path: Seq<char>, file_name: Seq<char>)
    requires
        no_separator(s.rename_prefix),
        no_separator(s.rename_suffix),
        no_separator(file_name),
    ensures
        after_export_spec(AfterExportAction::Rename, s, path, file_name) matches AfterExportPlanModel::Move(
            from,
            to,
        ) && from == path && base_name_spec(to) == s.rename_prefix + split_file_name_spec(file_name).0
            + s.rename_suffix + dot_ext(split_file_name_spec(file_name).1),
{
    let parts = split_file_name_spec(file_name);
    lemma_no_separator_parts(file_name);
    lemma_no_separator_concat(s.rename_prefix, parts.0);
    lemma_no_separator_concat(s.rename_prefix + parts.0, s.rename_suffix);
    lemma_no_separator_concat(s.rename_prefix + parts.0 + s.rename_suffix, dot_ext(parts.1));
    let renamed = s.rename_prefix + parts.0 + s.rename_suffix + dot_ext(parts.1);
    law_base_name_of_join(dir_name_spec(path), renamed);
}


// ---------------------------------------------------------------------------------------------
// Export progress
// ---------------------------------------------------------------------------------------------

/// A microsecond count written in decimal digits reads back as that count.
proof fn lemma_micros_of_digits(n: i64)
    requires
        n >= 0,
    ensures
        micros_value(dec_nat(n as nat)) == Some(n),
        dec_nat(n as nat).len() >= 1,
        is_ascii_digit(dec_nat(n as nat).last()),
{
    let d = dec_nat(n as nat);
    lemma_dec_nat(n as nat);
    assert(is_ascii_digit(d[0]));
    assert(is_ascii_digit(d[d.len() - 1]));
    assert(trim_ws(d) == d) by {
        assert(!is_ws(d[0]));
        assert(!is_ws(d.last()));
        lemma_trim_noop(d);
    }
    assert forall|i: int| 0 <= i < d.len() implies is_ascii_digit(#[trigger] d[i]) || d[i] == '.' by {
        assert(is_ascii_digit(d[i]));
    }
    lemma_plain_number(d, 0);
    assert(int_body(d) == d);
    lemma_index_of(d, '.');
    if index_of(d, '.') >= 0 {
        assert(is_ascii_digit(d[index_of(d, '.')]));
    }
    assert(int_part(d) == d);
    assert(frac_part(d) =~= Seq::<char>::empty());
    assert(frac_places(frac_part(d), 0) =~= Seq::<char>::empty());
    assert(sign_part(d) + int_part(d) + frac_places(frac_part(d), 0) =~= d);
}

/// A `key=value` line whose key holds no `=` and starts with no white space, and whose value
/// ends with no white space, is its own trim and splits at its first `=` into that key and value.
proof fn lemma_key_value_line(key: Seq<char>, value: Seq<char>)
    requires
        key.len() >= 1,
        !is_ws(key[0]),
        forall|i: int| 0 <= i < key.len() ==> #[trigger] key[i] != '=',
        value.len() >= 1,
        !is_ws(value.last()),
    ensures
        ({
            let line = key + seq!['='] + value;
            &&& trim_ws(line) == line
            &&& index_of(line, '=') == key.len()
            &&& line.take(key.len() as int) == key
            &&& line.skip(key.len() as int + 1) == value
        }),
{
    let line = key + seq!['='] + value;
    assert(line[0] == key[0]);
    assert(line.last() == value.last());
    lemma_trim_noop(line);
    lemma_index_of(line, '=');
    assert(line[key.len() as int] == '=');
    let e = index_of(line, '=');
    if e < key.len() {
        if e >= 0 {
            assert(line[e] == key[e]);
        }
    }
    assert(line.take(key.len() as int) =~= key);
    assert(line.skip(key.len() as int + 1) =~= value);
}

/// A time line with a known key and a value in decimal digits sets the time reached.
proof fn lemma_time_line(st: ProgressUpdate, key: Seq<char>, n: i64)
    requires
        n >= 0,
        key == "out_time_us"@ || key == "out_time_ms"@,
    ensures
        apply_line_spec(st, key + seq!['='] + dec_nat(n as nat)) == (ProgressUpdate {
            out_time_us: Some(n),
            done: st.done,
        }),
{
    reveal_strlit("out_time_us");
    reveal_strlit("out_time_ms");
    let d = dec_nat(n as nat);
    lemma_micros_of_digits(n);
    assert(key.len() == 11);
    assert(forall|i: int| 0 <= i < key.len() ==> #[trigger] key[i] != '=');
    lemma_key_value_line(key, d);
}

/// A `progress=` line sets the end flag to whether its value is `end`.
proof fn lemma_progress_line(st: ProgressUpdate, value: Seq<char>)
    requires
        value.len() >= 1,
        !is_ws(value.last()),
    ensures
        apply_line_spec(st, "progress"@ + seq!['='] + value) == (ProgressUpdate {
            out_time_us: st.out_time_us,
            done: value == "end"@,
        }),
{
    reveal_strlit("progress");
    reveal_strlit("out_time_us");
    reveal_strlit("out_time_ms");
    reveal_strlit("out_time");
    let k = "progress"@;
    assert(forall|i: int| 0 <= i < k.len() ==> #[trigger] k[i] != '=');
    lemma_key_value_line(k, value);
    assert(k != "out_time_us"@ && k != "out_time_ms"@ && k != "out_time"@) by {
        assert(k[0] != "out_time_us"@[0]);
        assert(k[0] != "out_time_ms"@[0]);
        assert(k[0] != "out_time"@[0]);
    }
}

/// ffmpeg's progress lines do what they say: `out_time_us=N` (and `out_time_ms=N`, which ffmpeg
/// also writes in microseconds) with `N` in decimal digits sets the time reached to `N` and
/// leaves the end flag alone; `progress=end` marks the export done and `progress=continue`
/// marks it running, both keeping the time reached.
pub proof fn law_progress_lines(st: ProgressUpdate, n: i64)
    requires
        n >= 0,
    ensures
        apply_line_spec(st, "out_time_us"@ + seq!['='] + dec_nat(n as nat)) == (ProgressUpdate {
            out_time_us: Some(n),
            done: st.done,
        }),
        apply_line_spec(st, "out_time_ms"@ + seq!['='] + dec_nat(n as nat)) == (ProgressUpdate {
            out_time_us: Some(n),
            done: st.done,
        }),
        apply_line_spec(st, "progress"@ + seq!['='] + "end"@) == (ProgressUpdate {
            out_time_us: st.out_time_us,
            done: true,
        }),
        apply_line_spec(st, "progress"@ + seq!['='] + "continue"@) == (ProgressUpdate {
            out_time_us: st.out_time_us,
            done: false,
        }),
{
    lemma_time_line(st, "out_time_us"@, n);
    lemma_time_line(st, "out_time_ms"@, n);
    reveal_strlit("end");
    reveal_strlit("continue");
    lemma_progress_line(st, "end"@);
    lemma_progress_line(st, "continue"@);
    assert("continue"@ != "end"@) by {
        assert("continue"@.len() != "end"@.len());
    }
}

/// Reading progress text with one more line at its end is reading the text without it and then
/// applying that line: chunks can be read as they arrive.
pub proof fn law_progress_one_more_line(text: Seq<char>, line: Seq<char>)
    requires
        !line.contains('\n'),
    ensures
        progress_spec(text + seq!['\n'] + line) == apply_line_spec(progress_spec(text), line),
{
    lemma_split_join(text, line, '\n');
    lemma_split_single(line, '\n');
    let ls = split_on(text, '\n') + seq![line];
    assert(ls.drop_last() =~= split_on(text, '\n'));
    assert(ls.last() == line);
}


// ---------------------------------------------------------------------------------------------
// Stamping an existing output with the time
// ---------------------------------------------------------------------------------------------

/// Text made only of ASCII digits, `-` and `_`, as the date-time stamp is.
pub open spec fn stamp_text(s: Seq<char>) -> bool {
    forall|i: int| 0 <= i < s.len() ==> is_ascii_digit(#[trigger] s[i]) || s[i] == '-' || s[i] == '_'
}

proof fn lemma_stamp_concat(a: Seq<char>, b: Seq<char>)
    requires
        stamp_text(a),
        stamp_text(b),
    ensures
        stamp_text(a + b),
{
    assert forall|i: int| 0 <= i < (a + b).len() implies is_ascii_digit(#[trigger] (a + b)[i]) || (a
        + b)[i] == '-' || (a + b)[i] == '_' by {
        if i < a.len() {
            assert((a + b)[i] == a[i]);
        } else {
            assert((a + b)[i] == b[i - a.len()]);
        }
    }
}

proof fn lemma_stamp_padded(x: int, w: int)
    ensures
        stamp_text(dec_int_padded(x, w)),
{
    let m: nat = if x < 0 {
        (-x) as nat
    } else {
        x as nat
    };
    lemma_dec_nat(m);
    let d = dec_nat(m);
    assert(stamp_text(d)) by {
        assert forall|i: int| 0 <= i < d.len() implies is_ascii_digit(#[trigger] d[i]) || d[i] == '-'
            || d[i] == '_' by {
            assert(is_ascii_digit(d[i]));
        }
    }
    let z = if x < 0 {
        zeros(w - 1 - d.len())
    } else {
        zeros(w - d.len())
    };
    assert(stamp_text(z)) by {
        assert forall|i: int| 0 <= i < z.len() implies is_ascii_digit(#[trigger] z[i]) || z[i] == '-'
            || z[i] == '_' by {
            assert(z[i] == '0');
        }
    }
    assert(stamp_text(seq!['-'])) by {
        assert forall|i: int| 0 <= i < seq!['-'].len() implies is_ascii_digit(#[trigger] seq!['-'][i])
            || seq!['-'][i] == '-' || seq!['-'][i] == '_' by {
            assert(seq!['-'][i] == '-');
        }
    }
    lemma_stamp_concat(z, d);
    if x < 0 {
        lemma_stamp_concat(seq!['-'], z);
        lemma_stamp_concat(seq!['-'] + z, d);
        assert(dec_int_padded(x, w) == seq!['-'] + z + d);
    } else {
        assert(dec_int_padded(x, w) == z + d);
    }
}

proof fn lemma_stamp_char(c: char)
    requires
        c == '-' || c == '_',
    ensures
        stamp_text(seq![c]),
{
    assert forall|i: int| 0 <= i < seq![c].len() implies is_ascii_digit(#[trigger] seq![c][i]) || seq![
        c,
    ][i] == '-' || seq![c][i] == '_' by {
        assert(seq![c][i] == c);
    }
}

/// The date-time stamp holds only digits, `-` and `_`.
proof fn lemma_stamp_of_datetime(now: LocalDateTime)
    ensures
        stamp_text(format_datetime_spec(now)),
{
    let y = dec_int_padded(now.year as int, 4);
    let mo = dec_int_padded(now.month as int, 2);
    let da = dec_int_padded(now.day as int, 2);
    let h = dec_int_padded(now.hour as int, 2);
    let mi = dec_int_padded(now.minute as int, 2);
    let se = dec_int_padded(now.second as int, 2);
    lemma_stamp_padded(now.year as int, 4);
    lemma_stamp_padded(now.month as int, 2);
    lemma_stamp_padded(now.day as int, 2);
    lemma_stamp_padded(now.hour as int, 2);
    lemma_stamp_padded(now.minute as int, 2);
    lemma_stamp_padded(now.second as int, 2);
    lemma_stamp_char('-');
    lemma_stamp_char('_');
    let dash = seq!['-'];
    lemma_stamp_concat(y, dash);
    lemma_stamp_concat(y + dash, mo);
    lemma_stamp_concat(y + dash + mo, dash);
    lemma_stamp_concat(y + dash + mo + dash, da);
    lemma_stamp_concat(h, dash);
    lemma_stamp_concat(h + dash, mi);
    lemma_stamp_concat(h + dash + mi, dash);
    lemma_stamp_concat(h + dash + mi + dash, se);
    let date = y + dash + mo + dash + da;
    let time = h + dash + mi + dash + se;
    lemma_stamp_concat(date, seq!['_']);
    lemma_stamp_concat(date + seq!['_'], time);
}

proof fn lemma_stamp_has_none(s: Seq<char>, c: char)
    requires
        stamp_text(s),
        c == '/' || c == '\\' || c == '.',
    ensures
        !s.contains(c),
{
    if s.contains(c) {
        let j = choose|j: int| 0 <= j < s.len() && s[j] == c;
        assert(is_ascii_digit(s[j]) || s[j] == '-' || s[j] == '_');
    }
}

/// Stamping an existing output with the time keeps it in its folder under the name made of its
/// base name, `_`, the `YYYY-MM-DD_HH-MM-SS` stamp and its extension; an extension it had is
/// still its extension afterwards, with the stamped base name before it.
pub proof fn law_timestamped_name(path: Seq<char>, now: LocalDateTime)
    ensures
        ({
            let parts = split_file_name_spec(base_name_spec(path));
            let stem = parts.0 + seq!['_'] + format_datetime_spec(now);
            &&& base_name_spec(append_timestamp_spec(path, now)) == stem + dot_ext(parts.1)
            &&& parts.1.len() > 0 ==> split_file_name_spec(
                base_name_spec(append_timestamp_spec(path, now)),
            ) == (stem, parts.1)
        }),
{
    let n = base_name_spec(path);
    lemma_base_name_has_no_separator(path);
    assert(no_separator(n));
    let parts = split_file_name_spec(n);
    lemma_no_separator_parts(n);
    let f = format_datetime_spec(now);
    lemma_stamp_of_datetime(now);
    lemma_stamp_has_none(f, '/');
    lemma_stamp_has_none(f, '\\');
    lemma_stamp_has_none(f, '.');
    lemma_stamp_char('_');
    lemma_stamp_has_none(seq!['_'], '/');
    lemma_stamp_has_none(seq!['_'], '\\');
    lemma_no_separator_concat(parts.0, seq!['_']);
    lemma_no_separator_concat(parts.0 + seq!['_'], f);
    let stem = parts.0 + seq!['_'] + f;
    lemma_no_separator_concat(stem, dot_ext(parts.1));
    law_base_name_of_join(dir_name_spec(path), stem + dot_ext(parts.1));
    if parts.1.len() > 0 {
        lemma_last_index_of(n, '.');
        let d = last_index_of(n, '.');
        assert(!parts.1.contains('.')) by {
            if parts.1.contains('.') {
                let j = choose|j: int| 0 <= j < parts.1.len() && parts.1[j] == '.';
                assert(n[d + 1 + j] == '.');
            }
        }
        let named = stem + dot_ext(parts.1);
        assert(named == stem + seq!['.'] + parts.1);
        lemma_last_after_prefix(stem, parts.1, '.');
        assert(stem.len() > 0) by {
            assert(stem[parts.0.len() as int] == '_');
        }
        assert(named.take(stem.len() as int) =~= stem);
        assert(named.skip(stem.len() as int + 1) =~= parts.1);
    }
}

} // verus!
