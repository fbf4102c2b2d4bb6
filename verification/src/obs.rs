//! What a recording's file name and folder say about it: the OBS timestamp, a leading source
//! label, whether it is a replay-buffer clip, and the game folder it sits in.

use vstd::prelude::*;
use crate::datetimes::{date_exists, hms_exists, time_exists, ymd_exists, LocalDateTime};
use crate::paths::posix;
use crate::text::{
    ascii_lower, ascii_lower_seq, chars_of, copy_range, digit_value, is_ascii_digit,
    last_index_of, lemma_last_index_of, lower_chars, rfind_char, split_chars, split_on,
    string_from, to_ascii_lower, trim, trim_ws, unicode_lower, has_prefix, starts_with,
};

verus! {

/// Metadata recovered from an OBS recording/replay-buffer filename.
#[derive(Debug, Clone)]
pub struct ParsedRecording {
    /// Local wall-clock timestamp parsed from the filename, if present.
    pub recorded_at: Option<LocalDateTime>,
    /// A leading label (OBS scene/profile or game name) before the timestamp, if present.
    pub source: Option<String>,
    /// Whether the filename looks like a replay-buffer clip ("Replay ...").
    pub is_replay: bool,
}

pub struct ParsedRecordingModel {
    pub recorded_at: Option<LocalDateTime>,
    pub source: Option<Seq<char>>,
    pub is_replay: bool,
}

impl View for ParsedRecording {
    type V = ParsedRecordingModel;

    open spec fn view(&self) -> ParsedRecordingModel {
        ParsedRecordingModel {
            recorded_at: self.recorded_at,
            source: match self.source {
                Some(s) => Some(s@),
                None => None,
            },
            is_replay: self.is_replay,
        }
    }
}

/// Whether a character is a Unicode word character (`\w` of the regex crate: `Alphabetic`,
/// `Join_Control`, `Decimal_Number`, `Mark` or `Connector_Punctuation`).
pub uninterp spec fn unicode_word_char(c: char) -> bool;

/// `regex_syntax::try_is_word_character`, the class behind the regex crate's `\w` and `\b`. The
/// Unicode tables are left to the name `unicode_word_char`; what is stated is the ASCII part
/// (letters, digits and `_`). With the `unicode-perl` feature (on in this crate's build) the call
/// does not fail.
#[verifier::external_body]
pub(crate) fn is_word_character(c: char) -> (r: bool)
    ensures
        r == unicode_word_char(c),
        (c as u32) < 128 ==> r == (('a' <= c <= 'z') || ('A' <= c <= 'Z') || ('0' <= c <= '9')
            || c == '_'),
{
    regex_syntax::try_is_word_character(c).unwrap_or(false)
}

/// The file name without its extension (text from the last `.`, unless that is the first
/// character).
pub open spec fn strip_extension_spec(n: Seq<char>) -> Seq<char> {
    let d = last_index_of(n, '.');
    if d > 0 {
        n.take(d)
    } else {
        n
    }
}

pub open spec fn dash_or_dot_or_colon(c: char) -> bool {
    c == '-' || c == '.' || c == ':'
}

/// The OBS timestamp `YYYY-MM-DD[ _T-]HH[-.:]MM[-.:]SS` at position `i` (19 characters).
pub open spec fn timestamp_at(s: Seq<char>, i: int) -> bool {
    &&& 0 <= i && i + 19 <= s.len()
    &&& is_ascii_digit(s[i]) && is_ascii_digit(s[i + 1]) && is_ascii_digit(s[i + 2])
        && is_ascii_digit(s[i + 3])
    &&& s[i + 4] == '-'
    &&& is_ascii_digit(s[i + 5]) && is_ascii_digit(s[i + 6])
    &&& s[i + 7] == '-'
    &&& is_ascii_digit(s[i + 8]) && is_ascii_digit(s[i + 9])
    &&& (s[i + 10] == ' ' || s[i + 10] == '_' || s[i + 10] == 'T' || s[i + 10] == '-')
    &&& is_ascii_digit(s[i + 11]) && is_ascii_digit(s[i + 12])
    &&& dash_or_dot_or_colon(s[i + 13])
    &&& is_ascii_digit(s[i + 14]) && is_ascii_digit(s[i + 15])
    &&& dash_or_dot_or_colon(s[i + 16])
    &&& is_ascii_digit(s[i + 17]) && is_ascii_digit(s[i + 18])
}

/// The first position at or after `i` where a timestamp starts, or -1.
pub open spec fn timestamp_search(s: Seq<char>, i: int) -> int
    decreases s.len() - i,
{
    if i < 0 || i + 19 > s.len() {
        -1
    } else if timestamp_at(s, i) {
        i
    } else {
        timestamp_search(s, i + 1)
    }
}

pub open spec fn num2(s: Seq<char>, i: int) -> int {
    digit_value(s[i]) * 10 + digit_value(s[i + 1])
}

pub open spec fn num4(s: Seq<char>, i: int) -> int {
    num2(s, i) * 100 + num2(s, i + 2)
}

/// "replay" in any ASCII case at `i`.
pub open spec fn replay_letters_at(s: Seq<char>, i: int) -> bool {
    0 <= i && i + 6 <= s.len() && ascii_lower_seq(s.subrange(i, i + 6)) == "replay"@
}

/// The word `replay` (any case) between word boundaries at `i`.
pub open spec fn replay_word_at(s: Seq<char>, i: int) -> bool {
    &&& replay_letters_at(s, i)
    &&& (i == 0 || !unicode_word_char(s[i - 1]))
    &&& (i + 6 == s.len() || !unicode_word_char(s[i + 6]))
}

pub open spec fn has_replay_word(s: Seq<char>) -> bool {
    exists|i: int| replay_word_at(s, i)
}

/// Starts with the word `replay` (any case).
pub open spec fn starts_with_replay_word(s: Seq<char>) -> bool {
    replay_letters_at(s, 0) && (s.len() == 6 || !unicode_word_char(s[6]))
}

/// Exactly `replay` (any case).
pub open spec fn is_only_replay(s: Seq<char>) -> bool {
    s.len() == 6 && replay_letters_at(s, 0)
}

pub open spec fn is_label_sep(c: char) -> bool {
    c == '_' || c == '-' || c == '.' || c == ' '
}

pub open spec fn skip_label_seps(s: Seq<char>) -> Seq<char>
    decreases s.len(),
{
    if s.len() > 0 && is_label_sep(s[0]) {
        skip_label_seps(s.drop_first())
    } else {
        s
    }
}

/// A leading `replay` followed by at least one of `_ - . space` removed, with those separators.
pub open spec fn strip_leading_replay(s: Seq<char>) -> Seq<char> {
    if s.len() >= 7 && replay_letters_at(s, 0) && is_label_sep(s[6]) {
        skip_label_seps(s.skip(6))
    } else {
        s
    }
}

/// The trailing run of `_`, `-` and `.` removed.
pub open spec fn strip_trailing_label_seps(s: Seq<char>) -> Seq<char>
    decreases s.len(),
{
    if s.len() > 0 && (s.last() == '_' || s.last() == '-' || s.last() == '.') {
        strip_trailing_label_seps(s.drop_last())
    } else {
        s
    }
}

/// The source label in the text before the timestamp.
pub open spec fn source_label(lead: Seq<char>) -> Option<Seq<char>> {
    let cleaned = trim_ws(strip_trailing_label_seps(lead));
    if cleaned.len() > 0 && !is_only_replay(cleaned) {
        let stripped = trim_ws(strip_leading_replay(cleaned));
        if stripped.len() > 0 {
            Some(stripped)
        } else {
            None
        }
    } else {
        None
    }
}

pub open spec fn parse_obs_filename_spec(file_name: Seq<char>) -> ParsedRecordingModel {
    let base = strip_extension_spec(file_name);
    let word = has_replay_word(base);
    let p = timestamp_search(base, 0);
    if p < 0 {
        ParsedRecordingModel { recorded_at: None, source: None, is_replay: word }
    } else {
        let y = num4(base, p);
        let mo = num2(base, p + 5);
        let d = num2(base, p + 8);
        let h = num2(base, p + 11);
        let mi = num2(base, p + 14);
        let s = num2(base, p + 17);
        let lead = trim_ws(base.take(p));
        ParsedRecordingModel {
            recorded_at: if date_exists(y, mo, d) && time_exists(h, mi, s) {
                Some(
                    LocalDateTime {
                        year: y as i32,
                        month: mo as u32,
                        day: d as u32,
                        hour: h as u32,
                        minute: mi as u32,
                        second: s as u32,
                    },
                )
            } else {
                None
            },
            source: source_label(lead),
            is_replay: word || starts_with_replay_word(lead),
        }
    }
}

pub proof fn lemma_timestamp_search(s: Seq<char>, i: int)
    requires
        0 <= i,
    ensures
        timestamp_search(s, i) >= 0 ==> timestamp_at(s, timestamp_search(s, i)) && i
            <= timestamp_search(s, i),
        timestamp_search(s, i) >= -1,
    decreases s.len() - i,
{
    if i + 19 <= s.len() && !timestamp_at(s, i) {
        lemma_timestamp_search(s, i + 1);
    }
}

fn is_digit(c: char) -> (r: bool)
    ensures
        r == is_ascii_digit(c),
{
    '0' <= c && c <= '9'
}

fn dash_dot_colon(c: char) -> (r: bool)
    ensures
        r == dash_or_dot_or_colon(c),
{
    c == '-' || c == '.' || c == ':'
}

fn timestamp_at_exec(s: &Vec<char>, i: usize) -> (r: bool)
    requires
        i + 19 <= s.len(),
    ensures
        r == timestamp_at(s@, i as int),
{
    is_digit(s[i]) && is_digit(s[i + 1]) && is_digit(s[i + 2]) && is_digit(s[i + 3]) && s[i + 4]
        == '-' && is_digit(s[i + 5]) && is_digit(s[i + 6]) && s[i + 7] == '-' && is_digit(s[i + 8])
        && is_digit(s[i + 9]) && (s[i + 10] == ' ' || s[i + 10] == '_' || s[i + 10] == 'T' || s[i
        + 10] == '-') && is_digit(s[i + 11]) && is_digit(s[i + 12]) && dash_dot_colon(s[i + 13])
        && is_digit(s[i + 14]) && is_digit(s[i + 15]) && dash_dot_colon(s[i + 16]) && is_digit(
        s[i + 17],
    ) && is_digit(s[i + 18])
}

fn find_timestamp(s: &Vec<char>) -> (r: Option<usize>)
    ensures
        match r {
            Some(p) => p as int == timestamp_search(s@, 0) && p + 19 <= s.len(),
            None => timestamp_search(s@, 0) == -1,
        },
{
    if s.len() < 19 {
        return None;
    }
    let mut i: usize = 0;
    while i <= s.len() - 19
        invariant
            s.len() >= 19,
            i + 19 <= s.len() + 1,
            timestamp_search(s@, 0) == timestamp_search(s@, i as int),
        decreases s.len() - i,
    {
        if timestamp_at_exec(s, i) {
            return Some(i);
        }
        i += 1;
    }
    None
}

fn digit(c: char) -> (r: u32)
    requires
        is_ascii_digit(c),
    ensures
        r as int == digit_value(c),
        r < 10,
{
    c as u32 - '0' as u32
}

fn num2_exec(s: &Vec<char>, i: usize) -> (r: u32)
    requires
        i + 2 <= s.len(),
        is_ascii_digit(s@[i as int]),
        is_ascii_digit(s@[i + 1]),
    ensures
        r as int == num2(s@, i as int),
        r < 100,
{
    digit(s[i]) * 10 + digit(s[i + 1])
}

fn replay_letters_exec(s: &Vec<char>, i: usize) -> (r: bool)
    requires
        i <= s.len(),
    ensures
        r == replay_letters_at(s@, i as int),
{
    proof {
        reveal_strlit("replay");
    }
    if s.len() - i < 6 {
        return false;
    }
    let r = to_ascii_lower(s[i]) == 'r' && to_ascii_lower(s[i + 1]) == 'e' && to_ascii_lower(
        s[i + 2],
    ) == 'p' && to_ascii_lower(s[i + 3]) == 'l' && to_ascii_lower(s[i + 4]) == 'a'
        && to_ascii_lower(s[i + 5]) == 'y';
    let ghost sub = ascii_lower_seq(s@.subrange(i as int, i + 6));
    let ghost lit = "replay"@;
    assert(lit.len() == 6 && lit[0] == 'r' && lit[1] == 'e' && lit[2] == 'p' && lit[3] == 'l'
        && lit[4] == 'a' && lit[5] == 'y');
    assert(sub.len() == 6);
    assert(sub[0] == ascii_lower(s@[i as int]) && sub[1] == ascii_lower(s@[i + 1]) && sub[2]
        == ascii_lower(s@[i + 2]) && sub[3] == ascii_lower(s@[i + 3]) && sub[4] == ascii_lower(
        s@[i + 4],
    ) && sub[5] == ascii_lower(s@[i + 5]));
    if r {
        assert(sub =~= lit);
    }
    r
}

fn replay_word_exec(s: &Vec<char>, i: usize) -> (r: bool)
    requires
        i <= s.len(),
    ensures
        r == replay_word_at(s@, i as int),
{
    if !replay_letters_exec(s, i) {
        return false;
    }
    let before_ok = i == 0 || !is_word_character(s[i - 1]);
    let after_ok = i + 6 == s.len() || !is_word_character(s[i + 6]);
    before_ok && after_ok
}

fn has_replay_word_exec(s: &Vec<char>) -> (r: bool)
    ensures
        r == has_replay_word(s@),
{
    let mut i: usize = 0;
    while i < s.len()
        invariant
            i <= s.len(),
            forall|j: int| 0 <= j < i ==> !replay_word_at(s@, j),
        decreases s.len() - i,
    {
        if replay_word_exec(s, i) {
            return true;
        }
        i += 1;
    }
    assert forall|j: int| !replay_word_at(s@, j) by {
        if 0 <= j < s.len() {
        } else if j >= s.len() {
            assert(!replay_letters_at(s@, j));
        }
    }
    false
}

fn strip_trailing_label_seps_exec(v: &Vec<char>) -> (r: Vec<char>)
    ensures
        r@ == strip_trailing_label_seps(v@),
{
    let mut j: usize = v.len();
    assert(v@.take(j as int) =~= v@);
    while j > 0 && (v[j - 1] == '_' || v[j - 1] == '-' || v[j - 1] == '.')
        invariant
            j <= v.len(),
            strip_trailing_label_seps(v@) == strip_trailing_label_seps(v@.take(j as int)),
        decreases j,
    {
        assert(v@.take(j as int).drop_last() =~= v@.take(j as int - 1));
        j -= 1;
    }
    copy_range(v, 0, j)
}

fn strip_leading_replay_exec(v: &Vec<char>) -> (r: Vec<char>)
    ensures
        r@ == strip_leading_replay(v@),
{
    if v.len() >= 7 && replay_letters_exec(v, 0) && (v[6] == '_' || v[6] == '-' || v[6] == '.'
        || v[6] == ' ') {
        let mut k: usize = 6;
        let ghost t = v@.skip(6);
        while k < v.len() && (v[k] == '_' || v[k] == '-' || v[k] == '.' || v[k] == ' ')
            invariant
                6 <= k <= v.len(),
                t == v@.skip(6),
                skip_label_seps(t) == skip_label_seps(v@.skip(k as int)),
            decreases v.len() - k,
        {
            assert(v@.skip(k as int).drop_first() =~= v@.skip(k as int + 1));
            k += 1;
        }
        let r = copy_range(v, k, v.len());
        assert(r@ =~= v@.skip(k as int));
        r
    } else {
        v.clone()
    }
}

fn source_label_exec(lead: &Vec<char>) -> (r: Option<String>)
    ensures
        match r {
            Some(s) => source_label(lead@) == Some(s@),
            None => source_label(lead@).is_none(),
        },
{
    let cleaned = trim(&strip_trailing_label_seps_exec(lead));
    if cleaned.len() > 0 && !(cleaned.len() == 6 && replay_letters_exec(&cleaned, 0)) {
        let stripped = trim(&strip_leading_replay_exec(&cleaned));
        if stripped.len() > 0 {
            return Some(string_from(&stripped));
        }
    }
    None
}

/// Parse an OBS recording filename into a timestamp and optional source label.
pub fn parse_obs_filename(file_name: &str) -> (r: ParsedRecording)
    ensures
        r@ == parse_obs_filename_spec(file_name@),
{
    let n = chars_of(file_name);
    proof {
        lemma_last_index_of(n@, '.');
    }
    let base = match rfind_char(&n, '.') {
        Some(dot) => if dot > 0 {
            copy_range(&n, 0, dot)
        } else {
            n.clone()
        },
        None => n.clone(),
    };
    assert(base@ =~= strip_extension_spec(file_name@));
    let word = has_replay_word_exec(&base);
    match find_timestamp(&base) {
        None => ParsedRecording { recorded_at: None, source: None, is_replay: word },
        Some(p) => {
            proof {
                lemma_timestamp_search(base@, 0);
            }
            assert(timestamp_at(base@, p as int));
            let y = num2_exec(&base, p) * 100 + num2_exec(&base, p + 2);
            let mo = num2_exec(&base, p + 5);
            let d = num2_exec(&base, p + 8);
            let h = num2_exec(&base, p + 11);
            let mi = num2_exec(&base, p + 14);
            let s = num2_exec(&base, p + 17);
            let recorded_at = if ymd_exists(y as i32, mo, d) && hms_exists(h, mi, s) {
                Some(
                    LocalDateTime {
                        year: y as i32,
                        month: mo,
                        day: d,
                        hour: h,
                        minute: mi,
                        second: s,
                    },
                )
            } else {
                None
            };
            let lead = trim(&copy_range(&base, 0, p));
            assert(base@.subrange(0, p as int) =~= base@.take(p as int));
            let source = source_label_exec(&lead);
            let starts = replay_letters_exec(&lead, 0) && (lead.len() == 6 || !is_word_character(
                lead[6],
            ));
            ParsedRecording { recorded_at, source, is_replay: word || starts }
        },
    }
}

} // verus!

verus! {

/// Bytes in the UTF-8 encoding of a character.
pub open spec fn utf8_width(c: char) -> int {
    let u = c as u32;
    if u < 0x80 {
        1
    } else if u < 0x800 {
        2
    } else if u < 0x10000 {
        3
    } else {
        4
    }
}

/// Bytes in the UTF-8 encoding of a text.
pub open spec fn utf8_len(s: Seq<char>) -> int
    decreases s.len(),
{
    if s.len() == 0 {
        0
    } else {
        utf8_len(s.drop_last()) + utf8_width(s.last())
    }
}

/// The character position at or after `k` where byte offset `b` falls on a character boundary,
/// or -1 when `b` is inside a character or past the end.
pub open spec fn char_pos_from(s: Seq<char>, b: int, k: int) -> int
    decreases s.len() + 1 - k,
{
    if k < 0 || k > s.len() {
        -1
    } else if utf8_len(s.take(k)) == b {
        k
    } else {
        char_pos_from(s, b, k + 1)
    }
}

/// Trailing `/` removed.
pub open spec fn trim_end_slashes(s: Seq<char>) -> Seq<char>
    decreases s.len(),
{
    if s.len() > 0 && s.last() == '/' {
        trim_end_slashes(s.drop_last())
    } else {
        s
    }
}

/// The non-empty pieces, in order.
pub open spec fn nonempty_pieces(p: Seq<Seq<char>>) -> Seq<Seq<char>>
    decreases p.len(),
{
    if p.len() == 0 {
        Seq::empty()
    } else if p.last().len() > 0 {
        nonempty_pieces(p.drop_last()).push(p.last())
    } else {
        nonempty_pieces(p.drop_last())
    }
}

/// The normalised root, and whether the normalised file path lies under it (compared after
/// Unicode lower-casing).
pub open spec fn under_root(root: Seq<char>, file: Seq<char>) -> bool {
    let nr = trim_end_slashes(posix(root));
    nr.len() > 0 && starts_with(unicode_lower(posix(file)), unicode_lower(nr).push('/'))
}

/// Where the part below the root begins in the normalised file path: the character at byte
/// offset `len(root) + 1`.
pub open spec fn below_root_start(root: Seq<char>, file: Seq<char>) -> int {
    char_pos_from(posix(file), utf8_len(trim_end_slashes(posix(root))) + 1, 0)
}

/// Game inference slices the file path at a byte offset; it does so only under the root, and
/// the offset must fall on a character boundary.
pub open spec fn game_slice_ok(root: Seq<char>, file: Seq<char>) -> bool {
    under_root(root, file) ==> below_root_start(root, file) >= 0
}

/// The first folder below the root, when the file sits at least one folder down.
pub open spec fn infer_game_spec(root: Seq<char>, file: Seq<char>) -> Option<Seq<char>> {
    if !under_root(root, file) {
        None
    } else {
        let segs = nonempty_pieces(split_on(posix(file).skip(below_root_start(root, file)), '/'));
        if segs.len() >= 2 {
            Some(segs[0])
        } else {
            None
        }
    }
}

pub proof fn lemma_utf8_len_step(s: Seq<char>, k: int)
    requires
        0 <= k < s.len(),
    ensures
        utf8_len(s.take(k + 1)) == utf8_len(s.take(k)) + utf8_width(s[k]),
        utf8_len(s.take(k + 1)) > utf8_len(s.take(k)),
{
    assert(s.take(k + 1).drop_last() =~= s.take(k));
}

pub proof fn lemma_char_pos_past(s: Seq<char>, b: int, k: int)
    requires
        0 <= k,
        k > s.len() || utf8_len(s.take(k)) > b,
    ensures
        char_pos_from(s, b, k) == -1,
    decreases s.len() + 1 - k,
{
    if k <= s.len() {
        if k < s.len() {
            lemma_utf8_len_step(s, k);
        }
        lemma_char_pos_past(s, b, k + 1);
    }
}

fn width(c: char) -> (r: u128)
    ensures
        r as int == utf8_width(c),
{
    let u = c as u32;
    if u < 0x80 {
        1
    } else if u < 0x800 {
        2
    } else if u < 0x10000 {
        3
    } else {
        4
    }
}

fn utf8_len_exec(s: &Vec<char>) -> (r: u128)
    ensures
        r as int == utf8_len(s@),
        r <= 4 * s.len(),
{
    let mut acc: u128 = 0;
    let mut i: usize = 0;
    assert(s@.take(0) =~= Seq::<char>::empty());
    while i < s.len()
        invariant
            i <= s.len(),
            acc as int == utf8_len(s@.take(i as int)),
            acc <= 4 * i,
        decreases s.len() - i,
    {
        proof {
            lemma_utf8_len_step(s@, i as int);
        }
        acc = acc + width(s[i]);
        i += 1;
    }
    assert(s@.take(s.len() as int) =~= s@);
    acc
}

/// The character position where byte offset `b` begins, if it is a boundary.
fn char_pos_of_byte(s: &Vec<char>, b: u128) -> (r: Option<usize>)
    ensures
        match r {
            Some(k) => k as int == char_pos_from(s@, b as int, 0) && k <= s.len(),
            None => char_pos_from(s@, b as int, 0) == -1,
        },
{
    let mut acc: u128 = 0;
    let mut k: usize = 0;
    assert(s@.take(0) =~= Seq::<char>::empty());
    while k <= s.len()
        invariant
            k <= s.len() + 1,
            k <= s.len() ==> acc as int == utf8_len(s@.take(k as int)),
            acc <= 4 * k,
            char_pos_from(s@, b as int, 0) == char_pos_from(s@, b as int, k as int),
        decreases s.len() + 1 - k,
    {
        if acc == b {
            return Some(k);
        }
        if acc > b {
            proof {
                lemma_char_pos_past(s@, b as int, k as int);
            }
            return None;
        }
        if k == s.len() {
            proof {
                lemma_char_pos_past(s@, b as int, k as int + 1);
            }
            return None;
        }
        proof {
            lemma_utf8_len_step(s@, k as int);
        }
        acc = acc + width(s[k]);
        k += 1;
    }
    None
}

fn trim_end_slashes_exec(v: &Vec<char>) -> (r: Vec<char>)
    ensures
        r@ == trim_end_slashes(v@),
{
    let mut j: usize = v.len();
    assert(v@.take(j as int) =~= v@);
    while j > 0 && v[j - 1] == '/'
        invariant
            j <= v.len(),
            trim_end_slashes(v@) == trim_end_slashes(v@.take(j as int)),
        decreases j,
    {
        assert(v@.take(j as int).drop_last() =~= v@.take(j as int - 1));
        j -= 1;
    }
    copy_range(v, 0, j)
}

fn posix_vec(v: &Vec<char>) -> (r: Vec<char>)
    ensures
        r@ == posix(v@),
{
    let mut out: Vec<char> = Vec::new();
    let mut i: usize = 0;
    while i < v.len()
        invariant
            i <= v.len(),
            out@ == posix(v@).take(i as int),
        decreases v.len() - i,
    {
        let c = v[i];
        out.push(if c == '\\' { '/' } else { c });
        i += 1;
        assert(out@ =~= posix(v@).take(i as int));
    }
    assert(posix(v@).take(v.len() as int) =~= posix(v@));
    out
}

/// The normalised root and file path, and whether the file lies under the root.
fn root_and_file(root: &str, file_path: &str) -> (r: (Vec<char>, Vec<char>, bool))
    ensures
        r.0@ == trim_end_slashes(posix(root@)),
        r.1@ == posix(file_path@),
        r.2 == under_root(root@, file_path@),
{
    let nr = trim_end_slashes_exec(&posix_vec(&chars_of(root)));
    let nf = posix_vec(&chars_of(file_path));
    if nr.len() == 0 {
        return (nr, nf, false);
    }
    let mut prefix = lower_chars(&nr);
    prefix.push('/');
    let lf = lower_chars(&nf);
    let ok = has_prefix(&lf, &prefix);
    (nr, nf, ok)
}

/// Whether the byte slicing that game inference performs stays on a character boundary.
pub fn game_slice_ok_exec(root: &str, file_path: &str) -> (r: bool)
    ensures
        r == game_slice_ok(root@, file_path@),
{
    let (nr, nf, under) = root_and_file(root, file_path);
    if !under {
        return true;
    }
    let b = utf8_len_exec(&nr) + 1;
    char_pos_of_byte(&nf, b).is_some()
}

/// Infer a game name from a recording's path relative to a watched root (NVIDIA per-game folders).
pub fn infer_game_from_path(root: &str, file_path: &str) -> (r: Option<String>)
    requires
        game_slice_ok(root@, file_path@),
    ensures
        match r {
            Some(g) => infer_game_spec(root@, file_path@) == Some(g@),
            None => infer_game_spec(root@, file_path@).is_none(),
        },
{
    let (nr, nf, under) = root_and_file(root, file_path);
    if !under {
        return None;
    }
    let b = utf8_len_exec(&nr) + 1;
    let k = match char_pos_of_byte(&nf, b) {
        Some(k) => k,
        None => {
            return None;
        },
    };
    let rest = copy_range(&nf, k, nf.len());
    assert(rest@ =~= posix(file_path@).skip(k as int));
    let parts = split_chars(&rest, '/');
    let ghost ps = split_on(rest@, '/');
    let mut first: Option<Vec<char>> = None;
    let mut count: usize = 0;
    let mut i: usize = 0;
    assert(ps.take(0) =~= Seq::<Seq<char>>::empty());
    while i < parts.len()
        invariant
            i <= parts.len(),
            parts.len() == ps.len(),
            forall|j: int| 0 <= j < parts.len() ==> #[trigger] parts[j]@ == ps[j],
            count as int == nonempty_pieces(ps.take(i as int)).len(),
            count <= i,
            count > 0 ==> (first matches Some(f) && f@ == nonempty_pieces(ps.take(i as int))[0]),
            count == 0 ==> first.is_none(),
        decreases parts.len() - i,
    {
        assert(ps.take(i as int + 1).drop_last() =~= ps.take(i as int));
        if parts[i].len() > 0 {
            if count == 0 {
                first = Some(parts[i].clone());
                assert(nonempty_pieces(ps.take(i as int)) =~= Seq::<Seq<char>>::empty());
            }
            count += 1;
        }
        i += 1;
    }
    assert(ps.take(parts.len() as int) =~= ps);
    if count >= 2 {
        match first {
            Some(f) => Some(string_from(&f)),
            None => None,
        }
    } else {
        None
    }
}

/// [`infer_game_from_path`] on any root/path pair: `None` for a pair whose byte offset falls
/// inside a character (a pair the path slicing cannot handle), else the inferred game.
pub fn infer_game_from_path_checked(root: &str, file_path: &str) -> (r: Option<Option<String>>)
    ensures
        r.is_some() == game_slice_ok(root@, file_path@),
        r matches Some(Some(g)) ==> infer_game_spec(root@, file_path@) == Some(g@),
        r matches Some(None) ==> infer_game_spec(root@, file_path@).is_none(),
{
    if game_slice_ok_exec(root, file_path) {
        Some(infer_game_from_path(root, file_path))
    } else {
        None
    }
}

/// The game folder a recording sits in under the first watched root that yields one.
pub open spec fn first_game(roots: Seq<Seq<char>>, path: Seq<char>) -> Option<Seq<char>>
    decreases roots.len(),
{
    if roots.len() == 0 {
        None
    } else {
        match infer_game_spec(roots[0], path) {
            Some(g) => Some(g),
            None => first_game(roots.drop_first(), path),
        }
    }
}

pub open spec fn root_views(roots: Seq<String>) -> Seq<Seq<char>> {
    Seq::new(roots.len(), |i: int| roots[i]@)
}

/// The roots that [`recording_source`] slices the path against, up to and including the first
/// that yields a game, all cut it on a character boundary.
pub open spec fn roots_slice_ok(roots: Seq<Seq<char>>, path: Seq<char>) -> bool
    decreases roots.len(),
{
    if roots.len() == 0 {
        true
    } else {
        game_slice_ok(roots[0], path) && (infer_game_spec(roots[0], path) is Some || roots_slice_ok(
            roots.drop_first(),
            path,
        ))
    }
}

/// Whether the roots tried for a path all slice it on a character boundary (see
/// [`roots_slice_ok`]).
pub fn roots_slice_ok_exec(roots: &Vec<String>, path: &str) -> (r: bool)
    ensures
        r == roots_slice_ok(root_views(roots@), path@),
{
    let ghost rv = root_views(roots@);
    let mut i: usize = 0;
    assert(rv.skip(0) =~= rv);
    while i < roots.len()
        invariant
            i <= roots.len(),
            rv == root_views(roots@),
            roots_slice_ok(rv, path@) == roots_slice_ok(rv.skip(i as int), path@),
        decreases roots.len() - i,
    {
        assert(rv.skip(i as int)[0] == roots@[i as int]@);
        assert(rv.skip(i as int).drop_first() =~= rv.skip(i as int + 1));
        if !game_slice_ok_exec(roots[i].as_str(), path) {
            return false;
        }
        if infer_game_from_path(roots[i].as_str(), path).is_some() {
            return true;
        }
        i += 1;
    }
    assert(rv.skip(i as int).len() == 0);
    true
}

/// The source shown for a new queue item: the label parsed from its file name, else the game
/// folder it sits in under the first watched root that yields one. The roots are tried in
/// order until one yields a game, so each root tried must slice the path on a character
/// boundary.
pub fn recording_source(parsed: Option<String>, roots: &Vec<String>, path: &str) -> (r: Option<String>)
    requires
        roots_slice_ok(root_views(roots@), path@),
    ensures
        match r {
            Some(s) => match parsed {
                Some(p) => s@ == p@,
                None => first_game(root_views(roots@), path@) == Some(s@),
            },
            None => parsed is None && first_game(root_views(roots@), path@) is None,
        },
{
    let ghost rv = root_views(roots@);
    let mut game: Option<String> = None;
    let mut i: usize = 0;
    assert(rv.skip(0) =~= rv);
    while i < roots.len() && game.is_none()
        invariant
            i <= roots.len(),
            rv == root_views(roots@),
            game is None ==> roots_slice_ok(rv.skip(i as int), path@),
            game is None ==> first_game(rv, path@) == first_game(rv.skip(i as int), path@),
            game matches Some(g) ==> first_game(rv, path@) == Some(g@),
        decreases roots.len() - i,
    {
        assert(rv.skip(i as int)[0] == roots@[i as int]@);
        assert(rv.skip(i as int).drop_first() =~= rv.skip(i as int + 1));
        game = infer_game_from_path(roots[i].as_str(), path);
        i += 1;
    }
    proof {
        if game is None {
            assert(rv.skip(i as int).len() == 0);
        }
    }
    match parsed {
        Some(p) => Some(p),
        None => game,
    }
}

/// [`recording_source`] on any roots: `None` when a root tried would cut the path inside a
/// character (which the path slicing cannot handle), else the source.
pub fn recording_source_checked(parsed: Option<String>, roots: &Vec<String>, path: &str) -> (r: Option<Option<String>>)
    ensures
        r.is_some() == roots_slice_ok(root_views(roots@), path@),
        r matches Some(Some(s)) ==> match parsed {
            Some(p) => s@ == p@,
            None => first_game(root_views(roots@), path@) == Some(s@),
        },
        r matches Some(None) ==> parsed is None && first_game(root_views(roots@), path@) is None,
{
    if roots_slice_ok_exec(roots, path) {
        Some(recording_source(parsed, roots, path))
    } else {
        None
    }
}

} // verus!
