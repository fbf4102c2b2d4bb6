//! File-name sanitising and template-based renaming.

use vstd::prelude::*;
use crate::datetimes::{format_date, format_date_spec, format_datetime, format_datetime_spec, format_time, format_time_spec, LocalDateTime};
use crate::text::{
    append_chars, chars_of, copy_range, dec_i64, dec_int, is_whitespace, is_ws, last_index_of,
    lemma_last_index_of, rfind_char, str_eq, string_from, trim, trim_ws,
};

verus! {

/// Values available to a naming template when renaming a clip.
#[derive(Debug, Clone)]
pub struct RenameVars {
    /// Original base name without extension.
    pub name: String,
    /// Original extension without the leading dot.
    pub ext: String,
    pub recorded_at: Option<LocalDateTime>,
    pub source: Option<String>,
    /// 1-based position used by the `{index}` token.
    pub index: Option<i64>,
}

pub struct RenameVarsModel {
    pub name: Seq<char>,
    pub ext: Seq<char>,
    pub recorded_at: Option<LocalDateTime>,
    pub source: Option<Seq<char>>,
    pub index: Option<i64>,
}

impl View for RenameVars {
    type V = RenameVarsModel;

    open spec fn view(&self) -> RenameVarsModel {
        RenameVarsModel {
            name: self.name@,
            ext: self.ext@,
            recorded_at: self.recorded_at,
            source: match self.source {
                Some(s) => Some(s@),
                None => None,
            },
            index: self.index,
        }
    }
}

/// Characters illegal in Windows file names (the strictest common target).
pub open spec fn is_illegal(c: char) -> bool {
    c == '<' || c == '>' || c == ':' || c == '"' || c == '/' || c == '\\' || c == '|' || c == '?'
        || c == '*'
}

/// A control or illegal character becomes `_`.
pub open spec fn sanitize_char(c: char) -> char {
    if (c as u32) < 0x20 || is_illegal(c) {
        '_'
    } else {
        c
    }
}

/// The trailing run of spaces and dots removed.
pub open spec fn strip_trailing_dots_spaces(s: Seq<char>) -> Seq<char>
    decreases s.len(),
{
    if s.len() > 0 && (s.last() == ' ' || s.last() == '.') {
        strip_trailing_dots_spaces(s.drop_last())
    } else {
        s
    }
}

/// Control and illegal characters replaced by `_`, the trailing run of dots/spaces dropped, then
/// white space trimmed.
pub open spec fn sanitize_spec(name: Seq<char>) -> Seq<char> {
    trim_ws(strip_trailing_dots_spaces(Seq::new(name.len(), |i: int| sanitize_char(name[i]))))
}

fn sanitize_chars(v: &Vec<char>) -> (r: Vec<char>)
    ensures
        r@ == sanitize_spec(v@),
{
    let ghost m = Seq::new(v@.len(), |i: int| sanitize_char(v@[i]));
    let mut mapped: Vec<char> = Vec::new();
    let mut i: usize = 0;
    while i < v.len()
        invariant
            i <= v.len(),
            m == Seq::new(v@.len(), |i: int| sanitize_char(v@[i])),
            mapped@ == m.take(i as int),
        decreases v.len() - i,
    {
        let c = v[i];
        let illegal = c == '<' || c == '>' || c == ':' || c == '"' || c == '/' || c == '\\' || c
            == '|' || c == '?' || c == '*';
        mapped.push(if (c as u32) < 0x20 || illegal { '_' } else { c });
        i += 1;
        assert(mapped@ =~= m.take(i as int));
    }
    assert(m.take(v.len() as int) =~= m);
    let mut j: usize = mapped.len();
    assert(mapped@.take(j as int) =~= mapped@);
    while j > 0 && (mapped[j - 1] == ' ' || mapped[j - 1] == '.')
        invariant
            j <= mapped.len(),
            strip_trailing_dots_spaces(mapped@) == strip_trailing_dots_spaces(
                mapped@.take(j as int),
            ),
        decreases j,
    {
        assert(mapped@.take(j as int).drop_last() =~= mapped@.take(j as int - 1));
        j -= 1;
    }
    let stripped = copy_range(&mapped, 0, j);
    trim(&stripped)
}

/// Replace illegal filename characters (incl. control chars) and trim trailing dots/spaces.
pub fn sanitize_file_name(name: &str) -> (r: String)
    ensures
        r@ == sanitize_spec(name@),
{
    string_from(&sanitize_chars(&chars_of(name)))
}

/// Separator characters tidied in generated names.
pub open spec fn is_tsep(c: char) -> bool {
    c == '_' || c == '.' || c == '-' || is_ws(c)
}

/// Emit a finished run of separators: a run of two or more becomes one space if it holds a
/// space, else its first character; a single separator stays.
pub open spec fn flush_run(out: Seq<char>, run: Seq<char>) -> Seq<char> {
    if run.len() == 0 {
        out
    } else if run.len() >= 2 && run.contains(' ') {
        out.push(' ')
    } else {
        out.push(run[0])
    }
}

/// Left-to-right state of separator collapsing: the text emitted so far and the pending run.
pub open spec fn collapse_state(s: Seq<char>) -> (Seq<char>, Seq<char>)
    decreases s.len(),
{
    if s.len() == 0 {
        (Seq::empty(), Seq::empty())
    } else {
        let (o, r) = collapse_state(s.drop_last());
        let c = s.last();
        if is_tsep(c) {
            (o, r.push(c))
        } else {
            (flush_run(o, r).push(c), Seq::empty())
        }
    }
}

pub open spec fn collapse_seps(s: Seq<char>) -> Seq<char> {
    flush_run(collapse_state(s).0, collapse_state(s).1)
}

pub open spec fn strip_leading_seps(s: Seq<char>) -> Seq<char>
    decreases s.len(),
{
    if s.len() > 0 && is_tsep(s[0]) {
        strip_leading_seps(s.drop_first())
    } else {
        s
    }
}

pub open spec fn strip_trailing_seps(s: Seq<char>) -> Seq<char>
    decreases s.len(),
{
    if s.len() > 0 && is_tsep(s.last()) {
        strip_trailing_seps(s.drop_last())
    } else {
        s
    }
}

/// Runs of separators collapsed, then separators stripped from both ends.
pub open spec fn tidy_spec(s: Seq<char>) -> Seq<char> {
    strip_trailing_seps(strip_leading_seps(collapse_seps(s)))
}

fn is_tsep_exec(c: char) -> (r: bool)
    ensures
        r == is_tsep(c),
{
    c == '_' || c == '.' || c == '-' || is_whitespace(c)
}

fn flush_run_exec(out: &mut Vec<char>, run: &Vec<char>)
    ensures
        final(out)@ == flush_run(old(out)@, run@),
{
    if run.len() == 0 {
        return;
    }
    if run.len() >= 2 {
        let mut has_space = false;
        let mut k: usize = 0;
        while k < run.len()
            invariant
                k <= run.len(),
                has_space == (exists|m: int| 0 <= m < k && run@[m] == ' '),
            decreases run.len() - k,
        {
            if run[k] == ' ' {
                has_space = true;
            }
            k += 1;
        }
        if has_space {
            out.push(' ');
            return;
        }
        assert(!run@.contains(' '));
    }
    out.push(run[0]);
}

fn tidy_chars(v: &Vec<char>) -> (r: Vec<char>)
    ensures
        r@ == tidy_spec(v@),
{
    let mut out: Vec<char> = Vec::new();
    let mut run: Vec<char> = Vec::new();
    let mut i: usize = 0;
    assert(v@.take(0) =~= Seq::<char>::empty());
    while i < v.len()
        invariant
            i <= v.len(),
            (out@, run@) == collapse_state(v@.take(i as int)),
        decreases v.len() - i,
    {
        assert(v@.take(i as int + 1).drop_last() =~= v@.take(i as int));
        let c = v[i];
        if is_tsep_exec(c) {
            run.push(c);
        } else {
            flush_run_exec(&mut out, &run);
            out.push(c);
            run = Vec::new();
            assert(run@ =~= Seq::<char>::empty());
        }
        i += 1;
    }
    assert(v@.take(v.len() as int) =~= v@);
    flush_run_exec(&mut out, &run);
    let ghost collapsed = out@;
    let mut a: usize = 0;
    assert(out@.skip(0) =~= out@);
    while a < out.len() && is_tsep_exec(out[a])
        invariant
            a <= out.len(),
            out@ == collapsed,
            strip_leading_seps(collapsed) == strip_leading_seps(collapsed.skip(a as int)),
        decreases out.len() - a,
    {
        assert(collapsed.skip(a as int).drop_first() =~= collapsed.skip(a as int + 1));
        a += 1;
    }
    let lead = copy_range(&out, a, out.len());
    assert(lead@ =~= collapsed.skip(a as int));
    let mut b: usize = lead.len();
    assert(lead@.take(b as int) =~= lead@);
    while b > 0 && is_tsep_exec(lead[b - 1])
        invariant
            b <= lead.len(),
            strip_trailing_seps(lead@) == strip_trailing_seps(lead@.take(b as int)),
        decreases b,
    {
        assert(lead@.take(b as int).drop_last() =~= lead@.take(b as int - 1));
        b -= 1;
    }
    copy_range(&lead, 0, b)
}

/// Characters allowed inside a `{token}` name (JS `\w`, ASCII).
pub open spec fn is_token_char(c: char) -> bool {
    ('a' <= c <= 'z') || ('A' <= c <= 'Z') || ('0' <= c <= '9') || c == '_'
}

/// End of the run of token characters starting at `k`.
pub open spec fn token_run_end(t: Seq<char>, k: int) -> int
    decreases t.len() - k,
{
    if 0 <= k < t.len() && is_token_char(t[k]) {
        token_run_end(t, k + 1)
    } else {
        k
    }
}

/// Whether a `{name}` token starts at `i`.
pub open spec fn token_at(t: Seq<char>, i: int) -> bool {
    0 <= i < t.len() && t[i] == '{' && token_run_end(t, i + 1) > i + 1 && token_run_end(t, i + 1)
        < t.len() && t[token_run_end(t, i + 1)] == '}'
}

/// What a token expands to. Unknown tokens, and tokens whose value is absent, expand to nothing.
pub open spec fn token_value(name: Seq<char>, v: RenameVarsModel) -> Seq<char> {
    if name == "name"@ {
        v.name
    } else if name == "source"@ {
        match v.source {
            Some(s) => s,
            None => Seq::empty(),
        }
    } else if name == "date"@ {
        match v.recorded_at {
            Some(d) => format_date_spec(d),
            None => Seq::empty(),
        }
    } else if name == "time"@ {
        match v.recorded_at {
            Some(d) => format_time_spec(d),
            None => Seq::empty(),
        }
    } else if name == "datetime"@ {
        match v.recorded_at {
            Some(d) => format_datetime_spec(d),
            None => Seq::empty(),
        }
    } else if name == "index"@ {
        match v.index {
            Some(i) => dec_int(i as int),
            None => Seq::empty(),
        }
    } else if name == "ext"@ {
        v.ext
    } else {
        Seq::empty()
    }
}

/// The template from position `i` on, with every token replaced by its value.
pub open spec fn expand_from(t: Seq<char>, i: int, v: RenameVarsModel) -> Seq<char>
    decreases t.len() - i,
{
    if i < 0 || i >= t.len() {
        Seq::empty()
    } else if token_at(t, i) {
        let j = token_run_end(t, i + 1);
        token_value(t.subrange(i + 1, j), v) + expand_from(t, j + 1, v)
    } else {
        seq![t[i]] + expand_from(t, i + 1, v)
    }
}

/// Expansion, then sanitising and separator tidying; `clip` when nothing is left.
pub open spec fn naming_template_spec(t: Seq<char>, v: RenameVarsModel) -> Seq<char> {
    let base = tidy_spec(sanitize_spec(expand_from(t, 0, v)));
    if base.len() == 0 {
        "clip"@
    } else {
        base
    }
}

pub open spec fn renamed_file_name_spec(t: Seq<char>, v: RenameVarsModel) -> Seq<char> {
    if v.ext.len() == 0 {
        naming_template_spec(t, v)
    } else {
        naming_template_spec(t, v) + seq!['.'] + v.ext
    }
}

pub proof fn lemma_token_run_end(t: Seq<char>, k: int)
    requires
        0 <= k <= t.len(),
    ensures
        k <= token_run_end(t, k) <= t.len(),
        forall|m: int| k <= m < token_run_end(t, k) ==> is_token_char(t[m]),
        token_run_end(t, k) < t.len() ==> !is_token_char(t[token_run_end(t, k)]),
    decreases t.len() - k,
{
    if k < t.len() && is_token_char(t[k]) {
        lemma_token_run_end(t, k + 1);
    }
}

fn token_expansion(name: &Vec<char>, vars: &RenameVars) -> (r: Vec<char>)
    ensures
        r@ == token_value(name@, vars@),
{
    let s = string_from(name);
    let n = s.as_str();
    if str_eq(n, "name") {
        chars_of(vars.name.as_str())
    } else if str_eq(n, "source") {
        match &vars.source {
            Some(src) => chars_of(src.as_str()),
            None => Vec::new(),
        }
    } else if str_eq(n, "date") {
        match &vars.recorded_at {
            Some(d) => chars_of(format_date(d).as_str()),
            None => Vec::new(),
        }
    } else if str_eq(n, "time") {
        match &vars.recorded_at {
            Some(d) => chars_of(format_time(d).as_str()),
            None => Vec::new(),
        }
    } else if str_eq(n, "datetime") {
        match &vars.recorded_at {
            Some(d) => chars_of(format_datetime(d).as_str()),
            None => Vec::new(),
        }
    } else if str_eq(n, "index") {
        match vars.index {
            Some(i) => dec_i64(i),
            None => Vec::new(),
        }
    } else if str_eq(n, "ext") {
        chars_of(vars.ext.as_str())
    } else {
        Vec::new()
    }
}

fn expand_template(t: &Vec<char>, vars: &RenameVars) -> (r: Vec<char>)
    ensures
        r@ == expand_from(t@, 0, vars@),
{
    let mut out: Vec<char> = Vec::new();
    let mut i: usize = 0;
    while i < t.len()
        invariant
            i <= t.len(),
            out@ + expand_from(t@, i as int, vars@) == expand_from(t@, 0, vars@),
        decreases t.len() - i,
    {
        let mut matched = false;
        if t[i] == '{' {
            let mut j = i + 1;
            proof {
                lemma_token_run_end(t@, i as int + 1);
            }
            while j < t.len() && (('a' <= t[j] && t[j] <= 'z') || ('A' <= t[j] && t[j] <= 'Z') || (
            '0' <= t[j] && t[j] <= '9') || t[j] == '_')
                invariant
                    i + 1 <= j <= t.len(),
                    token_run_end(t@, i as int + 1) == token_run_end(t@, j as int),
                decreases t.len() - j,
            {
                j += 1;
            }
            if j > i + 1 && j < t.len() && t[j] == '}' {
                assert(token_at(t@, i as int));
                let name = copy_range(t, i + 1, j);
                let val = token_expansion(&name, vars);
                append_chars(&mut out, &val);
                i = j + 1;
                matched = true;
            }
        }
        if !matched {
            out.push(t[i]);
            i += 1;
        }
    }
    out
}

fn naming_template_chars(template: &str, vars: &RenameVars) -> (r: Vec<char>)
    ensures
        r@ == naming_template_spec(template@, vars@),
{
    let t = chars_of(template);
    let expanded = expand_template(&t, vars);
    let base = tidy_chars(&sanitize_chars(&expanded));
    if base.len() == 0 {
        chars_of("clip")
    } else {
        base
    }
}

/// Expand a naming template into a base filename (no extension). Supported tokens:
/// `{name} {source} {date} {time} {datetime} {index} {ext}`. Unknown tokens expand to "".
pub fn apply_naming_template(template: &str, vars: &RenameVars) -> (r: String)
    ensures
        r@ == naming_template_spec(template@, vars@),
{
    string_from(&naming_template_chars(template, vars))
}

/// Build a full target filename (base + preserved extension) from a template.
pub fn build_renamed_file_name(template: &str, vars: &RenameVars) -> (r: String)
    ensures
        r@ == renamed_file_name_spec(template@, vars@),
{
    let mut base = naming_template_chars(template, vars);
    let ext = chars_of(vars.ext.as_str());
    if ext.len() == 0 {
        string_from(&base)
    } else {
        base.push('.');
        append_chars(&mut base, &ext);
        string_from(&base)
    }
}

/// Base and extension of a file name: split at the last `.` unless it is the first character.
pub open spec fn split_file_name_spec(n: Seq<char>) -> (Seq<char>, Seq<char>) {
    let d = last_index_of(n, '.');
    if d > 0 {
        (n.take(d), n.skip(d + 1))
    } else {
        (n, Seq::empty())
    }
}

/// Split a filename into its base name and extension (without dot).
pub fn split_file_name(file_name: &str) -> (r: (String, String))
    ensures
        (r.0@, r.1@) == split_file_name_spec(file_name@),
{
    let n = chars_of(file_name);
    proof {
        lemma_last_index_of(n@, '.');
    }
    match rfind_char(&n, '.') {
        Some(dot) => {
            if dot > 0 {
                let b = copy_range(&n, 0, dot);
                let e = copy_range(&n, dot + 1, n.len());
                assert(b@ =~= n@.take(dot as int));
                assert(e@ =~= n@.skip(dot + 1));
                return (string_from(&b), string_from(&e));
            }
            (string_from(&n), String::new())
        },
        None => (string_from(&n), String::new()),
    }
}

} // verus!
