//! Locating the folder OBS records into, from the text of its INI configuration files.

use vstd::prelude::*;
use crate::text::{
    chars_of, copy_range, eq_ignore_ascii_case, find_char, ascii_lower_seq, index_of, first_where,
    lemma_first_where, lemma_first_where_prefix, lemma_first_where_step,
    lemma_index_of, lower_chars, split_chars, split_on, string_from, trim, trim_ws, unicode_lower,
    vec_eq,
};

verus! {

/// Raw OBS config files, read by the host and parsed here. Profiles are kept in the order they
/// were found so the "first profile" fallback is deterministic.
#[derive(Debug, Clone)]
pub struct ObsConfigFiles {
    /// Contents of `obs-studio/user.ini`, or `None` if absent.
    pub user_ini: Option<String>,
    /// Profile directory name → contents of its `basic.ini`.
    pub profiles: Vec<(String, String)>,
}

pub struct ObsConfigFilesModel {
    pub user_ini: Option<Seq<char>>,
    pub profiles: Seq<(Seq<char>, Seq<char>)>,
}

impl View for ObsConfigFiles {
    type V = ObsConfigFilesModel;

    open spec fn view(&self) -> ObsConfigFilesModel {
        ObsConfigFilesModel {
            user_ini: match self.user_ini {
                Some(s) => Some(s@),
                None => None,
            },
            profiles: Seq::new(self.profiles@.len(), |i: int| (self.profiles@[i].0@, self.profiles@[i].1@)),
        }
    }
}

/// Leading byte-order marks removed (`trim_start_matches('\u{feff}')`).
pub open spec fn trim_bom(s: Seq<char>) -> Seq<char>
    decreases s.len(),
{
    if s.len() > 0 && s[0] == '\u{feff}' {
        trim_bom(s.drop_first())
    } else {
        s
    }
}

/// One INI line as the reader sees it: BOMs dropped, then white space trimmed.
pub open spec fn ini_line(raw: Seq<char>) -> Seq<char> {
    trim_ws(trim_bom(raw))
}

/// Scan INI lines for `key` in section `sl` (both already lower-cased), with `cur` the lower-cased
/// name of the section the lines start in. Blank lines and `;`/`#` comments are skipped; a
/// `[name]` line opens a section; in the wanted section the first `key = value` line whose
/// trimmed, lower-cased key matches gives the trimmed value.
pub open spec fn ini_scan(lines: Seq<Seq<char>>, cur: Option<Seq<char>>, sl: Seq<char>, kl: Seq<char>) -> Option<Seq<char>>
    decreases lines.len(),
{
    if lines.len() == 0 {
        None
    } else {
        let line = ini_line(lines[0]);
        let rest = lines.drop_first();
        if line.len() == 0 || line[0] == ';' || line[0] == '#' {
            ini_scan(rest, cur, sl, kl)
        } else if line[0] == '[' && line.last() == ']' && line.len() >= 3 {
            ini_scan(rest, Some(unicode_lower(line.subrange(1, line.len() - 1))), sl, kl)
        } else if cur != Some(sl) {
            ini_scan(rest, cur, sl, kl)
        } else {
            let eq = index_of(line, '=');
            if eq >= 0 && unicode_lower(trim_ws(line.take(eq))) == kl {
                Some(trim_ws(line.skip(eq + 1)))
            } else {
                ini_scan(rest, cur, sl, kl)
            }
        }
    }
}

/// The value of `key` in `[section]` of an INI text; section and key match case-insensitively.
pub open spec fn ini_value(text: Seq<char>, section: Seq<char>, key: Seq<char>) -> Option<Seq<char>> {
    ini_scan(split_on(text, '\n'), None, unicode_lower(section), unicode_lower(key))
}

fn trim_bom_start(v: &Vec<char>) -> (r: usize)
    ensures
        r <= v.len(),
        trim_bom(v@) == v@.skip(r as int),
{
    let mut i: usize = 0;
    assert(v@.skip(0) =~= v@);
    while i < v.len() && v[i] == '\u{feff}'
        invariant
            i <= v.len(),
            trim_bom(v@) == trim_bom(v@.skip(i as int)),
        decreases v.len() - i,
    {
        assert(v@.skip(i as int).drop_first() =~= v@.skip(i as int + 1));
        i += 1;
    }
    i
}

fn ini_line_exec(raw: &Vec<char>) -> (r: Vec<char>)
    ensures
        r@ == ini_line(raw@),
{
    let b = trim_bom_start(raw);
    let t = copy_range(raw, b, raw.len());
    assert(t@ =~= raw@.skip(b as int));
    trim(&t)
}

pub open spec fn opt_chars(o: &Option<Vec<char>>) -> Option<Seq<char>> {
    match o {
        Some(c) => Some(c@),
        None => None,
    }
}

/// Read a single `key=value` from an INI section. Section and key match case-insensitively;
/// tolerant of a UTF-8 BOM and CRLF line endings, both of which OBS writes.
pub fn get_ini_value(text: &str, section: &str, key: &str) -> (r: Option<String>)
    ensures
        match r {
            Some(s) => ini_value(text@, section@, key@) == Some(s@),
            None => ini_value(text@, section@, key@).is_none(),
        },
{
    let tv = chars_of(text);
    let sl = lower_chars(&chars_of(section));
    let kl = lower_chars(&chars_of(key));
    let lines = split_chars(&tv, '\n');
    let ghost ls = split_on(text@, '\n');
    let mut current: Option<Vec<char>> = None;
    let mut i: usize = 0;
    assert(ls.skip(0) =~= ls);
    while i < lines.len()
        invariant
            i <= lines.len(),
            lines.len() == ls.len(),
            forall|k: int| 0 <= k < lines.len() ==> #[trigger] lines[k]@ == ls[k],
            sl@ == unicode_lower(section@),
            kl@ == unicode_lower(key@),
            ini_value(text@, section@, key@) == ini_scan(ls.skip(i as int), opt_chars(&current), sl@, kl@),
        decreases lines.len() - i,
    {
        assert(ls.skip(i as int)[0] == ls[i as int]);
        assert(ls.skip(i as int).drop_first() =~= ls.skip(i as int + 1));
        let line = ini_line_exec(&lines[i]);
        let n = line.len();
        if n == 0 || line[0] == ';' || line[0] == '#' {
            i += 1;
            continue;
        }
        if line[0] == '[' && line[n - 1] == ']' && n >= 3 {
            let inner = copy_range(&line, 1, n - 1);
            current = Some(lower_chars(&inner));
            i += 1;
            continue;
        }
        let in_section = match &current {
            Some(c) => vec_eq(c, &sl),
            None => false,
        };
        if !in_section {
            i += 1;
            continue;
        }
        match find_char(&line, '=') {
            Some(eq) => {
                proof {
                    lemma_index_of(line@, '=');
                }
                let k = copy_range(&line, 0, eq);
                assert(k@ =~= line@.take(eq as int));
                let kt = lower_chars(&trim(&k));
                if vec_eq(&kt, &kl) {
                    let vpart = copy_range(&line, eq + 1, n);
                    assert(vpart@ =~= line@.skip(eq + 1));
                    let v = trim(&vpart);
                    return Some(string_from(&v));
                }
            },
            None => {},
        }
        i += 1;
    }
    None
}

} // verus!

verus! {

/// `filter(|s| !s.is_empty())`.
pub open spec fn nonempty(o: Option<Seq<char>>) -> Option<Seq<char>> {
    match o {
        Some(s) => if s.len() > 0 {
            Some(s)
        } else {
            None
        },
        None => None,
    }
}

/// The active profile named in `user.ini`: `[Basic] ProfileDir`, else `[Basic] Profile`.
pub open spec fn active_profile(user_ini: Option<Seq<char>>) -> Option<Seq<char>> {
    match user_ini {
        Some(ui) => match nonempty(ini_value(ui, "Basic"@, "ProfileDir"@)) {
            Some(p) => Some(p),
            None => nonempty(ini_value(ui, "Basic"@, "Profile"@)),
        },
        None => None,
    }
}

pub open spec fn exact_name(name: Seq<char>) -> spec_fn((Seq<char>, Seq<char>)) -> bool {
    |p: (Seq<char>, Seq<char>)| p.0 == name
}

pub open spec fn name_ignoring_ascii_case(name: Seq<char>) -> spec_fn((Seq<char>, Seq<char>)) -> bool {
    |p: (Seq<char>, Seq<char>)| ascii_lower_seq(p.0) == ascii_lower_seq(name)
}

/// The `basic.ini` of the chosen profile: the active one by exact name, else by name ignoring
/// ASCII case, else the first profile.
pub open spec fn chosen_basic_ini(ps: Seq<(Seq<char>, Seq<char>)>, active: Option<Seq<char>>) -> Option<Seq<char>> {
    let by_name = match active {
        Some(n) => {
            let e = first_where(ps, exact_name(n));
            if e >= 0 {
                Some(ps[e].1)
            } else {
                let c = first_where(ps, name_ignoring_ascii_case(n));
                if c >= 0 {
                    Some(ps[c].1)
                } else {
                    None
                }
            }
        },
        None => None,
    };
    match by_name {
        Some(b) => Some(b),
        None => if ps.len() > 0 {
            Some(ps[0].1)
        } else {
            None
        },
    }
}

/// The recording folder a profile's `basic.ini` names: `[AdvOut] RecFilePath` when
/// `[Output] Mode` is `Advanced` (ignoring ASCII case), else `[SimpleOutput] FilePath`; trimmed,
/// and absent when empty.
pub open spec fn profile_recording_folder(basic: Seq<char>) -> Option<Seq<char>> {
    let adv = match ini_value(basic, "Output"@, "Mode"@) {
        Some(m) => ascii_lower_seq(m) == ascii_lower_seq("advanced"@),
        None => false,
    };
    let folder = if adv {
        ini_value(basic, "AdvOut"@, "RecFilePath"@)
    } else {
        ini_value(basic, "SimpleOutput"@, "FilePath"@)
    };
    match folder {
        Some(s) => nonempty(Some(trim_ws(s))),
        None => None,
    }
}

pub open spec fn obs_recording_folder(f: ObsConfigFilesModel) -> Option<Seq<char>> {
    if f.profiles.len() == 0 {
        None
    } else {
        match chosen_basic_ini(f.profiles, active_profile(f.user_ini)) {
            Some(b) => profile_recording_folder(b),
            None => None,
        }
    }
}

fn nonempty_string(o: Option<String>) -> (r: Option<String>)
    ensures
        match r {
            Some(s) => nonempty(opt_str(&o)) == Some(s@),
            None => nonempty(opt_str(&o)).is_none(),
        },
{
    match o {
        Some(s) => {
            if s.as_str().is_empty() {
                None
            } else {
                Some(s)
            }
        },
        None => None,
    }
}

pub open spec fn opt_str(o: &Option<String>) -> Option<Seq<char>> {
    match o {
        Some(s) => Some(s@),
        None => None,
    }
}

fn active_profile_exec(user_ini: &Option<String>) -> (r: Option<String>)
    ensures
        opt_str(&r) == active_profile(opt_str(user_ini)),
{
    match user_ini {
        Some(ui) => {
            let pd = nonempty_string(get_ini_value(ui.as_str(), "Basic", "ProfileDir"));
            match pd {
                Some(p) => Some(p),
                None => nonempty_string(get_ini_value(ui.as_str(), "Basic", "Profile")),
            }
        },
        None => None,
    }
}

/// Position of the first profile named exactly `name`, or of the first whose name equals it
/// ignoring ASCII case.
fn find_profile(profiles: &Vec<(String, String)>, name: &Vec<char>, ignore_case: bool) -> (r: Option<usize>)
    ensures
        ({
            let ps = Seq::new(profiles@.len(), |i: int| (profiles@[i].0@, profiles@[i].1@));
            let p = if ignore_case {
                name_ignoring_ascii_case(name@)
            } else {
                exact_name(name@)
            };
            match r {
                Some(k) => k as int == first_where(ps, p),
                None => first_where(ps, p) == -1,
            }
        }),
{
    let ghost ps = Seq::new(profiles@.len(), |i: int| (profiles@[i].0@, profiles@[i].1@));
    let ghost p = if ignore_case {
        name_ignoring_ascii_case(name@)
    } else {
        exact_name(name@)
    };
    let mut i: usize = 0;
    while i < profiles.len()
        invariant
            i <= profiles.len(),
            ps == Seq::new(profiles@.len(), |i: int| (profiles@[i].0@, profiles@[i].1@)),
            p == (if ignore_case {
                name_ignoring_ascii_case(name@)
            } else {
                exact_name(name@)
            }),
            first_where(ps.take(i as int), p) == -1,
        decreases profiles.len() - i,
    {
        proof {
            lemma_first_where_step(ps, i as int, p);
        }
        let k = chars_of(profiles[i].0.as_str());
        let hit = if ignore_case {
            eq_ignore_ascii_case(&k, name)
        } else {
            vec_eq(&k, name)
        };
        if hit {
            proof {
                lemma_first_where_prefix(ps, i as int + 1, p);
            }
            return Some(i);
        }
        i += 1;
    }
    assert(ps.take(ps.len() as int) =~= ps);
    None
}

fn profile_recording_folder_exec(basic: &str) -> (r: Option<String>)
    ensures
        opt_str(&r) == profile_recording_folder(basic@),
{
    let mode = get_ini_value(basic, "Output", "Mode");
    let adv = match &mode {
        Some(m) => {
            let mv = chars_of(m.as_str());
            let a = chars_of("advanced");
            eq_ignore_ascii_case(&mv, &a)
        },
        None => false,
    };
    let folder = if adv {
        get_ini_value(basic, "AdvOut", "RecFilePath")
    } else {
        get_ini_value(basic, "SimpleOutput", "FilePath")
    };
    match folder {
        Some(f) => {
            let t = trim(&chars_of(f.as_str()));
            nonempty_string(Some(string_from(&t)))
        },
        None => None,
    }
}

/// Resolve the folder OBS records into, from its config files. Picks the active profile
/// (`user.ini` `[Basic] ProfileDir`, then `Profile`, then the first profile), reads that
/// profile's `basic.ini`, and returns `[AdvOut] RecFilePath` (Advanced mode) or
/// `[SimpleOutput] FilePath`. `None` when nothing usable is found.
pub fn detect_obs_recording_folder(files: &ObsConfigFiles) -> (r: Option<String>)
    ensures
        opt_str(&r) == obs_recording_folder(files@),
{
    let ghost ps = files@.profiles;
    if files.profiles.len() == 0 {
        return None;
    }
    let active = active_profile_exec(&files.user_ini);
    let idx: usize = match &active {
        Some(name) => {
            let nv = chars_of(name.as_str());
            match find_profile(&files.profiles, &nv, false) {
                Some(k) => k,
                None => match find_profile(&files.profiles, &nv, true) {
                    Some(k) => k,
                    None => 0,
                },
            }
        },
        None => 0,
    };
    proof {
        lemma_first_where(ps, exact_name(opt_str(&active).unwrap_or(Seq::empty())));
        lemma_first_where(ps, name_ignoring_ascii_case(opt_str(&active).unwrap_or(Seq::empty())));
    }
    assert(chosen_basic_ini(ps, active_profile(files@.user_ini)) == Some(ps[idx as int].1));
    profile_recording_folder_exec(files.profiles[idx].1.as_str())
}

} // verus!
