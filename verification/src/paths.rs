//! Forward-slash path helpers used for queue items and export targets.

use vstd::prelude::*;
use crate::text::{chars_of, concat, copy_range, last_index_of, lemma_last_index_of, rfind_char, string_from};

verus! {

/// Every backslash turned into a forward slash.
pub open spec fn posix(s: Seq<char>) -> Seq<char> {
    Seq::new(s.len(), |i: int| if s[i] == '\\' { '/' } else { s[i] })
}

/// The last `/`-separated segment of the path (the whole path when it has no separator).
pub open spec fn base_name_spec(p: Seq<char>) -> Seq<char> {
    let n = posix(p);
    n.skip(last_index_of(n, '/') + 1)
}

/// The path before its last separator; empty when the only separator is the leading one or
/// there is none.
pub open spec fn dir_name_spec(p: Seq<char>) -> Seq<char> {
    let k = last_index_of(posix(p), '/');
    if k <= 0 {
        Seq::empty()
    } else {
        p.take(k)
    }
}

pub open spec fn is_sep(c: char) -> bool {
    c == '/' || c == '\\'
}

/// Trailing `/` and `\` removed.
pub open spec fn trim_end_seps(s: Seq<char>) -> Seq<char>
    decreases s.len(),
{
    if s.len() > 0 && is_sep(s.last()) {
        trim_end_seps(s.drop_last())
    } else {
        s
    }
}

pub open spec fn join_path_spec(dir: Seq<char>, name: Seq<char>) -> Seq<char> {
    if dir.len() == 0 {
        name
    } else {
        trim_end_seps(dir) + seq!['/'] + name
    }
}

fn posix_chars(v: &Vec<char>) -> (r: Vec<char>)
    ensures
        r@ == posix(v@),
{
    let mut out: Vec<char> = Vec::new();
    let mut i: usize = 0;
    while i < v.len()
        invariant
            i <= v.len(),
            out@ == posix(v@).take(i as int),
        decreases v.len() - i,
    {
        let c = v[i];
        out.push(if c == '\\' { '/' } else { c });
        i += 1;
        assert(out@ =~= posix(v@).take(i as int));
    }
    assert(posix(v@).take(v.len() as int) =~= posix(v@));
    out
}

/// Normalize a path to forward slashes.
pub fn to_posix(path: &str) -> (r: String)
    ensures
        r@ == posix(path@),
{
    string_from(&posix_chars(&chars_of(path)))
}

/// The file-name part of a path, with either separator.
pub fn base_name(path: &str) -> (r: String)
    ensures
        r@ == base_name_spec(path@),
{
    let n = posix_chars(&chars_of(path));
    proof {
        lemma_last_index_of(n@, '/');
    }
    let start: usize = match rfind_char(&n, '/') {
        Some(k) => k + 1,
        None => 0,
    };
    let b = copy_range(&n, start, n.len());
    assert(b@ =~= n@.skip(start as int));
    string_from(&b)
}

/// The directory part of a path, in its original separators.
pub fn dir_name(path: &str) -> (r: String)
    ensures
        r@ == dir_name_spec(path@),
{
    let p = chars_of(path);
    let n = posix_chars(&p);
    proof {
        lemma_last_index_of(n@, '/');
    }
    match rfind_char(&n, '/') {
        Some(idx) => {
            if idx == 0 {
                String::new()
            } else {
                string_from(&copy_range(&p, 0, idx))
            }
        },
        None => String::new(),
    }
}

fn trim_end_seps_index(v: &Vec<char>) -> (r: usize)
    ensures
        r <= v.len(),
        trim_end_seps(v@) == v@.take(r as int),
{
    let mut j: usize = v.len();
    assert(v@.take(v.len() as int) =~= v@);
    while j > 0 && (v[j - 1] == '/' || v[j - 1] == '\\')
        invariant
            j <= v.len(),
            trim_end_seps(v@) == trim_end_seps(v@.take(j as int)),
        decreases j,
    {
        assert(v@.take(j as int).drop_last() =~= v@.take(j as int - 1));
        j -= 1;
    }
    j
}

/// `dir/name`, dropping trailing separators of `dir`; just `name` when `dir` is empty.
pub fn join_path(dir: &str, name: &str) -> (r: String)
    ensures
        r@ == join_path_spec(dir@, name@),
{
    let d = chars_of(dir);
    let nm = chars_of(name);
    if d.len() == 0 {
        return string_from(&nm);
    }
    let e = trim_end_seps_index(&d);
    let mut head = copy_range(&d, 0, e);
    head.push('/');
    let joined = concat(&head, &nm);
    assert(joined@ =~= trim_end_seps(d@) + seq!['/'] + nm@);
    string_from(&joined)
}

} // verus!
