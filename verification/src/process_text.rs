//! Reading what the ffmpeg tools print: the version banner of a binary check, and the error
//! reported when an export fails.

use vstd::prelude::*;
use crate::text::{append_chars, chars_of, lemma_split_on_len, split_chars, split_on, string_from, trim, trim_ws};

verus! {

pub open spec fn strip_cr(l: Seq<char>) -> Seq<char> {
    if l.len() > 0 && l.last() == '\r' {
        l.drop_last()
    } else {
        l
    }
}

/// `str::lines`: the pieces between `\n`s, a piece that ended at `\n` losing one trailing
/// `\r`; a final piece that is empty (text ending in `\n`, or no text) is not a line.
pub open spec fn lines_spec(s: Seq<char>) -> Seq<Seq<char>> {
    let parts = split_on(s, '\n');
    let body = Seq::new((parts.len() - 1) as nat, |i: int| strip_cr(parts[i]));
    if parts.last().len() == 0 {
        body
    } else {
        body.push(parts.last())
    }
}

fn lines_of(text: &str) -> (r: Vec<Vec<char>>)
    ensures
        r.len() == lines_spec(text@).len(),
        forall|i: int| 0 <= i < r.len() ==> #[trigger] r[i]@ == lines_spec(text@)[i],
{
    let v = chars_of(text);
    let parts = split_chars(&v, '\n');
    proof {
        lemma_split_on_len(v@, '\n');
    }
    let ghost ps = split_on(v@, '\n');
    let n = parts.len() - 1;
    let mut out: Vec<Vec<char>> = Vec::new();
    let mut i: usize = 0;
    while i < n
        invariant
            n + 1 == parts.len() == ps.len(),
            ps == split_on(text@, '\n'),
            forall|k: int| 0 <= k < parts.len() ==> #[trigger] parts[k]@ == ps[k],
            i <= n,
            out.len() == i,
            forall|k: int| 0 <= k < i ==> #[trigger] out[k]@ == strip_cr(ps[k]),
        decreases n - i,
    {
        let p = &parts[i];
        let line = if p.len() > 0 && p[p.len() - 1] == '\r' {
            crate::text::copy_range(p, 0, p.len() - 1)
        } else {
            crate::text::copy_range(p, 0, p.len())
        };
        assert(line@ =~= strip_cr(ps[i as int]));
        out.push(line);
        i += 1;
    }
    let last = &parts[n];
    if last.len() > 0 {
        let l = crate::text::copy_range(last, 0, last.len());
        assert(l@ =~= ps.last());
        out.push(l);
    }
    out
}

/// Lines joined with `\n` between them.
pub open spec fn join_lines(ls: Seq<Seq<char>>) -> Seq<char>
    decreases ls.len(),
{
    if ls.len() == 0 {
        Seq::empty()
    } else if ls.len() == 1 {
        ls[0]
    } else {
        join_lines(ls.drop_last()) + seq!['\n'] + ls.last()
    }
}

/// The last `n` lines (all of them when there are fewer).
pub open spec fn last_lines(ls: Seq<Seq<char>>, n: int) -> Seq<Seq<char>> {
    if ls.len() <= n {
        ls
    } else {
        ls.skip(ls.len() - n)
    }
}

/// What a failed export reports: the last eight lines of ffmpeg's error output joined by
/// newlines, or `ffmpeg exited with status <status>` when that is empty.
pub open spec fn export_error_spec(stderr: Seq<char>, status: Seq<char>) -> Seq<char> {
    let tail = join_lines(last_lines(lines_spec(stderr), 8));
    if tail.len() == 0 {
        "ffmpeg exited with status "@ + status
    } else {
        tail
    }
}

/// The error message for a failed export (see [`export_error_spec`]).
pub fn export_error(stderr: &str, status: &str) -> (r: String)
    ensures
        r@ == export_error_spec(stderr@, status@),
{
    let lines = lines_of(stderr);
    let ghost ls = lines_spec(stderr@);
    let start: usize = if lines.len() <= 8 {
        0
    } else {
        lines.len() - 8
    };
    let ghost tl = last_lines(ls, 8);
    assert(tl =~= ls.skip(start as int));
    let mut out: Vec<char> = Vec::new();
    let mut i: usize = start;
    while i < lines.len()
        invariant
            start <= i <= lines.len() == ls.len(),
            forall|k: int| 0 <= k < lines.len() ==> #[trigger] lines[k]@ == ls[k],
            tl == ls.skip(start as int),
            out@ == join_lines(tl.take(i - start)),
        decreases lines.len() - i,
    {
        let ghost before = tl.take(i - start);
        assert(tl.take(i - start + 1).drop_last() =~= before);
        assert(tl.take(i - start + 1).last() == ls[i as int]);
        if i > start {
            out.push('\n');
        }
        append_chars(&mut out, &lines[i]);
        i += 1;
        proof {
            if i - 1 == start {
                assert(tl.take(i - start).len() == 1);
                assert(out@ =~= join_lines(tl.take(i - start)));
            } else {
                assert(out@ =~= join_lines(tl.take(i - start)));
            }
        }
    }
    assert(tl.take(lines.len() - start) =~= tl);
    if out.len() == 0 {
        crate::exporting::concat_str("ffmpeg exited with status ", status)
    } else {
        string_from(&out)
    }
}

/// The version banner of a binary check: the first line of its output, trimmed (empty when
/// there is none).
pub open spec fn banner_spec(stdout: Seq<char>) -> Seq<char> {
    let ls = lines_spec(stdout);
    if ls.len() == 0 {
        Seq::empty()
    } else {
        trim_ws(ls[0])
    }
}

pub fn version_banner(stdout: &str) -> (r: String)
    ensures
        r@ == banner_spec(stdout@),
{
    let lines = lines_of(stdout);
    if lines.len() == 0 {
        String::new()
    } else {
        string_from(&trim(&lines[0]))
    }
}

} // verus!
