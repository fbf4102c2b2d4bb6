//! The queue sidebar's tag filter: the list of tags offered as filters, and which clips a
//! filter shows.

use vstd::prelude::*;
use crate::queue::{dismissed_tag, is_dismissed, is_dismissed_spec, strings_model, tags_model};
use crate::text::str_eq;

verus! {

/// Lexicographic order of texts by character code (the order of `String`'s `Ord`, since UTF-8
/// byte order follows code point order).
pub open spec fn text_lt(a: Seq<char>, b: Seq<char>) -> bool
    decreases a.len(),
{
    if a.len() == 0 {
        b.len() > 0
    } else if b.len() == 0 {
        false
    } else if a[0] != b[0] {
        a[0] < b[0]
    } else {
        text_lt(a.drop_first(), b.drop_first())
    }
}

pub proof fn lemma_text_lt_irreflexive(a: Seq<char>)
    ensures
        !text_lt(a, a),
    decreases a.len(),
{
    if a.len() > 0 {
        lemma_text_lt_irreflexive(a.drop_first());
    }
}

pub proof fn lemma_text_lt_total(a: Seq<char>, b: Seq<char>)
    ensures
        a != b ==> (text_lt(a, b) || text_lt(b, a)),
        !(text_lt(a, b) && text_lt(b, a)),
    decreases a.len(),
{
    if a.len() > 0 && b.len() > 0 {
        lemma_text_lt_total(a.drop_first(), b.drop_first());
        if a != b && a[0] == b[0] {
            assert(a.drop_first() != b.drop_first()) by {
                if a.drop_first() == b.drop_first() {
                    assert(a =~= seq![a[0]] + a.drop_first());
                    assert(b =~= seq![b[0]] + b.drop_first());
                }
            }
        }
    } else if a.len() == 0 && b.len() == 0 {
        assert(a =~= b);
    }
}

pub proof fn lemma_text_lt_transitive(a: Seq<char>, b: Seq<char>, c: Seq<char>)
    requires
        text_lt(a, b),
        text_lt(b, c),
    ensures
        text_lt(a, c),
    decreases a.len(),
{
    if a.len() > 0 && b.len() > 0 && c.len() > 0 {
        if a[0] == b[0] && b[0] == c[0] {
            lemma_text_lt_transitive(a.drop_first(), b.drop_first(), c.drop_first());
        }
    }
}

/// Strictly increasing: sorted with no duplicates.
pub open spec fn strictly_sorted(v: Seq<Seq<char>>) -> bool {
    forall|i: int, j: int| 0 <= i < j < v.len() ==> text_lt(#[trigger] v[i], #[trigger] v[j])
}

fn text_less(a: &str, b: &str) -> (r: bool)
    ensures
        r == text_lt(a@, b@),
{
    let x = crate::text::chars_of(a);
    let y = crate::text::chars_of(b);
    let mut i: usize = 0;
    assert(a@.skip(0) =~= a@);
    assert(b@.skip(0) =~= b@);
    while i < x.len() && i < y.len() && x[i] == y[i]
        invariant
            i <= x.len(),
            i <= y.len(),
            x@ == a@,
            y@ == b@,
            text_lt(a@, b@) == text_lt(a@.skip(i as int), b@.skip(i as int)),
        decreases x.len() - i,
    {
        assert(a@.skip(i as int).drop_first() =~= a@.skip(i as int + 1));
        assert(b@.skip(i as int).drop_first() =~= b@.skip(i as int + 1));
        i += 1;
    }
    if i == x.len() {
        i < y.len()
    } else if i == y.len() {
        false
    } else {
        x[i] < y[i]
    }
}

/// Insert a text into a strictly sorted list, keeping it strictly sorted; a text already there
/// is not added again.
fn insert_sorted(v: &mut Vec<String>, t: &String)
    requires
        strictly_sorted(strings_model(old(v)@)),
    ensures
        strictly_sorted(strings_model(final(v)@)),
        strings_model(final(v)@).to_set() == strings_model(old(v)@).to_set().insert(t@),
{
    let ghost m0 = strings_model(v@);
    let mut i: usize = 0;
    while i < v.len() && text_less(v[i].as_str(), t.as_str())
        invariant
            i <= v.len(),
            strings_model(v@) == m0,
            strictly_sorted(m0),
            forall|k: int| 0 <= k < i ==> text_lt(#[trigger] m0[k], t@),
        decreases v.len() - i,
    {
        i += 1;
    }
    if i < v.len() && str_eq(v[i].as_str(), t.as_str()) {
        assert(m0[i as int] == t@);
        assert(m0.to_set().insert(t@) =~= m0.to_set());
        return;
    }
    proof {
        if i < v.len() {
            lemma_text_lt_total(m0[i as int], t@);
        }
    }
    let copy = t.clone();
    assert(copy@ == t@);
    v.insert(i, copy);
    let ghost m1 = strings_model(v@);
    assert(m1 =~= m0.insert(i as int, t@));
    assert forall|a: int, b: int| 0 <= a < b < m1.len() implies text_lt(#[trigger] m1[a], #[trigger] m1[b]) by {
        if b < i {
            assert(m1[a] == m0[a] && m1[b] == m0[b]);
        } else if b == i {
            assert(m1[a] == m0[a]);
        } else if a == i {
            assert(m1[b] == m0[b - 1]);
            if b - 1 > i {
                assert(text_lt(m0[i as int], m0[b - 1]));
                lemma_text_lt_transitive(t@, m0[i as int], m0[b - 1]);
            }
        } else if a < i {
            assert(m1[a] == m0[a] && m1[b] == m0[b - 1]);
        } else {
            assert(m1[a] == m0[a - 1] && m1[b] == m0[b - 1]);
        }
    }
    assert(m1.to_set() =~= m0.to_set().insert(t@)) by {
        assert forall|x: Seq<char>| m1.to_set().contains(x) <==> m0.to_set().insert(t@).contains(x) by {
            if m1.to_set().contains(x) {
                let k = choose|k: int| 0 <= k < m1.len() && m1[k] == x;
                if k < i {
                    assert(m0[k] == x);
                } else if k > i {
                    assert(m0[k - 1] == x);
                }
            }
            if m0.to_set().contains(x) {
                let k = choose|k: int| 0 <= k < m0.len() && m0[k] == x;
                if k < i {
                    assert(m1[k] == x);
                } else {
                    assert(m1[k + 1] == x);
                }
            }
            if x == t@ {
                assert(m1[i as int] == x);
            }
        }
    }
}

/// Every tag on some clip other than `dismissed`.
pub open spec fn tag_in_lists(lists: Seq<Option<Seq<Seq<char>>>>, t: Seq<char>) -> bool {
    t != dismissed_tag() && exists|i: int|
        0 <= i < lists.len() && #[trigger] lists[i] is Some && lists[i]->0.contains(t)
}

pub open spec fn lists_model(v: Seq<Option<Vec<String>>>) -> Seq<Option<Seq<Seq<char>>>> {
    Seq::new(v.len(), |i: int| tags_model(v[i]))
}

/// The tags offered as filters: every tag of every clip except `dismissed`, each once, sorted.
pub fn all_tags(lists: &Vec<Option<Vec<String>>>) -> (r: Vec<String>)
    ensures
        strictly_sorted(strings_model(r@)),
        forall|t: Seq<char>| #[trigger] strings_model(r@).contains(t) <==> tag_in_lists(lists_model(lists@), t),
{
    let ghost lm = lists_model(lists@);
    let mut out: Vec<String> = Vec::new();
    let mut i: usize = 0;
    while i < lists.len()
        invariant
            i <= lists.len(),
            lm == lists_model(lists@),
            strictly_sorted(strings_model(out@)),
            forall|t: Seq<char>| #[trigger] strings_model(out@).contains(t) <==> (t != dismissed_tag()
                && exists|k: int| 0 <= k < i && #[trigger] lm[k] is Some && lm[k]->0.contains(t)),
        decreases lists.len() - i,
    {
        match &lists[i] {
            None => {
                assert forall|t: Seq<char>| #[trigger] strings_model(out@).contains(t) <==> (t != dismissed_tag()
                    && exists|k: int| 0 <= k < i + 1 && #[trigger] lm[k] is Some && lm[k]->0.contains(t)) by {
                    if exists|k: int| 0 <= k < i + 1 && #[trigger] lm[k] is Some && lm[k]->0.contains(t) {
                        let k = choose|k: int| 0 <= k < i + 1 && #[trigger] lm[k] is Some && lm[k]->0.contains(t);
                        assert(k < i);
                    }
                }
            },
            Some(tags) => {
                let ghost before = strings_model(out@);
                let ghost tm = strings_model(tags@);
                assert(lm[i as int] == Some(tm));
                let mut j: usize = 0;
                while j < tags.len()
                    invariant
                        j <= tags.len(),
                        tm == strings_model(tags@),
                        strictly_sorted(strings_model(out@)),
                        forall|t: Seq<char>| #[trigger] strings_model(out@).contains(t) <==> (before.contains(t)
                            || (t != dismissed_tag() && exists|q: int| 0 <= q < j && tm[q] == t)),
                    decreases tags.len() - j,
                {
                    if !str_eq(tags[j].as_str(), "dismissed") {
                        let ghost prev = strings_model(out@);
                        insert_sorted(&mut out, &tags[j]);
                        assert forall|t: Seq<char>| #[trigger] strings_model(out@).contains(t) <==> (before.contains(t)
                            || (t != dismissed_tag() && exists|q: int| 0 <= q < j + 1 && tm[q] == t)) by {
                            assert(strings_model(out@).to_set().contains(t) == strings_model(out@).contains(t));
                            assert(prev.to_set().contains(t) == prev.contains(t));
                            if t == tm[j as int] {
                                assert(tm[j as int] == tags@[j as int]@);
                            }
                        }
                    } else {
                        assert forall|t: Seq<char>| #[trigger] strings_model(out@).contains(t) <==> (before.contains(t)
                            || (t != dismissed_tag() && exists|q: int| 0 <= q < j + 1 && tm[q] == t)) by {
                            if t != dismissed_tag() && exists|q: int| 0 <= q < j + 1 && tm[q] == t {
                                let q = choose|q: int| 0 <= q < j + 1 && tm[q] == t;
                                if q == j {
                                    assert(tm[q] == tags@[q]@);
                                }
                            }
                        }
                    }
                    j += 1;
                }
                assert forall|t: Seq<char>| #[trigger] strings_model(out@).contains(t) <==> (t != dismissed_tag()
                    && exists|k: int| 0 <= k < i + 1 && #[trigger] lm[k] is Some && lm[k]->0.contains(t)) by {
                    if exists|q: int| 0 <= q < tags.len() && tm[q] == t {
                        let q = choose|q: int| 0 <= q < tags.len() && tm[q] == t;
                        assert(lm[i as int]->0.contains(t));
                    }
                    if t != dismissed_tag() && exists|k: int| 0 <= k < i + 1 && #[trigger] lm[k] is Some && lm[k]->0.contains(t) {
                        let k = choose|k: int| 0 <= k < i + 1 && #[trigger] lm[k] is Some && lm[k]->0.contains(t);
                        if k == i {
                            let q = choose|q: int| 0 <= q < tm.len() && tm[q] == t;
                        }
                    }
                }
            },
        }
        i += 1;
    }
    out
}

/// Whether a clip shows in the sidebar: with a filter that is one of the offered tags, the
/// clips carrying that tag; otherwise every clip that is not dismissed.
pub open spec fn visible_spec(tags: Option<Seq<Seq<char>>>, filter: Option<Seq<char>>, offered: Seq<Seq<char>>) -> bool {
    match filter {
        Some(f) => if offered.contains(f) {
            tags is Some && tags->0.contains(f)
        } else {
            !is_dismissed_spec(tags)
        },
        None => !is_dismissed_spec(tags),
    }
}

fn contains_text(v: &Vec<String>, t: &str) -> (r: bool)
    ensures
        r == strings_model(v@).contains(t@),
{
    let mut i: usize = 0;
    while i < v.len()
        invariant
            i <= v.len(),
            forall|k: int| 0 <= k < i ==> strings_model(v@)[k] != t@,
        decreases v.len() - i,
    {
        if str_eq(v[i].as_str(), t) {
            assert(strings_model(v@)[i as int] == t@);
            return true;
        }
        i += 1;
    }
    false
}

/// Whether a clip with these tags shows under the filter (see [`visible_spec`]).
pub fn item_visible(tags: &Option<Vec<String>>, filter: Option<&str>, offered: &Vec<String>) -> (r: bool)
    ensures
        r == visible_spec(
            tags_model(*tags),
            match filter {
                Some(f) => Some(f@),
                None => None,
            },
            strings_model(offered@),
        ),
{
    match filter {
        Some(f) => if contains_text(offered, f) {
            match tags {
                Some(t) => contains_text(t, f),
                None => false,
            }
        } else {
            !is_dismissed(tags)
        },
        None => !is_dismissed(tags),
    }
}

} // verus!
