//! Character-level text primitives shared by the parsers and formatters.
//!
//! Text is modelled as `Seq<char>` (the view of `str` and `String`); the executable helpers work on
//! `Vec<char>` copies and convert back to `String` at the edges.

use vstd::prelude::*;

verus! {

// ---------------------------------------------------------------------------------------------
// Character classes
// ---------------------------------------------------------------------------------------------

/// Unicode `White_Space` (the set `char::is_whitespace`, `str::trim` and the regex class `\s` use).
pub open spec fn is_ws(c: char) -> bool {
    let u = c as u32;
    ||| 0x09 <= u <= 0x0D
    ||| u == 0x20
    ||| u == 0x85
    ||| u == 0xA0
    ||| u == 0x1680
    ||| 0x2000 <= u <= 0x200A
    ||| u == 0x2028
    ||| u == 0x2029
    ||| u == 0x202F
    ||| u == 0x205F
    ||| u == 0x3000
}

pub fn is_whitespace(c: char) -> (r: bool)
    ensures
        r == is_ws(c),
{
    let u = c as u32;
    (0x09 <= u && u <= 0x0D) || u == 0x20 || u == 0x85 || u == 0xA0 || u == 0x1680 || (0x2000
        <= u && u <= 0x200A) || u == 0x2028 || u == 0x2029 || u == 0x202F || u == 0x205F || u
        == 0x3000
}

pub open spec fn is_ascii_digit(c: char) -> bool {
    '0' <= c <= '9'
}


pub open spec fn digit_value(c: char) -> int {
    (c as u32) - ('0' as u32)
}

pub open spec fn digit_char(d: int) -> char
    recommends
        0 <= d < 10,
{
    (('0' as u32) + d) as char
}

/// ASCII lower-casing of one character (`char::to_ascii_lowercase`).
pub open spec fn ascii_lower(c: char) -> char {
    if 'A' <= c <= 'Z' {
        ((c as u32) + 32) as char
    } else {
        c
    }
}

pub open spec fn ascii_lower_seq(s: Seq<char>) -> Seq<char> {
    Seq::new(s.len(), |i: int| ascii_lower(s[i]))
}

pub open spec fn is_ascii_seq(s: Seq<char>) -> bool {
    forall|i: int| 0 <= i < s.len() ==> (s[i] as u32) < 128
}

pub fn to_ascii_lower(c: char) -> (r: char)
    ensures
        r == ascii_lower(c),
{
    if 'A' <= c && c <= 'Z' {
        let u = (c as u32) + 32;
        assert(0x61 <= u <= 0x7a);
        char_from_ascii(u as u8)
    } else {
        c
    }
}

/// The character with an ASCII code point.
pub fn char_from_ascii(b: u8) -> (r: char)
    requires
        b < 128,
    ensures
        r as u32 == b as u32,
        r == (b as u32) as char,
{
    b as char
}

/// `str::eq_ignore_ascii_case`: equal after ASCII lower-casing both sides.
pub fn eq_ignore_ascii_case(a: &Vec<char>, b: &Vec<char>) -> (r: bool)
    ensures
        r == (ascii_lower_seq(a@) == ascii_lower_seq(b@)),
{
    if a.len() != b.len() {
        proof {
            assert(ascii_lower_seq(a@).len() != ascii_lower_seq(b@).len());
        }
        return false;
    }
    let mut i: usize = 0;
    while i < a.len()
        invariant
            a.len() == b.len(),
            i <= a.len(),
            forall|j: int| 0 <= j < i ==> ascii_lower(a@[j]) == ascii_lower(b@[j]),
        decreases a.len() - i,
    {
        if to_ascii_lower(a[i]) != to_ascii_lower(b[i]) {
            proof {
                assert(ascii_lower_seq(a@)[i as int] != ascii_lower_seq(b@)[i as int]);
            }
            return false;
        }
        i += 1;
    }
    assert(ascii_lower_seq(a@) =~= ascii_lower_seq(b@));
    true
}

// ---------------------------------------------------------------------------------------------
// Conversions between `str`/`String` and `Vec<char>`
// ---------------------------------------------------------------------------------------------

/// The characters of a string slice, in order.
pub fn chars_of(s: &str) -> (r: Vec<char>)
    ensures
        r@ == s@,
{
    let mut out: Vec<char> = Vec::new();
    for c in it: s.chars()
        invariant
            out@ == it.seq().take(it.index() as int),
    {
        out.push(c);
    }
    out
}

/// `String::from_iter` over characters: the string made of exactly these characters.
#[verifier::external_body]
pub(crate) fn string_from(v: &Vec<char>) -> (r: String)
    ensures
        r@ == v@,
{
    String::from_iter(v.iter())
}

/// What `str::to_lowercase` returns for a text: the Unicode `Lowercase` mapping of every
/// character (including the context-dependent final sigma).
pub uninterp spec fn unicode_lower(s: Seq<char>) -> Seq<char>;

/// `str::to_lowercase`. The full Unicode mapping is left to the name `unicode_lower`; what is
/// stated is that on ASCII text it lowers `A`-`Z` and keeps every other character.
#[verifier::external_body]
pub(crate) fn to_lowercase(s: &str) -> (r: String)
    ensures
        r@ == unicode_lower(s@),
        is_ascii_seq(s@) ==> r@ == ascii_lower_seq(s@),
{
    s.to_lowercase()
}

/// `to_lowercase` on a character vector.
pub fn lower_chars(v: &Vec<char>) -> (r: Vec<char>)
    ensures
        r@ == unicode_lower(v@),
        is_ascii_seq(v@) ==> r@ == ascii_lower_seq(v@),
{
    let s = string_from(v);
    let l = to_lowercase(s.as_str());
    chars_of(l.as_str())
}

// ---------------------------------------------------------------------------------------------
// Slicing, searching, splitting
// ---------------------------------------------------------------------------------------------

pub fn copy_range(v: &Vec<char>, a: usize, b: usize) -> (r: Vec<char>)
    requires
        a <= b <= v.len(),
    ensures
        r@ == v@.subrange(a as int, b as int),
{
    let mut out: Vec<char> = Vec::new();
    let mut i = a;
    while i < b
        invariant
            a <= i <= b <= v.len(),
            out@ == v@.subrange(a as int, i as int),
        decreases b - i,
    {
        out.push(v[i]);
        i += 1;
        assert(out@ =~= v@.subrange(a as int, i as int));
    }
    out
}

/// `a` followed by `b`.
pub fn concat(a: &Vec<char>, b: &Vec<char>) -> (r: Vec<char>)
    ensures
        r@ == a@ + b@,
{
    let mut out = a.clone();
    let mut i: usize = 0;
    while i < b.len()
        invariant
            i <= b.len(),
            out@ == a@ + b@.take(i as int),
        decreases b.len() - i,
    {
        out.push(b[i]);
        i += 1;
        assert(out@ =~= a@ + b@.take(i as int));
    }
    assert(b@.take(b.len() as int) =~= b@);
    out
}

/// Append `b` to `a` in place.
pub fn append_chars(a: &mut Vec<char>, b: &Vec<char>)
    ensures
        final(a)@ == old(a)@ + b@,
{
    let mut i: usize = 0;
    while i < b.len()
        invariant
            i <= b.len(),
            a@ == old(a)@ + b@.take(i as int),
        decreases b.len() - i,
    {
        a.push(b[i]);
        i += 1;
        assert(a@ =~= old(a)@ + b@.take(i as int));
    }
    assert(b@.take(b.len() as int) =~= b@);
}

/// Index of the first occurrence of `c` in `s`, or -1.
pub open spec fn index_of(s: Seq<char>, c: char) -> int
    decreases s.len(),
{
    if s.len() == 0 {
        -1
    } else {
        let k = index_of(s.drop_last(), c);
        if k >= 0 {
            k
        } else if s.last() == c {
            s.len() - 1
        } else {
            -1
        }
    }
}

/// Index of the last occurrence of `c` in `s`, or -1.
pub open spec fn last_index_of(s: Seq<char>, c: char) -> int
    decreases s.len(),
{
    if s.len() == 0 {
        -1
    } else if s.last() == c {
        s.len() - 1
    } else {
        last_index_of(s.drop_last(), c)
    }
}

pub proof fn lemma_index_of(s: Seq<char>, c: char)
    ensures
        -1 <= index_of(s, c) < s.len(),
        index_of(s, c) >= 0 ==> s[index_of(s, c)] == c,
        forall|j: int| 0 <= j < s.len() && (index_of(s, c) < 0 || j < index_of(s, c)) ==> s[j]
            != c,
    decreases s.len(),
{
    if s.len() > 0 {
        lemma_index_of(s.drop_last(), c);
        assert forall|j: int|
            0 <= j < s.len() && (index_of(s, c) < 0 || j < index_of(s, c)) implies s[j] != c by {
            if j < s.len() - 1 {
                assert(s.drop_last()[j] == s[j]);
            }
        }
    }
}

/// The first occurrence, once it lies in a prefix, is the first occurrence of the whole.
pub proof fn lemma_index_of_prefix(s: Seq<char>, k: int, c: char)
    requires
        0 <= k <= s.len(),
        index_of(s.take(k), c) >= 0,
    ensures
        index_of(s, c) == index_of(s.take(k), c),
    decreases s.len() - k,
{
    if k < s.len() {
        assert(s.take(k + 1).drop_last() =~= s.take(k));
        lemma_index_of_prefix(s, k + 1, c);
    } else {
        assert(s.take(k) =~= s);
    }
}

pub proof fn lemma_last_index_of(s: Seq<char>, c: char)
    ensures
        -1 <= last_index_of(s, c) < s.len(),
        last_index_of(s, c) >= 0 ==> s[last_index_of(s, c)] == c,
        forall|j: int| last_index_of(s, c) < j < s.len() ==> s[j] != c,
    decreases s.len(),
{
    if s.len() > 0 {
        lemma_last_index_of(s.drop_last(), c);
        assert forall|j: int| last_index_of(s, c) < j < s.len() implies s[j] != c by {
            if j < s.len() - 1 {
                assert(s.drop_last()[j] == s[j]);
            }
        }
    }
}

/// `str::find` for a character: the first position of `c`.
pub fn find_char(v: &Vec<char>, c: char) -> (r: Option<usize>)
    ensures
        match r {
            Some(k) => k as int == index_of(v@, c),
            None => index_of(v@, c) == -1,
        },
{
    let mut i: usize = 0;
    while i < v.len()
        invariant
            i <= v.len(),
            index_of(v@.take(i as int), c) == -1,
        decreases v.len() - i,
    {
        assert(v@.take(i as int + 1).drop_last() =~= v@.take(i as int));
        if v[i] == c {
            proof {
                lemma_index_of_prefix(v@, i as int + 1, c);
            }
            return Some(i);
        }
        i += 1;
    }
    assert(v@.take(v.len() as int) =~= v@);
    None
}

/// `str::rfind` for a character: the last position of `c`.
pub fn rfind_char(v: &Vec<char>, c: char) -> (r: Option<usize>)
    ensures
        match r {
            Some(k) => k as int == last_index_of(v@, c),
            None => last_index_of(v@, c) == -1,
        },
{
    let mut i: usize = 0;
    let mut last: Option<usize> = None;
    while i < v.len()
        invariant
            i <= v.len(),
            match last {
                Some(k) => k as int == last_index_of(v@.take(i as int), c),
                None => last_index_of(v@.take(i as int), c) == -1,
            },
        decreases v.len() - i,
    {
        assert(v@.take(i as int + 1).drop_last() =~= v@.take(i as int));
        if v[i] == c {
            last = Some(i);
        }
        i += 1;
    }
    assert(v@.take(v.len() as int) =~= v@);
    last
}

pub open spec fn starts_with(s: Seq<char>, p: Seq<char>) -> bool {
    p.len() <= s.len() && s.take(p.len() as int) == p
}


pub fn has_prefix(v: &Vec<char>, p: &Vec<char>) -> (r: bool)
    ensures
        r == starts_with(v@, p@),
{
    if p.len() > v.len() {
        return false;
    }
    let mut i: usize = 0;
    while i < p.len()
        invariant
            p.len() <= v.len(),
            i <= p.len(),
            forall|j: int| 0 <= j < i ==> v@[j] == p@[j],
        decreases p.len() - i,
    {
        if v[i] != p[i] {
            assert(v@.take(p.len() as int)[i as int] != p@[i as int]);
            return false;
        }
        i += 1;
    }
    assert(v@.take(p.len() as int) =~= p@);
    true
}

/// The pieces of `s` between occurrences of `sep` (`str::split` with a character pattern): always
/// at least one piece; `k` separators give `k + 1` pieces.
pub open spec fn split_on(s: Seq<char>, sep: char) -> Seq<Seq<char>>
    decreases s.len(),
{
    if s.len() == 0 {
        seq![Seq::empty()]
    } else {
        let p = split_on(s.drop_last(), sep);
        if s.last() == sep {
            p.push(Seq::empty())
        } else {
            p.update(p.len() - 1, p.last().push(s.last()))
        }
    }
}

pub proof fn lemma_split_on_len(s: Seq<char>, sep: char)
    ensures
        split_on(s, sep).len() >= 1,
    decreases s.len(),
{
    if s.len() > 0 {
        lemma_split_on_len(s.drop_last(), sep);
    }
}

/// The pieces of `v` between occurrences of `sep`.
pub fn split_chars(v: &Vec<char>, sep: char) -> (r: Vec<Vec<char>>)
    ensures
        r.len() == split_on(v@, sep).len(),
        forall|i: int| 0 <= i < r.len() ==> #[trigger] r[i]@ == split_on(v@, sep)[i],
{
    let mut done: Vec<Vec<char>> = Vec::new();
    let mut cur: Vec<char> = Vec::new();
    let mut i: usize = 0;
    proof {
        assert(v@.take(0) =~= Seq::<char>::empty());
    }
    while i < v.len()
        invariant
            i <= v.len(),
            done.len() + 1 == split_on(v@.take(i as int), sep).len(),
            forall|k: int|
                0 <= k < done.len() ==> #[trigger] done[k]@ == split_on(v@.take(i as int), sep)[k],
            cur@ == split_on(v@.take(i as int), sep).last(),
        decreases v.len() - i,
    {
        let ghost pre = v@.take(i as int);
        assert(v@.take(i as int + 1).drop_last() =~= pre);
        proof {
            lemma_split_on_len(pre, sep);
        }
        if v[i] == sep {
            let finished = cur;
            done.push(finished);
            cur = Vec::new();
            i += 1;
            assert(cur@ =~= Seq::<char>::empty());
        } else {
            cur.push(v[i]);
            i += 1;
        }
    }
    assert(v@.take(v.len() as int) =~= v@);
    done.push(cur);
    done
}

// ---------------------------------------------------------------------------------------------
// Trimming
// ---------------------------------------------------------------------------------------------

pub open spec fn trim_start_ws(s: Seq<char>) -> Seq<char>
    decreases s.len(),
{
    if s.len() > 0 && is_ws(s[0]) {
        trim_start_ws(s.drop_first())
    } else {
        s
    }
}

pub open spec fn trim_end_ws(s: Seq<char>) -> Seq<char>
    decreases s.len(),
{
    if s.len() > 0 && is_ws(s.last()) {
        trim_end_ws(s.drop_last())
    } else {
        s
    }
}

/// `str::trim`: drop leading and trailing Unicode white space.
pub open spec fn trim_ws(s: Seq<char>) -> Seq<char> {
    trim_end_ws(trim_start_ws(s))
}

/// Index where `trim_start_ws` begins.
pub fn trim_start_index(v: &Vec<char>) -> (r: usize)
    ensures
        r <= v.len(),
        trim_start_ws(v@) == v@.skip(r as int),
{
    let mut i: usize = 0;
    assert(v@.skip(0) =~= v@);
    while i < v.len() && is_whitespace(v[i])
        invariant
            i <= v.len(),
            trim_start_ws(v@) == trim_start_ws(v@.skip(i as int)),
        decreases v.len() - i,
    {
        assert(v@.skip(i as int).drop_first() =~= v@.skip(i as int + 1));
        i += 1;
    }
    i
}

/// Index where `trim_end_ws` ends.
pub fn trim_end_index(v: &Vec<char>) -> (r: usize)
    ensures
        r <= v.len(),
        trim_end_ws(v@) == v@.take(r as int),
{
    let mut j: usize = v.len();
    assert(v@.take(v.len() as int) =~= v@);
    while j > 0 && is_whitespace(v[j - 1])
        invariant
            j <= v.len(),
            trim_end_ws(v@) == trim_end_ws(v@.take(j as int)),
        decreases j,
    {
        assert(v@.take(j as int).drop_last() =~= v@.take(j as int - 1));
        j -= 1;
    }
    j
}

pub fn trim(v: &Vec<char>) -> (r: Vec<char>)
    ensures
        r@ == trim_ws(v@),
{
    let a = trim_start_index(v);
    let t = copy_range(v, a, v.len());
    assert(t@ =~= v@.skip(a as int));
    let b = trim_end_index(&t);
    copy_range(&t, 0, b)
}

/// `str::trim` on a string slice.
pub fn trim_str(s: &str) -> (r: Vec<char>)
    ensures
        r@ == trim_ws(s@),
{
    let v = chars_of(s);
    trim(&v)
}

// ---------------------------------------------------------------------------------------------
// Decimal numbers
// ---------------------------------------------------------------------------------------------

/// Decimal digits of a natural number (no sign, no leading zeros).
pub open spec fn dec_nat(n: nat) -> Seq<char>
    decreases n,
{
    if n < 10 {
        seq![digit_char(n as int)]
    } else {
        dec_nat(n / 10).push(digit_char((n % 10) as int))
    }
}

/// `i64::to_string` / `{}` of an integer.
pub open spec fn dec_int(i: int) -> Seq<char> {
    if i < 0 {
        seq!['-'] + dec_nat((-i) as nat)
    } else {
        dec_nat(i as nat)
    }
}

pub open spec fn zeros(n: int) -> Seq<char> {
    Seq::new(if n > 0 { n as nat } else { 0 }, |k: int| '0')
}

/// `{:0w}` of an integer: the sign, then zeros up to a total width of `w`, then the digits.
pub open spec fn dec_int_padded(i: int, w: int) -> Seq<char> {
    if i < 0 {
        seq!['-'] + zeros(w - 1 - dec_nat((-i) as nat).len()) + dec_nat((-i) as nat)
    } else {
        zeros(w - dec_nat(i as nat).len()) + dec_nat(i as nat)
    }
}

pub fn digit_to_char(d: u64) -> (r: char)
    requires
        d < 10,
    ensures
        r == digit_char(d as int),
{
    char_from_ascii((d + 48) as u8)
}

pub fn dec_u64(n: u64) -> (r: Vec<char>)
    ensures
        r@ == dec_nat(n as nat),
    decreases n,
{
    if n < 10 {
        let mut v = Vec::new();
        v.push(digit_to_char(n));
        assert(v@ =~= seq![digit_char(n as int)]);
        v
    } else {
        let mut v = dec_u64(n / 10);
        v.push(digit_to_char(n % 10));
        v
    }
}

/// `{}` of an `i64`.
pub fn dec_i64(i: i64) -> (r: Vec<char>)
    ensures
        r@ == dec_int(i as int),
{
    if i < 0 {
        let m: u64 = if i == i64::MIN {
            9223372036854775808u64
        } else {
            (-i) as u64
        };
        let d = dec_u64(m);
        let mut v = Vec::new();
        v.push('-');
        let r = concat(&v, &d);
        assert(v@ =~= seq!['-']);
        r
    } else {
        dec_u64(i as u64)
    }
}

pub fn zero_fill(n: usize) -> (r: Vec<char>)
    ensures
        r@ == zeros(n as int),
{
    let mut v: Vec<char> = Vec::new();
    let mut i: usize = 0;
    while i < n
        invariant
            i <= n,
            v@ == zeros(i as int),
        decreases n - i,
    {
        v.push('0');
        i += 1;
        assert(v@ =~= zeros(i as int));
    }
    v
}

/// `{:0w}` of an `i64`.
pub fn dec_i64_padded(i: i64, w: usize) -> (r: Vec<char>)
    ensures
        r@ == dec_int_padded(i as int, w as int),
{
    if i < 0 {
        let m: u64 = if i == i64::MIN {
            9223372036854775808u64
        } else {
            (-i) as u64
        };
        let d = dec_u64(m);
        let pad: usize = if d.len() < w {
            w - d.len() - 1
        } else {
            0
        };
        let z = zero_fill(pad);
        let mut v = Vec::new();
        v.push('-');
        assert(v@ =~= seq!['-']);
        let vz = concat(&v, &z);
        assert(z@ =~= zeros(w as int - 1 - d@.len()));
        concat(&vz, &d)
    } else {
        let d = dec_u64(i as u64);
        let pad: usize = if w >= d.len() {
            w - d.len()
        } else {
            0
        };
        let z = zero_fill(pad);
        assert(z@ =~= zeros(w as int - d@.len()));
        concat(&z, &d)
    }
}

/// Value of a run of decimal digits.
pub open spec fn digits_value(s: Seq<char>) -> int
    decreases s.len(),
{
    if s.len() == 0 {
        0
    } else {
        digits_value(s.drop_last()) * 10 + digit_value(s.last())
    }
}

pub open spec fn all_digits(s: Seq<char>) -> bool {
    forall|i: int| 0 <= i < s.len() ==> is_ascii_digit(#[trigger] s[i])
}

pub proof fn lemma_digits_value_nonneg(s: Seq<char>)
    requires
        all_digits(s),
    ensures
        digits_value(s) >= 0,
    decreases s.len(),
{
    if s.len() > 0 {
        lemma_digits_value_nonneg(s.drop_last());
    }
}

/// Digits only grow the value: the value of a prefix is at most the value of the whole.
pub proof fn lemma_digits_value_prefix(s: Seq<char>, k: int)
    requires
        all_digits(s),
        0 <= k <= s.len(),
    ensures
        digits_value(s.take(k)) <= digits_value(s),
    decreases s.len() - k,
{
    if k < s.len() {
        lemma_digits_value_prefix(s, k + 1);
        assert(s.take(k + 1).drop_last() =~= s.take(k));
        assert(all_digits(s.take(k)));
        lemma_digits_value_nonneg(s.take(k));
    } else {
        assert(s.take(k) =~= s);
    }
}

/// The digits of an integer literal, after an optional sign.
pub open spec fn int_body(s: Seq<char>) -> Seq<char> {
    if s.len() > 0 && (s[0] == '-' || s[0] == '+') {
        s.drop_first()
    } else {
        s
    }
}

/// What `str::parse::<i64>` accepts and yields: an optional `+`/`-` then one or more ASCII
/// digits, with the value in range; anything else is an error.
pub open spec fn parse_i64_spec(s: Seq<char>) -> Option<i64> {
    let neg = s.len() > 0 && s[0] == '-';
    let body = int_body(s);
    let v = if neg {
        -digits_value(body)
    } else {
        digits_value(body)
    };
    if body.len() > 0 && all_digits(body) && i64::MIN <= v <= i64::MAX {
        Some(v as i64)
    } else {
        None
    }
}

/// `str::parse::<i64>`.
pub fn parse_i64(v: &Vec<char>) -> (r: Option<i64>)
    ensures
        r == parse_i64_spec(v@),
{
    let n = v.len();
    if n == 0 {
        return None;
    }
    let neg = v[0] == '-';
    let start: usize = if v[0] == '-' || v[0] == '+' {
        1
    } else {
        0
    };
    let ghost body = int_body(v@);
    assert(body =~= v@.skip(start as int));
    if start >= n {
        return None;
    }
    let limit: i128 = 9223372036854775808i128;
    let mut acc: i128 = 0;
    let mut i: usize = start;
    while i < n
        invariant
            start <= i <= n == v.len(),
            body == v@.skip(start as int),
            body == int_body(v@),
            neg == (v@.len() > 0 && v@[0] == '-'),
            all_digits(body.take(i - start)),
            acc == digits_value(body.take(i - start)),
            0 <= acc <= limit,
            limit == 9223372036854775808i128,
        decreases n - i,
    {
        let c = v[i];
        if !('0' <= c && c <= '9') {
            assert(body[i - start] == c);
            assert(!all_digits(body));
            return None;
        }
        let d = (c as u32 - '0' as u32) as i128;
        assert(body.take(i - start + 1).drop_last() =~= body.take(i - start));
        acc = acc * 10 + d;
        i += 1;
        assert(all_digits(body.take(i - start)));
        if acc > limit {
            proof {
                if all_digits(body) {
                    lemma_digits_value_prefix(body, i - start);
                    assert(digits_value(body) > limit);
                }
            }
            return None;
        }
    }
    assert(body.take(n - start) =~= body);
    if neg {
        Some((-acc) as i64)
    } else if acc <= 9223372036854775807i128 {
        Some(acc as i64)
    } else {
        None
    }
}

} // verus!

verus! {

/// Character-wise equality of two string slices.
pub fn str_eq(a: &str, b: &str) -> (r: bool)
    ensures
        r == (a@ == b@),
{
    let x = chars_of(a);
    let y = chars_of(b);
    vec_eq(&x, &y)
}

/// Element-wise equality of two character vectors.
pub fn vec_eq(x: &Vec<char>, y: &Vec<char>) -> (r: bool)
    ensures
        r == (x@ == y@),
{
    if x.len() != y.len() {
        return false;
    }
    let mut i: usize = 0;
    while i < x.len()
        invariant
            x.len() == y.len(),
            i <= x.len(),
            forall|j: int| 0 <= j < i ==> x@[j] == y@[j],
        decreases x.len() - i,
    {
        if x[i] != y[i] {
            return false;
        }
        i += 1;
    }
    assert(x@ =~= y@);
    true
}

} // verus!

verus! {

/// Position of the first element satisfying `p`, or -1.
pub open spec fn first_where<A>(s: Seq<A>, p: spec_fn(A) -> bool) -> int
    decreases s.len(),
{
    if s.len() == 0 {
        -1
    } else {
        let k = first_where(s.drop_last(), p);
        if k >= 0 {
            k
        } else if p(s.last()) {
            s.len() - 1
        } else {
            -1
        }
    }
}

pub proof fn lemma_first_where<A>(s: Seq<A>, p: spec_fn(A) -> bool)
    ensures
        -1 <= first_where(s, p) < s.len(),
        first_where(s, p) >= 0 ==> p(s[first_where(s, p)]),
        forall|j: int|
            0 <= j < s.len() && (first_where(s, p) < 0 || j < first_where(s, p)) ==> !p(s[j]),
    decreases s.len(),
{
    if s.len() > 0 {
        lemma_first_where(s.drop_last(), p);
        assert forall|j: int|
            0 <= j < s.len() && (first_where(s, p) < 0 || j < first_where(s, p)) implies !p(
            s[j],
        ) by {
            if j < s.len() - 1 {
                assert(s.drop_last()[j] == s[j]);
            }
        }
    }
}

pub proof fn lemma_first_where_prefix<A>(s: Seq<A>, k: int, p: spec_fn(A) -> bool)
    requires
        0 <= k <= s.len(),
        first_where(s.take(k), p) >= 0,
    ensures
        first_where(s, p) == first_where(s.take(k), p),
    decreases s.len() - k,
{
    if k < s.len() {
        assert(s.take(k + 1).drop_last() =~= s.take(k));
        lemma_first_where_prefix(s, k + 1, p);
    } else {
        assert(s.take(k) =~= s);
    }
}

/// The step of a left-to-right search: no match in `s.take(k)` and none at `k` extends to
/// `s.take(k + 1)`.
pub proof fn lemma_first_where_step<A>(s: Seq<A>, k: int, p: spec_fn(A) -> bool)
    requires
        0 <= k < s.len(),
        first_where(s.take(k), p) == -1,
    ensures
        first_where(s.take(k + 1), p) == (if p(s[k]) {
            k
        } else {
            -1
        }),
{
    assert(s.take(k + 1).drop_last() =~= s.take(k));
}

} // verus!
