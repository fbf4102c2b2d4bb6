//! Decimal text read as scaled integers, and rounded integer division.
//!
//! Durations, timestamps and frame rates are held in fixed-point integer units; these are the
//! readers that turn decimal text such as `63.500000` into such units exactly.

use vstd::prelude::*;
use crate::text::{
    all_digits, ascii_lower_seq, eq_ignore_ascii_case, concat, copy_range, digits_value, find_char, index_of, int_body, is_ascii_digit,
    lemma_digits_value_nonneg, lemma_index_of, parse_i64, parse_i64_spec, trim_str, trim_ws,
    zero_fill, zeros,
};

verus! {

/// The first `k` fractional digits, padded with zeros to exactly `k`.
pub open spec fn frac_places(fp: Seq<char>, k: int) -> Seq<char> {
    if fp.len() >= k {
        fp.take(k)
    } else {
        fp + zeros(k - fp.len())
    }
}

/// `-` when the text starts with a minus sign, else nothing.
pub open spec fn sign_part(s: Seq<char>) -> Seq<char> {
    if s.len() > 0 && s[0] == '-' {
        seq!['-']
    } else {
        Seq::empty()
    }
}

/// The integer part of a decimal literal (before the first `.`, after the sign).
pub open spec fn int_part(s: Seq<char>) -> Seq<char> {
    let body = int_body(s);
    let dot = index_of(body, '.');
    if dot < 0 {
        body
    } else {
        body.take(dot)
    }
}

/// The fractional part of a decimal literal (after the first `.`).
pub open spec fn frac_part(s: Seq<char>) -> Seq<char> {
    let body = int_body(s);
    let dot = index_of(body, '.');
    if dot < 0 {
        Seq::empty()
    } else {
        body.skip(dot + 1)
    }
}

/// A decimal literal `[+-]digits[.digits]` with at least one digit, as an integer count of
/// `10^-k` units: the digits past the `k`-th decimal place are dropped. `None` for any other
/// text, and for a value outside `i64`.
pub open spec fn parse_scaled_spec(s: Seq<char>, k: int) -> Option<i64> {
    let ip = int_part(s);
    let fp = frac_part(s);
    if ip.len() + fp.len() > 0 && all_digits(ip) && all_digits(fp) {
        if ip.len() + frac_places(fp, k).len() == 0 {
            Some(0)
        } else {
            parse_i64_spec(sign_part(s) + ip + frac_places(fp, k))
        }
    } else {
        None
    }
}

/// Whether every character is an ASCII digit.
pub fn all_ascii_digits(v: &Vec<char>) -> (r: bool)
    ensures
        r == all_digits(v@),
{
    let mut i: usize = 0;
    while i < v.len()
        invariant
            i <= v.len(),
            forall|j: int| 0 <= j < i ==> is_ascii_digit(#[trigger] v@[j]),
        decreases v.len() - i,
    {
        if !('0' <= v[i] && v[i] <= '9') {
            assert(!is_ascii_digit(v@[i as int]));
            return false;
        }
        i += 1;
    }
    true
}

/// Read a decimal literal as a count of `10^-k` units (see [`parse_scaled_spec`]).
pub fn parse_scaled(v: &Vec<char>, k: usize) -> (r: Option<i64>)
    ensures
        r == parse_scaled_spec(v@, k as int),
{
    let n = v.len();
    let start: usize = if n > 0 && (v[0] == '-' || v[0] == '+') {
        1
    } else {
        0
    };
    let body = copy_range(v, start, n);
    assert(body@ =~= int_body(v@));
    proof {
        lemma_index_of(body@, '.');
    }
    let (ip, fp) = match find_char(&body, '.') {
        Some(d) => (copy_range(&body, 0, d), copy_range(&body, d + 1, body.len())),
        None => (copy_range(&body, 0, body.len()), Vec::new()),
    };
    proof {
        assert(body@.take(body@.len() as int) =~= body@);
        assert(ip@ == int_part(v@));
        assert(fp@ =~= frac_part(v@));
    }
    if ip.len() == 0 && fp.len() == 0 {
        return None;
    }
    if !all_ascii_digits(&ip) || !all_ascii_digits(&fp) {
        return None;
    }
    let frac = if fp.len() >= k {
        copy_range(&fp, 0, k)
    } else {
        concat(&fp, &zero_fill(k - fp.len()))
    };
    assert(frac@ =~= frac_places(fp@, k as int));
    if ip.len() == 0 && frac.len() == 0 {
        return Some(0);
    }
    let mut text: Vec<char> = Vec::new();
    if n > 0 && v[0] == '-' {
        text.push('-');
    }
    assert(text@ =~= sign_part(v@));
    let with_int = concat(&text, &ip);
    let digits = concat(&with_int, &frac);
    parse_i64(&digits)
}

/// `parse_scaled` on text after `str::trim`.
pub fn parse_scaled_trimmed(s: &str, k: usize) -> (r: Option<i64>)
    ensures
        r == parse_scaled_spec(trim_ws(s@), k as int),
{
    let t = trim_str(s);
    parse_scaled(&t, k)
}

/// The position of the first exponent mark (`e` or `E`), or -1.
pub open spec fn exp_pos(s: Seq<char>) -> int {
    let a = index_of(s, 'e');
    let b = index_of(s, 'E');
    if a < 0 {
        b
    } else if b < 0 {
        a
    } else if a < b {
        a
    } else {
        b
    }
}

proof fn lemma_exp_pos(s: Seq<char>)
    ensures
        -1 <= exp_pos(s) < s.len(),
        exp_pos(s) >= 0 ==> (s[exp_pos(s)] == 'e' || s[exp_pos(s)] == 'E'),
        forall|j: int|
            0 <= j < s.len() && (exp_pos(s) < 0 || j < exp_pos(s)) ==> s[j] != 'e' && s[j] != 'E',
{
    lemma_index_of(s, 'e');
    lemma_index_of(s, 'E');
}

/// The exponent after its mark: an optional sign, then one or more ASCII digits.
pub open spec fn exp_ok(x: Seq<char>) -> bool {
    int_body(x).len() > 0 && all_digits(int_body(x))
}

pub open spec fn exp_value(x: Seq<char>) -> int {
    if x.len() > 0 && x[0] == '-' {
        -digits_value(int_body(x))
    } else {
        digits_value(int_body(x))
    }
}

/// The digits of `ip.fp` with the decimal point moved `sh` places to the right, the rest
/// dropped: the integer digits then the first `sh` fraction digits (zero-padded); for a
/// negative `sh`, the integer digits without their last `-sh`.
pub open spec fn shifted_digits(ip: Seq<char>, fp: Seq<char>, sh: int) -> Seq<char> {
    if sh >= 0 {
        ip + frac_places(fp, sh)
    } else if ip.len() + sh > 0 {
        ip.take(ip.len() + sh)
    } else {
        Seq::empty()
    }
}

/// The text of a number before its exponent mark.
pub open spec fn mantissa_of(body: Seq<char>) -> Seq<char> {
    if exp_pos(body) < 0 {
        body
    } else {
        body.take(exp_pos(body))
    }
}

pub open spec fn mant_int(body: Seq<char>) -> Seq<char> {
    let m = mantissa_of(body);
    if index_of(m, '.') < 0 {
        m
    } else {
        m.take(index_of(m, '.'))
    }
}

pub open spec fn mant_frac(body: Seq<char>) -> Seq<char> {
    let m = mantissa_of(body);
    if index_of(m, '.') < 0 {
        Seq::empty()
    } else {
        m.skip(index_of(m, '.') + 1)
    }
}

/// A finite decimal number as `str::parse::<f64>` reads one, `[+-]digits[.digits][(e|E)[+-]digits]`
/// with at least one mantissa digit, as an integer count of `10^-k` units: the value is
/// truncated toward zero. `None` for any other text (`inf`, `infinity` and `nan` among them,
/// which are no finite value), and for a value outside `i64`.
pub open spec fn parse_decimal_spec(s: Seq<char>, k: int) -> Option<i64> {
    let body = int_body(s);
    let ep = exp_pos(body);
    let ip = mant_int(body);
    let fp = mant_frac(body);
    let ev = if ep < 0 {
        0
    } else {
        exp_value(body.skip(ep + 1))
    };
    if ip.len() + fp.len() > 0 && all_digits(ip) && all_digits(fp) && (ep < 0 || exp_ok(
        body.skip(ep + 1),
    )) {
        let d = shifted_digits(ip, fp, k + ev);
        if d.len() == 0 {
            Some(0)
        } else {
            parse_i64_spec(sign_part(s) + d)
        }
    } else {
        None
    }
}

/// Without an exponent the reader is the plain decimal reader.
pub proof fn lemma_decimal_plain(s: Seq<char>, k: int)
    requires
        k >= 0,
        exp_pos(int_body(s)) < 0,
    ensures
        parse_decimal_spec(s, k) == parse_scaled_spec(s, k),
{
    let ip = int_part(s);
    let fp = frac_part(s);
    assert(sign_part(s) + ip + frac_places(fp, k) =~= sign_part(s) + (ip + frac_places(fp, k)));
}

/// Text of digits and dots has no exponent mark.
pub proof fn lemma_no_exp(s: Seq<char>)
    requires
        forall|i: int| 0 <= i < s.len() ==> s[i] != 'e' && s[i] != 'E',
    ensures
        exp_pos(s) < 0,
{
    lemma_exp_pos(s);
}

pub open spec fn pow10(n: nat) -> int
    decreases n,
{
    if n == 0 {
        1
    } else {
        10 * pow10((n - 1) as nat)
    }
}

proof fn lemma_pow10_grows(n: nat)
    ensures
        pow10(n) >= 1,
        n >= 20 ==> pow10(n) >= 100_000_000_000_000_000_000,
    decreases n,
{
    if n > 0 {
        lemma_pow10_grows((n - 1) as nat);
        if n == 20 {
            assert(pow10(20) == 100_000_000_000_000_000_000) by {
                reveal_with_fuel(pow10, 21);
            }
        }
    }
}

/// Appending `m` zeros multiplies the value by `10^m`.
proof fn lemma_digits_zeros(b: Seq<char>, m: nat)
    ensures
        digits_value(b + zeros(m as int)) == digits_value(b) * pow10(m),
    decreases m,
{
    if m == 0 {
        assert(b + zeros(0) =~= b);
    } else {
        lemma_digits_zeros(b, (m - 1) as nat);
        assert((b + zeros(m as int)).drop_last() =~= b + zeros(m - 1));
        let x = digits_value(b);
        let p = pow10((m - 1) as nat);
        assert((x * p) * 10 == x * (10 * p)) by (nonlinear_arith);
    }
}

/// Whether some character is a digit other than `0`.
pub open spec fn has_nonzero_digit(s: Seq<char>) -> bool {
    exists|i: int| 0 <= i < s.len() && is_ascii_digit(#[trigger] s[i]) && s[i] != '0'
}

proof fn lemma_digits_zero_or_positive(s: Seq<char>)
    requires
        all_digits(s),
    ensures
        has_nonzero_digit(s) ==> digits_value(s) >= 1,
        !has_nonzero_digit(s) ==> digits_value(s) == 0,
    decreases s.len(),
{
    if s.len() > 0 {
        let p = s.drop_last();
        assert(all_digits(p));
        lemma_digits_zero_or_positive(p);
        lemma_digits_value_nonneg(p);
        if has_nonzero_digit(p) {
            let i = choose|i: int| 0 <= i < p.len() && is_ascii_digit(#[trigger] p[i]) && p[i] != '0';
            assert(s[i] == p[i]);
        }
        if !has_nonzero_digit(s) {
            assert(s[s.len() - 1] == '0');
            assert(!has_nonzero_digit(p)) by {
                if has_nonzero_digit(p) {
                    let i = choose|i: int| 0 <= i < p.len() && is_ascii_digit(#[trigger] p[i]) && p[i] != '0';
                    assert(s[i] == p[i]);
                }
            }
        } else if !has_nonzero_digit(p) {
            let i = choose|i: int| 0 <= i < s.len() && is_ascii_digit(#[trigger] s[i]) && s[i] != '0';
            if i < s.len() - 1 {
                assert(p[i] == s[i]);
            }
        }
    }
}

/// Whether some character is a digit other than `0`.
pub fn nonzero_digit(v: &Vec<char>) -> (r: bool)
    ensures
        r == has_nonzero_digit(v@),
{
    let mut i: usize = 0;
    while i < v.len()
        invariant
            i <= v.len(),
            forall|j: int| 0 <= j < i ==> !(is_ascii_digit(#[trigger] v@[j]) && v@[j] != '0'),
        decreases v.len() - i,
    {
        if '1' <= v[i] && v[i] <= '9' {
            assert(is_ascii_digit(v@[i as int]) && v@[i as int] != '0');
            return true;
        }
        i += 1;
    }
    false
}

fn exp_position(v: &Vec<char>) -> (r: Option<usize>)
    ensures
        match r {
            Some(k) => k as int == exp_pos(v@),
            None => exp_pos(v@) == -1,
        },
{
    proof {
        lemma_index_of(v@, 'e');
        lemma_index_of(v@, 'E');
    }
    match (find_char(v, 'e'), find_char(v, 'E')) {
        (None, None) => None,
        (Some(a), None) => Some(a),
        (None, Some(b)) => Some(b),
        (Some(a), Some(b)) => if a < b {
            Some(a)
        } else {
            Some(b)
        },
    }
}

/// The cap at which an exponent's magnitude stops being counted: any larger magnitude moves
/// every digit out of range (or to zero) all the same.
spec fn exp_cap() -> int {
    1_000_000_000_000_000_000_000_000_000_000
}

spec fn capped(x: int) -> int {
    if x > exp_cap() {
        exp_cap()
    } else {
        x
    }
}

/// The exponent's magnitude, capped at [`exp_cap`]; `None` when it is not sign-then-digits.
fn exponent_capped(x: &Vec<char>) -> (r: Option<i128>)
    ensures
        match r {
            Some(e) => exp_ok(x@) && e == capped(digits_value(int_body(x@))) && 0 <= e,
            None => !exp_ok(x@),
        },
{
    let n = x.len();
    let start: usize = if n > 0 && (x[0] == '-' || x[0] == '+') {
        1
    } else {
        0
    };
    let d = copy_range(x, start, n);
    assert(d@ =~= int_body(x@));
    if d.len() == 0 {
        return None;
    }
    let cap: i128 = 1_000_000_000_000_000_000_000_000_000_000;
    let mut e: i128 = 0;
    let mut j: usize = 0;
    while j < d.len()
        invariant
            j <= d.len(),
            d@ == int_body(x@),
            all_digits(d@.take(j as int)),
            digits_value(d@.take(j as int)) >= 0,
            e == capped(digits_value(d@.take(j as int))),
            0 <= e <= cap,
            cap == exp_cap(),
        decreases d.len() - j,
    {
        let c = d[j];
        if !('0' <= c && c <= '9') {
            assert(d@[j as int] == c);
            assert(!is_ascii_digit(d@[j as int]));
            return None;
        }
        assert(d@.take(j as int + 1).drop_last() =~= d@.take(j as int));
        let dv = (c as u32 - '0' as u32) as i128;
        let next = e * 10 + dv;
        e = if next > cap {
            cap
        } else {
            next
        };
        j += 1;
        assert(all_digits(d@.take(j as int)));
    }
    assert(d@.take(d.len() as int) =~= d@);
    Some(e)
}

/// The value of the shifted digits, with the sign in `sign`. `sh` is the shift the caller
/// computed with a capped exponent: the true shift `tsh`, or, when the exponent was capped, a
/// shift that is already far beyond any digit.
#[verifier::rlimit(50)]
fn shifted_value(sign: &Vec<char>, ip: &Vec<char>, fp: &Vec<char>, sh: i128, Ghost(tsh): Ghost<int>) -> (r: Option<i64>)
    requires
        all_digits(ip@),
        all_digits(fp@),
        sign@.len() <= 1,
        sign@.len() == 1 ==> sign@[0] == '-',
        sh == tsh || (sh >= exp_cap() && tsh >= sh) || (sh <= 0x1_0000_0000_0000_0000 - exp_cap()
            && tsh <= sh),
        -2 * exp_cap() <= sh <= 2 * exp_cap(),
    ensures
        r == (if shifted_digits(ip@, fp@, tsh).len() == 0 {
            Some(0i64)
        } else {
            parse_i64_spec(sign@ + shifted_digits(ip@, fp@, tsh))
        }),
{
    let ghost dspec = shifted_digits(ip@, fp@, tsh);
    let d: Vec<char> = if sh >= 0 {
        if sh <= fp.len() as i128 {
            assert(sh == tsh);
            let f = copy_range(fp, 0, sh as usize);
            assert(f@ =~= frac_places(fp@, tsh));
            concat(ip, &f)
        } else {
            let base = concat(ip, fp);
            let m: i128 = sh - fp.len() as i128;
            let ghost tm = (tsh - fp@.len()) as nat;
            proof {
                assert(all_digits(base@));
                lemma_digits_zero_or_positive(base@);
                assert(dspec =~= base@ + zeros(tm as int));
                lemma_digits_zeros(base@, tm);
                lemma_pow10_grows(tm);
                assert(int_body(sign@ + dspec) =~= dspec);
                assert(dspec.len() > 0);
            }
            if !nonzero_digit(&base) {
                assert(digits_value(base@) == 0);
                assert(digits_value(base@) * pow10(tm) == 0) by (nonlinear_arith)
                    requires
                        digits_value(base@) == 0,
                ;
                return Some(0);
            }
            if m > 19 {
                assert(tm >= 20);
                assert(digits_value(base@) * pow10(tm) >= pow10(tm)) by (nonlinear_arith)
                    requires
                        digits_value(base@) >= 1,
                        pow10(tm) >= 1,
                ;
                return None;
            }
            assert(sh == tsh);
            let z = zero_fill(m as usize);
            let r = concat(&base, &z);
            assert(r@ =~= dspec);
            r
        }
    } else {
        let keep: i128 = ip.len() as i128 + sh;
        if keep > 0 {
            assert(sh == tsh);
            copy_range(ip, 0, keep as usize)
        } else {
            Vec::new()
        }
    };
    assert(d@ =~= dspec);
    if d.len() == 0 {
        return Some(0);
    }
    let full = concat(sign, &d);
    parse_i64(&full)
}

/// The mantissa's integer and fraction digits, and where the exponent mark stands.
fn split_number(body: &Vec<char>) -> (r: (Vec<char>, Vec<char>, Option<usize>))
    ensures
        r.0@ == mant_int(body@),
        r.1@ == mant_frac(body@),
        match r.2 {
            Some(e) => e as int == exp_pos(body@) && e < body.len(),
            None => exp_pos(body@) < 0,
        },
{
    let ghost b = body@;
    proof {
        lemma_exp_pos(b);
    }
    let ep = exp_position(body);
    let mant = match ep {
        Some(e) => copy_range(body, 0, e),
        None => copy_range(body, 0, body.len()),
    };
    assert(b.take(b.len() as int) =~= b);
    assert(mant@ == mantissa_of(b));
    proof {
        lemma_index_of(mant@, '.');
    }
    let (ip, fp) = match find_char(&mant, '.') {
        Some(d) => (copy_range(&mant, 0, d), copy_range(&mant, d + 1, mant.len())),
        None => (copy_range(&mant, 0, mant.len()), Vec::new()),
    };
    assert(mant@.take(mant@.len() as int) =~= mant@);
    assert(fp@ =~= mant_frac(b));
    (ip, fp, ep)
}

/// The exponent after the mark at `e`, its magnitude capped at [`exp_cap`].
fn signed_exponent(body: &Vec<char>, e: usize) -> (r: Option<i128>)
    requires
        e < body.len(),
    ensures
        match r {
            Some(ev) => exp_ok(body@.skip(e + 1)) && -exp_cap() <= ev <= exp_cap() && (ev == exp_value(body@.skip(e + 1)) || (ev
                == exp_cap() && exp_value(body@.skip(e + 1)) >= exp_cap()) || (ev == -exp_cap()
                && exp_value(body@.skip(e + 1)) <= -exp_cap())),
            None => !exp_ok(body@.skip(e + 1)),
        },
{
    let x = copy_range(body, e + 1, body.len());
    assert(x@ =~= body@.skip(e + 1));
    match exponent_capped(&x) {
        None => None,
        Some(m) => {
            proof {
                lemma_digits_value_nonneg(int_body(x@));
            }
            if x[0] == '-' {
                Some(-m)
            } else {
                Some(m)
            }
        },
    }
}

/// Read a number as `str::parse::<f64>` accepts a finite one, as a count of `10^-k` units
/// (see [`parse_decimal_spec`]).
pub fn parse_decimal(v: &Vec<char>, k: usize) -> (r: Option<i64>)
    ensures
        r == parse_decimal_spec(v@, k as int),
{
    let n = v.len();
    let start: usize = if n > 0 && (v[0] == '-' || v[0] == '+') {
        1
    } else {
        0
    };
    let body = copy_range(v, start, n);
    assert(body@ =~= int_body(v@));
    let (ip, fp, ep) = split_number(&body);
    if ip.len() == 0 && fp.len() == 0 {
        return None;
    }
    if !all_ascii_digits(&ip) || !all_ascii_digits(&fp) {
        return None;
    }
    let ghost b = body@;
    let ghost true_ev: int = if exp_pos(b) < 0 {
        0
    } else {
        exp_value(b.skip(exp_pos(b) + 1))
    };
    let ev: i128 = match ep {
        None => 0,
        Some(e) => match signed_exponent(&body, e) {
            None => return None,
            Some(x) => x,
        },
    };
    let sh: i128 = k as i128 + ev;
    let mut sign: Vec<char> = Vec::new();
    if n > 0 && v[0] == '-' {
        sign.push('-');
    }
    assert(sign@ =~= sign_part(v@));
    shifted_value(&sign, &ip, &fp, sh, Ghost(k + true_ev))
}

/// Whether text has the form of a finite number (see [`parse_decimal_spec`]), whatever its
/// size.
pub open spec fn decimal_form_ok(s: Seq<char>) -> bool {
    let body = int_body(s);
    let ep = exp_pos(body);
    let ip = mant_int(body);
    let fp = mant_frac(body);
    ip.len() + fp.len() > 0 && all_digits(ip) && all_digits(fp) && (ep < 0 || exp_ok(body.skip(ep + 1)))
}

/// See [`decimal_form_ok`].
pub fn decimal_form(v: &Vec<char>) -> (r: bool)
    ensures
        r == decimal_form_ok(v@),
{
    let n = v.len();
    let start: usize = if n > 0 && (v[0] == '-' || v[0] == '+') {
        1
    } else {
        0
    };
    let body = copy_range(v, start, n);
    assert(body@ =~= int_body(v@));
    let (ip, fp, ep) = split_number(&body);
    if ip.len() == 0 && fp.len() == 0 {
        return false;
    }
    if !all_ascii_digits(&ip) || !all_ascii_digits(&fp) {
        return false;
    }
    match ep {
        None => true,
        Some(e) => signed_exponent(&body, e).is_some(),
    }
}

/// `inf` or `infinity` in any letter case, after an optional sign: the infinite values
/// `str::parse::<f64>` reads.
pub open spec fn is_infinity_word(s: Seq<char>) -> bool {
    ascii_lower_seq(int_body(s)) == seq!['i', 'n', 'f'] || ascii_lower_seq(int_body(s)) == seq![
        'i',
        'n',
        'f',
        'i',
        'n',
        'i',
        't',
        'y',
    ]
}

/// See [`is_infinity_word`].
pub fn infinity_word(v: &Vec<char>) -> (r: bool)
    ensures
        r == is_infinity_word(v@),
{
    let n = v.len();
    let start: usize = if n > 0 && (v[0] == '-' || v[0] == '+') {
        1
    } else {
        0
    };
    let body = copy_range(v, start, n);
    assert(body@ =~= int_body(v@));
    let inf: Vec<char> = vec!['i', 'n', 'f'];
    let infinity: Vec<char> = vec!['i', 'n', 'f', 'i', 'n', 'i', 't', 'y'];
    assert(ascii_lower_seq(inf@) =~= inf@);
    assert(ascii_lower_seq(infinity@) =~= infinity@);
    assert(inf@ =~= seq!['i', 'n', 'f']);
    assert(infinity@ =~= seq!['i', 'n', 'f', 'i', 'n', 'i', 't', 'y']);
    eq_ignore_ascii_case(&body, &inf) || eq_ignore_ascii_case(&body, &infinity)
}

/// Whether a number's text stands for a value below zero: a minus sign and a mantissa with a
/// digit other than `0`.
pub open spec fn decimal_below_zero(t: Seq<char>) -> bool {
    sign_part(t).len() > 0 && has_nonzero_digit(mantissa_of(int_body(t)))
}

/// See [`decimal_below_zero`].
pub fn below_zero(t: &Vec<char>) -> (r: bool)
    ensures
        r == decimal_below_zero(t@),
{
    if t.len() == 0 || t[0] != '-' {
        return false;
    }
    let body = copy_range(t, 1, t.len());
    assert(body@ =~= int_body(t@));
    proof {
        lemma_exp_pos(body@);
    }
    let mant = match exp_position(&body) {
        Some(e) => copy_range(&body, 0, e),
        None => copy_range(&body, 0, body.len()),
    };
    assert(body@.take(body@.len() as int) =~= body@);
    nonzero_digit(&mant)
}

/// Text that starts with a digit and holds only digits and dots reads the same with either
/// reader, and is never below zero.
pub proof fn lemma_plain_number(t: Seq<char>, k: int)
    requires
        k >= 0,
        t.len() > 0,
        is_ascii_digit(t[0]),
        forall|i: int| 0 <= i < t.len() ==> is_ascii_digit(#[trigger] t[i]) || t[i] == '.',
    ensures
        parse_decimal_spec(t, k) == parse_scaled_spec(t, k),
        !decimal_below_zero(t),
{
    assert(int_body(t) == t);
    assert forall|i: int| 0 <= i < t.len() implies t[i] != 'e' && t[i] != 'E' by {
        assert(is_ascii_digit(t[i]) || t[i] == '.');
    }
    lemma_no_exp(t);
    lemma_decimal_plain(t, k);
}

/// `parse_decimal` on text after `str::trim`.
pub fn parse_decimal_trimmed(s: &str, k: usize) -> (r: Option<i64>)
    ensures
        r == parse_decimal_spec(trim_ws(s@), k as int),
{
    let t = trim_str(s);
    parse_decimal(&t, k)
}

/// `n / d` rounded to the nearest integer with halves away from zero, as `f64::round` does
/// to the quotient.
pub open spec fn round_div(n: int, d: int) -> int
    recommends
        d != 0,
{
    let an = if n < 0 {
        -n
    } else {
        n
    };
    let ad = if d < 0 {
        -d
    } else {
        d
    };
    let q = (2 * an + ad) / (2 * ad);
    if (n < 0) != (d < 0) {
        -q
    } else {
        q
    }
}

/// [`round_div`] on machine integers.
pub fn round_div_i128(n: i128, d: i128) -> (r: i128)
    requires
        d != 0,
        -0x1000_0000_0000_0000_0000_0000_0000 < n < 0x1000_0000_0000_0000_0000_0000_0000,
        -0x1000_0000_0000_0000_0000_0000_0000 < d < 0x1000_0000_0000_0000_0000_0000_0000,
    ensures
        r == round_div(n as int, d as int),
{
    let an: i128 = if n < 0 {
        -n
    } else {
        n
    };
    let ad: i128 = if d < 0 {
        -d
    } else {
        d
    };
    let q: i128 = (2 * an + ad) / (2 * ad);
    if (n < 0) != (d < 0) {
        -q
    } else {
        q
    }
}

} // verus!
