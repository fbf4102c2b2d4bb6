//! The playhead field reads back what it shows: formatting a time and parsing the text gives
//! the time rounded to the millisecond.

use vstd::prelude::*;
use crate::numbers::{frac_part, frac_places, int_part, lemma_plain_number, parse_scaled_spec, sign_part};
use crate::text::{
    all_digits, dec_int, dec_int_padded, dec_nat, digit_char, digit_value, digits_value, index_of,
    int_body, is_ascii_digit, is_ws, lemma_index_of, lemma_split_on_len, split_on,
    trim_ws, zeros,
};
use crate::timeline::{fold_parts, format_timestamp_spec, parse_timestamp_spec};

verus! {

pub open spec fn pow10(k: nat) -> int
    decreases k,
{
    if k == 0 {
        1
    } else {
        10 * pow10((k - 1) as nat)
    }
}


/// The value of digits followed by more digits.
proof fn lemma_dv_concat(a: Seq<char>, b: Seq<char>)
    ensures
        digits_value(a + b) == digits_value(a) * pow10(b.len()) + digits_value(b),
    decreases b.len(),
{
    if b.len() == 0 {
        assert(a + b =~= a);
    } else {
        assert((a + b).drop_last() =~= a + b.drop_last());
        assert((a + b).last() == b.last());
        lemma_dv_concat(a, b.drop_last());
        let x = digits_value(a);
        let p = pow10((b.len() - 1) as nat);
        let y = digits_value(b.drop_last());
        assert((x * p + y) * 10 == x * (10 * p) + y * 10) by (nonlinear_arith);
    }
}

proof fn lemma_dv_zeros(k: int)
    ensures
        digits_value(zeros(k)) == 0,
        all_digits(zeros(k)),
    decreases if k > 0 {
        k
    } else {
        0
    },
{
    if k > 0 {
        assert(zeros(k).drop_last() =~= zeros(k - 1));
        lemma_dv_zeros(k - 1);
    } else {
        assert(zeros(k) =~= Seq::<char>::empty());
    }
}

proof fn lemma_digit_char(d: int)
    requires
        0 <= d < 10,
    ensures
        digit_value(digit_char(d)) == d,
        is_ascii_digit(digit_char(d)),
{
}

/// The decimal digits of a number read back as the number.
pub proof fn lemma_dec_nat(n: nat)
    ensures
        digits_value(dec_nat(n)) == n,
        all_digits(dec_nat(n)),
        dec_nat(n).len() >= 1,
    decreases n,
{
    reveal_with_fuel(digits_value, 2);
    if n < 10 {
        lemma_digit_char(n as int);
        assert(seq![digit_char(n as int)].drop_last() =~= Seq::<char>::empty());
    } else {
        lemma_dec_nat(n / 10);
        lemma_digit_char((n % 10) as int);
        let s = dec_nat(n);
        assert(s.drop_last() =~= dec_nat(n / 10));
        assert(s.last() == digit_char((n % 10) as int));
        assert(digits_value(s) == digits_value(dec_nat(n / 10)) * 10 + digit_value(s.last()));
        assert(n == (n / 10) * 10 + n % 10);
        assert forall|i: int| 0 <= i < s.len() implies is_ascii_digit(#[trigger] s[i]) by {
            if i < s.len() - 1 {
                assert(s[i] == dec_nat(n / 10)[i]);
            }
        }
    }
}

/// A number below `10^k` has at most `k` digits.
proof fn lemma_dec_nat_len(n: nat, k: nat)
    requires
        k >= 1,
        n < pow10(k),
    ensures
        dec_nat(n).len() <= k,
    decreases n,
{
    if n >= 10 {
        assert(k >= 2) by {
            if k == 1 {
                assert(pow10(1) == 10) by {
                    reveal_with_fuel(pow10, 2);
                }
            }
        }
        assert(n / 10 < pow10((k - 1) as nat));
        lemma_dec_nat_len(n / 10, (k - 1) as nat);
    }
}

/// A zero-padded number reads back as the number.
proof fn lemma_padded(x: int, w: nat)
    requires
        0 <= x < pow10(w),
        w >= 1,
    ensures
        digits_value(dec_int_padded(x, w as int)) == x,
        all_digits(dec_int_padded(x, w as int)),
        dec_int_padded(x, w as int).len() == w,
{
    lemma_dec_nat(x as nat);
    lemma_dec_nat_len(x as nat, w);
    let d = dec_nat(x as nat);
    let z = zeros(w - d.len());
    lemma_dv_zeros(w - d.len());
    lemma_dv_concat(z, d);
    assert forall|i: int| 0 <= i < (z + d).len() implies is_ascii_digit(#[trigger] (z + d)[i]) by {
        if i < z.len() {
            assert((z + d)[i] == z[i]);
        } else {
            assert((z + d)[i] == d[i - z.len()]);
        }
    }
}

proof fn lemma_digits_not_special(s: Seq<char>)
    requires
        all_digits(s),
    ensures
        !s.contains(':'),
        !s.contains('.'),
        forall|i: int| 0 <= i < s.len() ==> !is_ws(#[trigger] s[i]),
{
    assert forall|i: int| 0 <= i < s.len() implies !is_ws(#[trigger] s[i]) by {
        assert(is_ascii_digit(s[i]));
    }
    if s.contains(':') {
        let j = choose|j: int| 0 <= j < s.len() && s[j] == ':';
        assert(is_ascii_digit(s[j]));
    }
    if s.contains('.') {
        let j = choose|j: int| 0 <= j < s.len() && s[j] == '.';
        assert(is_ascii_digit(s[j]));
    }
}

/// Text that starts and ends with a character other than white space is its own trim.
pub proof fn lemma_trim_noop(s: Seq<char>)
    requires
        s.len() > 0,
        !is_ws(s[0]),
        !is_ws(s.last()),
    ensures
        trim_ws(s) == s,
{
}

pub proof fn lemma_split_single(s: Seq<char>, sep: char)
    requires
        !s.contains(sep),
    ensures
        split_on(s, sep) == seq![s],
    decreases s.len(),
{
    if s.len() > 0 {
        assert(!s.drop_last().contains(sep)) by {
            if s.drop_last().contains(sep) {
                let j = choose|j: int| 0 <= j < s.drop_last().len() && s.drop_last()[j] == sep;
                assert(s[j] == sep);
            }
        }
        lemma_split_single(s.drop_last(), sep);
        assert(s.last() != sep) by {
            assert(s[s.len() - 1] == s.last());
        }
        assert(s.drop_last().push(s.last()) =~= s);
        assert(seq![s.drop_last()].update(0, s.drop_last().push(s.last())) =~= seq![s]);
    } else {
        assert(s =~= Seq::<char>::empty());
    }
}

/// Splitting at a separator placed between two texts splits each text separately.
pub proof fn lemma_split_join(a: Seq<char>, b: Seq<char>, sep: char)
    ensures
        split_on(a + seq![sep] + b, sep) == split_on(a, sep) + split_on(b, sep),
    decreases b.len(),
{
    lemma_split_on_len(a, sep);
    if b.len() == 0 {
        assert(a + seq![sep] + b =~= a.push(sep));
        assert(a.push(sep).drop_last() =~= a);
        assert(split_on(b, sep) =~= seq![Seq::<char>::empty()]);
        assert(split_on(a, sep).push(Seq::empty()) =~= split_on(a, sep) + seq![Seq::<char>::empty()]);
    } else {
        let s = a + seq![sep] + b;
        assert(s.drop_last() =~= a + seq![sep] + b.drop_last());
        assert(s.last() == b.last());
        lemma_split_join(a, b.drop_last(), sep);
        lemma_split_on_len(b.drop_last(), sep);
        let pa = split_on(a, sep);
        let pb = split_on(b.drop_last(), sep);
        if b.last() == sep {
            assert((pa + pb).push(Seq::empty()) =~= pa + pb.push(Seq::empty()));
        } else {
            let p = pa + pb;
            assert(p.last() == pb.last());
            assert(p.update(p.len() - 1, p.last().push(b.last())) =~= pa + pb.update(
                pb.len() - 1,
                pb.last().push(b.last()),
            ));
        }
    }
}

/// A run of digits read as whole seconds is that many million microseconds.
proof fn lemma_parse_whole(d: Seq<char>)
    requires
        d.len() >= 1,
        all_digits(d),
        digits_value(d) * 1_000_000 <= i64::MAX,
    ensures
        parse_scaled_spec(d, 6) == Some((digits_value(d) * 1_000_000) as i64),
{
    lemma_digits_not_special(d);
    assert(is_ascii_digit(d[0]));
    assert(int_body(d) == d);
    lemma_index_of(d, '.');
    if index_of(d, '.') >= 0 {
        assert(d.contains('.'));
    }
    assert(int_part(d) == d);
    assert(frac_part(d) =~= Seq::<char>::empty());
    assert(frac_places(Seq::<char>::empty(), 6) =~= zeros(6));
    assert(sign_part(d) =~= Seq::<char>::empty());
    let text = sign_part(d) + d + zeros(6);
    assert(text =~= d + zeros(6));
    lemma_dv_zeros(6);
    lemma_dv_concat(d, zeros(6));
    assert(pow10(6) == 1_000_000) by {
        reveal_with_fuel(pow10, 7);
    }
    assert(text[0] == d[0]);
    assert(int_body(text) == text);
    assert(all_digits(text)) by {
        assert forall|i: int| 0 <= i < text.len() implies is_ascii_digit(#[trigger] text[i]) by {
            if i < d.len() {
                assert(text[i] == d[i]);
            } else {
                assert(text[i] == zeros(6)[i - d.len()]);
            }
        }
    }
    lemma_dec_nonneg(d);
}

proof fn lemma_dec_nonneg(d: Seq<char>)
    requires
        all_digits(d),
    ensures
        digits_value(d) >= 0,
{
    crate::text::lemma_digits_value_nonneg(d);
}

/// `SS.mmm` read as seconds is `SS` million plus `mmm` thousand microseconds.
proof fn lemma_parse_seconds(ss: Seq<char>, mmm: Seq<char>)
    requires
        ss.len() == 2,
        mmm.len() == 3,
        all_digits(ss),
        all_digits(mmm),
    ensures
        parse_scaled_spec(ss + seq!['.'] + mmm, 6) == Some(
            (digits_value(ss) * 1_000_000 + digits_value(mmm) * 1000) as i64,
        ),
{
    let s = ss + seq!['.'] + mmm;
    lemma_digits_not_special(ss);
    assert(is_ascii_digit(ss[0]));
    assert(s[0] == ss[0]);
    assert(int_body(s) == s);
    lemma_index_of(s, '.');
    assert(s[2] == '.');
    let k = index_of(s, '.');
    if k < 0 || k > 2 {
        assert(s[2] != '.');
    }
    if 0 <= k < 2 {
        assert(s[k] == ss[k]);
        assert(ss.contains('.'));
    }
    assert(k == 2);
    assert(int_part(s) =~= ss);
    assert(frac_part(s) =~= mmm);
    assert(frac_places(mmm, 6) =~= mmm + zeros(3));
    assert(sign_part(s) =~= Seq::<char>::empty());
    let text = sign_part(s) + ss + frac_places(mmm, 6);
    assert(text =~= ss + (mmm + zeros(3)));
    lemma_dv_zeros(3);
    lemma_dv_concat(mmm, zeros(3));
    lemma_dv_concat(ss, mmm + zeros(3));
    assert(pow10(3) == 1000 && pow10(6) == 1_000_000) by {
        reveal_with_fuel(pow10, 7);
    }
    lemma_dec_nonneg(ss);
    lemma_dec_nonneg(mmm);
    assert(digits_value(ss) <= 99) by {
        reveal_with_fuel(digits_value, 3);
        assert(ss.drop_last().last() == ss[0]);
        assert(is_ascii_digit(ss[1]));
    }
    assert(digits_value(mmm) <= 999) by {
        reveal_with_fuel(digits_value, 4);
        assert(mmm.drop_last().drop_last().last() == mmm[0]);
        assert(mmm.drop_last().last() == mmm[1]);
        assert(is_ascii_digit(mmm[2]));
    }
    assert(text[0] == ss[0]);
    assert(int_body(text) == text);
    assert(all_digits(text)) by {
        lemma_dv_zeros(3);
        assert forall|i: int| 0 <= i < text.len() implies is_ascii_digit(#[trigger] text[i]) by {
            if i < 2 {
                assert(text[i] == ss[i]);
            } else if i < 5 {
                assert(text[i] == mmm[i - 2]);
            } else {
                assert(text[i] == zeros(3)[i - 5]);
            }
        }
    }
}

proof fn lemma_fold_one(p: Seq<char>, v: i64)
    requires
        parse_scaled_spec(trim_ws(p), 6) == Some(v),
        v >= 0,
        trim_ws(p).len() > 0,
        is_ascii_digit(trim_ws(p)[0]),
        forall|i: int| 0 <= i < trim_ws(p).len() ==> is_ascii_digit(#[trigger] trim_ws(p)[i]) || trim_ws(p)[i] == '.',
    ensures
        fold_parts(seq![p]) == Some(v as int),
{
    lemma_plain_number(trim_ws(p), 6);
    reveal_with_fuel(fold_parts, 2);
    assert(seq![p].drop_last() =~= Seq::<Seq<char>>::empty());
    assert(seq![p].last() == p);
}

proof fn lemma_fold_step(ps: Seq<Seq<char>>, p: Seq<char>, total: int, v: i64)
    requires
        fold_parts(ps) == Some(total),
        parse_scaled_spec(trim_ws(p), 6) == Some(v),
        v >= 0,
        trim_ws(p).len() > 0,
        is_ascii_digit(trim_ws(p)[0]),
        forall|i: int| 0 <= i < trim_ws(p).len() ==> is_ascii_digit(#[trigger] trim_ws(p)[i]) || trim_ws(p)[i] == '.',
    ensures
        fold_parts(ps.push(p)) == Some(total * 60 + v),
{
    lemma_plain_number(trim_ws(p), 6);
    assert(ps.push(p).drop_last() =~= ps);
    assert(ps.push(p).last() == p);
}

proof fn lemma_millis_split(total: int)
    requires
        total >= 0,
    ensures
        total == (total / 3_600_000) * 3_600_000 + ((total / 60_000) % 60) * 60_000 + ((total / 1000)
            % 60) * 1000 + total % 1000,
        total / 3_600_000 == 0 ==> (total / 60_000) % 60 == total / 60_000,
{
    let q1 = total / 1000;
    let q2 = q1 / 60;
    vstd::arithmetic::div_mod::lemma_div_denominator(total, 1000, 60);
    vstd::arithmetic::div_mod::lemma_div_denominator(total, 60_000, 60);
    assert(total / 60_000 == q2);
    assert(total / 3_600_000 == q2 / 60);
}

/// Formatting a time for the playhead field and parsing that text gives back the time rounded
/// to the nearest millisecond.
pub proof fn law_timestamp_round_trip(us: i64)
    requires
        0 <= us <= i64::MAX - 1000,
    ensures
        parse_timestamp_spec(format_timestamp_spec(us)) == Some((((us + 500) / 1000) * 1000) as i64),
{
    let total: int = (us + 500) / 1000;
    let ms = total % 1000;
    let s = (total / 1000) % 60;
    let m = (total / 60_000) % 60;
    let h = total / 3_600_000;
    lemma_millis_split(total);
    assert(pow10(2) == 100 && pow10(3) == 1000) by {
        reveal_with_fuel(pow10, 4);
    }
    lemma_padded(s, 2);
    lemma_padded(ms, 3);
    let ss = dec_int_padded(s, 2);
    let mmm = dec_int_padded(ms, 3);
    let sec = ss + seq!['.'] + mmm;
    lemma_parse_seconds(ss, mmm);
    lemma_digits_not_special(ss);
    lemma_digits_not_special(mmm);
    assert(!sec.contains(':')) by {
        if sec.contains(':') {
            let j = choose|j: int| 0 <= j < sec.len() && sec[j] == ':';
            if j < 2 {
                assert(ss[j] == ':');
                assert(ss.contains(':'));
            } else if j > 2 {
                assert(mmm[j - 3] == ':');
                assert(mmm.contains(':'));
            }
        }
    }
    lemma_split_single(sec, ':');
    assert(sec.last() == mmm[2]);
    assert(!is_ws(sec.last()));
    let text = format_timestamp_spec(us);
    assert(total * 1000 <= us + 500);
    lemma_trim_noop(sec);
    assert(is_ascii_digit(ss[0]));
    assert(sec[0] == ss[0]);
    assert forall|i: int| 0 <= i < sec.len() implies is_ascii_digit(#[trigger] sec[i]) || sec[i] == '.' by {
        if i < 2 {
            assert(sec[i] == ss[i]);
            assert(is_ascii_digit(ss[i]));
        } else if i > 2 {
            assert(sec[i] == mmm[i - 3]);
            assert(is_ascii_digit(mmm[i - 3]));
        }
    }
    let vs = (s * 1_000_000 + ms * 1000) as i64;
    if h > 0 {
        assert(text =~= dec_int(h) + seq![':'] + dec_int_padded(m, 2) + seq![':'] + sec);
        lemma_hours_case(text, h, m, sec, vs);
    } else {
        assert(text =~= dec_int(m) + seq![':'] + sec);
        lemma_minutes_case(text, m, sec, vs);
    }
}

proof fn lemma_hours_case(text: Seq<char>, h: int, m: int, sec: Seq<char>, vs: i64)
    requires
        h > 0,
        0 <= m < 60,
        h * 1_000_000 <= i64::MAX,
        vs >= 0,
        text == dec_int(h) + seq![':'] + dec_int_padded(m, 2) + seq![':'] + sec,
        split_on(sec, ':') == seq![sec],
        trim_ws(sec) == sec,
        parse_scaled_spec(sec, 6) == Some(vs),
        !is_ws(sec.last()),
        is_ascii_digit(sec[0]),
        forall|i: int| 0 <= i < sec.len() ==> is_ascii_digit(#[trigger] sec[i]) || sec[i] == '.',
        sec.len() > 0,
    ensures
        fold_parts(split_on(trim_ws(text), ':')) == Some(((h * 1_000_000) * 60 + m * 1_000_000) * 60 + vs),
        trim_ws(text).len() > 0,
{
    let hh = dec_int(h);
    let mm = dec_int_padded(m, 2);
    lemma_dec_nat(h as nat);
    assert(pow10(2) == 100) by {
        reveal_with_fuel(pow10, 3);
    }
    lemma_padded(m, 2);
    lemma_digits_not_special(hh);
    lemma_digits_not_special(mm);
    lemma_split_single(hh, ':');
    lemma_split_single(mm, ':');
    let left = hh + seq![':'] + mm;
    assert(text =~= left + seq![':'] + sec);
    lemma_split_join(hh, mm, ':');
    lemma_split_join(left, sec, ':');
    assert(split_on(text, ':') =~= seq![hh, mm, sec]);
    assert(text[0] == hh[0]);
    assert(text.last() == sec.last());
    lemma_trim_noop(text);
    lemma_trim_noop(hh);
    lemma_trim_noop(mm);
    lemma_parse_whole(hh);
    lemma_parse_whole(mm);
    lemma_fold_one(hh, (h * 1_000_000) as i64);
    lemma_fold_step(seq![hh], mm, h * 1_000_000, (m * 1_000_000) as i64);
    assert(seq![hh].push(mm) =~= seq![hh, mm]);
    lemma_fold_step(seq![hh, mm], sec, (h * 1_000_000) * 60 + m * 1_000_000, vs);
    assert(seq![hh, mm].push(sec) =~= seq![hh, mm, sec]);
}

proof fn lemma_minutes_case(text: Seq<char>, m: int, sec: Seq<char>, vs: i64)
    requires
        0 <= m < 60,
        vs >= 0,
        text == dec_int(m) + seq![':'] + sec,
        split_on(sec, ':') == seq![sec],
        trim_ws(sec) == sec,
        parse_scaled_spec(sec, 6) == Some(vs),
        !is_ws(sec.last()),
        is_ascii_digit(sec[0]),
        forall|i: int| 0 <= i < sec.len() ==> is_ascii_digit(#[trigger] sec[i]) || sec[i] == '.',
        sec.len() > 0,
    ensures
        fold_parts(split_on(trim_ws(text), ':')) == Some((m * 1_000_000) * 60 + vs),
        trim_ws(text).len() > 0,
{
    let mm = dec_int(m);
    lemma_dec_nat(m as nat);
    lemma_digits_not_special(mm);
    lemma_split_single(mm, ':');
    lemma_split_join(mm, sec, ':');
    assert(split_on(text, ':') =~= seq![mm, sec]);
    assert(text[0] == mm[0]);
    assert(text.last() == sec.last());
    lemma_trim_noop(text);
    lemma_trim_noop(mm);
    lemma_parse_whole(mm);
    lemma_fold_one(mm, (m * 1_000_000) as i64);
    lemma_fold_step(seq![mm], sec, m * 1_000_000, vs);
    assert(seq![mm].push(sec) =~= seq![mm, sec]);
}

} // verus!
