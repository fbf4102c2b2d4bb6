//! Short, URL- and file-safe ids for queue items: 12 base-36 characters. Not cryptographic: the
//! caller supplies the wall-clock time and a process-local counter, which are mixed so that
//! concurrent calls do not collide.

use vstd::prelude::*;
use crate::text::string_from;

verus! {

/// The base-36 digit for `d` (`0`-`9`, then `a`-`z`).
pub open spec fn base36_char(d: int) -> char {
    if d < 10 {
        ((d + 48) as u32) as char
    } else {
        ((d - 10 + 97) as u32) as char
    }
}

pub open spec fn is_base36(c: char) -> bool {
    ('0' <= c <= '9') || ('a' <= c <= 'z')
}

/// The counter spread over 64 bits: multiplied by the golden-ratio constant, wrapping.
pub open spec fn mix_counter(counter: u64) -> u64 {
    ((counter as int * 0x9E37_79B9_7F4A_7C15) % 0x1_0000_0000_0000_0000) as u64
}

/// `k` more id characters from the state `n`: the low base-36 digit of `n`, then `n / 36`,
/// restarting from `counter + 1` (wrapping) whenever the state runs out.
pub open spec fn id_digits(n: u64, counter: u64, k: nat) -> Seq<char>
    decreases k,
{
    if k == 0 {
        Seq::empty()
    } else {
        let next = n / 36;
        let n2: u64 = if next == 0 {
            ((counter as int + 1) % 0x1_0000_0000_0000_0000) as u64
        } else {
            next
        };
        seq![base36_char((n % 36) as int)] + id_digits(n2, counter, (k - 1) as nat)
    }
}

/// The id for a time stamp (nanoseconds since the Unix epoch) and a counter value.
pub open spec fn id_spec(nanos: u64, counter: u64) -> Seq<char> {
    id_digits(nanos ^ mix_counter(counter), counter, 12)
}

proof fn lemma_id_digits_shape(n: u64, counter: u64, k: nat)
    ensures
        id_digits(n, counter, k).len() == k,
        forall|i: int| 0 <= i < k ==> is_base36(#[trigger] id_digits(n, counter, k)[i]),
    decreases k,
{
    if k > 0 {
        let next = n / 36;
        let n2: u64 = if next == 0 {
            ((counter as int + 1) % 0x1_0000_0000_0000_0000) as u64
        } else {
            next
        };
        lemma_id_digits_shape(n2, counter, (k - 1) as nat);
        let d = (n % 36) as int;
        assert(is_base36(base36_char(d)));
        assert forall|i: int| 0 <= i < k implies is_base36(#[trigger] id_digits(n, counter, k)[i]) by {
            if i > 0 {
                assert(id_digits(n, counter, k)[i] == id_digits(n2, counter, (k - 1) as nat)[i - 1]);
            }
        }
    }
}

fn digit36(d: u64) -> (r: char)
    requires
        d < 36,
    ensures
        r == base36_char(d as int),
{
    if d < 10 {
        ((d + 48) as u8) as char
    } else {
        ((d - 10 + 97) as u8) as char
    }
}

/// Encode an id from a time stamp (nanoseconds since the Unix epoch) and a counter value (see
/// [`id_spec`]); always 12 characters from `0-9a-z`.
pub fn encode_id(nanos: u64, counter: u64) -> (r: String)
    ensures
        r@ == id_spec(nanos, counter),
        r@.len() == 12,
        forall|i: int| 0 <= i < 12 ==> is_base36(#[trigger] r@[i]),
{
    let mixed: u64 = ((counter as u128 * 0x9E37_79B9_7F4A_7C15u128) % 0x1_0000_0000_0000_0000u128) as u64;
    let mut n: u64 = nanos ^ mixed;
    let restart: u64 = ((counter as u128 + 1) % 0x1_0000_0000_0000_0000u128) as u64;
    let mut out: Vec<char> = Vec::new();
    let mut k: usize = 0;
    while k < 12
        invariant
            k <= 12,
            restart == ((counter as int + 1) % 0x1_0000_0000_0000_0000) as u64,
            out@ + id_digits(n, counter, (12 - k) as nat) == id_spec(nanos, counter),
        decreases 12 - k,
    {
        let ghost before = n;
        out.push(digit36(n % 36));
        n = n / 36;
        if n == 0 {
            n = restart;
        }
        proof {
            let rest = id_digits(n, counter, (12 - k - 1) as nat);
            assert(id_digits(before, counter, (12 - k) as nat) == seq![base36_char((before % 36) as int)]
                + rest);
        }
        k += 1;
        assert(out@ + id_digits(n, counter, (12 - k) as nat) =~= id_spec(nanos, counter));
    }
    proof {
        lemma_id_digits_shape(nanos ^ mix_counter(counter), counter, 12);
        assert(out@ =~= id_spec(nanos, counter));
    }
    string_from(&out)
}

} // verus!
