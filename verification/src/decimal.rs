//! Decimal rendering and parsing of unsigned 64-bit counters, both as
//! characters (cache values) and as bytes (token claims), with round-trip
//! proofs.

use vstd::prelude::*;
use crate::strutil::string_push;

verus! {

/// The decimal digit characters of `n`, most significant first.
pub open spec fn dec_chars_of(n: u64) -> Seq<char>
    decreases n,
{
    if n < 10 {
        seq![((48 + n) as u8) as char]
    } else {
        dec_chars_of(n / 10) + seq![((48 + n % 10) as u8) as char]
    }
}

/// The decimal digit bytes of `n`, most significant first.
pub open spec fn dec_bytes_of(n: u64) -> Seq<u8>
    decreases n,
{
    if n < 10 {
        seq![(48 + n) as u8]
    } else {
        dec_bytes_of(n / 10) + seq![(48 + n % 10) as u8]
    }
}

pub open spec fn is_digit_char(c: char) -> bool {
    48 <= c as u32 <= 57
}

pub open spec fn is_digit_byte(b: u8) -> bool {
    48 <= b <= 57
}

/// Numeric value of a sequence of digit characters, most significant first,
/// as an unbounded natural number.
pub open spec fn chars_val(s: Seq<char>) -> nat
    decreases s.len(),
{
    if s.len() == 0 {
        0
    } else {
        chars_val(s.drop_last()) * 10 + (s.last() as u32 - 48) as nat
    }
}

/// Numeric value of a sequence of digit bytes, most significant first.
pub open spec fn bytes_val(s: Seq<u8>) -> nat
    decreases s.len(),
{
    if s.len() == 0 {
        0
    } else {
        bytes_val(s.drop_last()) * 10 + (s.last() - 48) as nat
    }
}

/// Strict whole-string parse of a decimal `u64` from characters: at least
/// one character, every character a digit, and the value within range.
pub open spec fn spec_parse_u64_chars(s: Seq<char>) -> Option<u64> {
    if s.len() > 0 && (forall|i: int| 0 <= i < s.len() ==> is_digit_char(s[i])) && chars_val(s)
        <= u64::MAX {
        Some(chars_val(s) as u64)
    } else {
        None
    }
}

pub proof fn lemma_dec_chars_digits(n: u64)
    ensures
        dec_chars_of(n).len() > 0,
        forall|i: int| 0 <= i < dec_chars_of(n).len() ==> is_digit_char(#[trigger] dec_chars_of(n)[i]),
    decreases n,
{
    if n >= 10 {
        lemma_dec_chars_digits(n / 10);
    }
}

pub proof fn lemma_dec_bytes_digits(n: u64)
    ensures
        dec_bytes_of(n).len() > 0,
        forall|i: int| 0 <= i < dec_bytes_of(n).len() ==> is_digit_byte(#[trigger] dec_bytes_of(n)[i]),
    decreases n,
{
    if n >= 10 {
        lemma_dec_bytes_digits(n / 10);
    }
}

pub proof fn lemma_chars_val_of_dec(n: u64)
    ensures
        chars_val(dec_chars_of(n)) == n,
    decreases n,
{
    if n < 10 {
        let s = dec_chars_of(n);
        assert(s.len() == 1);
        assert(s.last() as u32 == 48 + n);
        assert(s.drop_last() =~= Seq::<char>::empty());
        assert(chars_val(s.drop_last()) == 0);
        assert(chars_val(s) == n);
    } else {
        lemma_chars_val_of_dec(n / 10);
        let s = dec_chars_of(n);
        assert(s.last() as u32 == 48 + n % 10);
        assert(s.drop_last() =~= dec_chars_of(n / 10));
        assert(chars_val(s) == chars_val(dec_chars_of(n / 10)) * 10 + n % 10);
    }
}

pub proof fn lemma_bytes_val_of_dec(n: u64)
    ensures
        bytes_val(dec_bytes_of(n)) == n,
    decreases n,
{
    if n < 10 {
        let s = dec_bytes_of(n);
        assert(s.len() == 1);
        assert(s.last() == 48 + n);
        assert(s.drop_last() =~= Seq::<u8>::empty());
        assert(bytes_val(s.drop_last()) == 0);
        assert(bytes_val(s) == n);
    } else {
        lemma_bytes_val_of_dec(n / 10);
        let s = dec_bytes_of(n);
        assert(s.last() == 48 + n % 10);
        assert(s.drop_last() =~= dec_bytes_of(n / 10));
        assert(bytes_val(s) == bytes_val(dec_bytes_of(n / 10)) * 10 + n % 10);
    }
}

/// Round trip: the strict character parser recovers exactly `n` from its
/// decimal rendering.
pub proof fn lemma_parse_u64_chars_roundtrip(n: u64)
    ensures
        spec_parse_u64_chars(dec_chars_of(n)) == Some(n),
{
    lemma_dec_chars_digits(n);
    lemma_chars_val_of_dec(n);
}

/// Decimal rendering of `n` as a `String`.
pub fn u64_to_string(n: u64) -> (s: String)
    ensures
        s@ == dec_chars_of(n),
    decreases n,
{
    if n < 10 {
        let mut s = String::new();
        string_push(&mut s, ((48 + n as u8)) as char);
        assert(s@ =~= dec_chars_of(n));
        s
    } else {
        let mut s = u64_to_string(n / 10);
        string_push(&mut s, (48 + (n % 10) as u8) as char);
        assert(s@ =~= dec_chars_of(n));
        s
    }
}

/// Decimal rendering of `n` appended to `out` as bytes.
pub fn push_u64_dec(out: &mut Vec<u8>, n: u64)
    ensures
        final(out)@ == old(out)@ + dec_bytes_of(n),
    decreases n,
{
    if n < 10 {
        out.push(48 + n as u8);
        assert(out@ =~= old(out)@ + dec_bytes_of(n));
    } else {
        push_u64_dec(out, n / 10);
        out.push(48 + (n % 10) as u8);
        assert(out@ =~= old(out)@ + dec_bytes_of(n));
    }
}

/// Strict whole-string parse of a decimal `u64`, as the specification
/// [`spec_parse_u64_chars`] says.
pub fn parse_u64_string(s: &str) -> (r: Option<u64>)
    ensures
        r == spec_parse_u64_chars(s@),
{
    let n = s.unicode_len();
    if n == 0 {
        return None;
    }
    let mut acc: u64 = 0;
    let mut i: usize = 0;
    while i < n
        invariant
            0 < n == s@.len(),
            i <= n,
            forall|j: int| 0 <= j < i ==> is_digit_char(s@[j]),
            acc == chars_val(s@.subrange(0, i as int)),
            chars_val(s@.subrange(0, i as int)) <= u64::MAX,
        decreases n - i,
    {
        let c = s.get_char(i);
        let cu = c as u32;
        if cu < 48 || cu > 57 {
            assert(!is_digit_char(s@[i as int]));
            return None;
        }
        let d = (cu - 48) as u64;
        if acc > (u64::MAX - d) / 10 {
            assert(s@.subrange(0, i + 1).drop_last() =~= s@.subrange(0, i as int));
            assert(chars_val(s@.subrange(0, i + 1)) > u64::MAX);
            assert(chars_val(s@) > u64::MAX) by {
                lemma_chars_val_monotonic(s@, i + 1);
            }
            return None;
        }
        assert(acc * 10 + d <= u64::MAX) by (nonlinear_arith)
            requires
                acc <= (u64::MAX - d) / 10,
                d <= 9,
        ;
        acc = acc * 10 + d;
        i = i + 1;
        assert(s@.subrange(0, i as int).drop_last() =~= s@.subrange(0, i - 1));
    }
    assert(s@.subrange(0, n as int) =~= s@);
    Some(acc)
}

/// The value of a digit prefix never exceeds the value of the whole digit
/// string it opens.
proof fn lemma_chars_val_monotonic(s: Seq<char>, i: int)
    requires
        0 <= i <= s.len(),
    ensures
        chars_val(s.subrange(0, i)) <= chars_val(s),
    decreases s.len() - i,
{
    if i < s.len() {
        lemma_chars_val_monotonic(s, i + 1);
        assert(s.subrange(0, i + 1).drop_last() =~= s.subrange(0, i));
        let v = chars_val(s.subrange(0, i));
        assert(v <= v * 10) by (nonlinear_arith);
        assert(chars_val(s.subrange(0, i + 1)) >= v * 10);
    } else {
        assert(s.subrange(0, i) =~= s);
    }
}

} // verus!
