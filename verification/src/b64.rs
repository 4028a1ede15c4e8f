//! Padding-free base64url encoding and decoding of byte sequences, as used
//! for the segments of a session token, with a round-trip proof.

use vstd::prelude::*;
use crate::strutil::string_push;

verus! {

/// The base64url alphabet character for a 6-bit value.
pub open spec fn b64_char_of(v: u8) -> char {
    if v < 26 {
        ((65 + v) as u8) as char
    } else if v < 52 {
        ((97 + (v - 26)) as u8) as char
    } else if v < 62 {
        ((48 + (v - 52)) as u8) as char
    } else if v == 62 {
        '-'
    } else {
        '_'
    }
}

/// The 6-bit value of a base64url alphabet character, `None` outside the
/// alphabet.
pub open spec fn b64_val_of(c: char) -> Option<u8> {
    let u = c as u32;
    if 65 <= u <= 90 {
        Some((u - 65) as u8)
    } else if 97 <= u <= 122 {
        Some((u - 97 + 26) as u8)
    } else if 48 <= u <= 57 {
        Some((u - 48 + 52) as u8)
    } else if u == 45 {
        Some(62)
    } else if u == 95 {
        Some(63)
    } else {
        None
    }
}

/// Base64url rendering of a byte sequence, without padding.
pub open spec fn b64_of(bs: Seq<u8>) -> Seq<char>
    decreases bs.len(),
{
    if bs.len() == 0 {
        Seq::<char>::empty()
    } else if bs.len() == 1 {
        seq![b64_char_of(bs[0] / 4), b64_char_of(((bs[0] % 4) * 16) as u8)]
    } else if bs.len() == 2 {
        seq![
            b64_char_of(bs[0] / 4),
            b64_char_of(((bs[0] % 4) * 16 + bs[1] / 16) as u8),
            b64_char_of(((bs[1] % 16) * 4) as u8),
        ]
    } else {
        seq![
            b64_char_of(bs[0] / 4),
            b64_char_of(((bs[0] % 4) * 16 + bs[1] / 16) as u8),
            b64_char_of(((bs[1] % 16) * 4 + bs[2] / 64) as u8),
            b64_char_of(bs[2] % 64),
        ] + b64_of(bs.skip(3))
    }
}

/// Strict base64url decoding: rejects characters outside the alphabet,
/// impossible lengths, and non-canonical trailing bits.
pub open spec fn spec_b64_decode(s: Seq<char>) -> Option<Seq<u8>>
    decreases s.len(),
{
    if s.len() == 0 {
        Some(Seq::<u8>::empty())
    } else if s.len() == 1 {
        None
    } else if s.len() == 2 {
        match (b64_val_of(s[0]), b64_val_of(s[1])) {
            (Some(v0), Some(v1)) => if v1 % 16 == 0 {
                Some(seq![(v0 * 4 + v1 / 16) as u8])
            } else {
                None
            },
            _ => None,
        }
    } else if s.len() == 3 {
        match (b64_val_of(s[0]), b64_val_of(s[1]), b64_val_of(s[2])) {
            (Some(v0), Some(v1), Some(v2)) => if v2 % 4 == 0 {
                Some(seq![(v0 * 4 + v1 / 16) as u8, ((v1 % 16) * 16 + v2 / 4) as u8])
            } else {
                None
            },
            _ => None,
        }
    } else {
        match (b64_val_of(s[0]), b64_val_of(s[1]), b64_val_of(s[2]), b64_val_of(s[3])) {
            (Some(v0), Some(v1), Some(v2), Some(v3)) => match spec_b64_decode(s.skip(4)) {
                Some(rest) => Some(
                    seq![(v0 * 4 + v1 / 16) as u8, ((v1 % 16) * 16 + v2 / 4) as u8, ((v2 % 4) * 64 + v3) as u8] + rest,
                ),
                None => None,
            },
            _ => None,
        }
    }
}

/// The alphabet maps every 6-bit value to a character that decodes back to
/// it; no alphabet character is a dot.
pub proof fn lemma_b64_char_val(v: u8)
    requires
        v < 64,
    ensures
        b64_val_of(b64_char_of(v)) == Some(v),
        b64_char_of(v) != '.',
{
}

/// Round trip: strict decoding recovers exactly the bytes that were encoded.
pub proof fn lemma_b64_roundtrip(bs: Seq<u8>)
    ensures
        spec_b64_decode(b64_of(bs)) == Some(bs),
    decreases bs.len(),
{
    let s = b64_of(bs);
    if bs.len() == 0 {
        assert(spec_b64_decode(s) == Some(bs));
    } else if bs.len() == 1 {
        let b0 = bs[0];
        lemma_b64_char_val(b0 / 4);
        lemma_b64_char_val(((b0 % 4) * 16) as u8);
        assert(((b0 % 4) * 16) % 16 == 0) by (nonlinear_arith);
        assert((b0 / 4) * 4 + ((b0 % 4) * 16) / 16 == b0) by (nonlinear_arith);
        assert(spec_b64_decode(s).unwrap() =~= bs);
    } else if bs.len() == 2 {
        let b0 = bs[0];
        let b1 = bs[1];
        lemma_b64_char_val(b0 / 4);
        lemma_b64_char_val(((b0 % 4) * 16 + b1 / 16) as u8);
        lemma_b64_char_val(((b1 % 16) * 4) as u8);
        assert(((b1 % 16) * 4) % 4 == 0) by (nonlinear_arith);
        assert((b0 / 4) * 4 + ((b0 % 4) * 16 + b1 / 16) / 16 == b0) by (nonlinear_arith);
        assert((((b0 % 4) * 16 + b1 / 16) % 16) * 16 + ((b1 % 16) * 4) / 4 == b1)
            by (nonlinear_arith);
        assert(spec_b64_decode(s).unwrap() =~= bs);
    } else {
        let b0 = bs[0];
        let b1 = bs[1];
        let b2 = bs[2];
        lemma_b64_roundtrip(bs.skip(3));
        lemma_b64_char_val(b0 / 4);
        lemma_b64_char_val(((b0 % 4) * 16 + b1 / 16) as u8);
        lemma_b64_char_val(((b1 % 16) * 4 + b2 / 64) as u8);
        lemma_b64_char_val(b2 % 64);
        assert(s.len() >= 4);
        assert(s.skip(4) =~= b64_of(bs.skip(3)));
        assert((b0 / 4) * 4 + ((b0 % 4) * 16 + b1 / 16) / 16 == b0) by (nonlinear_arith);
        assert((((b0 % 4) * 16 + b1 / 16) % 16) * 16 + ((b1 % 16) * 4 + b2 / 64) / 4 == b1)
            by (nonlinear_arith);
        assert((((b1 % 16) * 4 + b2 / 64) % 4) * 64 + b2 % 64 == b2) by (nonlinear_arith);
        assert(spec_b64_decode(s).unwrap() =~= bs);
    }
}

/// Every character of an encoding is an alphabet character, hence ASCII and
/// never a dot.
pub proof fn lemma_b64_chars(bs: Seq<u8>)
    ensures
        forall|i: int|
            0 <= i < b64_of(bs).len() ==> (((#[trigger] b64_of(bs)[i]) as u32) < 128 && b64_of(
                bs,
            )[i] != '.'),
    decreases bs.len(),
{
    if bs.len() > 2 {
        lemma_b64_chars(bs.skip(3));
        assert forall|i: int| 0 <= i < b64_of(bs).len() implies (((#[trigger] b64_of(bs)[i]) as u32)
            < 128 && b64_of(bs)[i] != '.') by {
            if i >= 4 {
                assert(b64_of(bs)[i] == b64_of(bs.skip(3))[i - 4]);
            }
        }
    }
}

/// The base64url alphabet character for a 6-bit value.
fn b64_char(v: u8) -> (c: char)
    requires
        v < 64,
    ensures
        c == b64_char_of(v),
{
    if v < 26 {
        (65 + v) as char
    } else if v < 52 {
        (97 + (v - 26)) as char
    } else if v < 62 {
        (48 + (v - 52)) as char
    } else if v == 62 {
        '-'
    } else {
        '_'
    }
}

/// The 6-bit value of a base64url alphabet character.
fn b64_val(c: char) -> (r: Option<u8>)
    ensures
        r == b64_val_of(c),
{
    let u = c as u32;
    if 65 <= u && u <= 90 {
        Some((u - 65) as u8)
    } else if 97 <= u && u <= 122 {
        Some((u - 97 + 26) as u8)
    } else if 48 <= u && u <= 57 {
        Some((u - 48 + 52) as u8)
    } else if u == 45 {
        Some(62)
    } else if u == 95 {
        Some(63)
    } else {
        None
    }
}

fn b64_push_from(out: &mut String, bs: &[u8], i: usize)
    requires
        i <= bs@.len(),
    ensures
        final(out)@ == old(out)@ + b64_of(bs@.skip(i as int)),
    decreases bs@.len() - i,
{
    let n = bs.len();
    if i == n {
        assert(out@ =~= old(out)@ + b64_of(bs@.skip(i as int)));
    } else if i + 1 == n {
        let b0 = bs[i];
        string_push(out, b64_char(b0 / 4));
        string_push(out, b64_char((b0 % 4) * 16));
        assert(bs@.skip(i as int) =~= seq![bs@[i as int]]);
        assert(out@ =~= old(out)@ + b64_of(bs@.skip(i as int)));
    } else if i + 2 == n {
        let b0 = bs[i];
        let b1 = bs[i + 1];
        string_push(out, b64_char(b0 / 4));
        string_push(out, b64_char((b0 % 4) * 16 + b1 / 16));
        string_push(out, b64_char((b1 % 16) * 4));
        assert(bs@.skip(i as int) =~= seq![bs@[i as int], bs@[i + 1]]);
        assert(out@ =~= old(out)@ + b64_of(bs@.skip(i as int)));
    } else {
        let b0 = bs[i];
        let b1 = bs[i + 1];
        let b2 = bs[i + 2];
        string_push(out, b64_char(b0 / 4));
        string_push(out, b64_char((b0 % 4) * 16 + b1 / 16));
        string_push(out, b64_char((b1 % 16) * 4 + b2 / 64));
        string_push(out, b64_char(b2 % 64));
        b64_push_from(out, bs, i + 3);
        proof {
            let t = bs@.skip(i as int);
            assert(t.len() >= 3);
            assert(t[0] == bs@[i as int] && t[1] == bs@[i + 1] && t[2] == bs@[i + 2]);
            assert(t.skip(3) =~= bs@.skip(i + 3));
            assert(out@ =~= old(out)@ + b64_of(t));
        }
    }
}

/// Base64url rendering of `bs`, without padding.
pub fn b64_encode(bs: &[u8]) -> (s: String)
    ensures
        s@ == b64_of(bs@),
{
    let mut out = String::new();
    b64_push_from(&mut out, bs, 0);
    assert(bs@.skip(0) =~= bs@);
    out
}

#[verifier::rlimit(60)]
fn b64_decode_from(s: &str, i: usize, out: &mut Vec<u8>) -> (ok: bool)
    requires
        i <= s@.len(),
    ensures
        ok == (spec_b64_decode(s@.skip(i as int)) is Some),
        ok ==> final(out)@ == old(out)@ + spec_b64_decode(s@.skip(i as int)).unwrap(),
    decreases s@.len() - i,
{
    let n = s.unicode_len();
    let ghost t = s@.skip(i as int);
    if i == n {
        assert(t =~= Seq::<char>::empty());
        assert(out@ =~= old(out)@ + spec_b64_decode(t).unwrap());
        true
    } else if i + 1 == n {
        false
    } else if i + 2 == n {
        let v0 = b64_val(s.get_char(i));
        let v1 = b64_val(s.get_char(i + 1));
        match (v0, v1) {
            (Some(v0), Some(v1)) => {
                if v1 % 16 == 0 {
                    out.push(v0 * 4 + v1 / 16);
                    assert(t =~= seq![s@[i as int], s@[i + 1]]);
                    assert(out@ =~= old(out)@ + spec_b64_decode(t).unwrap());
                    true
                } else {
                    assert(t =~= seq![s@[i as int], s@[i + 1]]);
                    false
                }
            },
            _ => {
                assert(t =~= seq![s@[i as int], s@[i + 1]]);
                false
            },
        }
    } else if i + 3 == n {
        let v0 = b64_val(s.get_char(i));
        let v1 = b64_val(s.get_char(i + 1));
        let v2 = b64_val(s.get_char(i + 2));
        match (v0, v1, v2) {
            (Some(v0), Some(v1), Some(v2)) => {
                if v2 % 4 == 0 {
                    out.push(v0 * 4 + v1 / 16);
                    out.push((v1 % 16) * 16 + v2 / 4);
                    assert(t =~= seq![s@[i as int], s@[i + 1], s@[i + 2]]);
                    assert(out@ =~= old(out)@ + spec_b64_decode(t).unwrap());
                    true
                } else {
                    assert(t =~= seq![s@[i as int], s@[i + 1], s@[i + 2]]);
                    false
                }
            },
            _ => {
                assert(t =~= seq![s@[i as int], s@[i + 1], s@[i + 2]]);
                false
            },
        }
    } else {
        let v0 = b64_val(s.get_char(i));
        let v1 = b64_val(s.get_char(i + 1));
        let v2 = b64_val(s.get_char(i + 2));
        let v3 = b64_val(s.get_char(i + 3));
        proof {
            assert(t.len() >= 4);
            assert(t[0] == s@[i as int] && t[1] == s@[i + 1] && t[2] == s@[i + 2] && t[3] == s@[i
                + 3]);
            assert(t.skip(4) =~= s@.skip(i + 4));
        }
        match (v0, v1, v2, v3) {
            (Some(v0), Some(v1), Some(v2), Some(v3)) => {
                out.push(v0 * 4 + v1 / 16);
                out.push((v1 % 16) * 16 + v2 / 4);
                out.push((v2 % 4) * 64 + v3);
                let ok = b64_decode_from(s, i + 4, out);
                if ok {
                    assert(out@ =~= old(out)@ + spec_b64_decode(t).unwrap());
                }
                ok
            },
            _ => false,
        }
    }
}

/// Strict base64url decoding of a string, as [`spec_b64_decode`] says.
pub fn b64_decode(s: &str) -> (r: Option<Vec<u8>>)
    ensures
        match r {
            Some(v) => spec_b64_decode(s@) == Some(v@),
            None => spec_b64_decode(s@) is None,
        },
{
    let mut out: Vec<u8> = Vec::new();
    let ok = b64_decode_from(s, 0, &mut out);
    assert(s@.skip(0) =~= s@);
    if ok {
        Some(out)
    } else {
        None
    }
}

} // verus!
