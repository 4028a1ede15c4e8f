//! JSON string escaping and unescaping at the byte level, for the claims
//! segment of a session token, with a round-trip proof.
//!
//! A quote becomes `\"`, a backslash `\\`, and a control byte a lower-case
//! `\u00..` escape; every other byte, including the bytes of multi-byte
//! UTF-8 characters, passes through unchanged.

use vstd::prelude::*;

verus! {

/// Lower-case hexadecimal digit byte of a value below 16.
pub open spec fn hex_digit(v: int) -> u8 {
    if v < 10 {
        (48 + v) as u8
    } else {
        (87 + v) as u8
    }
}

pub open spec fn is_hex_byte(b: u8) -> bool {
    48 <= b <= 57 || 97 <= b <= 102
}

pub open spec fn hex_val(b: u8) -> int {
    if 48 <= b <= 57 {
        b - 48
    } else {
        b - 87
    }
}

/// The escape of one byte.
pub open spec fn esc1(x: u8) -> Seq<u8> {
    if x == 34 {
        seq![92u8, 34u8]
    } else if x == 92 {
        seq![92u8, 92u8]
    } else if x < 32 {
        seq![92u8, 117u8, 48u8, 48u8, hex_digit(x as int / 16), hex_digit(x as int % 16)]
    } else {
        seq![x]
    }
}

/// The escape of a byte sequence.
pub open spec fn esc(b: Seq<u8>) -> Seq<u8>
    decreases b.len(),
{
    if b.len() == 0 {
        Seq::<u8>::empty()
    } else {
        esc1(b[0]) + esc(b.skip(1))
    }
}

pub open spec fn prepend_unescaped(x: u8, r: Option<(Seq<u8>, Seq<u8>)>) -> Option<
    (Seq<u8>, Seq<u8>),
> {
    match r {
        Some(p) => Some((seq![x] + p.0, p.1)),
        None => None,
    }
}

/// Reads an escaped string up to and over its closing quote: returns the
/// unescaped content and what follows the quote, or `None` when the input
/// ends first or an escape is not one this library writes.
pub open spec fn spec_unescape(s: Seq<u8>) -> Option<(Seq<u8>, Seq<u8>)>
    decreases s.len(),
{
    if s.len() == 0 {
        None
    } else if s[0] == 34 {
        Some((Seq::<u8>::empty(), s.skip(1)))
    } else if s[0] == 92 {
        if s.len() >= 2 && s[1] == 34 {
            prepend_unescaped(34, spec_unescape(s.skip(2)))
        } else if s.len() >= 2 && s[1] == 92 {
            prepend_unescaped(92, spec_unescape(s.skip(2)))
        } else if s.len() >= 6 && s[1] == 117 && s[2] == 48 && s[3] == 48 && is_hex_byte(s[4])
            && is_hex_byte(s[5]) && hex_val(s[4]) * 16 + hex_val(s[5]) < 32 {
            prepend_unescaped(
                (hex_val(s[4]) * 16 + hex_val(s[5])) as u8,
                spec_unescape(s.skip(6)),
            )
        } else {
            None
        }
    } else {
        prepend_unescaped(s[0], spec_unescape(s.skip(1)))
    }
}

/// Round trip: unescaping the escape of `b`, closed by a quote, yields `b`
/// and what stood after the quote.
pub proof fn lemma_unescape_esc(b: Seq<u8>, rest: Seq<u8>)
    ensures
        spec_unescape(esc(b) + seq![34u8] + rest) == Some((b, rest)),
    decreases b.len(),
{
    let s = esc(b) + seq![34u8] + rest;
    if b.len() == 0 {
        assert(s[0] == 34);
        assert(s.skip(1) =~= rest);
        assert(spec_unescape(s).unwrap().0 =~= b);
    } else {
        let x = b[0];
        lemma_unescape_esc(b.skip(1), rest);
        let s2 = esc(b.skip(1)) + seq![34u8] + rest;
        if x == 34 {
            assert(s[0] == 92 && s[1] == 34);
            assert(s.skip(2) =~= s2);
            assert(spec_unescape(s).unwrap().0 =~= b);
        } else if x == 92 {
            assert(s[0] == 92 && s[1] == 92);
            assert(s.skip(2) =~= s2);
            assert(spec_unescape(s).unwrap().0 =~= b);
        } else if x < 32 {
            assert(s[0] == 92 && s[1] == 117 && s[2] == 48 && s[3] == 48);
            assert(s[4] == hex_digit(x as int / 16) && s[5] == hex_digit(x as int % 16));
            assert(is_hex_byte(hex_digit(x as int / 16)));
            assert(is_hex_byte(hex_digit(x as int % 16)));
            assert(hex_val(hex_digit(x as int / 16)) == x as int / 16);
            assert(hex_val(hex_digit(x as int % 16)) == x as int % 16);
            assert(hex_val(s[4]) * 16 + hex_val(s[5]) == x);
            assert(s.skip(6) =~= s2);
            assert(spec_unescape(s).unwrap().0 =~= b);
        } else {
            assert(s[0] == x && x != 34 && x != 92);
            assert(s.skip(1) =~= s2);
            assert(spec_unescape(s).unwrap().0 =~= b);
        }
    }
}

/// Escaping distributes over appending one byte.
pub proof fn lemma_esc_snoc(b: Seq<u8>, y: u8)
    ensures
        esc(b.push(y)) == esc(b) + esc1(y),
    decreases b.len(),
{
    if b.len() == 0 {
        assert(b.push(y)[0] == y);
        assert(b.push(y).skip(1) =~= Seq::<u8>::empty());
        assert(esc(Seq::<u8>::empty()) =~= Seq::<u8>::empty());
        assert(esc(b.push(y)) =~= esc(b) + esc1(y));
    } else {
        lemma_esc_snoc(b.skip(1), y);
        assert(b.push(y)[0] == b[0]);
        assert(b.push(y).skip(1) =~= b.skip(1).push(y));
        assert(esc(b.push(y)) =~= esc(b) + esc1(y));
    }
}

/// Lower-case hexadecimal digit byte of a value below 16.
fn hex_digit_byte(v: u8) -> (r: u8)
    requires
        v < 16,
    ensures
        r == hex_digit(v as int),
{
    if v < 10 {
        48 + v
    } else {
        87 + v
    }
}

/// Appends the escape of `b` to `out`.
pub fn escape_push(out: &mut Vec<u8>, b: &[u8])
    ensures
        final(out)@ == old(out)@ + esc(b@),
{
    let n = b.len();
    let mut i: usize = 0;
    while i < n
        invariant
            i <= n == b@.len(),
            out@ == old(out)@ + esc(b@.take(i as int)),
        decreases n - i,
    {
        let x = b[i];
        if x == 34 {
            out.push(92);
            out.push(34);
        } else if x == 92 {
            out.push(92);
            out.push(92);
        } else if x < 32 {
            out.push(92);
            out.push(117);
            out.push(48);
            out.push(48);
            out.push(hex_digit_byte(x / 16));
            out.push(hex_digit_byte(x % 16));
        } else {
            out.push(x);
        }
        proof {
            lemma_esc_snoc(b@.take(i as int), b@[i as int]);
            assert(b@.take(i + 1) =~= b@.take(i as int).push(b@[i as int]));
            assert(out@ =~= old(out)@ + esc(b@.take(i + 1)));
        }
        i = i + 1;
    }
    assert(b@.take(n as int) =~= b@);
}

/// Reads an escaped string in `s` from index `i` up to and over its closing
/// quote, appending the unescaped content to `out`; returns the index just
/// after the quote, as [`spec_unescape`] says of `s` from `i` on.
pub fn unescape_from(s: &[u8], i: usize, out: &mut Vec<u8>) -> (r: Option<usize>)
    requires
        i <= s@.len(),
    ensures
        r matches Some(j) ==> i < j <= s@.len(),
        r is Some ==> spec_unescape(s@.skip(i as int)) is Some,
        r is Some ==> final(out)@ == old(out)@ + spec_unescape(s@.skip(i as int)).unwrap().0,
        r matches Some(j) ==> spec_unescape(s@.skip(i as int)).unwrap().1 == s@.skip(j as int),
        r is None ==> spec_unescape(s@.skip(i as int)) is None && final(out)@ == old(out)@,
    decreases s@.len() - i,
{
    let n = s.len();
    let ghost t = s@.skip(i as int);
    if i == n {
        return None;
    }
    let x = s[i];
    if x == 34 {
        assert(t.skip(1) =~= s@.skip(i + 1));
        assert(out@ =~= out@ + spec_unescape(t).unwrap().0);
        return Some(i + 1);
    }
    if x == 92 {
        if i + 1 == n {
            return None;
        }
        let y = s[i + 1];
        if y == 34 || y == 92 {
            out.push(y);
            let r = unescape_from(s, i + 2, out);
            proof {
                assert(t.skip(2) =~= s@.skip(i + 2));
            }
            match r {
                Some(j) => {
                    assert(out@ =~= old(out)@ + spec_unescape(t).unwrap().0);
                    return Some(j);
                },
                None => {
                    out.pop();
                    assert(out@ =~= old(out)@);
                    return None;
                },
            }
        } else if y == 117 && n - i > 5 && s[i + 2] == 48 && s[i + 3] == 48 {
            let h1 = s[i + 4];
            let h2 = s[i + 5];
            let v1 = if 48 <= h1 && h1 <= 57 {
                h1 - 48
            } else if 97 <= h1 && h1 <= 102 {
                h1 - 87
            } else {
                return None;
            };
            let v2 = if 48 <= h2 && h2 <= 57 {
                h2 - 48
            } else if 97 <= h2 && h2 <= 102 {
                h2 - 87
            } else {
                return None;
            };
            let v = v1 * 16 + v2;
            if v >= 32 {
                return None;
            }
            out.push(v);
            let r = unescape_from(s, i + 6, out);
            proof {
                assert(t.skip(6) =~= s@.skip(i + 6));
            }
            match r {
                Some(j) => {
                    assert(out@ =~= old(out)@ + spec_unescape(t).unwrap().0);
                    return Some(j);
                },
                None => {
                    out.pop();
                    assert(out@ =~= old(out)@);
                    return None;
                },
            }
        } else {
            return None;
        }
    }
    out.push(x);
    let r = unescape_from(s, i + 1, out);
    proof {
        assert(t.skip(1) =~= s@.skip(i + 1));
    }
    match r {
        Some(j) => {
            assert(out@ =~= old(out)@ + spec_unescape(t).unwrap().0);
            Some(j)
        },
        None => {
            out.pop();
            assert(out@ =~= old(out)@);
            None
        },
    }
}

} // verus!
