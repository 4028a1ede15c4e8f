//! The claims segment of a session token: a canonical JSON object over the
//! subject id, username, permission list, timestamps and audience, rendered
//! to bytes and parsed back, with a round-trip proof.
//!
//! The object is written with a fixed key order and without whitespace:
//! `{"id":..,"username":"..","permissions":[..],"exp":..,"iat":..,"aud":".."}`.
//! The parser accepts exactly that shape; a token whose claims are laid out
//! otherwise is treated as invalid.

use vstd::prelude::*;
use vstd::utf8::encode_utf8;
use crate::decimal::{dec_bytes_of, is_digit_byte, bytes_val, lemma_dec_bytes_digits,
    lemma_bytes_val_of_dec};
use crate::jsonesc::{esc, spec_unescape, lemma_unescape_esc};

verus! {

/// The mathematical content of a set of claims.
pub struct ClaimsView {
    pub id: u64,
    pub username: Seq<char>,
    pub permissions: Seq<Seq<char>>,
    pub exp: u64,
    pub iat: u64,
    pub aud: Seq<char>,
}

/// Claims as parsed back from bytes, before UTF-8 decoding of the strings.
pub struct RawClaims {
    pub id: u64,
    pub username: Seq<u8>,
    pub perms: Seq<Seq<u8>>,
    pub exp: u64,
    pub iat: u64,
    pub aud: Seq<u8>,
}

/// `{"id":`
pub open spec fn lit_id() -> Seq<u8> {
    seq![123u8, 34u8, 105u8, 100u8, 34u8, 58u8]
}

/// `,"username":"`
pub open spec fn lit_username() -> Seq<u8> {
    seq![44u8, 34u8, 117u8, 115u8, 101u8, 114u8, 110u8, 97u8, 109u8, 101u8, 34u8, 58u8, 34u8]
}

/// `,"permissions":[`
pub open spec fn lit_permissions() -> Seq<u8> {
    seq![
        44u8,
        34u8,
        112u8,
        101u8,
        114u8,
        109u8,
        105u8,
        115u8,
        115u8,
        105u8,
        111u8,
        110u8,
        115u8,
        34u8,
        58u8,
        91u8,
    ]
}

/// `,"exp":`
pub open spec fn lit_exp() -> Seq<u8> {
    seq![44u8, 34u8, 101u8, 120u8, 112u8, 34u8, 58u8]
}

/// `,"iat":`
pub open spec fn lit_iat() -> Seq<u8> {
    seq![44u8, 34u8, 105u8, 97u8, 116u8, 34u8, 58u8]
}

/// `,"aud":"`
pub open spec fn lit_aud() -> Seq<u8> {
    seq![44u8, 34u8, 97u8, 117u8, 100u8, 34u8, 58u8, 34u8]
}

/// The JSON array elements for a permission list: `"p0"` then `,"pi"` for
/// the rest, each escaped.
pub open spec fn perms_tail_bytes(ps: Seq<Seq<char>>) -> Seq<u8>
    decreases ps.len(),
{
    if ps.len() == 0 {
        Seq::<u8>::empty()
    } else {
        seq![44u8, 34u8] + esc(encode_utf8(ps[0])) + seq![34u8] + perms_tail_bytes(ps.skip(1))
    }
}

pub open spec fn perms_bytes(ps: Seq<Seq<char>>) -> Seq<u8> {
    if ps.len() == 0 {
        Seq::<u8>::empty()
    } else {
        seq![34u8] + esc(encode_utf8(ps[0])) + seq![34u8] + perms_tail_bytes(ps.skip(1))
    }
}

/// The canonical JSON bytes of a set of claims.
pub open spec fn json_of_claims(c: ClaimsView) -> Seq<u8> {
    lit_id() + dec_bytes_of(c.id) + lit_username() + esc(encode_utf8(c.username)) + seq![34u8]
        + lit_permissions() + perms_bytes(c.permissions) + seq![93u8] + lit_exp() + dec_bytes_of(
        c.exp,
    ) + lit_iat() + dec_bytes_of(c.iat) + lit_aud() + esc(encode_utf8(c.aud)) + seq![34u8, 125u8]
}

/// Consumes an expected literal prefix.
pub open spec fn spec_expect_lit(s: Seq<u8>, l: Seq<u8>) -> Option<Seq<u8>> {
    if l.len() <= s.len() && s.take(l.len() as int) == l {
        Some(s.skip(l.len() as int))
    } else {
        None
    }
}

/// Length of the digit run opening `s`.
pub open spec fn run_len(s: Seq<u8>) -> nat
    decreases s.len(),
{
    if s.len() > 0 && is_digit_byte(s[0]) {
        1 + run_len(s.skip(1))
    } else {
        0
    }
}

/// Greedy decimal parse: at least one digit, value within `u64`.
pub open spec fn spec_parse_num(s: Seq<u8>) -> Option<(u64, Seq<u8>)> {
    let k = run_len(s) as int;
    if k == 0 {
        None
    } else if bytes_val(s.take(k)) > u64::MAX {
        None
    } else {
        Some((bytes_val(s.take(k)) as u64, s.skip(k)))
    }
}

/// What remains after a successful unescape is strictly shorter.
pub proof fn lemma_unescape_shrink(s: Seq<u8>)
    ensures
        spec_unescape(s) matches Some(p) ==> p.1.len() < s.len(),
    decreases s.len(),
{
    if s.len() == 0 {
    } else if s[0] == 34 {
    } else if s[0] == 92 {
        if s.len() >= 2 && (s[1] == 34 || s[1] == 92) {
            lemma_unescape_shrink(s.skip(2));
        } else if s.len() >= 6 && s[1] == 117 {
            lemma_unescape_shrink(s.skip(6));
        }
    } else {
        lemma_unescape_shrink(s.skip(1));
    }
}

/// The elements after the first of a permission array, up to and over the
/// closing bracket.
pub open spec fn spec_parse_perms_tail(s: Seq<u8>) -> Option<(Seq<Seq<u8>>, Seq<u8>)>
    decreases s.len(),
    via spec_parse_perms_tail_decreases
{
    if s.len() > 0 && s[0] == 93 {
        Some((Seq::<Seq<u8>>::empty(), s.skip(1)))
    } else if s.len() >= 2 && s[0] == 44 && s[1] == 34 {
        match spec_unescape(s.skip(2)) {
            Some(p) => match spec_parse_perms_tail(p.1) {
                Some(q) => Some((seq![p.0] + q.0, q.1)),
                None => None,
            },
            None => None,
        }
    } else {
        None
    }
}

#[via_fn]
proof fn spec_parse_perms_tail_decreases(s: Seq<u8>) {
    if s.len() >= 2 && s[0] == 44 && s[1] == 34 {
        lemma_unescape_shrink(s.skip(2));
    }
}

/// A permission array after its opening bracket: either an immediate close
/// or a first element followed by the tail.
pub open spec fn spec_parse_perms(s: Seq<u8>) -> Option<(Seq<Seq<u8>>, Seq<u8>)> {
    if s.len() > 0 && s[0] == 93 {
        Some((Seq::<Seq<u8>>::empty(), s.skip(1)))
    } else if s.len() > 0 && s[0] == 34 {
        match spec_unescape(s.skip(1)) {
            Some(p) => match spec_parse_perms_tail(p.1) {
                Some(q) => Some((seq![p.0] + q.0, q.1)),
                None => None,
            },
            None => None,
        }
    } else {
        None
    }
}

/// Strict parse of the canonical claims object.
pub open spec fn spec_parse_claims(s: Seq<u8>) -> Option<RawClaims> {
    match spec_expect_lit(s, lit_id()) {
        None => None,
        Some(s1) => match spec_parse_num(s1) {
            None => None,
            Some((id, s2)) => match spec_expect_lit(s2, lit_username()) {
                None => None,
                Some(s3) => match spec_unescape(s3) {
                    None => None,
                    Some((uname, s4)) => match spec_expect_lit(s4, lit_permissions()) {
                        None => None,
                        Some(s5) => match spec_parse_perms(s5) {
                            None => None,
                            Some((perms, s6)) => match spec_expect_lit(s6, lit_exp()) {
                                None => None,
                                Some(s7) => match spec_parse_num(s7) {
                                    None => None,
                                    Some((exp, s8)) => match spec_expect_lit(s8, lit_iat()) {
                                        None => None,
                                        Some(s9) => match spec_parse_num(s9) {
                                            None => None,
                                            Some((iat, s10)) => match spec_expect_lit(
                                                s10,
                                                lit_aud(),
                                            ) {
                                                None => None,
                                                Some(s11) => match spec_unescape(s11) {
                                                    None => None,
                                                    Some((aud, s12)) => if s12 == seq![125u8] {
                                                        Some(
                                                            RawClaims {
                                                                id,
                                                                username: uname,
                                                                perms,
                                                                exp,
                                                                iat,
                                                                aud,
                                                            },
                                                        )
                                                    } else {
                                                        None
                                                    },
                                                },
                                            },
                                        },
                                    },
                                },
                            },
                        },
                    },
                },
            },
        },
    }
}

/// An expected literal consumes exactly itself.
pub proof fn lemma_expect_lit(l: Seq<u8>, rest: Seq<u8>)
    ensures
        spec_expect_lit(l + rest, l) == Some(rest),
{
    assert((l + rest).take(l.len() as int) =~= l);
    assert((l + rest).skip(l.len() as int) =~= rest);
}

/// The digit run of a digit string followed by a non-digit is the string.
proof fn lemma_run_len_concat(ds: Seq<u8>, rest: Seq<u8>)
    requires
        forall|i: int| 0 <= i < ds.len() ==> is_digit_byte(#[trigger] ds[i]),
        rest.len() == 0 || !is_digit_byte(rest[0]),
    ensures
        run_len(ds + rest) == ds.len(),
    decreases ds.len(),
{
    if ds.len() == 0 {
        assert(ds + rest =~= rest);
    } else {
        lemma_run_len_concat(ds.skip(1), rest);
        assert((ds + rest)[0] == ds[0]);
        assert((ds + rest).skip(1) =~= ds.skip(1) + rest);
    }
}

/// A rendered number followed by a non-digit parses back to itself.
pub proof fn lemma_parse_num(n: u64, rest: Seq<u8>)
    requires
        rest.len() == 0 || !is_digit_byte(rest[0]),
    ensures
        spec_parse_num(dec_bytes_of(n) + rest) == Some((n, rest)),
{
    let ds = dec_bytes_of(n);
    lemma_dec_bytes_digits(n);
    lemma_bytes_val_of_dec(n);
    lemma_run_len_concat(ds, rest);
    let s = ds + rest;
    assert(s.take(ds.len() as int) =~= ds);
    assert(s.skip(ds.len() as int) =~= rest);
}

/// A rendered permission tail followed by the closing bracket parses back
/// to the UTF-8 bytes of its elements.
proof fn lemma_parse_perms_tail(ps: Seq<Seq<char>>, rest: Seq<u8>)
    ensures
        spec_parse_perms_tail(perms_tail_bytes(ps) + seq![93u8] + rest) == Some(
            (ps.map_values(|p: Seq<char>| encode_utf8(p)), rest),
        ),
    decreases ps.len(),
{
    let s = perms_tail_bytes(ps) + seq![93u8] + rest;
    if ps.len() == 0 {
        assert(s[0] == 93);
        assert(s.skip(1) =~= rest);
        assert(ps.map_values(|p: Seq<char>| encode_utf8(p)) =~= Seq::<Seq<u8>>::empty());
    } else {
        let p0 = encode_utf8(ps[0]);
        let s2 = perms_tail_bytes(ps.skip(1)) + seq![93u8] + rest;
        assert(s[0] == 44 && s[1] == 34);
        assert(s.skip(2) =~= esc(p0) + seq![34u8] + s2);
        lemma_unescape_esc(p0, s2);
        lemma_parse_perms_tail(ps.skip(1), rest);
        assert(seq![p0] + ps.skip(1).map_values(|p: Seq<char>| encode_utf8(p)) =~= ps.map_values(
            |p: Seq<char>| encode_utf8(p),
        ));
    }
}

/// A rendered permission array followed by the closing bracket parses back
/// to the UTF-8 bytes of its elements.
pub proof fn lemma_parse_perms(ps: Seq<Seq<char>>, rest: Seq<u8>)
    ensures
        spec_parse_perms(perms_bytes(ps) + seq![93u8] + rest) == Some(
            (ps.map_values(|p: Seq<char>| encode_utf8(p)), rest),
        ),
{
    let s = perms_bytes(ps) + seq![93u8] + rest;
    if ps.len() == 0 {
        assert(s[0] == 93);
        assert(s.skip(1) =~= rest);
        assert(ps.map_values(|p: Seq<char>| encode_utf8(p)) =~= Seq::<Seq<u8>>::empty());
    } else {
        let p0 = encode_utf8(ps[0]);
        let s2 = perms_tail_bytes(ps.skip(1)) + seq![93u8] + rest;
        assert(s[0] == 34);
        assert(s.skip(1) =~= esc(p0) + seq![34u8] + s2);
        lemma_unescape_esc(p0, s2);
        lemma_parse_perms_tail(ps.skip(1), rest);
        assert(seq![p0] + ps.skip(1).map_values(|p: Seq<char>| encode_utf8(p)) =~= ps.map_values(
            |p: Seq<char>| encode_utf8(p),
        ));
    }
}

/// The raw claims that the canonical rendering of `c` parses back to.
pub open spec fn raw_of_view(c: ClaimsView) -> RawClaims {
    RawClaims {
        id: c.id,
        username: encode_utf8(c.username),
        perms: c.permissions.map_values(|p: Seq<char>| encode_utf8(p)),
        exp: c.exp,
        iat: c.iat,
        aud: encode_utf8(c.aud),
    }
}

/// The suffix of the canonical rendering that opens with the audience
/// string content.
pub open spec fn tail_aud(c: ClaimsView) -> Seq<u8> {
    esc(encode_utf8(c.aud)) + seq![34u8] + seq![125u8]
}

pub open spec fn tail_iat(c: ClaimsView) -> Seq<u8> {
    dec_bytes_of(c.iat) + (lit_aud() + tail_aud(c))
}

pub open spec fn tail_exp(c: ClaimsView) -> Seq<u8> {
    dec_bytes_of(c.exp) + (lit_iat() + tail_iat(c))
}

pub open spec fn tail_perms(c: ClaimsView) -> Seq<u8> {
    perms_bytes(c.permissions) + seq![93u8] + (lit_exp() + tail_exp(c))
}

pub open spec fn tail_username(c: ClaimsView) -> Seq<u8> {
    esc(encode_utf8(c.username)) + seq![34u8] + (lit_permissions() + tail_perms(c))
}

pub open spec fn tail_id(c: ClaimsView) -> Seq<u8> {
    dec_bytes_of(c.id) + (lit_username() + tail_username(c))
}

/// The canonical rendering, regrouped step by step for the parser.
#[verifier::rlimit(100)]
proof fn lemma_json_shape(c: ClaimsView)
    ensures
        json_of_claims(c) == lit_id() + tail_id(c),
{
    assert(json_of_claims(c) =~= lit_id() + tail_id(c));
}

/// Round trip: the strict parser recovers from the canonical rendering of a
/// set of claims exactly the UTF-8 bytes of its fields.
pub proof fn lemma_parse_claims_roundtrip(c: ClaimsView)
    ensures
        spec_parse_claims(json_of_claims(c)) == Some(raw_of_view(c)),
{
    let ub = encode_utf8(c.username);
    let ab = encode_utf8(c.aud);
    lemma_json_shape(c);
    lemma_expect_lit(lit_id(), tail_id(c));
    assert(tail_id(c)[dec_bytes_of(c.id).len() as int] == lit_username()[0]);
    lemma_parse_num(c.id, lit_username() + tail_username(c));
    lemma_expect_lit(lit_username(), tail_username(c));
    lemma_unescape_esc(ub, lit_permissions() + tail_perms(c));
    lemma_expect_lit(lit_permissions(), tail_perms(c));
    lemma_parse_perms(c.permissions, lit_exp() + tail_exp(c));
    lemma_expect_lit(lit_exp(), tail_exp(c));
    assert(tail_exp(c)[dec_bytes_of(c.exp).len() as int] == lit_iat()[0]);
    lemma_parse_num(c.exp, lit_iat() + tail_iat(c));
    lemma_expect_lit(lit_iat(), tail_iat(c));
    assert(tail_iat(c)[dec_bytes_of(c.iat).len() as int] == lit_aud()[0]);
    lemma_parse_num(c.iat, lit_aud() + tail_aud(c));
    lemma_expect_lit(lit_aud(), tail_aud(c));
    lemma_unescape_esc(ab, seq![125u8]);
}

/// The views of a sequence of byte vectors.
pub open spec fn views_of(s: Seq<Vec<u8>>) -> Seq<Seq<u8>> {
    s.map_values(|v: Vec<u8>| v@)
}

/// `{"id":` as bytes.
fn lit_id_vec() -> (v: Vec<u8>)
    ensures
        v@ == lit_id(),
{
    let mut v: Vec<u8> = Vec::new();
    v.push(123);
    v.push(34);
    v.push(105);
    v.push(100);
    v.push(34);
    v.push(58);
    assert(v@ =~= lit_id());
    v
}

/// `,"username":"` as bytes.
fn lit_username_vec() -> (v: Vec<u8>)
    ensures
        v@ == lit_username(),
{
    let mut v: Vec<u8> = Vec::new();
    v.push(44);
    v.push(34);
    v.push(117);
    v.push(115);
    v.push(101);
    v.push(114);
    v.push(110);
    v.push(97);
    v.push(109);
    v.push(101);
    v.push(34);
    v.push(58);
    v.push(34);
    assert(v@ =~= lit_username());
    v
}

/// `,"permissions":[` as bytes.
fn lit_permissions_vec() -> (v: Vec<u8>)
    ensures
        v@ == lit_permissions(),
{
    let mut v: Vec<u8> = Vec::new();
    v.push(44);
    v.push(34);
    v.push(112);
    v.push(101);
    v.push(114);
    v.push(109);
    v.push(105);
    v.push(115);
    v.push(115);
    v.push(105);
    v.push(111);
    v.push(110);
    v.push(115);
    v.push(34);
    v.push(58);
    v.push(91);
    assert(v@ =~= lit_permissions());
    v
}

/// `,"exp":` as bytes.
fn lit_exp_vec() -> (v: Vec<u8>)
    ensures
        v@ == lit_exp(),
{
    let mut v: Vec<u8> = Vec::new();
    v.push(44);
    v.push(34);
    v.push(101);
    v.push(120);
    v.push(112);
    v.push(34);
    v.push(58);
    assert(v@ =~= lit_exp());
    v
}

/// `,"iat":` as bytes.
fn lit_iat_vec() -> (v: Vec<u8>)
    ensures
        v@ == lit_iat(),
{
    let mut v: Vec<u8> = Vec::new();
    v.push(44);
    v.push(34);
    v.push(105);
    v.push(97);
    v.push(116);
    v.push(34);
    v.push(58);
    assert(v@ =~= lit_iat());
    v
}

/// `,"aud":"` as bytes.
fn lit_aud_vec() -> (v: Vec<u8>)
    ensures
        v@ == lit_aud(),
{
    let mut v: Vec<u8> = Vec::new();
    v.push(44);
    v.push(34);
    v.push(97);
    v.push(117);
    v.push(100);
    v.push(34);
    v.push(58);
    v.push(34);
    assert(v@ =~= lit_aud());
    v
}

/// Appends the array elements for the permissions after the first.
fn push_perms_tail(out: &mut Vec<u8>, ps: &Vec<String>, i: usize)
    requires
        1 <= i <= ps@.len(),
    ensures
        final(out)@ == old(out)@ + perms_tail_bytes(ps.deep_view().skip(i as int)),
    decreases ps@.len() - i,
{
    if i == ps.len() {
        assert(ps.deep_view().skip(i as int) =~= Seq::<Seq<char>>::empty());
        assert(out@ =~= old(out)@ + perms_tail_bytes(ps.deep_view().skip(i as int)));
    } else {
        out.push(44);
        out.push(34);
        crate::jsonesc::escape_push(out, ps[i].as_str().as_bytes());
        out.push(34);
        push_perms_tail(out, ps, i + 1);
        proof {
            let t = ps.deep_view().skip(i as int);
            assert(t[0] == ps.deep_view()[i as int]);
            assert(t.skip(1) =~= ps.deep_view().skip(i + 1));
            assert(out@ =~= old(out)@ + perms_tail_bytes(t));
        }
    }
}

/// Appends the JSON array elements for the whole permission list.
fn push_perms(out: &mut Vec<u8>, ps: &Vec<String>)
    ensures
        final(out)@ == old(out)@ + perms_bytes(ps.deep_view()),
{
    if ps.len() == 0 {
        assert(out@ =~= old(out)@ + perms_bytes(ps.deep_view()));
    } else {
        out.push(34);
        crate::jsonesc::escape_push(out, ps[0].as_str().as_bytes());
        out.push(34);
        push_perms_tail(out, ps, 1);
        proof {
            let t = ps.deep_view();
            assert(t[0] == ps.deep_view()[0]);
            assert(t.skip(1) =~= ps.deep_view().skip(1));
            assert(out@ =~= old(out)@ + perms_bytes(t));
        }
    }
}

/// Renders a set of claims as its canonical JSON bytes.
pub fn claims_json_bytes(
    id: u64,
    username: &str,
    permissions: &Vec<String>,
    exp: u64,
    iat: u64,
    aud: &str,
) -> (v: Vec<u8>)
    ensures
        v@ == json_of_claims(
            ClaimsView {
                id,
                username: username@,
                permissions: permissions.deep_view(),
                exp,
                iat,
                aud: aud@,
            },
        ),
{
    let mut v: Vec<u8> = Vec::new();
    let l1 = lit_id_vec();
    v.extend_from_slice(l1.as_slice());
    crate::decimal::push_u64_dec(&mut v, id);
    let l2 = lit_username_vec();
    v.extend_from_slice(l2.as_slice());
    crate::jsonesc::escape_push(&mut v, username.as_bytes());
    v.push(34);
    let l3 = lit_permissions_vec();
    v.extend_from_slice(l3.as_slice());
    push_perms(&mut v, permissions);
    v.push(93);
    let l4 = lit_exp_vec();
    v.extend_from_slice(l4.as_slice());
    crate::decimal::push_u64_dec(&mut v, exp);
    let l5 = lit_iat_vec();
    v.extend_from_slice(l5.as_slice());
    crate::decimal::push_u64_dec(&mut v, iat);
    let l6 = lit_aud_vec();
    v.extend_from_slice(l6.as_slice());
    crate::jsonesc::escape_push(&mut v, aud.as_bytes());
    v.push(34);
    v.push(125);
    proof {
        let c = ClaimsView {
            id,
            username: username@,
            permissions: permissions.deep_view(),
            exp,
            iat,
            aud: aud@,
        };
        assert(v@ =~= json_of_claims(c));
    }
    v
}

/// Consumes the expected literal `l` in `s` at `i`.
fn expect_bytes(s: &[u8], i: usize, l: &Vec<u8>) -> (r: Option<usize>)
    requires
        i <= s@.len(),
    ensures
        r matches Some(j) ==> i <= j <= s@.len() && spec_expect_lit(s@.skip(i as int), l@) == Some(
            s@.skip(j as int),
        ),
        r is None ==> spec_expect_lit(s@.skip(i as int), l@) is None,
{
    let n = s.len();
    let m = l.len();
    let ghost t = s@.skip(i as int);
    if m > n - i {
        return None;
    }
    let mut k: usize = 0;
    while k < m
        invariant
            k <= m == l@.len(),
            i <= s@.len(),
            m <= s@.len() - i,
            i + m <= n == s@.len(),
            t == s@.skip(i as int),
            forall|q: int| 0 <= q < k ==> t[q] == l@[q],
        decreases m - k,
    {
        if s[i + k] != l[k] {
            assert(t.take(m as int) != l@) by {
                assert(t.take(m as int)[k as int] != l@[k as int]);
            }
            return None;
        }
        assert(t[k as int] == s@[i + k]);
        k = k + 1;
    }
    assert(t.take(m as int) =~= l@);
    assert(t.skip(m as int) =~= s@.skip(i + m));
    Some(i + m)
}

/// Every index below the digit run's length holds a digit, and the run ends
/// at the first non-digit.
proof fn lemma_run_len_exact(t: Seq<u8>, k: int)
    requires
        0 <= k <= t.len(),
        forall|m: int| 0 <= m < k ==> is_digit_byte(#[trigger] t[m]),
        k == t.len() || !is_digit_byte(t[k]),
    ensures
        run_len(t) == k,
    decreases k,
{
    if k == 0 {
    } else {
        lemma_run_len_exact(t.skip(1), k - 1);
    }
}

/// The value of a prefix of a digit string never exceeds the whole.
proof fn lemma_bytes_val_prefix(t: Seq<u8>, i: int)
    requires
        0 <= i <= t.len(),
    ensures
        bytes_val(t.take(i)) <= bytes_val(t),
    decreases t.len() - i,
{
    if i < t.len() {
        lemma_bytes_val_prefix(t, i + 1);
        assert(t.take(i + 1).drop_last() =~= t.take(i));
        let v = bytes_val(t.take(i));
        assert(v <= v * 10) by (nonlinear_arith);
        assert(bytes_val(t.take(i + 1)) >= v * 10);
    } else {
        assert(t.take(i) =~= t);
    }
}

/// Greedy decimal parse in `s` at `i`, as [`spec_parse_num`] says.
fn parse_num_at(s: &[u8], i: usize) -> (r: Option<(u64, usize)>)
    requires
        i <= s@.len(),
    ensures
        r matches Some(p) ==> i < p.1 <= s@.len() && spec_parse_num(s@.skip(i as int)) == Some(
            (p.0, s@.skip(p.1 as int)),
        ),
        r is None ==> spec_parse_num(s@.skip(i as int)) is None,
{
    let n = s.len();
    let ghost t = s@.skip(i as int);
    let mut j: usize = i;
    let mut acc: u64 = 0;
    while j < n && 48 <= s[j] && s[j] <= 57
        invariant
            i <= j <= n == s@.len(),
            t == s@.skip(i as int),
            forall|m: int| 0 <= m < j - i ==> is_digit_byte(#[trigger] t[m]),
            acc == bytes_val(t.take(j - i)),
            bytes_val(t.take(j - i)) <= u64::MAX,
        decreases n - j,
    {
        let d = (s[j] - 48) as u64;
        assert(t[j - i] == s@[j as int]);
        if acc > (u64::MAX - d) / 10 {
            proof {
                assert(is_digit_byte(t[j - i]));
                assert(t.take(j - i + 1).drop_last() =~= t.take(j - i));
                assert(t.take(j - i + 1).last() == t[j - i]);
                assert(bytes_val(t.take(j - i + 1)) == acc * 10 + d);
                assert(acc * 10 + d > u64::MAX) by (nonlinear_arith)
                    requires
                        acc > (u64::MAX - d) / 10,
                        d <= 9,
                ;
                assert(run_len(t) >= j - i + 1) by {
                    assert(forall|m: int| 0 <= m < j - i + 1 ==> is_digit_byte(#[trigger] t[m]));
                    lemma_run_len_lower(t, j - i + 1);
                }
                lemma_run_len_bound(t);
                assert(t.take(j - i + 1) =~= (t.take(run_len(t) as int)).take(j - i + 1));
                lemma_bytes_val_prefix(t.take(run_len(t) as int), j - i + 1);
                assert(bytes_val(t.take(run_len(t) as int)) > u64::MAX);
            }
            return None;
        }
        assert(acc * 10 + d <= u64::MAX) by (nonlinear_arith)
            requires
                acc <= (u64::MAX - d) / 10,
                d <= 9,
        ;
        acc = acc * 10 + d;
        j = j + 1;
        assert(t.take(j - i).drop_last() =~= t.take(j - i - 1));
    }
    proof {
        if j < n {
            assert(t[j - i] == s@[j as int]);
        }
        lemma_run_len_exact(t, j - i);
    }
    if j == i {
        return None;
    }
    assert(t.skip(j - i) =~= s@.skip(j as int));
    Some((acc, j))
}

/// The digit run never passes the end of the string.
proof fn lemma_run_len_bound(t: Seq<u8>)
    ensures
        run_len(t) <= t.len(),
    decreases t.len(),
{
    if t.len() > 0 && is_digit_byte(t[0]) {
        lemma_run_len_bound(t.skip(1));
    }
}

/// A digit prefix of length `k` forces the digit run to reach `k`.
proof fn lemma_run_len_lower(t: Seq<u8>, k: int)
    requires
        0 <= k <= t.len(),
        forall|m: int| 0 <= m < k ==> is_digit_byte(#[trigger] t[m]),
    ensures
        run_len(t) >= k,
    decreases k,
{
    if k > 0 {
        lemma_run_len_lower(t.skip(1), k - 1);
    }
}

/// Parses the permission elements after the first, as
/// [`spec_parse_perms_tail`] says, appending each to `out`.
fn parse_perms_tail_at(s: &[u8], i: usize, out: &mut Vec<Vec<u8>>) -> (r: Option<usize>)
    requires
        i <= s@.len(),
    ensures
        r matches Some(j) ==> i < j <= s@.len() && (spec_parse_perms_tail(s@.skip(i as int))
            matches Some(q) && views_of(final(out)@) == views_of(old(out)@) + q.0 && q.1 == s@.skip(
            j as int,
        )),
        r is None ==> spec_parse_perms_tail(s@.skip(i as int)) is None,
    decreases s@.len() - i,
{
    let n = s.len();
    let ghost t = s@.skip(i as int);
    if i == n {
        return None;
    }
    if s[i] == 93 {
        assert(t.skip(1) =~= s@.skip(i + 1));
        assert(views_of(out@) =~= views_of(out@) + spec_parse_perms_tail(t).unwrap().0);
        return Some(i + 1);
    }
    if n - i >= 2 && s[i] == 44 && s[i + 1] == 34 {
        let mut elem: Vec<u8> = Vec::new();
        assert(t[1] == s@[i + 1]);
        assert(t.skip(2) =~= s@.skip(i + 2));
        match crate::jsonesc::unescape_from(s, i + 2, &mut elem) {
            Some(j0) => {
                out.push(elem);
                let r = parse_perms_tail_at(s, j0, out);
                match r {
                    Some(j) => {
                        proof {
                            let p = spec_unescape(t.skip(2)).unwrap();
                            let q = spec_parse_perms_tail(p.1).unwrap();
                            assert(views_of(out@) =~= views_of(old(out)@) + (seq![p.0] + q.0));
                        }
                        Some(j)
                    },
                    None => None,
                }
            },
            None => None,
        }
    } else {
        None
    }
}

/// Parses a permission array after its opening bracket, as
/// [`spec_parse_perms`] says, appending each element to `out`.
fn parse_perms_at(s: &[u8], i: usize, out: &mut Vec<Vec<u8>>) -> (r: Option<usize>)
    requires
        i <= s@.len(),
    ensures
        r matches Some(j) ==> i < j <= s@.len() && (spec_parse_perms(s@.skip(i as int))
            matches Some(q) && views_of(final(out)@) == views_of(old(out)@) + q.0 && q.1 == s@.skip(
            j as int,
        )),
        r is None ==> spec_parse_perms(s@.skip(i as int)) is None,
{
    let n = s.len();
    let ghost t = s@.skip(i as int);
    if i == n {
        return None;
    }
    if s[i] == 93 {
        assert(t.skip(1) =~= s@.skip(i + 1));
        assert(views_of(out@) =~= views_of(out@) + spec_parse_perms(t).unwrap().0);
        return Some(i + 1);
    }
    if s[i] == 34 {
        let mut elem: Vec<u8> = Vec::new();
        assert(t.skip(1) =~= s@.skip(i + 1));
        match crate::jsonesc::unescape_from(s, i + 1, &mut elem) {
            Some(j0) => {
                out.push(elem);
                let r = parse_perms_tail_at(s, j0, out);
                match r {
                    Some(j) => {
                        proof {
                            let p = spec_unescape(t.skip(1)).unwrap();
                            let q = spec_parse_perms_tail(p.1).unwrap();
                            assert(views_of(out@) =~= views_of(old(out)@) + (seq![p.0] + q.0));
                        }
                        Some(j)
                    },
                    None => None,
                }
            },
            None => None,
        }
    } else {
        None
    }
}

/// Claims as parsed back from bytes, the strings still UTF-8 encoded.
pub struct ParsedClaims {
    pub id: u64,
    pub username: Vec<u8>,
    pub perms: Vec<Vec<u8>>,
    pub exp: u64,
    pub iat: u64,
    pub aud: Vec<u8>,
}

/// The raw claims a parsed value stands for.
pub open spec fn raw_of_parsed(p: ParsedClaims) -> RawClaims {
    RawClaims {
        id: p.id,
        username: p.username@,
        perms: views_of(p.perms@),
        exp: p.exp,
        iat: p.iat,
        aud: p.aud@,
    }
}

/// Strict parse of the canonical claims object, as [`spec_parse_claims`]
/// says.
#[verifier::rlimit(100)]
pub fn parse_claims(s: &[u8]) -> (r: Option<ParsedClaims>)
    ensures
        r matches Some(p) ==> spec_parse_claims(s@) == Some(raw_of_parsed(p)),
        r is None ==> spec_parse_claims(s@) is None,
{
    let ghost t0 = s@;
    assert(s@.skip(0) =~= s@);
    let l1 = lit_id_vec();
    let i1 = match expect_bytes(s, 0, &l1) {
        Some(j) => j,
        None => {
            return None;
        },
    };
    let (id, i2) = match parse_num_at(s, i1) {
        Some(p) => p,
        None => {
            return None;
        },
    };
    let l2 = lit_username_vec();
    let i3 = match expect_bytes(s, i2, &l2) {
        Some(j) => j,
        None => {
            return None;
        },
    };
    let mut username: Vec<u8> = Vec::new();
    let i4 = match crate::jsonesc::unescape_from(s, i3, &mut username) {
        Some(j) => j,
        None => {
            return None;
        },
    };
    let l3 = lit_permissions_vec();
    let i5 = match expect_bytes(s, i4, &l3) {
        Some(j) => j,
        None => {
            return None;
        },
    };
    let mut perms: Vec<Vec<u8>> = Vec::new();
    let i6 = match parse_perms_at(s, i5, &mut perms) {
        Some(j) => j,
        None => {
            return None;
        },
    };
    assert(views_of(perms@) =~= spec_parse_perms(s@.skip(i5 as int)).unwrap().0);
    let l4 = lit_exp_vec();
    let i7 = match expect_bytes(s, i6, &l4) {
        Some(j) => j,
        None => {
            return None;
        },
    };
    let (exp, i8) = match parse_num_at(s, i7) {
        Some(p) => p,
        None => {
            return None;
        },
    };
    let l5 = lit_iat_vec();
    let i9 = match expect_bytes(s, i8, &l5) {
        Some(j) => j,
        None => {
            return None;
        },
    };
    let (iat, i10) = match parse_num_at(s, i9) {
        Some(p) => p,
        None => {
            return None;
        },
    };
    let l6 = lit_aud_vec();
    let i11 = match expect_bytes(s, i10, &l6) {
        Some(j) => j,
        None => {
            return None;
        },
    };
    let mut aud: Vec<u8> = Vec::new();
    let i12 = match crate::jsonesc::unescape_from(s, i11, &mut aud) {
        Some(j) => j,
        None => {
            return None;
        },
    };
    let n = s.len();
    if n - i12 == 1 && s[i12] == 125 {
        assert(s@.skip(i12 as int) =~= seq![125u8]);
        Some(ParsedClaims { id, username, perms, exp, iat, aud })
    } else {
        assert(s@.skip(i12 as int) != seq![125u8]) by {
            if n - i12 == 1 {
                assert(s@.skip(i12 as int)[0] == s@[i12 as int]);
            } else {
                assert(s@.skip(i12 as int).len() != 1);
            }
        }
        None
    }
}

} // verus!
