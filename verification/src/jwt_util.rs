//! The session token service: self-contained signed tokens carrying the
//! subject id, username, flattened permission list, timestamps and a fixed
//! audience tag, with issuance, verification and near-expiry refresh.
//!
//! A token is three dot-separated segments: the base64url of a fixed JSON
//! header, the base64url of the canonical claims JSON, and the HMAC-SHA256
//! signature of the first two segments.

use vstd::prelude::*;
use vstd::utf8::{encode_utf8, decode_utf8, valid_utf8, encode_utf8_valid_utf8,
    encode_utf8_decode_utf8};
use crate::b64::{b64_of, spec_b64_decode, b64_encode, b64_decode, lemma_b64_roundtrip,
    lemma_b64_chars};
use crate::claims_codec::{ClaimsView, RawClaims, json_of_claims, spec_parse_claims, raw_of_view,
    lemma_parse_claims_roundtrip, claims_json_bytes, parse_claims, ParsedClaims};
use crate::error::Error;
use crate::jwt_crypto::{hmac_sig_of, sign_hs256, verify_hs256};
use crate::strutil::{string_push, bytes_to_string, bytes_eq, get_timestamp};

verus! {

/// How long an issued token stays valid, in seconds.
pub const JWT_VALIDITY_SECS: u64 = 1800000;

/// The audience tag bound into and checked against every token.
pub open spec fn aud_chars() -> Seq<char> {
    "rust_admin"@
}

/// The bytes of the fixed JSON header `{"typ":"JWT","alg":"HS256"}`.
pub open spec fn header_bytes() -> Seq<u8> {
    seq![
        123u8,
        34u8,
        116u8,
        121u8,
        112u8,
        34u8,
        58u8,
        34u8,
        74u8,
        87u8,
        84u8,
        34u8,
        44u8,
        34u8,
        97u8,
        108u8,
        103u8,
        34u8,
        58u8,
        34u8,
        72u8,
        83u8,
        50u8,
        53u8,
        54u8,
        34u8,
        125u8,
    ]
}

fn header_vec() -> (v: Vec<u8>)
    ensures
        v@ == header_bytes(),
{
    let mut v: Vec<u8> = Vec::new();
    v.push(123);
    v.push(34);
    v.push(116);
    v.push(121);
    v.push(112);
    v.push(34);
    v.push(58);
    v.push(34);
    v.push(74);
    v.push(87);
    v.push(84);
    v.push(34);
    v.push(44);
    v.push(34);
    v.push(97);
    v.push(108);
    v.push(103);
    v.push(34);
    v.push(58);
    v.push(34);
    v.push(72);
    v.push(83);
    v.push(50);
    v.push(53);
    v.push(54);
    v.push(34);
    v.push(125);
    assert(v@ =~= header_bytes());
    v
}

/// The signed part of a token for claims `c`: base64url header, a dot, and
/// the base64url claims JSON.
pub open spec fn message_of(c: ClaimsView) -> Seq<char> {
    b64_of(header_bytes()) + seq!['.'] + b64_of(json_of_claims(c))
}

/// The full token for claims `c` under `secret`.
pub open spec fn token_of(c: ClaimsView, secret: Seq<char>) -> Seq<char> {
    message_of(c) + seq!['.'] + hmac_sig_of(encode_utf8(message_of(c)), encode_utf8(secret))
}

/// The first position of `c` in `s` at or after `from`.
pub open spec fn find_char(s: Seq<char>, c: char, from: int) -> Option<int>
    decreases s.len() - from,
{
    if from < 0 || from >= s.len() {
        None
    } else if s[from] == c {
        Some(from)
    } else {
        find_char(s, c, from + 1)
    }
}

proof fn lemma_find_char_exact(s: Seq<char>, c: char, from: int, k: int)
    requires
        0 <= from <= k < s.len(),
        forall|m: int| from <= m < k ==> s[m] != c,
        s[k] == c,
    ensures
        find_char(s, c, from) == Some(k),
    decreases k - from,
{
    if from < k {
        lemma_find_char_exact(s, c, from + 1, k);
    }
}

fn find_char_from(s: &str, c: char, from: usize) -> (r: Option<usize>)
    requires
        from <= s@.len(),
    ensures
        r matches Some(j) ==> from <= j < s@.len() && find_char(s@, c, from as int) == Some(
            j as int,
        ),
        r is None ==> find_char(s@, c, from as int) is None,
{
    let n = s.unicode_len();
    let mut i: usize = from;
    while i < n
        invariant
            from <= i <= n == s@.len(),
            forall|m: int| from <= m < i ==> s@[m] != c,
        decreases n - i,
    {
        if s.get_char(i) == c {
            proof {
                lemma_find_char_exact(s@, c, from as int, i as int);
            }
            return Some(i);
        }
        i = i + 1;
    }
    proof {
        lemma_find_char_none(s@, c, from as int);
    }
    None
}

proof fn lemma_find_char_none(s: Seq<char>, c: char, from: int)
    requires
        0 <= from,
        forall|m: int| from <= m < s.len() ==> s[m] != c,
    ensures
        find_char(s, c, from) is None,
    decreases s.len() - from,
{
    if from < s.len() {
        lemma_find_char_none(s, c, from + 1);
    }
}

/// What a raw parse yields as verified claims at time `now`: the audience
/// must be this system's tag, the expiry must not lie in the past, and the
/// strings must be valid UTF-8.
pub open spec fn claims_of_raw(raw: RawClaims, now: u64) -> Option<ClaimsView> {
    if raw.aud != encode_utf8(aud_chars()) {
        None
    } else if raw.exp < now {
        None
    } else if !valid_utf8(raw.username) {
        None
    } else if exists|k: int| 0 <= k < raw.perms.len() && !valid_utf8(#[trigger] raw.perms[k]) {
        None
    } else {
        Some(
            ClaimsView {
                id: raw.id,
                username: decode_utf8(raw.username),
                permissions: raw.perms.map_values(|b: Seq<u8>| decode_utf8(b)),
                exp: raw.exp,
                iat: raw.iat,
                aud: decode_utf8(raw.aud),
            },
        )
    }
}

/// What verifying `token` under `secret` at time `now` yields: the token
/// must split into three dot-separated segments, the signature must be the
/// HMAC of the first two, the header must be this library's, and the claims
/// must parse and pass [`claims_of_raw`].
pub open spec fn spec_verify_at(token: Seq<char>, secret: Seq<char>, now: u64) -> Option<
    ClaimsView,
> {
    match find_char(token, '.', 0) {
        None => None,
        Some(i) => match find_char(token, '.', i + 1) {
            None => None,
            Some(j) => {
                let msg = token.take(j);
                let sig = token.skip(j + 1);
                if sig != hmac_sig_of(encode_utf8(msg), encode_utf8(secret)) {
                    None
                } else {
                    match spec_b64_decode(token.take(i)) {
                        None => None,
                        Some(hb) => if hb != header_bytes() {
                            None
                        } else {
                            match spec_b64_decode(token.subrange(i + 1, j)) {
                                None => None,
                                Some(cb) => match spec_parse_claims(cb) {
                                    None => None,
                                    Some(raw) => claims_of_raw(raw, now),
                                },
                            }
                        },
                    }
                }
            },
        },
    }
}

/// Clones a list of strings.
fn clone_strings(v: &Vec<String>) -> (r: Vec<String>)
    ensures
        r@ == v@,
{
    let mut r: Vec<String> = Vec::new();
    let n = v.len();
    let mut i: usize = 0;
    while i < n
        invariant
            i <= n == v@.len(),
            r@ == v@.take(i as int),
        decreases n - i,
    {
        r.push(v[i].clone());
        assert(r@ =~= v@.take(i + 1));
        i = i + 1;
    }
    assert(v@.take(n as int) =~= v@);
    r
}

/// A self-contained session token's claims.
pub struct JWTToken {
    pub id: u64,
    pub username: String,
    pub permissions: Vec<String>,
    pub exp: u64,
    pub iat: u64,
    pub aud: String,
}

impl View for JWTToken {
    type V = ClaimsView;

    open spec fn view(&self) -> ClaimsView {
        ClaimsView {
            id: self.id,
            username: self.username@,
            permissions: self.permissions.deep_view(),
            exp: self.exp,
            iat: self.iat,
            aud: self.aud@,
        }
    }
}

impl JWTToken {
    /// Claims issued at `now` for the given identity and permissions, valid
    /// for the fixed window, bound to this system's audience tag.
    pub fn new_at(id: u64, username: &str, permissions: Vec<String>, now: u64) -> (t: JWTToken)
        requires
            now <= u64::MAX - JWT_VALIDITY_SECS,
        ensures
            t@ == (ClaimsView {
                id,
                username: username@,
                permissions: permissions.deep_view(),
                exp: (now + JWT_VALIDITY_SECS) as u64,
                iat: now,
                aud: aud_chars(),
            }),
    {
        JWTToken {
            id,
            username: username.to_owned(),
            permissions,
            exp: now + JWT_VALIDITY_SECS,
            iat: now,
            aud: "rust_admin".to_owned(),
        }
    }

    /// Claims issued at the present moment. Nothing is known of the clock,
    /// so only the relation between the fields is promised.
    pub fn new(id: u64, username: &str, permissions: Vec<String>) -> (t: JWTToken)
        ensures
            t@.id == id,
            t@.username == username@,
            t@.permissions == permissions.deep_view(),
            t@.exp == t@.iat + JWT_VALIDITY_SECS,
            t@.aud == aud_chars(),
    {
        let now = get_timestamp();
        let now = if now > u64::MAX - JWT_VALIDITY_SECS {
            u64::MAX - JWT_VALIDITY_SECS
        } else {
            now
        };
        Self::new_at(id, username, permissions, now)
    }

    /// Signs these claims with the symmetric secret, producing the token.
    /// Signing with HMAC-SHA256 cannot fail, so the result is always `Ok`.
    pub fn create_token(&self, secret: &str) -> (r: Result<String, Error>)
        ensures
            r is Ok,
            r matches Ok(t) ==> t@ == token_of(self@, secret@),
    {
        let hv = header_vec();
        let mut msg = b64_encode(hv.as_slice());
        string_push(&mut msg, '.');
        let cb = claims_json_bytes(
            self.id,
            self.username.as_str(),
            &self.permissions,
            self.exp,
            self.iat,
            self.aud.as_str(),
        );
        let c64 = b64_encode(cb.as_slice());
        msg.append(c64.as_str());
        assert(msg@ =~= message_of(self@));
        match sign_hs256(msg.as_str().as_bytes(), secret.as_bytes()) {
            Ok(sig) => {
                let mut tok = msg;
                string_push(&mut tok, '.');
                tok.append(sig.as_str());
                assert(tok@ =~= token_of(self@, secret@));
                Ok(tok)
            },
            Err(e) => Err(Error::Jwt(e)),
        }
    }

    /// Verifies `token` against `secret` at time `now`, as
    /// [`spec_verify_at`] says: any failed check is an error, never a
    /// partially trusted result.
    #[verifier::loop_isolation(false)]
    pub fn verify_at(secret: &str, token: &str, now: u64) -> (r: Result<JWTToken, Error>)
        ensures
            r matches Ok(c) ==> spec_verify_at(token@, secret@, now) == Some(c@),
            r is Err ==> spec_verify_at(token@, secret@, now) is None,
    {
        let n = token.unicode_len();
        let i = match find_char_from(token, '.', 0) {
            Some(i) => i,
            None => {
                return Err(Error::E("invalid token".to_owned()));
            },
        };
        let j = match find_char_from(token, '.', i + 1) {
            Some(j) => j,
            None => {
                return Err(Error::E("invalid token".to_owned()));
            },
        };
        let msg = token.substring_char(0, j);
        let hseg = token.substring_char(0, i);
        let cseg = token.substring_char(i + 1, j);
        let sig = token.substring_char(j + 1, n);
        assert(msg@ =~= token@.take(j as int));
        assert(hseg@ =~= token@.take(i as int));
        assert(cseg@ =~= token@.subrange(i + 1, j as int));
        assert(sig@ =~= token@.skip(j + 1));
        match verify_hs256(sig, msg.as_bytes(), secret.as_bytes()) {
            Ok(true) => {},
            Ok(false) => {
                return Err(Error::E("invalid token".to_owned()));
            },
            Err(e) => {
                return Err(Error::Jwt(e));
            },
        }
        let hb = match b64_decode(hseg) {
            Some(v) => v,
            None => {
                return Err(Error::E("invalid token".to_owned()));
            },
        };
        let hv = header_vec();
        if !bytes_eq(hb.as_slice(), hv.as_slice()) {
            return Err(Error::E("invalid token".to_owned()));
        }
        let cb = match b64_decode(cseg) {
            Some(v) => v,
            None => {
                return Err(Error::E("invalid token".to_owned()));
            },
        };
        let p = match parse_claims(cb.as_slice()) {
            Some(p) => p,
            None => {
                return Err(Error::E("invalid token".to_owned()));
            },
        };
        let ghost raw = crate::claims_codec::raw_of_parsed(p);
        let ParsedClaims { id, username: ub, perms: pb, exp, iat, aud: ab } = p;
        if !bytes_eq(ab.as_slice(), "rust_admin".as_bytes()) {
            return Err(Error::E("invalid token".to_owned()));
        }
        if exp < now {
            return Err(Error::E("invalid token".to_owned()));
        }
        let username = match bytes_to_string(ub) {
            Some(s) => s,
            None => {
                return Err(Error::E("invalid token".to_owned()));
            },
        };
        let aud = match bytes_to_string(ab) {
            Some(s) => s,
            None => {
                proof {
                    encode_utf8_valid_utf8(aud_chars());
                }
                return Err(Error::E("invalid token".to_owned()));
            },
        };
        let mut permissions: Vec<String> = Vec::new();
        let np = pb.len();
        let mut k: usize = 0;
        while k < np
            invariant
                k <= np == pb@.len(),
                raw.perms == crate::claims_codec::views_of(pb@),
                permissions@.len() == k,
                forall|m: int| 0 <= m < k ==> valid_utf8(#[trigger] raw.perms[m]),
                forall|m: int|
                    0 <= m < k ==> encode_utf8(#[trigger] permissions@[m]@) == raw.perms[m],
            decreases np - k,
        {
            let e = pb[k].clone();
            assert(e@ == raw.perms[k as int]);
            match bytes_to_string(e) {
                Some(s) => {
                    permissions.push(s);
                },
                None => {
                    proof {
                        assert(!valid_utf8(raw.perms[k as int]));
                        assert(exists|m: int|
                            0 <= m < raw.perms.len() && !valid_utf8(#[trigger] raw.perms[m]));
                        assert(claims_of_raw(raw, now) is None);
                    }
                    return Err(Error::E("invalid token".to_owned()));
                },
            }
            k = k + 1;
        }
        let t = JWTToken { id, username, permissions, exp, iat, aud };
        proof {
            broadcast use encode_utf8_decode_utf8;

            assert(raw.aud == encode_utf8(aud_chars()));
            assert(t@.aud == decode_utf8(raw.aud));
            assert(t@.username == decode_utf8(raw.username));
            assert(t@.permissions =~= raw.perms.map_values(|b: Seq<u8>| decode_utf8(b)));
            assert(spec_verify_at(token@, secret@, now) == Some(t@));
        }
        Ok(t)
    }

    /// Verifies `token` against `secret` at the present moment.
    pub fn verify(secret: &str, token: &str) -> (r: Result<JWTToken, Error>)
        ensures
            r matches Ok(c) ==> exists|t: u64| spec_verify_at(token@, secret@, t) == Some(c@),
    {
        let now = get_timestamp();
        let r = Self::verify_at(secret, token, now);
        proof {
            if r is Ok {
                assert(spec_verify_at(token@, secret@, now) == Some((r->Ok_0)@));
            }
        }
        r
    }

    /// Seconds of validity these claims still have at `now`.
    pub open spec fn remaining_validity(c: ClaimsView, now: u64) -> int {
        if c.exp > now {
            c.exp - now
        } else {
            0
        }
    }

    /// The same identity and permissions, re-stamped at `now` and bound to
    /// this system's audience tag.
    pub open spec fn refreshed_claims(c: ClaimsView, now: u64) -> ClaimsView {
        ClaimsView { iat: now, exp: (now + JWT_VALIDITY_SECS) as u64, aud: aud_chars(), ..c }
    }

    /// When the remaining validity at `now` has dropped below
    /// `refresh_window`, a fresh token carrying the same subject id,
    /// username and permission set; otherwise nothing. Advisory: the caller
    /// must hand a produced token back to the client.
    pub fn check_refresh(&self, secret: &str, refresh_window: u64, now: u64) -> (r: Result<
        Option<String>,
        Error,
    >)
        requires
            now <= u64::MAX - JWT_VALIDITY_SECS,
        ensures
            r is Ok,
            r matches Ok(Some(t)) ==> Self::remaining_validity(self@, now) < refresh_window && t@
                == token_of(Self::refreshed_claims(self@, now), secret@),
            r matches Ok(None) ==> Self::remaining_validity(self@, now) >= refresh_window,
    {
        let remaining: u64 = if self.exp > now {
            self.exp - now
        } else {
            0
        };
        if remaining < refresh_window {
            let fresh = Self::new_at(
                self.id,
                self.username.as_str(),
                clone_strings(&self.permissions),
                now,
            );
            proof {
                assert(fresh@.permissions =~= self@.permissions);
                assert(fresh@ == Self::refreshed_claims(self@, now));
            }
            match fresh.create_token(secret) {
                Ok(t) => Ok(Some(t)),
                Err(e) => Err(e),
            }
        } else {
            Ok(None)
        }
    }
}

/// A token for claims `c` under `secret` parses back through every
/// verification step; what verification yields at `now` is exactly what
/// [`claims_of_raw`] says of its fields.
proof fn lemma_token_verifies(c: ClaimsView, secret: Seq<char>, now: u64)
    ensures
        spec_verify_at(token_of(c, secret), secret, now) == claims_of_raw(raw_of_view(c), now),
{
    let tok = token_of(c, secret);
    let h64 = b64_of(header_bytes());
    let c64 = b64_of(json_of_claims(c));
    let msg = message_of(c);
    let sig = hmac_sig_of(encode_utf8(msg), encode_utf8(secret));
    lemma_b64_chars(header_bytes());
    lemma_b64_chars(json_of_claims(c));
    let i = h64.len() as int;
    let j = msg.len() as int;
    assert(tok[i] == '.');
    assert(tok[j] == '.');
    assert forall|m: int| 0 <= m < i implies tok[m] != '.' by {
        assert(tok[m] == h64[m]);
    }
    assert forall|m: int| i + 1 <= m < j implies tok[m] != '.' by {
        assert(tok[m] == c64[m - i - 1]);
    }
    lemma_find_char_exact(tok, '.', 0, i);
    lemma_find_char_exact(tok, '.', i + 1, j);
    assert(tok.take(j) =~= msg);
    assert(tok.take(i) =~= h64);
    assert(tok.subrange(i + 1, j) =~= c64);
    assert(tok.skip(j + 1) =~= sig);
    lemma_b64_roundtrip(header_bytes());
    lemma_b64_roundtrip(json_of_claims(c));
    lemma_parse_claims_roundtrip(c);
}

/// Round trip: a token issued for claims bound to this system's audience
/// verifies under the same secret at any time not past its expiry, and
/// yields exactly the claims that were issued.
pub proof fn lemma_verify_issue_roundtrip(c: ClaimsView, secret: Seq<char>, now: u64)
    requires
        c.aud == aud_chars(),
        now <= c.exp,
    ensures
        spec_verify_at(token_of(c, secret), secret, now) == Some(c),
{
    lemma_token_verifies(c, secret, now);
    let raw = raw_of_view(c);
    broadcast use encode_utf8_decode_utf8;
    broadcast use encode_utf8_valid_utf8;

    assert(raw.aud == encode_utf8(aud_chars()));
    assert(decode_utf8(raw.username) == c.username);
    assert(decode_utf8(raw.aud) == c.aud);
    assert forall|k: int| 0 <= k < raw.perms.len() implies valid_utf8(#[trigger] raw.perms[k]) by {
        assert(raw.perms[k] == encode_utf8(c.permissions[k]));
    }
    assert(raw.perms.map_values(|b: Seq<u8>| decode_utf8(b)) =~= c.permissions);
    assert(claims_of_raw(raw, now).unwrap() == c);
}

/// A token whose expiry lies in the past is rejected at `now`, though its
/// signature is valid.
pub proof fn lemma_expired_token_rejected(c: ClaimsView, secret: Seq<char>, now: u64)
    requires
        c.exp < now,
    ensures
        spec_verify_at(token_of(c, secret), secret, now) is None,
{
    lemma_token_verifies(c, secret, now);
}

} // verus!
