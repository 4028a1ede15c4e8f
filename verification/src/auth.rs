//! The admission check of the middleware chain: it admits every request to the login path, and any other
//! request only on a bearer token that verifies and whose embedded
//! permission list holds the exact request path; near-expiry tokens are
//! rotated on the way through.

use vstd::prelude::*;
use crate::jwt_util::{JWTToken, spec_verify_at, token_of, JWT_VALIDITY_SECS};
use crate::strutil::{spec_starts_with, starts_with, replace_chars, replace_all_str, str_eq};

verus! {

/// The identity context attached to an admitted request.
pub struct UserContext {
    pub id: u64,
}

/// What the admission check decides for one request.
pub enum AuthOutcome {
    /// Forward the request, with the subject's context where a token was
    /// checked, and a fresh token to hand back where one was produced.
    Admit { context: Option<UserContext>, refreshed_token: Option<String> },
    /// Reject the request as unauthorized.
    Reject,
}

/// The decision, abstractly: whom to admit and whether the token
/// was due for rotation.
pub enum AdmissionDecision {
    Admit { user: Option<u64>, refresh: bool },
    Reject,
}

/// The token offered by an authorization header: its value with every
/// `Bearer ` occurrence removed, as the header is conventionally written.
pub open spec fn bearer_token(h: Seq<char>) -> Seq<char> {
    replace_chars(h, "Bearer "@, ""@)
}

/// The decision for a request: the login path passes untouched;
/// elsewhere the header must be present, its token must verify at `now`,
/// and the request path must stand, character for character, in the
/// token's permission list.
pub open spec fn spec_admission(
    path: Seq<char>,
    header: Option<Seq<char>>,
    secret: Seq<char>,
    refresh_window: u64,
    now: u64,
) -> AdmissionDecision {
    if spec_starts_with(path, "/api/login"@) {
        AdmissionDecision::Admit { user: None, refresh: false }
    } else {
        match header {
            None => AdmissionDecision::Reject,
            Some(h) => match spec_verify_at(bearer_token(h), secret, now) {
                None => AdmissionDecision::Reject,
                Some(c) => if c.permissions.contains(path) {
                    AdmissionDecision::Admit {
                        user: Some(c.id),
                        refresh: JWTToken::remaining_validity(c, now) < refresh_window,
                    }
                } else {
                    AdmissionDecision::Reject
                },
            },
        }
    }
}

/// Runs the admission check for one request, as [`spec_admission`] says. A produced fresh
/// token carries the verified token's subject and permissions, re-stamped
/// at `now`; the caller must hand it back to the client.
#[verifier::rlimit(100)]
pub fn auth(
    path: &str,
    auth_header: Option<&String>,
    jwt_secret: &str,
    jwt_refresh_token: u64,
    now: u64,
) -> (r: AuthOutcome)
    requires
        now <= u64::MAX - JWT_VALIDITY_SECS,
    ensures
        ({
            let hv = match auth_header {
                Some(h) => Some(h@),
                None => None,
            };
            let d = spec_admission(path@, hv, jwt_secret@, jwt_refresh_token, now);
            &&& (r is Reject <==> d is Reject)
            &&& (r matches AuthOutcome::Admit { context, refreshed_token } ==> (d
                matches AdmissionDecision::Admit { user, refresh } && (match context {
                Some(ctx) => user == Some(ctx.id),
                None => user is None,
            }) && (refreshed_token is Some <==> refresh)))
            &&& (r matches AuthOutcome::Admit { context, refreshed_token } ==> (refreshed_token
                matches Some(t) ==> (hv matches Some(h) && spec_verify_at(
                bearer_token(h),
                jwt_secret@,
                now,
            ) matches Some(c) && t@ == token_of(
                JWTToken::refreshed_claims(c, now),
                jwt_secret@,
            ))))
        }),
{
    if starts_with(path, "/api/login") {
        return AuthOutcome::Admit { context: None, refreshed_token: None };
    }
    let h = match auth_header {
        Some(h) => h,
        None => {
            return AuthOutcome::Reject;
        },
    };
    proof {
        reveal_strlit("Bearer ");
    }
    let token = replace_all_str(h.as_str(), "Bearer ", "");
    let jwt = match JWTToken::verify_at(jwt_secret, token.as_str(), now) {
        Ok(j) => j,
        Err(_) => {
            return AuthOutcome::Reject;
        },
    };
    let refreshed = match jwt.check_refresh(jwt_secret, jwt_refresh_token, now) {
        Ok(o) => o,
        Err(_) => None,
    };
    let n = jwt.permissions.len();
    let mut found = false;
    let mut i: usize = 0;
    while i < n
        invariant
            i <= n == jwt.permissions@.len(),
            found == exists|j: int|
                0 <= j < i && #[trigger] jwt.permissions.deep_view()[j] == path@,
        decreases n - i,
    {
        if str_eq(jwt.permissions[i].as_str(), path) {
            found = true;
            proof {
                assert(jwt.permissions.deep_view()[i as int] == path@);
            }
            i = n;
        } else {
            i = i + 1;
        }
    }
    if found {
        proof {
            assert(jwt@.permissions.contains(path@));
        }
        AuthOutcome::Admit {
            context: Some(UserContext { id: jwt.id }),
            refreshed_token: refreshed,
        }
    } else {
        proof {
            assert(!jwt@.permissions.contains(path@)) by {
                if jwt@.permissions.contains(path@) {
                    let j = choose|j: int|
                        0 <= j < jwt@.permissions.len() && jwt@.permissions[j] == path@;
                    assert(jwt.permissions.deep_view()[j] == path@);
                }
            }
        }
        AuthOutcome::Reject
    }
}

/// The admission check admits a request to the login path, an authorization header
/// present or not, and attaches no identity context to it.
pub proof fn lemma_admission_admits_login_path(
    path: Seq<char>,
    header: Option<Seq<char>>,
    secret: Seq<char>,
    refresh_window: u64,
    now: u64,
)
    requires
        spec_starts_with(path, "/api/login"@),
    ensures
        spec_admission(path, header, secret, refresh_window, now) matches AdmissionDecision::Admit {
            user,
            refresh,
        } && user is None,
{
}

/// The admission check rejects a request to any other path when the authorization
/// header is absent.
pub proof fn lemma_admission_rejects_without_header(
    path: Seq<char>,
    secret: Seq<char>,
    refresh_window: u64,
    now: u64,
)
    requires
        !spec_starts_with(path, "/api/login"@),
    ensures
        spec_admission(path, None, secret, refresh_window, now) is Reject,
{
}

/// The admission check rejects a request to any other path when the header's token
/// does not verify: malformed, mis-signed or expired alike.
pub proof fn lemma_admission_rejects_invalid_token(
    path: Seq<char>,
    h: Seq<char>,
    secret: Seq<char>,
    refresh_window: u64,
    now: u64,
)
    requires
        !spec_starts_with(path, "/api/login"@),
        spec_verify_at(bearer_token(h), secret, now) is None,
    ensures
        spec_admission(path, Some(h), secret, refresh_window, now) is Reject,
{
}

/// The admission check rejects a request whose path does not stand in the verified
/// token's permission list.
pub proof fn lemma_admission_rejects_unlisted_path(
    path: Seq<char>,
    h: Seq<char>,
    secret: Seq<char>,
    refresh_window: u64,
    now: u64,
)
    requires
        !spec_starts_with(path, "/api/login"@),
        spec_verify_at(bearer_token(h), secret, now) matches Some(c) && !c.permissions.contains(
            path,
        ),
    ensures
        spec_admission(path, Some(h), secret, refresh_window, now) is Reject,
{
}

} // verus!
