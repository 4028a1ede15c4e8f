use abs_admin::auth::{auth, AuthOutcome};
use abs_admin::jwt_util::JWTToken;

fn expect_ok<T>(r: Result<T, abs_admin::error::Error>) -> T {
    match r {
        Ok(v) => v,
        Err(e) => panic!("unexpected error: {}", e.msg()),
    }
}

fn bearer(token: &str) -> String {
    format!("Bearer {}", token)
}

fn token_for(perms: &[&str], secret: &str, now: u64) -> String {
    let perms: Vec<String> = perms.iter().map(|p| p.to_string()).collect();
    let jwt = JWTToken::new_at(42, "alice", perms, now);
    expect_ok(jwt.create_token(secret))
}

#[test]
fn admission_admits_login_path_without_header() {
    match auth("/api/login", None, "secret", 600, 100) {
        AuthOutcome::Admit { context, refreshed_token } => {
            assert!(context.is_none());
            assert!(refreshed_token.is_none());
        },
        AuthOutcome::Reject => panic!("the login path must pass"),
    }
}

#[test]
fn admission_rejects_missing_or_malformed_header() {
    assert!(matches!(auth("/api/user_list", None, "secret", 600, 100), AuthOutcome::Reject));
    let garbage = "not a token at all".to_string();
    assert!(matches!(
        auth("/api/user_list", Some(&garbage), "secret", 600, 100),
        AuthOutcome::Reject
    ));
    let empty = String::new();
    assert!(matches!(
        auth("/api/user_list", Some(&empty), "secret", 600, 100),
        AuthOutcome::Reject
    ));
}

#[test]
fn admission_rejects_foreign_signature() {
    let header = bearer(&token_for(&["/api/user_list"], "other-secret", 100));
    assert!(matches!(
        auth("/api/user_list", Some(&header), "secret", 600, 100),
        AuthOutcome::Reject
    ));
}

#[test]
fn admission_rejects_unlisted_path() {
    let header = bearer(&token_for(&["/api/role_list"], "secret", 100));
    assert!(matches!(
        auth("/api/user_list", Some(&header), "secret", 600, 100),
        AuthOutcome::Reject
    ));
    // exact string equality: a prefix does not pass
    let header = bearer(&token_for(&["/api/user_list/extra"], "secret", 100));
    assert!(matches!(
        auth("/api/user_list", Some(&header), "secret", 600, 100),
        AuthOutcome::Reject
    ));
}

#[test]
fn admission_admits_listed_path_with_context() {
    let header = bearer(&token_for(&["/api/user_list", "/api/role_list"], "secret", 100));
    match auth("/api/user_list", Some(&header), "secret", 600, 100) {
        AuthOutcome::Admit { context, refreshed_token } => {
            assert_eq!(context.expect("identity context").id, 42);
            assert!(refreshed_token.is_none());
        },
        AuthOutcome::Reject => panic!("the listed path must pass"),
    }
}

#[test]
fn admission_rejects_expired_token() {
    let header = bearer(&token_for(&["/api/user_list"], "secret", 100));
    let past_expiry = 100 + 1800000 + 1;
    assert!(matches!(
        auth("/api/user_list", Some(&header), "secret", 600, past_expiry),
        AuthOutcome::Reject
    ));
}

#[test]
fn admission_rotates_near_expiry_token() {
    let issued = 100u64;
    let header = bearer(&token_for(&["/api/user_list"], "secret", issued));
    let near_expiry = issued + 1800000 - 10;
    match auth("/api/user_list", Some(&header), "secret", 600, near_expiry) {
        AuthOutcome::Admit { context, refreshed_token } => {
            assert_eq!(context.expect("identity context").id, 42);
            let fresh = refreshed_token.expect("a fresh token was due");
            let claims = expect_ok(JWTToken::verify_at("secret", &fresh, near_expiry));
            assert_eq!(claims.id, 42);
            assert_eq!(claims.permissions, vec!["/api/user_list".to_string()]);
            assert_eq!(claims.iat, near_expiry);
        },
        AuthOutcome::Reject => panic!("a valid near-expiry token must pass"),
    }
}
