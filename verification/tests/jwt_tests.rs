use abs_admin::jwt_util::JWTToken;

fn expect_ok<T>(r: Result<T, abs_admin::error::Error>) -> T {
    match r {
        Ok(v) => v,
        Err(e) => panic!("unexpected error: {}", e.msg()),
    }
}

#[test]
fn test_jwt() {
    let jwt = JWTToken::new(1, "code", vec![]);
    let res = jwt.create_token("123");
    assert!(res.is_ok());
    let token = JWTToken::verify("123", &expect_ok(res));
    assert!(token.is_ok());
    let claims = expect_ok(token);
    assert_eq!(claims.id, 1);
    assert_eq!(claims.username, "code");
    assert!(claims.permissions.is_empty());
}

#[test]
fn issue_verify_roundtrip() {
    let perms = vec!["/api/user_list".to_string(), "/api/role_list".to_string()];
    let jwt = JWTToken::new_at(42, "alice", perms.clone(), 1000);
    let token = expect_ok(jwt.create_token("secret"));
    let claims = expect_ok(JWTToken::verify_at("secret", &token, 1000));
    assert_eq!(claims.id, 42);
    assert_eq!(claims.username, "alice");
    assert_eq!(claims.permissions, perms);
    assert_eq!(claims.iat, 1000);
    assert_eq!(claims.exp, 1000 + 1800000);
    assert!(claims.exp > claims.iat);
}

#[test]
fn roundtrip_with_awkward_characters() {
    let perms = vec![
        "/api/with\"quote".to_string(),
        "/api/back\\slash".to_string(),
        "/api/tab\tand\nnewline".to_string(),
        "/api/中文路径".to_string(),
    ];
    let jwt = JWTToken::new_at(7, "na\"me\\π中", perms.clone(), 5000);
    let token = expect_ok(jwt.create_token("s3cr3t"));
    let claims = expect_ok(JWTToken::verify_at("s3cr3t", &token, 5000));
    assert_eq!(claims.username, "na\"me\\π中");
    assert_eq!(claims.permissions, perms);
}

#[test]
fn expired_token_rejected() {
    let jwt = JWTToken::new_at(1, "bob", vec!["/a".to_string()], 1000);
    let token = expect_ok(jwt.create_token("k"));
    // valid until its expiry moment
    assert!(JWTToken::verify_at("k", &token, 1000 + 1800000).is_ok());
    // past it, rejected though the signature is valid
    assert!(JWTToken::verify_at("k", &token, 1000 + 1800000 + 1).is_err());
}

#[test]
fn wrong_secret_rejected() {
    let jwt = JWTToken::new_at(1, "bob", vec!["/a".to_string()], 1000);
    let token = expect_ok(jwt.create_token("right"));
    assert!(JWTToken::verify_at("wrong", &token, 1000).is_err());
}

#[test]
fn tampered_token_rejected() {
    let jwt = JWTToken::new_at(1, "bob", vec!["/a".to_string()], 1000);
    let token = expect_ok(jwt.create_token("k"));
    let mut tampered = token.clone();
    let flipped = if tampered.ends_with('A') { 'B' } else { 'A' };
    tampered.pop();
    tampered.push(flipped);
    assert!(JWTToken::verify_at("k", &tampered, 1000).is_err());
    assert!(JWTToken::verify_at("k", "garbage", 1000).is_err());
    assert!(JWTToken::verify_at("k", "a.b.c", 1000).is_err());
    assert!(JWTToken::verify_at("k", "", 1000).is_err());
}

#[test]
fn signature_matches_jwt_library() {
    // The token's signature must be exactly what the JWT library computes
    // over its first two segments.
    let jwt = JWTToken::new_at(9, "carol", vec!["/x".to_string()], 777);
    let token = expect_ok(jwt.create_token("hmac-key"));
    let last_dot = token.rfind('.').unwrap();
    let (message, sig) = token.split_at(last_dot);
    let sig = &sig[1..];
    let ok = jsonwebtoken::crypto::verify(
        sig,
        message.as_bytes(),
        &jsonwebtoken::DecodingKey::from_secret(b"hmac-key"),
        jsonwebtoken::Algorithm::HS256,
    )
    .unwrap();
    assert!(ok);
    let bad = jsonwebtoken::crypto::verify(
        sig,
        message.as_bytes(),
        &jsonwebtoken::DecodingKey::from_secret(b"other-key"),
        jsonwebtoken::Algorithm::HS256,
    )
    .unwrap();
    assert!(!bad);
}

#[test]
fn check_refresh_near_expiry() {
    let jwt = JWTToken::new_at(5, "dora", vec!["/p".to_string()], 1000);
    // plenty of validity left: nothing to do
    let r = expect_ok(jwt.check_refresh("k", 600, 1000));
    assert!(r.is_none());
    // close to expiry: a fresh token with the same identity comes back
    let late = 1000 + 1800000 - 10;
    let r = expect_ok(jwt.check_refresh("k", 600, late));
    let fresh = r.expect("a fresh token was due");
    let claims = expect_ok(JWTToken::verify_at("k", &fresh, late));
    assert_eq!(claims.id, 5);
    assert_eq!(claims.username, "dora");
    assert_eq!(claims.permissions, vec!["/p".to_string()]);
    assert_eq!(claims.iat, late);
    assert_eq!(claims.exp, late + 1800000);
}
