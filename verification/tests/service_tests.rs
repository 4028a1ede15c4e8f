use abs_admin::cache_service::{CacheService, MemCacheService};
use abs_admin::config::Config;
use abs_admin::jwt_util::JWTToken;
use abs_admin::model::SysUser;
use abs_admin::user_service::{
    build_user_role_rows, check_password_update, collect_api_paths, filter_reserved_user_ids,
    login, query_btn_menu,
};
use abs_admin::vo::UserLoginReq;

fn expect_ok<T>(r: Result<T, abs_admin::error::Error>) -> T {
    match r {
        Ok(v) => v,
        Err(e) => panic!("unexpected error: {}", e.msg()),
    }
}

fn urls(items: &[Option<&str>]) -> Vec<Option<String>> {
    items.iter().map(|o| o.map(|s| s.to_string())).collect()
}

fn account(status_id: i32) -> Option<SysUser> {
    Some(SysUser {
        id: Some(42),
        user_name: "alice".to_string(),
        password: "stored-hash".to_string(),
        status_id,
    })
}

#[test]
fn collect_paths_dedups_and_drops_empty() {
    let v = urls(&[Some("/a"), Some(""), None, Some("/b"), Some("/a"), Some("/b")]);
    let r = collect_api_paths(&v);
    assert_eq!(r, vec!["/a".to_string(), "/b".to_string()]);
}

#[test]
fn superuser_resolves_all_menu_paths() {
    let menus = urls(&[Some("/api/user_list"), Some("/api/role_list"), None, Some("")]);
    let roles_a = urls(&[Some("/api/other")]);
    let roles_b = urls(&[]);
    let via_a = query_btn_menu(true, &menus, &roles_a);
    let via_b = query_btn_menu(true, &menus, &roles_b);
    assert_eq!(via_a, via_b);
    assert_eq!(via_a, vec!["/api/user_list".to_string(), "/api/role_list".to_string()]);
}

#[test]
fn ordinary_identity_resolves_role_paths() {
    // a menu reachable only via role 7
    let menus = urls(&[Some("/api/user_list"), Some("/api/role_list")]);
    let with_role_7 = urls(&[Some("/api/user_list")]);
    let without_roles = urls(&[]);
    let r = query_btn_menu(false, &menus, &with_role_7);
    assert!(r.contains(&"/api/user_list".to_string()));
    let r = query_btn_menu(false, &menus, &without_roles);
    assert!(!r.contains(&"/api/user_list".to_string()));
}

#[test]
fn login_without_permissions_is_rejected() {
    let mut cache: CacheService<MemCacheService> = expect_ok(CacheService::new("mem"));
    let item = UserLoginReq { mobile: "+1".to_string(), password: "pw".to_string() };
    let menus = urls(&[Some("/api/user_list")]);
    let no_roles = urls(&[]);
    let r = login(
        &mut cache, 3, 60, "secret", &item, &account(1), true, false, &menus, &no_roles, 100,
    );
    assert_eq!(r.unwrap_err().msg(), "no permissions assigned");
}

#[test]
fn login_success_embeds_resolved_permissions() {
    let mut cache: CacheService<MemCacheService> = expect_ok(CacheService::new("mem"));
    let item = UserLoginReq { mobile: "+1".to_string(), password: "pw".to_string() };
    let menus = urls(&[Some("/api/user_list"), Some("/api/role_list")]);
    let roles = urls(&[Some("/api/user_list")]);
    let token = expect_ok(login(
        &mut cache, 3, 60, "secret", &item, &account(1), true, false, &menus, &roles, 100,
    ));
    let claims = expect_ok(JWTToken::verify_at("secret", &token, 100));
    assert_eq!(claims.id, 42);
    assert_eq!(claims.username, "alice");
    assert_eq!(claims.permissions, vec!["/api/user_list".to_string()]);
    assert!(claims.permissions.len() > 0);
}

#[test]
fn login_credential_failures() {
    let mut cache: CacheService<MemCacheService> = expect_ok(CacheService::new("mem"));
    let item = UserLoginReq { mobile: "+1".to_string(), password: "pw".to_string() };
    let menus = urls(&[Some("/a")]);
    let roles = urls(&[Some("/a")]);
    let r = login(&mut cache, 3, 60, "s", &item, &None, false, false, &menus, &roles, 0);
    assert_eq!(r.unwrap_err().msg(), "user not found");
    let r = login(&mut cache, 3, 60, "s", &item, &account(1), false, false, &menus, &roles, 1);
    assert_eq!(r.unwrap_err().msg(), "wrong password");
    let r = login(&mut cache, 3, 60, "s", &item, &account(0), true, false, &menus, &roles, 2);
    assert_eq!(r.unwrap_err().msg(), "account disabled");
    // three failures recorded: the next attempt is rate limited
    let r = login(&mut cache, 3, 60, "s", &item, &account(1), true, false, &menus, &roles, 3);
    assert_eq!(r.unwrap_err().msg(), "too many attempts, retry in 59s");
}

#[test]
fn login_end_to_end_throttle_window() {
    // account "+10000000000", 3 attempts, 60-second cool-down
    let mut cache: CacheService<MemCacheService> = expect_ok(CacheService::new("mem"));
    let item = UserLoginReq {
        mobile: "+10000000000".to_string(),
        password: "wrong".to_string(),
    };
    let menus = urls(&[Some("/api/user_list")]);
    let roles = urls(&[Some("/api/user_list")]);
    let t0 = 1000u64;
    for k in 0..3u64 {
        let r = login(
            &mut cache, 3, 60, "s", &item, &account(1), false, false, &menus, &roles, t0 + k,
        );
        assert_eq!(r.unwrap_err().msg(), "wrong password");
    }
    // a 4th attempt within the window is rejected with 0 < wait <= 60
    let r = login(
        &mut cache, 3, 60, "s", &item, &account(1), false, false, &menus, &roles, t0 + 3,
    );
    let msg = r.unwrap_err().msg();
    assert_eq!(msg, "too many attempts, retry in 59s");
    // after the 60 seconds elapse, a correct-password attempt succeeds
    let good = UserLoginReq {
        mobile: "+10000000000".to_string(),
        password: "right".to_string(),
    };
    let r = login(
        &mut cache, 3, 60, "s", &good, &account(1), true, false, &menus, &roles, t0 + 2 + 60,
    );
    assert!(r.is_ok());
}

#[test]
fn user_role_rows_and_reserved_guard() {
    let rows = expect_ok(build_user_role_rows(7, &vec![2, 3], Some("t".to_string())));
    assert_eq!(rows.len(), 2);
    assert_eq!(rows[0].role_id, 2);
    assert_eq!(rows[1].role_id, 3);
    assert_eq!(rows[0].user_id, 7);
    assert!(build_user_role_rows(1, &vec![2], None).is_err());
    assert_eq!(filter_reserved_user_ids(&vec![1, 2, 1, 3]), vec![2, 3]);
}

#[test]
fn password_update_decision() {
    assert_eq!(check_password_update(&None, true).unwrap_err().msg(), "user not found");
    assert_eq!(
        check_password_update(&account(1), false).unwrap_err().msg(),
        "wrong old password"
    );
    assert!(check_password_update(&account(1), true).is_ok());
}

#[test]
fn load_config_test() {
    let config = Config::new();
    assert!(config.addr.len() > 0);
}

#[test]
fn coded_errors_instantiate_templates() {
    let mut config = Config::new();
    config.errors = vec![(
        "req_frequently".to_string(),
        "retry in {} seconds".to_string(),
    )];
    let e = config.get_error_arg("req_frequently", "59".to_string()).unwrap_err();
    assert_eq!(e.msg(), "req_frequently: retry in 59 seconds");
    let e = config.get_error("missing_code").unwrap_err();
    assert_eq!(e.msg(), "missing_code: unknown error");
}
