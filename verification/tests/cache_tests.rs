use abs_admin::cache_service::{CacheService, MemCacheService};
use abs_admin::login_service::{
    add_retry_login_limit_num, is_need_wait_login_ex, remove_retry_login_limit_num,
};

fn expect_ok<T>(r: Result<T, abs_admin::error::Error>) -> T {
    match r {
        Ok(v) => v,
        Err(e) => panic!("unexpected error: {}", e.msg()),
    }
}

fn mem_cache() -> CacheService<MemCacheService> {
    expect_ok(CacheService::new("mem"))
}

#[test]
fn test_cache_service() {
    let mut cache = mem_cache();
    let _ = cache.set_string("test", "123", 0, 100);
    let v = expect_ok(cache.get_string("test", 100));
    assert_eq!(v.as_deref(), Some("123"));
    let _ = cache.set_json_u64("test_json", 123, 0, 100);
    let v = expect_ok(cache.get_json_u64("test_json", 100));
    assert_eq!(v, Some(123));
}

#[test]
fn unknown_cache_type_rejected() {
    assert!(CacheService::new("redis").is_err());
    assert!(CacheService::new("bogus").is_err());
}

#[test]
fn cache_expiry_semantics() {
    let mut cache = mem_cache();
    expect_ok(cache.set_string("k", "v", 5, 100));
    assert_eq!(expect_ok(cache.get_string("k", 104)).as_deref(), Some("v"));
    assert_eq!(expect_ok(cache.get_string("k", 105)), None);
    assert_eq!(expect_ok(cache.ttl("k", 103)), 2);
    assert_eq!(expect_ok(cache.ttl("k", 105)), -2);
    assert_eq!(expect_ok(cache.ttl("missing", 100)), -2);
    expect_ok(cache.set_string("eternal", "x", 0, 100));
    assert_eq!(expect_ok(cache.ttl("eternal", 100_000)), -1);
    // overwrite refreshes value and expiry
    expect_ok(cache.set_string("k", "w", 10, 200));
    assert_eq!(expect_ok(cache.get_string("k", 209)).as_deref(), Some("w"));
    // remove reports whether a live entry was present
    assert!(expect_ok(cache.remove("k", 205)));
    assert!(!expect_ok(cache.remove("k", 205)));
    assert_eq!(expect_ok(cache.get_string("k", 205)), None);
}

#[test]
fn throttle_counts_and_cools_down() {
    let mut cache = mem_cache();
    let account = "+10000000000";
    // below the threshold: proceed with the current count
    assert_eq!(expect_ok(is_need_wait_login_ex(&cache, 3, account, 0)), 0);
    expect_ok(add_retry_login_limit_num(&mut cache, 3, 60, account, 0));
    assert_eq!(expect_ok(is_need_wait_login_ex(&cache, 3, account, 1)), 1);
    expect_ok(add_retry_login_limit_num(&mut cache, 3, 60, account, 1));
    expect_ok(add_retry_login_limit_num(&mut cache, 3, 60, account, 2));
    // at the threshold within the cool-down: rejected with the seconds left
    let e = is_need_wait_login_ex(&cache, 3, account, 3).unwrap_err();
    assert_eq!(e.msg(), "too many attempts, retry in 59s");
    // the wait never grows as time passes
    let e = is_need_wait_login_ex(&cache, 3, account, 30).unwrap_err();
    assert_eq!(e.msg(), "too many attempts, retry in 32s");
    // once the cool-down elapsed, the attempt may proceed again
    assert_eq!(expect_ok(is_need_wait_login_ex(&cache, 3, account, 62)), 3);
}

#[test]
fn throttle_disabled_with_zero_threshold() {
    let mut cache = mem_cache();
    expect_ok(add_retry_login_limit_num(&mut cache, 0, 60, "a", 0));
    assert_eq!(expect_ok(is_need_wait_login_ex(&cache, 0, "a", 0)), 0);
}

#[test]
fn clear_then_check_proceeds() {
    let mut cache = mem_cache();
    let account = "blocked";
    for t in 0..3u64 {
        expect_ok(add_retry_login_limit_num(&mut cache, 3, 60, account, t));
    }
    assert!(is_need_wait_login_ex(&cache, 3, account, 3).is_err());
    expect_ok(remove_retry_login_limit_num(&mut cache, 3, account, 3));
    assert_eq!(expect_ok(is_need_wait_login_ex(&cache, 3, account, 3)), 0);
}
