//! The login throttle: a per-account failure counter and an independent
//! cool-down window, both derived entirely from cache reads and writes.
//!
//! The counter key accumulates consecutive failures under its own expiry;
//! the cool-down key only matters while the counter stands at or above the
//! configured threshold.

use vstd::prelude::*;
use crate::cache_service::{CacheService, ICacheService, CacheEntrySpec, entry_written,
    spec_cache_get, spec_cache_ttl};
use crate::decimal::{dec_chars_of, spec_parse_u64_chars, lemma_parse_u64_chars_roundtrip,
    u64_to_string};
use crate::error::Error;

verus! {

/// Seconds that failures keep accumulating before the counter resets.
pub const RETRY_COUNTER_TTL_SECS: u64 = 900;

/// The cache key of the failure counter for an account.
pub open spec fn retry_key_chars(account: Seq<char>) -> Seq<char> {
    "login:login_retry"@ + account
}

/// The cache key of the cool-down entry for an account.
pub open spec fn retry_ttl_key_chars(account: Seq<char>) -> Seq<char> {
    "login:login_retry_ttl"@ + account
}

fn retry_key(account: &str) -> (r: String)
    ensures
        r@ == retry_key_chars(account@),
{
    let mut k = "login:login_retry".to_owned();
    k.append(account);
    k
}

fn retry_ttl_key(account: &str) -> (r: String)
    ensures
        r@ == retry_ttl_key_chars(account@),
{
    let mut k = "login:login_retry_ttl".to_owned();
    k.append(account);
    k
}

/// The failure counter an account stands at in cache state `m` at `now`:
/// 0 when the entry is absent or expired, its decimal value when it parses,
/// nothing when the stored value is no number.
pub open spec fn spec_counter(
    m: Map<Seq<char>, CacheEntrySpec>,
    account: Seq<char>,
    now: u64,
) -> Option<u64> {
    match spec_cache_get(m, retry_key_chars(account), now) {
        None => Some(0),
        Some(ch) => spec_parse_u64_chars(ch),
    }
}

/// The remaining cool-down of an account, with the ttl sentinels.
pub open spec fn spec_wait_sec(
    m: Map<Seq<char>, CacheEntrySpec>,
    account: Seq<char>,
    now: u64,
) -> int {
    spec_cache_ttl(m, retry_ttl_key_chars(account), now)
}

/// The check's outcome in cache state `m`: `Some(wait)` rejects with that
/// many seconds to wait, `None` proceeds.
pub open spec fn spec_check(
    m: Map<Seq<char>, CacheEntrySpec>,
    login_fail_retry: u64,
    account: Seq<char>,
    now: u64,
) -> Option<int> {
    if login_fail_retry == 0 {
        None
    } else {
        match spec_counter(m, account, now) {
            Some(n) => if n >= login_fail_retry && spec_wait_sec(m, account, now) > 0 {
                Some(spec_wait_sec(m, account, now))
            } else {
                None
            },
            None => None,
        }
    }
}

/// A counter incremented by one more failure, saturating at the top.
pub open spec fn inc_counter(n: u64) -> u64 {
    if n == u64::MAX {
        n
    } else {
        (n + 1) as u64
    }
}

/// The cache state after one recorded failure at `now`: the counter is
/// rewritten under the accumulation window and the cool-down entry under
/// the configured wait.
pub open spec fn spec_record(
    m: Map<Seq<char>, CacheEntrySpec>,
    n: u64,
    login_fail_retry_wait_sec: u64,
    account: Seq<char>,
    now: u64,
) -> Map<Seq<char>, CacheEntrySpec> {
    m.insert(
        retry_key_chars(account),
        entry_written(dec_chars_of(inc_counter(n)), RETRY_COUNTER_TTL_SECS, now),
    ).insert(
        retry_ttl_key_chars(account),
        entry_written(dec_chars_of(inc_counter(n)), login_fail_retry_wait_sec, now),
    )
}

/// The rate-limit message carrying the remaining wait.
pub open spec fn rate_limit_msg(wait: int) -> Seq<char> {
    "too many attempts, retry in "@ + dec_chars_of(wait as u64) + "s"@
}

fn rate_limit_msg_string(wait: i64) -> (r: String)
    requires
        wait > 0,
    ensures
        r@ == rate_limit_msg(wait as int),
{
    let mut m = "too many attempts, retry in ".to_owned();
    let w = u64_to_string(wait as u64);
    m.append(w.as_str());
    m.append("s");
    assert(m@ =~= rate_limit_msg(wait as int));
    m
}

/// Decides whether an account may attempt a login at `now`. With the
/// threshold 0 throttling is off. Below the threshold the current count
/// comes back. At or above it, a still-running cool-down rejects with the
/// seconds left to wait; an elapsed one lets the attempt proceed.
pub fn is_need_wait_login_ex<C: ICacheService>(
    cache: &CacheService<C>,
    login_fail_retry: u64,
    account: &str,
    now: u64,
) -> (r: Result<u64, Error>)
    ensures
        login_fail_retry == 0 ==> (r matches Ok(n) && n == 0),
        login_fail_retry > 0 ==> match r {
            Ok(num) => spec_counter(cache.inner.cache(), account@, now) == Some(num) && (
            cache.inner.infallible() ==> spec_check(
                cache.inner.cache(),
                login_fail_retry,
                account@,
                now,
            ) is None),
            Err(e) => cache.inner.infallible() ==> match e {
                Error::E(msg) => spec_check(cache.inner.cache(), login_fail_retry, account@, now)
                    matches Some(w) && msg@ == rate_limit_msg(w),
                _ => spec_counter(cache.inner.cache(), account@, now) is None,
            },
        },
{
    if login_fail_retry == 0 {
        return Ok(0);
    }
    let key = retry_key(account);
    let num = match cache.get_json_u64(key.as_str(), now) {
        Ok(Some(n)) => n,
        Ok(None) => 0,
        Err(e) => {
            return Err(e);
        },
    };
    if num >= login_fail_retry {
        let tkey = retry_ttl_key(account);
        let wait_sec: i64 = match cache.ttl(tkey.as_str(), now) {
            Ok(t) => t,
            Err(_) => 0,
        };
        if wait_sec > 0 {
            return Err(Error::E(rate_limit_msg_string(wait_sec)));
        }
    }
    Ok(num)
}

/// Records one failed login: reads the counter (absent meaning 0), writes
/// it back incremented under the accumulation window, and rewrites the
/// cool-down entry under the configured wait. With the threshold 0 nothing
/// is recorded.
pub fn add_retry_login_limit_num<C: ICacheService>(
    cache: &mut CacheService<C>,
    login_fail_retry: u64,
    login_fail_retry_wait_sec: u64,
    account: &str,
    now: u64,
) -> (r: Result<(), Error>)
    ensures
        final(cache).inner.infallible() == old(cache).inner.infallible(),
        login_fail_retry == 0 ==> r is Ok && final(cache).inner.cache() == old(
            cache,
        ).inner.cache(),
        login_fail_retry > 0 && old(cache).inner.infallible() ==> match spec_counter(
            old(cache).inner.cache(),
            account@,
            now,
        ) {
            Some(n) => r is Ok && final(cache).inner.cache() == spec_record(
                old(cache).inner.cache(),
                n,
                login_fail_retry_wait_sec,
                account@,
                now,
            ),
            None => r is Err,
        },
{
    if login_fail_retry == 0 {
        return Ok(());
    }
    let key = retry_key(account);
    let num = match cache.get_json_u64(key.as_str(), now) {
        Ok(Some(n)) => n,
        Ok(None) => 0,
        Err(e) => {
            return Err(e);
        },
    };
    let num = if num == u64::MAX {
        num
    } else {
        num + 1
    };
    match cache.set_json_u64(key.as_str(), num, RETRY_COUNTER_TTL_SECS, now) {
        Ok(_) => {},
        Err(e) => {
            return Err(e);
        },
    }
    let tkey = retry_ttl_key(account);
    match cache.set_json_u64(tkey.as_str(), num, login_fail_retry_wait_sec, now) {
        Ok(_) => {},
        Err(e) => {
            return Err(e);
        },
    }
    Ok(())
}

/// Clears the failure counter on a successful login. The cool-down entry
/// is left to expire on its own: it is inert once the counter is gone.
pub fn remove_retry_login_limit_num<C: ICacheService>(
    cache: &mut CacheService<C>,
    login_fail_retry: u64,
    account: &str,
    now: u64,
) -> (r: Result<(), Error>)
    ensures
        final(cache).inner.infallible() == old(cache).inner.infallible(),
        login_fail_retry == 0 ==> r is Ok && final(cache).inner.cache() == old(
            cache,
        ).inner.cache(),
        login_fail_retry > 0 && old(cache).inner.infallible() ==> r is Ok,
        login_fail_retry > 0 && r is Ok ==> final(cache).inner.cache() == old(
            cache,
        ).inner.cache().remove(retry_key_chars(account@)),
        login_fail_retry > 0 && r is Err ==> final(cache).inner.cache() == old(
            cache,
        ).inner.cache(),
{
    if login_fail_retry == 0 {
        return Ok(());
    }
    let key = retry_key(account);
    match cache.remove(key.as_str(), now) {
        Ok(_) => Ok(()),
        Err(e) => Err(e),
    }
}

/// After a recorded failure lifts the counter to or over the threshold,
/// every check within both windows rejects with a positive wait, and the
/// wait never increases as time advances toward the cool-down's end.
pub proof fn lemma_check_rejects_after_threshold(
    m: Map<Seq<char>, CacheEntrySpec>,
    n: u64,
    login_fail_retry: u64,
    login_fail_retry_wait_sec: u64,
    account: Seq<char>,
    t: u64,
    now1: u64,
    now2: u64,
)
    requires
        login_fail_retry > 0,
        login_fail_retry_wait_sec > 0,
        inc_counter(n) >= login_fail_retry,
        t <= now1 <= now2,
        (now2 as int) < t + login_fail_retry_wait_sec,
        (now2 as int) < t + RETRY_COUNTER_TTL_SECS,
    ensures
        ({
            let m2 = spec_record(m, n, login_fail_retry_wait_sec, account, t);
            &&& spec_check(m2, login_fail_retry, account, now1) matches Some(w1) && w1 > 0
            &&& spec_check(m2, login_fail_retry, account, now2) matches Some(w2) && w2 > 0 && w2
                <= spec_check(m2, login_fail_retry, account, now1).unwrap()
        }),
{
    let m2 = spec_record(m, n, login_fail_retry_wait_sec, account, t);
    lemma_parse_u64_chars_roundtrip(inc_counter(n));
    assert(retry_key_chars(account) != retry_ttl_key_chars(account)) by {
        reveal_strlit("login:login_retry");
        reveal_strlit("login:login_retry_ttl");
        assert(retry_key_chars(account).len() != retry_ttl_key_chars(account).len());
    }
    assert(spec_counter(m2, account, now1) == Some(inc_counter(n)));
    assert(spec_counter(m2, account, now2) == Some(inc_counter(n)));
    assert(spec_wait_sec(m2, account, now1) > 0);
    assert(spec_wait_sec(m2, account, now2) > 0);
    assert(spec_wait_sec(m2, account, now2) <= spec_wait_sec(m2, account, now1));
}

/// Clearing the counter makes the next check proceed, whatever the account
/// had accumulated and whatever cool-down entry remains.
pub proof fn lemma_clear_then_check(
    m: Map<Seq<char>, CacheEntrySpec>,
    login_fail_retry: u64,
    account: Seq<char>,
    now: u64,
)
    ensures
        spec_check(m.remove(retry_key_chars(account)), login_fail_retry, account, now) is None,
{
    lemma_parse_u64_chars_roundtrip(0);
}

} // verus!
