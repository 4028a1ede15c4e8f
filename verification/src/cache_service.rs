//! The cache abstraction: a uniform get/set/ttl/remove contract over a
//! string key-value store with per-entry expiry, modelled as a map from
//! keys to value-and-deadline entries; an in-process backend verified
//! against that model; and a typed convenience layer for counters.

use vstd::prelude::*;
use crate::decimal::{dec_chars_of, spec_parse_u64_chars, u64_to_string, parse_u64_string};
use crate::error::Error;

verus! {

/// The model of one cache entry: its value and, unless it never expires,
/// the moment it expires.
pub struct CacheEntrySpec {
    pub value: Seq<char>,
    pub deadline: Option<int>,
}

/// Whether an entry still lives at `now`.
pub open spec fn entry_live(e: CacheEntrySpec, now: u64) -> bool {
    match e.deadline {
        None => true,
        Some(d) => (now as int) < d,
    }
}

/// What a read of `k` at `now` yields: the value while the entry lives,
/// absence otherwise.
pub open spec fn spec_cache_get(
    m: Map<Seq<char>, CacheEntrySpec>,
    k: Seq<char>,
    now: u64,
) -> Option<Seq<char>> {
    if m.contains_key(k) && entry_live(m[k], now) {
        Some(m[k].value)
    } else {
        None
    }
}

/// Remaining seconds to live of `k` at `now`: -2 when the key is absent or
/// expired, -1 when it lives without expiry, otherwise the remaining
/// seconds, clamped into `i64`.
pub open spec fn spec_cache_ttl(m: Map<Seq<char>, CacheEntrySpec>, k: Seq<char>, now: u64) -> int {
    if !m.contains_key(k) || !entry_live(m[k], now) {
        -2
    } else {
        match m[k].deadline {
            None => -1,
            Some(d) => if d - now > i64::MAX {
                i64::MAX as int
            } else {
                d - now
            },
        }
    }
}

/// The entry written by a set at `now` with expiry `ex` (0 meaning none).
pub open spec fn entry_written(v: Seq<char>, ex: u64, now: u64) -> CacheEntrySpec {
    CacheEntrySpec {
        value: v,
        deadline: if ex == 0 {
            None
        } else {
            Some(now + ex)
        },
    }
}

/// The uniform cache contract. A backend exposes its contents as a map
/// from keys to entries; whether it can fail at all is part of its own
/// description, so that callers over a backend that cannot fail get exact
/// outcomes.
pub trait ICacheService: Sized {
    /// The contents: every key with its value and deadline.
    spec fn cache(&self) -> Map<Seq<char>, CacheEntrySpec>;

    /// Whether this backend never returns an error.
    spec fn infallible(&self) -> bool;

    /// Writes `v` under `k`, expiring `ex` seconds after `now`; 0 means no
    /// expiry. Overwrites any existing entry.
    fn set_string(&mut self, k: &str, v: &str, ex: u64, now: u64) -> (r: Result<String, Error>)
        ensures
            final(self).infallible() == old(self).infallible(),
            old(self).infallible() ==> r is Ok,
            r is Ok ==> final(self).cache() == old(self).cache().insert(
                k@,
                entry_written(v@, ex, now),
            ),
            r matches Ok(s) ==> s@ == v@,
            r is Err ==> final(self).cache() == old(self).cache(),
    ;

    /// Reads the value under `k` at `now`; absence is not an error.
    fn get_string(&self, k: &str, now: u64) -> (r: Result<Option<String>, Error>)
        ensures
            self.infallible() ==> r is Ok,
            r matches Ok(o) ==> match spec_cache_get(self.cache(), k@, now) {
                Some(val) => o matches Some(s) && s@ == val,
                None => o is None,
            },
    ;

    /// Remaining seconds to live of `k` at `now`, with the sentinels of
    /// [`spec_cache_ttl`].
    fn ttl(&self, k: &str, now: u64) -> (r: Result<i64, Error>)
        ensures
            self.infallible() ==> r is Ok,
            r matches Ok(t) ==> t == spec_cache_ttl(self.cache(), k@, now),
    ;

    /// Removes `k`; reports whether a live entry was present.
    fn remove(&mut self, k: &str, now: u64) -> (r: Result<bool, Error>)
        ensures
            final(self).infallible() == old(self).infallible(),
            old(self).infallible() ==> r is Ok,
            r is Ok ==> final(self).cache() == old(self).cache().remove(k@),
            r matches Ok(b) ==> b == (spec_cache_get(old(self).cache(), k@, now) is Some),
            r is Err ==> final(self).cache() == old(self).cache(),
    ;
}

/// The in-process backend: an association list of key, value and absolute
/// deadline. A later entry for a key shadows an earlier one, so the model
/// folds the list from the front and lets the last write win.
pub struct MemCacheService {
    entries: Vec<(String, String, Option<u128>)>,
}

pub open spec fn entry_of(t: (String, String, Option<u128>)) -> CacheEntrySpec {
    CacheEntrySpec {
        value: t.1@,
        deadline: match t.2 {
            None => None,
            Some(d) => Some(d as int),
        },
    }
}

/// The map an association list stands for, later entries winning.
pub open spec fn assoc_model(s: Seq<(String, String, Option<u128>)>) -> Map<
    Seq<char>,
    CacheEntrySpec,
>
    decreases s.len(),
{
    if s.len() == 0 {
        Map::<Seq<char>, CacheEntrySpec>::empty()
    } else {
        assoc_model(s.drop_last()).insert(s.last().0@, entry_of(s.last()))
    }
}

impl MemCacheService {
    /// An empty in-process cache.
    pub fn new() -> (r: MemCacheService)
        ensures
            r.cache() == Map::<Seq<char>, CacheEntrySpec>::empty(),
            r.infallible(),
    {
        MemCacheService { entries: Vec::new() }
    }

    /// The index of the winning entry for `k`: the last one with that key.
    fn find(&self, k: &str) -> (r: Option<usize>)
        ensures
            r matches Some(i) ==> i < self.entries@.len() && self.entries@[i as int].0@ == k@
                && assoc_model(self.entries@).contains_key(k@) && assoc_model(self.entries@)[k@]
                == entry_of(self.entries@[i as int]) && (forall|j: int|
                i < j < self.entries@.len() ==> self.entries@[j].0@ != k@),
            r is None ==> !assoc_model(self.entries@).contains_key(k@),
    {
        let n = self.entries.len();
        let mut i: usize = n;
        while i > 0
            invariant
                i <= n == self.entries@.len(),
                forall|j: int| i <= j < n ==> self.entries@[j].0@ != k@,
            decreases i,
        {
            i = i - 1;
            if crate::strutil::str_eq(self.entries[i].0.as_str(), k) {
                proof {
                    lemma_assoc_last_wins(self.entries@, i as int);
                }
                return Some(i);
            }
        }
        proof {
            lemma_assoc_absent(self.entries@, k@);
        }
        None
    }
}

/// If position `i` holds the last entry of its key, the model maps that key
/// to this entry.
proof fn lemma_assoc_last_wins(s: Seq<(String, String, Option<u128>)>, i: int)
    requires
        0 <= i < s.len(),
        forall|j: int| i < j < s.len() ==> s[j].0@ != s[i].0@,
    ensures
        assoc_model(s).contains_key(s[i].0@),
        assoc_model(s)[s[i].0@] == entry_of(s[i]),
    decreases s.len(),
{
    if i == s.len() - 1 {
    } else {
        lemma_assoc_last_wins(s.drop_last(), i);
        assert(s.drop_last()[i] == s[i]);
    }
}

/// A key no entry holds is not in the model.
proof fn lemma_assoc_absent(s: Seq<(String, String, Option<u128>)>, k: Seq<char>)
    requires
        forall|j: int| 0 <= j < s.len() ==> s[j].0@ != k,
    ensures
        !assoc_model(s).contains_key(k),
    decreases s.len(),
{
    if s.len() > 0 {
        lemma_assoc_absent(s.drop_last(), k);
    }
}

impl ICacheService for MemCacheService {
    closed spec fn cache(&self) -> Map<Seq<char>, CacheEntrySpec> {
        assoc_model(self.entries@)
    }

    closed spec fn infallible(&self) -> bool {
        true
    }

    fn set_string(&mut self, k: &str, v: &str, ex: u64, now: u64) -> (r: Result<String, Error>) {
        let deadline: Option<u128> = if ex == 0 {
            None
        } else {
            Some(now as u128 + ex as u128)
        };
        self.entries.push((k.to_owned(), v.to_owned(), deadline));
        proof {
            let s = self.entries@;
            assert(s.drop_last() =~= old(self).entries@);
            assert(entry_of(s.last()) == entry_written(v@, ex, now));
        }
        Ok(v.to_owned())
    }

    fn get_string(&self, k: &str, now: u64) -> (r: Result<Option<String>, Error>) {
        match self.find(k) {
            None => Ok(None),
            Some(i) => {
                let live = match self.entries[i].2 {
                    None => true,
                    Some(d) => (now as u128) < d,
                };
                if live {
                    Ok(Some(self.entries[i].1.clone()))
                } else {
                    Ok(None)
                }
            },
        }
    }

    fn ttl(&self, k: &str, now: u64) -> (r: Result<i64, Error>) {
        match self.find(k) {
            None => Ok(-2),
            Some(i) => {
                match self.entries[i].2 {
                    None => Ok(-1),
                    Some(d) => {
                        if (now as u128) < d {
                            let rem: u128 = d - now as u128;
                            if rem > i64::MAX as u128 {
                                Ok(i64::MAX)
                            } else {
                                Ok(rem as i64)
                            }
                        } else {
                            Ok(-2)
                        }
                    },
                }
            },
        }
    }

    fn remove(&mut self, k: &str, now: u64) -> (r: Result<bool, Error>) {
        let was_live = match self.get_string(k, now) {
            Ok(Some(_)) => true,
            _ => false,
        };
        let n = self.entries.len();
        let mut kept: Vec<(String, String, Option<u128>)> = Vec::new();
        let mut i: usize = 0;
        while i < n
            invariant
                i <= n == old(self).entries@.len(),
                self.entries@ == old(self).entries@,
                assoc_model(kept@) == assoc_model(old(self).entries@.take(i as int)).remove(k@),
            decreases n - i,
        {
            let keep = !crate::strutil::str_eq(self.entries[i].0.as_str(), k);
            proof {
                let t = old(self).entries@.take(i as int);
                let t1 = old(self).entries@.take(i + 1);
                assert(t1.drop_last() =~= t);
                assert(t1.last() == old(self).entries@[i as int]);
            }
            if keep {
                let ghost kept_old = kept@;
                kept.push((
                    self.entries[i].0.clone(),
                    self.entries[i].1.clone(),
                    self.entries[i].2,
                ));
                proof {
                    let e = old(self).entries@[i as int];
                    assert(kept@.drop_last() =~= kept_old);
                    assert(kept@.last().0@ == e.0@ && entry_of(kept@.last()) == entry_of(e));
                    assert(assoc_model(kept@) == assoc_model(kept_old).insert(
                        e.0@,
                        entry_of(kept@.last()),
                    ));
                    assert(assoc_model(kept@) =~= assoc_model(
                        old(self).entries@.take(i + 1),
                    ).remove(k@));
                }
            } else {
                proof {
                    assert(assoc_model(old(self).entries@.take(i + 1)).remove(k@)
                        =~= assoc_model(old(self).entries@.take(i as int)).remove(k@));
                }
            }
            i = i + 1;
        }
        proof {
            assert(old(self).entries@.take(n as int) =~= old(self).entries@);
        }
        self.entries = kept;
        Ok(was_live)
    }
}

/// The backends this service can stand on.
pub enum CacheType {
    Mem,
    Redis,
}

/// The cache service: a chosen backend behind the uniform contract, with a
/// typed convenience layer for numeric counters.
pub struct CacheService<C: ICacheService> {
    pub inner: C,
}

impl CacheService<MemCacheService> {
    /// Builds the service over the backend the tag names. Only the
    /// in-process backend lives here; a remote backend is wired up by the
    /// surrounding application, which owns all network traffic.
    pub fn new(cache_type: &str) -> (r: Result<CacheService<MemCacheService>, Error>)
        ensures
            r is Ok <==> cache_type@ == "mem"@,
            r matches Ok(c) ==> c.inner.cache() == Map::<Seq<char>, CacheEntrySpec>::empty()
                && c.inner.infallible(),
    {
        if crate::strutil::str_eq(cache_type, "mem") {
            Ok(CacheService { inner: MemCacheService::new() })
        } else {
            let mut m = "cache_type:".to_owned();
            m.append(cache_type);
            m.append(" not support");
            Err(Error::Internal(m))
        }
    }
}

impl<C: ICacheService> CacheService<C> {
    /// Writes `v` under `k`, expiring `ex` seconds after `now`.
    pub fn set_string(&mut self, k: &str, v: &str, ex: u64, now: u64) -> (r: Result<String, Error>)
        ensures
            final(self).inner.infallible() == old(self).inner.infallible(),
            old(self).inner.infallible() ==> r is Ok,
            r is Ok ==> final(self).inner.cache() == old(self).inner.cache().insert(
                k@,
                entry_written(v@, ex, now),
            ),
            r matches Ok(s) ==> s@ == v@,
            r is Err ==> final(self).inner.cache() == old(self).inner.cache(),
    {
        self.inner.set_string(k, v, ex, now)
    }

    /// Reads the value under `k` at `now`.
    pub fn get_string(&self, k: &str, now: u64) -> (r: Result<Option<String>, Error>)
        ensures
            self.inner.infallible() ==> r is Ok,
            r matches Ok(o) ==> match spec_cache_get(self.inner.cache(), k@, now) {
                Some(val) => o matches Some(s) && s@ == val,
                None => o is None,
            },
    {
        self.inner.get_string(k, now)
    }

    /// Remaining seconds to live of `k` at `now`.
    pub fn ttl(&self, k: &str, now: u64) -> (r: Result<i64, Error>)
        ensures
            self.inner.infallible() ==> r is Ok,
            r matches Ok(t) ==> t == spec_cache_ttl(self.inner.cache(), k@, now),
    {
        self.inner.ttl(k, now)
    }

    /// Removes `k`; reports whether a live entry was present.
    pub fn remove(&mut self, k: &str, now: u64) -> (r: Result<bool, Error>)
        ensures
            final(self).inner.infallible() == old(self).inner.infallible(),
            old(self).inner.infallible() ==> r is Ok,
            r is Ok ==> final(self).inner.cache() == old(self).inner.cache().remove(k@),
            r matches Ok(b) ==> b == (spec_cache_get(old(self).inner.cache(), k@, now) is Some),
            r is Err ==> final(self).inner.cache() == old(self).inner.cache(),
    {
        self.inner.remove(k, now)
    }

    /// Writes a counter as its decimal string.
    pub fn set_json_u64(&mut self, k: &str, v: u64, ex: u64, now: u64) -> (r: Result<
        String,
        Error,
    >)
        ensures
            final(self).inner.infallible() == old(self).inner.infallible(),
            old(self).inner.infallible() ==> r is Ok,
            r is Ok ==> final(self).inner.cache() == old(self).inner.cache().insert(
                k@,
                entry_written(dec_chars_of(v), ex, now),
            ),
            r is Err ==> final(self).inner.cache() == old(self).inner.cache(),
    {
        let s = u64_to_string(v);
        self.inner.set_string(k, s.as_str(), ex, now)
    }

    /// Reads a counter back from its decimal string: a missing key is a
    /// logical none, not an error; a value that is no decimal number is an
    /// internal error.
    pub fn get_json_u64(&self, k: &str, now: u64) -> (r: Result<Option<u64>, Error>)
        ensures
            r matches Ok(Some(v)) ==> (spec_cache_get(self.inner.cache(), k@, now) matches Some(ch)
                && spec_parse_u64_chars(ch) == Some(v)),
            r matches Ok(None) ==> spec_cache_get(self.inner.cache(), k@, now) is None,
            self.inner.infallible() ==> (r is Err <==> (spec_cache_get(self.inner.cache(), k@, now)
                matches Some(ch) && spec_parse_u64_chars(ch) is None)),
            self.inner.infallible() ==> (r matches Err(e) ==> e is Internal),
    {
        match self.inner.get_string(k, now) {
            Err(e) => Err(e),
            Ok(None) => Ok(None),
            Ok(Some(s)) => match parse_u64_string(s.as_str()) {
                Some(v) => Ok(Some(v)),
                None => Err(Error::Internal("cache value is not a number".to_owned())),
            },
        }
    }
}

} // verus!
