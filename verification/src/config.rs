//! Process configuration as plain data, with the coded-error lookup. The
//! surrounding application loads the values from its configuration files
//! and hands them over; the development defaults live here.

use vstd::prelude::*;
use crate::error::Error;
use crate::strutil::{replace_chars, replace_all_str, str_eq};

verus! {

/// Database pool settings.
pub struct DBConfig {
    pub url: String,
    pub max_connections: u32,
    pub min_connections: u32,
    pub connect_timeout: u32,
}

/// Logging settings.
pub struct LogConfig {
    pub level: String,
    pub file_path: String,
    pub file_name: String,
    pub to_file: bool,
}

impl Default for LogConfig {
    /// Console logging at info level.
    fn default() -> (r: LogConfig)
        ensures
            r.level@ == "info"@,
            r.file_path@ == "logs"@,
            r.file_name@ == "app.log"@,
            !r.to_file,
    {
        LogConfig {
            level: "info".to_owned(),
            file_path: "logs".to_owned(),
            file_name: "app.log".to_owned(),
            to_file: false,
        }
    }
}

/// The coded-error table: codes with their message templates.
pub struct ErrorConfig {
    pub errors: Vec<(String, String)>,
}

/// Process configuration.
pub struct Config {
    pub addr: String,
    pub cache_type: String,
    pub jwt_secret: String,
    pub jwt_exp: u64,
    pub jwt_refresh_token: u64,
    pub white_list_api: Vec<String>,
    pub login_fail_retry: u64,
    pub login_fail_retry_wait_sec: u64,
    pub trash_recycle_days: u64,
    pub datetime_format: String,
    pub redis_url: String,
    pub db: DBConfig,
    pub errors: Vec<(String, String)>,
}

/// The message template stored under `code`, the first match winning.
pub open spec fn lookup_error(es: Seq<(String, String)>, code: Seq<char>) -> Option<Seq<char>>
    decreases es.len(),
{
    if es.len() == 0 {
        None
    } else if es[0].0@ == code {
        Some(es[0].1@)
    } else {
        lookup_error(es.skip(1), code)
    }
}

impl Config {
    /// The development defaults: an in-process cache, three login attempts
    /// before a one-minute cool-down, and an empty error table.
    pub fn new() -> (r: Config)
        ensures
            r.addr@ == "0.0.0.0:8000"@,
            r.cache_type@ == "mem"@,
            r.jwt_secret@ == "123"@,
            r.jwt_exp == 1800000,
            r.jwt_refresh_token == 600,
            r.white_list_api@.len() == 0,
            r.login_fail_retry == 3,
            r.login_fail_retry_wait_sec == 60,
            r.trash_recycle_days == 30,
            r.errors@.len() == 0,
    {
        Config {
            addr: "0.0.0.0:8000".to_owned(),
            cache_type: "mem".to_owned(),
            jwt_secret: "123".to_owned(),
            jwt_exp: 1800000,
            jwt_refresh_token: 600,
            white_list_api: Vec::new(),
            login_fail_retry: 3,
            login_fail_retry_wait_sec: 60,
            trash_recycle_days: 30,
            datetime_format: "%Y-%m-%d %H:%M:%S".to_owned(),
            redis_url: "redis://127.0.0.1:6379".to_owned(),
            db: DBConfig { url: String::new(), max_connections: 10, min_connections: 1, connect_timeout: 30 },
            errors: Vec::new(),
        }
    }

    /// The message for a code, or a fixed fallback for one not in the
    /// table.
    pub fn get_error_info(&self, code: &str) -> (r: String)
        ensures
            r@ == match lookup_error(self.errors@, code@) {
                Some(m) => m,
                None => "unknown error"@,
            },
    {
        let n = self.errors.len();
        let mut i: usize = 0;
        assert(self.errors@.skip(0) =~= self.errors@);
        while i < n
            invariant
                i <= n == self.errors@.len(),
                lookup_error(self.errors@, code@) == lookup_error(
                    self.errors@.skip(i as int),
                    code@,
                ),
            decreases n - i,
        {
            if str_eq(self.errors[i].0.as_str(), code) {
                assert(self.errors@.skip(i as int)[0] == self.errors@[i as int]);
                return self.errors[i].1.clone();
            }
            proof {
                assert(self.errors@.skip(i as int)[0] == self.errors@[i as int]);
                assert(self.errors@.skip(i as int).skip(1) =~= self.errors@.skip(i + 1));
            }
            i = i + 1;
        }
        "unknown error".to_owned()
    }

    /// The coded error for `code`, with its stored message.
    pub fn get_error(&self, code: &str) -> (r: Result<(), Error>)
        ensures
            r matches Err(e) && e matches Error::Code(c, m) && c@ == code@ && m@ == (
            match lookup_error(self.errors@, code@) {
                Some(t) => t,
                None => "unknown error"@,
            }),
    {
        let info = self.get_error_info(code);
        Err(Error::Code(code.to_owned(), info))
    }

    /// The coded error for `code`, its message template instantiated with
    /// `arg` in place of every `{}`.
    pub fn get_error_arg(&self, code: &str, arg: String) -> (r: Result<(), Error>)
        ensures
            r matches Err(e) && e matches Error::Code(c, m) && c@ == code@ && m@ == replace_chars(
                match lookup_error(self.errors@, code@) {
                    Some(t) => t,
                    None => "unknown error"@,
                },
                "{}"@,
                arg@,
            ),
    {
        let info = self.get_error_info(code);
        proof {
            reveal_strlit("{}");
        }
        let m = replace_all_str(info.as_str(), "{}", arg.as_str());
        Err(Error::Code(code.to_owned(), m))
    }
}

} // verus!
