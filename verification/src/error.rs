//! The library's error type. Authorization failures are surfaced uniformly;
//! signing errors keep the underlying error value.

use vstd::prelude::*;
use crate::strutil::string_push;

verus! {

/// Errors of this library.
pub enum Error {
    /// A user-facing rejection with its message.
    E(String),
    /// An internal failure, not shown to clients verbatim.
    Internal(String),
    /// A coded error: code and message.
    Code(String, String),
    /// A token signing failure, carrying the JWT library's message.
    Jwt(String),
}

impl Error {
    /// The user-facing message of this error; internal errors are masked.
    pub fn msg(&self) -> (r: String)
        ensures
            match self {
                Error::E(s) => r@ == s@,
                Error::Code(c, m) => r@ == c@ + seq![':', ' '] + m@,
                _ => r@ == "Internal Server Error"@,
            },
    {
        match self {
            Error::E(s) => s.clone(),
            Error::Code(c, m) => {
                let mut r = c.clone();
                string_push(&mut r, ':');
                string_push(&mut r, ' ');
                r.append(m.as_str());
                assert(r@ =~= c@ + seq![':', ' '] + m@);
                r
            },
            _ => "Internal Server Error".to_owned(),
        }
    }

    /// A user-facing rejection carrying the given message.
    pub fn err<T>(s: &str) -> (r: Result<T, Error>)
        ensures
            r matches Err(e) && e matches Error::E(m) && m@ == s@,
    {
        Err(Error::E(s.to_owned()))
    }
}

} // verus!
