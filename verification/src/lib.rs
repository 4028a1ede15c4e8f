//! Authentication and authorization core of an administrative back-office API:
//! stateless session tokens, permission resolution, login throttling over a
//! TTL cache, and the request admission check that ties them together.

pub mod strutil;
pub mod decimal;
pub mod b64;
pub mod jsonesc;
pub mod claims_codec;
pub mod error;
pub mod jwt_crypto;
pub mod jwt_util;
pub mod cache_service;
pub mod login_service;
pub mod model;
pub mod vo;
pub mod user_service;
pub mod auth;
pub mod config;
pub mod menu_service;
pub mod role_service;

pub use strutil::get_timestamp;
