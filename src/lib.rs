//! Request-dispatch core of a web-data-collection platform: two-level rate
//! limiting, health-aware proxy rotation, sticky sessions with cookie jars,
//! and a dispatcher that composes them.
use vstd::prelude::*;

pub mod behavior;
pub mod cookie;
pub mod dispatcher;
pub mod extractors;
pub mod fingerprint;
pub mod logs;
pub mod models;
pub mod platforms;
pub mod proxy;
mod random;
pub mod rate_limiter;
pub mod rotator;
pub mod robots;
pub mod security;
pub mod session;
pub mod stealth;
pub mod storage;
pub mod table;
pub mod text;
pub mod utils;
