//! Request-level helpers: the session cookie and the client IP.

pub mod auth;
pub mod client_ip;
