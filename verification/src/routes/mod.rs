//! The HTTP layer's own logic: request and response bodies, the session
//! cookie header, and the mapping of errors to responses.

pub mod auth;
