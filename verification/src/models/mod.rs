//! Data models: users, sessions and rate limits, with their stores.

pub mod rate_limit;

pub use rate_limit::{IpRateLimiter, RateLimitStatus, RateLimiter};
pub mod session;

pub use session::{InMemorySessionRepository, Session, SessionRepository};
pub mod user;

pub use user::{InMemoryUserRepository, User, UserRepository};
