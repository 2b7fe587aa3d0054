//! user-service library: registration, login, logout, session management,
//! rate limiting and profile management, with the decision logic verified.

pub mod config;
pub mod middleware;
pub mod models;
pub mod routes;
pub mod services;
pub mod utils;
