//! Business logic.

pub mod auth_service;
