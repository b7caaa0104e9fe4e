//! Per-tenant token and request rate limiting.

pub mod backend;
pub mod bucket;
pub mod config;
pub mod counter;
pub mod local_backend;
pub mod manager;
pub mod policy;
pub mod rejection;
pub mod reservation;
