//! The stages that a request goes through.

pub mod helpers;
pub mod request_building;
pub mod request_execution;
