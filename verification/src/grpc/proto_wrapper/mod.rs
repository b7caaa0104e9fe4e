//! One face for the messages of all backends.

pub mod data;
pub mod media;
pub mod request;
pub mod response;
