//! What the gateway tells of itself.

pub mod audit;
pub mod collectors;
pub mod gauge_histogram;
pub mod registry;
pub mod runtime_metrics;
