pub mod bytes;
pub mod cohere;
pub mod dash;
pub mod grpc;
pub mod observability;
pub mod outside;
pub mod passthrough;
pub mod rate_limit;
pub mod text;
