//! Routing to backends over gRPC.

pub mod backend_client;
pub mod context;
pub mod epd_encode;
pub mod error;
pub mod mode;
pub mod multimodal;
pub mod pipeline;
pub mod proto;
pub mod proto_wrapper;
pub mod rdma;
pub mod response_formatting;
pub mod stages;
pub mod stop;
pub mod text_only;
