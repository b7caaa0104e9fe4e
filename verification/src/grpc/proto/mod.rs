//! Messages that the gateway exchanges with its backends: what the gateway
//! itself reads and writes of them. Single-precision numbers are carried as
//! their bits.

pub mod common;
pub mod mlx;
pub mod sglang;
pub mod tokenspeed;
pub mod trtllm;
pub mod vllm;
