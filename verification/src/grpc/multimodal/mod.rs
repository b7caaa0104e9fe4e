pub mod assemble;
pub mod backends;
pub mod config;
pub mod detect;
pub mod expand;
pub mod half;
pub mod process;
pub mod serialize;
pub mod tokenspeed;
pub mod transport;
pub mod types;
