//! The Aleo stratum protocol: its messages, their JSON-RPC encoding and
//! the lines that carry them.

pub mod codec;
pub mod frame;
pub mod message;
