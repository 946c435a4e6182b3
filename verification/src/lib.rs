//! Transaction screening for an Ethereum JSON-RPC gateway.

pub mod address;
pub mod base16;
pub mod denylist;
pub mod encoding;
pub mod envelope;
pub mod gate;
pub mod relay;
pub mod text;
pub mod types;
pub mod utils;
