//! Request/response messaging between nodes, and the block records that nodes exchange.

pub mod block;
pub mod error;
pub mod field;
pub mod laws;
pub mod message;
pub mod proto;
pub mod rpc;
pub mod run;
pub mod service;
pub mod status;
pub mod text;
pub mod wire;
