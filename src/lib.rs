//! A MessagePack-RPC endpoint over a stream framed by a 32-bit big-endian
//! length prefix: the messages, the framing, and the decisions of the client
//! and server loops.

pub mod codec;
pub mod endpoint;
pub mod error;
pub mod message;
pub mod server;
pub mod value;
