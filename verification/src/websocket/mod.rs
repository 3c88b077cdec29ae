//! The protocol framer: WebSocket-style frames over a byte stream.

pub mod frame;
pub mod framer;
pub mod handshake;
pub mod laws;
pub mod mask;
pub mod queue;
pub mod upgrade;
