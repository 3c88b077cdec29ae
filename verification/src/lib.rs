//! Core of a readiness-driven network server: a reactor's connection table,
//! a TLS session state machine, a WebSocket-style frame codec and an RPC
//! dispatcher that routes requests through bounds-checked indirection tables.
//!
//! Everything here is free of I/O. The surrounding program reads and writes
//! sockets and hands the bytes and outcomes to these functions.

pub mod bytes;
pub mod error;
pub mod exec;
pub mod param;
pub mod server;
pub mod tls;
pub mod websocket;
