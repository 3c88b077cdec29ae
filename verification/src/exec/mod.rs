//! The RPC stream dispatcher and the tables it routes through.

pub mod buffer;
pub mod dispatch;
pub mod feed;
pub mod header;
pub mod laws;
pub mod model;
pub mod reply;
pub mod slots;
pub mod table;
pub mod thread;
