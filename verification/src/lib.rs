//! Verified core of the clipboard-sharing service: the selection store,
//! the message model, the length-prefixed framing and the per-connection
//! session buffers.

pub mod buffers;
pub mod client;
pub mod framing;
pub mod runtime;
pub mod servo;
pub mod session;
pub mod storage;

