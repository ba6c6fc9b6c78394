//! The two ends of one call: the handle that the caller holds and the handle
//! that the handler is given.

pub mod client;
pub mod server;
