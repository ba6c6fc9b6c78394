//! The broker: the process that peers connect to.

pub mod dispatcher;
pub mod finality;
pub mod soundness;
pub mod ipc_bridge;
pub mod laws;
pub mod plugin_core;
pub mod registry;
