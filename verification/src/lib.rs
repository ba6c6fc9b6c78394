//! An RPC fabric for loosely coupled plugin processes.
//!
//! Peers connect to a broker. Every peer can call procedures by name and can
//! offer procedures to the others; the broker hands each call to the peer
//! that offers the procedure at the best priority, passes the responses back
//! to the caller, and passes cancellations on to the handler.
//!
//! The library is the logic of that fabric, verified with Verus:
//!
//! - `rpc` and `ipc`: the messages and the frame that they travel in;
//! - `server`: the broker's registry and dispatcher, as a state machine, with
//!   the laws that hold of every run of it;
//! - `client`: the two loops of a peer and the two ends of a call;
//! - `plugin`: peers that offer a fixed set of procedures.
//!
//! Sockets and threads are not part of it. The loops here say what is to be
//! done, and whoever owns the sockets and the threads does it.

pub mod channel;
pub mod client;
pub mod error;
pub mod ipc;
pub mod json;
pub mod plugin;
pub mod rpc;
pub mod seqs;
pub mod server;
pub mod spinner;
