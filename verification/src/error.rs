//! What can go wrong at a peer.

use crate::rpc::ErrorKind;
use vstd::prelude::*;

verus! {

/// A failure of an operation of this library.
#[derive(Clone, Copy, Debug, PartialEq, Eq, Structural)]
pub enum Error {
    /// The other end of a channel or of the connection is gone.
    Disconnected,
    /// The call has ended: it was finished or cancelled.
    RpcDone,
    /// Nobody serves the function.
    NotHandled,
    /// The call ended with a failure of this kind.
    Rpc(ErrorKind),
}

impl Error {
    /// A short description of the failure.
    pub fn description(&self) -> (res: String)
        ensures
            res@ == (match *self {
                Error::Disconnected => "channel or connection is closed"@,
                Error::RpcDone => "the call is finished or cancelled"@,
                Error::NotHandled => "no handler for the function"@,
                Error::Rpc(_) => "the call failed"@,
            }),
    {
        match self {
            Error::Disconnected => String::from_str("channel or connection is closed"),
            Error::RpcDone => String::from_str("the call is finished or cancelled"),
            Error::NotHandled => String::from_str("no handler for the function"),
            Error::Rpc(_) => String::from_str("the call failed"),
        }
    }
}

} // verus!
