//! The vocabulary of a remote procedure call: the call itself, its
//! cancellation, and the stream of responses that answers it.

use serde_json::Value;
use vstd::prelude::*;

verus! {

/// Why a call failed.
#[derive(Clone, Copy, Debug, PartialEq, Eq, Structural)]
pub enum ErrorKind {
    /// A failure that fits no other kind.
    Unknown,
    /// The transport failed.
    Io,
    /// The handler could not decode its arguments.
    InvalidArgs,
    /// The peer that was servicing the call went away.
    Disconnected,
    /// The peer had already registered the function.
    DuplicateFunctionForPeer,
}

/// A failure reported as the final result of a call.
#[derive(Debug, PartialEq, Eq)]
pub struct Error {
    pub kind: ErrorKind,
    pub details: Option<Value>,
}

/// The final result of a call.
#[derive(Debug, PartialEq, Eq)]
pub enum RpcResult {
    /// The call succeeded with this value.
    Success(Value),
    /// The call failed.
    Failure(Error),
    /// The handler declines the call; the next handler in priority order
    /// should be tried.
    NotHandled,
}

/// One frame of the response stream of a call.
#[derive(Debug, PartialEq, Eq)]
pub enum ResponseKind {
    /// An intermediate value; more frames follow.
    Partial(Value),
    /// The final result; no frame follows.
    Last(RpcResult),
}

/// A request to run `function` with `args`, tagged with the caller's context
/// id.
#[derive(Debug, PartialEq, Eq)]
pub struct Call {
    pub function: String,
    pub context: String,
    pub args: Value,
}

/// A request to stop working on the call with this context id.
#[derive(Debug, PartialEq, Eq)]
pub struct Cancel {
    pub context: String,
}

/// A frame of the response stream of the call with this context id.
#[derive(Debug, PartialEq, Eq)]
pub struct Response {
    pub context: String,
    pub kind: ResponseKind,
}

impl Error {
    /// An error of the given kind without details.
    pub fn new(kind: ErrorKind) -> (res: Error)
        ensures
            res == (Error { kind, details: None }),
    {
        Error { kind, details: None }
    }
}

impl RpcResult {
    /// Whether this is a success.
    pub fn is_ok(&self) -> (res: bool)
        ensures
            res == (self is Success),
    {
        match self {
            RpcResult::Success(_) => true,
            _ => false,
        }
    }
}

impl ResponseKind {
    /// Whether this frame ends the response stream.
    pub open spec fn is_last(&self) -> bool {
        self is Last
    }

    /// Whether this frame is a handler declining the call.
    pub open spec fn is_not_handled(&self) -> bool {
        *self == ResponseKind::Last(RpcResult::NotHandled)
    }
}

impl Clone for Error {
    fn clone(&self) -> (res: Error)
        ensures
            res == *self,
    {
        Error {
            kind: self.kind,
            details: match &self.details {
                Some(details) => Some(details.clone()),
                None => None,
            },
        }
    }
}

impl Clone for RpcResult {
    fn clone(&self) -> (res: RpcResult)
        ensures
            res == *self,
    {
        match self {
            RpcResult::Success(value) => RpcResult::Success(value.clone()),
            RpcResult::Failure(error) => RpcResult::Failure(error.clone()),
            RpcResult::NotHandled => RpcResult::NotHandled,
        }
    }
}

impl Clone for ResponseKind {
    fn clone(&self) -> (res: ResponseKind)
        ensures
            res == *self,
    {
        match self {
            ResponseKind::Partial(value) => ResponseKind::Partial(value.clone()),
            ResponseKind::Last(result) => ResponseKind::Last(result.clone()),
        }
    }
}

impl Clone for Call {
    fn clone(&self) -> (res: Call)
        ensures
            res == *self,
    {
        Call {
            function: self.function.clone(),
            context: self.context.clone(),
            args: self.args.clone(),
        }
    }
}

impl Clone for Cancel {
    fn clone(&self) -> (res: Cancel)
        ensures
            res == *self,
    {
        Cancel { context: self.context.clone() }
    }
}

impl Clone for Response {
    fn clone(&self) -> (res: Response)
        ensures
            res == *self,
    {
        Response { context: self.context.clone(), kind: self.kind.clone() }
    }
}

} // verus!
