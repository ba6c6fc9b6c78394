//! The caller's end of a call.
//!
//! Making a call gives a `Context`. The responses to the call arrive on it:
//! any number of partial results and then the final one, which closes the
//! stream. The caller can cancel the call, which closes the stream too.

use crate::channel::{channel, poll, receive, send, Polled};
use crate::client::rpc_caller;
use crate::error::Error;
use crate::ipc::Message;
use crate::rpc::{Response, ResponseKind};
use serde_json::Value;
use std::sync::mpsc::{Receiver, Sender};
use vstd::prelude::*;

verus! {

/// `uuid::Uuid::new_v4` in hyphenated form: a random context id, 36
/// characters long. It fails only when the system has no random bytes to
/// give.
#[verifier::external_body]
fn fresh_context_id() -> (res: String)
    ensures
        res@.len() == 36,
{
    uuid::Uuid::new_v4().hyphenated().to_string()
}

/// The caller's end of a call.
pub struct Context {
    context: String,
    values: Receiver<Response>,
    commands: Sender<rpc_caller::Command>,
    closed: bool,
}

/// What a receive gives when `polled` was found on a stream that is closed
/// or not: a closed stream gives `RpcDone`; a lost channel gives
/// `Disconnected`; an empty channel gives nothing; a response gives its
/// frame.
pub open spec fn received(closed: bool, polled: Polled<Response>) -> Result<
    Option<ResponseKind>,
    Error,
> {
    if closed {
        Err(Error::RpcDone)
    } else {
        match polled {
            Polled::Item(response) => Ok(Some(response.kind)),
            Polled::Empty => Ok(None),
            Polled::Disconnected => Err(Error::Disconnected),
        }
    }
}

/// Whether the stream is closed after `polled` was found on it: the final
/// result and the loss of the channel close it.
pub open spec fn closed_after(closed: bool, polled: Polled<Response>) -> bool {
    closed || match polled {
        Polled::Item(response) => response.kind is Last,
        Polled::Empty => false,
        Polled::Disconnected => true,
    }
}

impl Context {
    /// The context id of the call.
    pub closed spec fn id(&self) -> Seq<char> {
        self.context@
    }

    /// Whether the stream of responses is closed.
    pub closed spec fn is_closed(&self) -> bool {
        self.closed
    }

    /// The channel to the loop through which the call was made.
    pub closed spec fn loop_commands(&self) -> Sender<rpc_caller::Command> {
        self.commands
    }

    /// The command that asks the loop to make the call of `function` with
    /// `args` under the context id `context` and to hand the responses to
    /// `sink`.
    pub fn outgoing(context: String, sink: Sender<Response>, function: &str, args: Value) -> (res:
        rpc_caller::Command)
        ensures
            res matches rpc_caller::Command::OutgoingCall(id, to, Message::RpcCall(call)) && id@
                == context@ && to == sink && call.function@ == function@ && call.context
                == context && call.args == args,
    {
        let id = context.clone();
        rpc_caller::Command::OutgoingCall(id, sink, Message::call(function.to_owned(), context, args))
    }

    /// Makes the call of `function` with `args` through the loop behind
    /// `commands`, under a context id of its own. `Disconnected` says that
    /// the loop is gone.
    pub fn new(commands: Sender<rpc_caller::Command>, function: &str, args: Value) -> (res: Result<
        Context,
        Error,
    >)
        ensures
            res matches Ok(made) ==> !made.is_closed() && made.loop_commands() == commands
                && made.id().len() == 36,
            res matches Err(error) ==> error == Error::Disconnected,
    {
        let context = fresh_context_id();
        let (sink, values) = channel::<Response>();
        let command = Context::outgoing(context.clone(), sink, function, args);
        if send(&commands, command) {
            Ok(Context { context, values, commands, closed: false })
        } else {
            Err(Error::Disconnected)
        }
    }

    /// The context id of the call.
    pub fn context(&self) -> (res: &String)
        ensures
            res@ == self.id(),
    {
        &self.context
    }

    /// Whether the stream of responses is closed.
    pub fn done(&self) -> (res: bool)
        ensures
            res == self.is_closed(),
    {
        self.closed
    }

    /// Takes what a look at the stream has found.
    pub fn accept(&mut self, polled: Polled<Response>) -> (res: Result<Option<ResponseKind>, Error>)
        ensures
            res == received(old(self).is_closed(), polled),
            final(self).is_closed() == closed_after(old(self).is_closed(), polled),
            final(self).id() == old(self).id(),
            final(self).loop_commands() == old(self).loop_commands(),
    {
        if self.closed {
            return Err(Error::RpcDone);
        }
        match polled {
            Polled::Item(response) => {
                let last = match &response.kind {
                    ResponseKind::Last(_) => true,
                    ResponseKind::Partial(_) => false,
                };
                if last {
                    self.closed = true;
                }
                Ok(Some(response.kind))
            },
            Polled::Empty => Ok(None),
            Polled::Disconnected => {
                self.closed = true;
                Err(Error::Disconnected)
            },
        }
    }

    /// The next response, if one has arrived: a partial result or the final
    /// one, which closes the stream. A closed stream gives `RpcDone`.
    pub fn try_recv(&mut self) -> (res: Result<Option<ResponseKind>, Error>)
        ensures
            final(self).id() == old(self).id(),
            final(self).loop_commands() == old(self).loop_commands(),
            old(self).is_closed() ==> res == Err::<Option<ResponseKind>, Error>(Error::RpcDone)
                && final(self).is_closed(),
            !old(self).is_closed() ==> match res {
                Ok(Some(kind)) => final(self).is_closed() == (kind is Last),
                Ok(None) => !final(self).is_closed(),
                Err(error) => error == Error::Disconnected && final(self).is_closed(),
            },
    {
        if self.closed {
            return Err(Error::RpcDone);
        }
        let polled = poll(&self.values);
        self.accept(polled)
    }

    /// Waits for the next response: a partial result or the final one, which
    /// closes the stream. A closed stream gives `RpcDone`.
    pub fn recv(&mut self) -> (res: Result<ResponseKind, Error>)
        ensures
            final(self).id() == old(self).id(),
            final(self).loop_commands() == old(self).loop_commands(),
            old(self).is_closed() ==> res == Err::<ResponseKind, Error>(Error::RpcDone) && final(self).is_closed(),
            !old(self).is_closed() ==> match res {
                Ok(kind) => final(self).is_closed() == (kind is Last),
                Err(error) => error == Error::Disconnected && final(self).is_closed(),
            },
    {
        if self.closed {
            return Err(Error::RpcDone);
        }
        let polled = match receive(&self.values) {
            Some(response) => Polled::Item(response),
            None => Polled::Disconnected,
        };
        match self.accept(polled) {
            Ok(Some(kind)) => Ok(kind),
            Ok(None) => Err(Error::Disconnected),
            Err(error) => Err(error),
        }
    }

    /// Closes the stream and gives the command that tells the loop to cancel
    /// the call; a stream that is closed gives none.
    pub fn cancelling(&mut self) -> (res: Option<rpc_caller::Command>)
        ensures
            final(self).is_closed(),
            final(self).id() == old(self).id(),
            final(self).loop_commands() == old(self).loop_commands(),
            old(self).is_closed() ==> res is None,
            !old(self).is_closed() ==> (res matches Some(
                rpc_caller::Command::CancelOutgoingRpc(id),
            ) && id@ == old(self).id()),
    {
        if self.closed {
            None
        } else {
            self.closed = true;
            Some(rpc_caller::Command::CancelOutgoingRpc(self.context.clone()))
        }
    }

    /// Cancels the call: the loop is told to cancel it and the stream is
    /// closed. On a closed stream nothing happens. `Disconnected` says that
    /// the loop is gone.
    pub fn cancel(&mut self) -> (res: Result<(), Error>)
        ensures
            final(self).is_closed(),
            final(self).id() == old(self).id(),
            final(self).loop_commands() == old(self).loop_commands(),
            old(self).is_closed() ==> res == Ok::<(), Error>(()),
            res matches Err(error) ==> error == Error::Disconnected,
    {
        match self.cancelling() {
            Some(command) => {
                if send(&self.commands, command) {
                    Ok(())
                } else {
                    Err(Error::Disconnected)
                }
            },
            None => Ok(()),
        }
    }
}

} // verus!
