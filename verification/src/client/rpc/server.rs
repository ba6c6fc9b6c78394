//! The handler's end of a call.
//!
//! A handler is given a `Context`. Through it the handler sends partial
//! results, sends the final result, learns whether the call was cancelled,
//! and makes calls of its own. A context is alive until it is finished or
//! cancelled, and it never comes back to life.

use crate::channel::{poll, send, Polled};
use crate::client::rpc::client;
use crate::client::rpc_caller;
use crate::error::Error;
use crate::ipc::Message;
use crate::rpc::RpcResult;
use serde_json::Value;
use std::sync::mpsc::{Receiver, Sender};
use vstd::prelude::*;

verus! {

/// What the loop tells a running handler.
#[derive(Debug, PartialEq, Eq)]
pub enum Command {
    /// The caller has cancelled the call.
    Cancel,
}

/// A procedure that a peer offers to the others.
pub trait Rpc: Send + Sync {
    /// The priority at which the procedure is offered; a lower number is
    /// tried first.
    fn priority(&self) -> u16 {
        u16::MAX
    }

    /// Runs the procedure. The implementation must finish the context, or
    /// find it cancelled, before it lets go of it.
    fn call(&self, context: Context, args: Value);
}

/// The life of a context.
#[derive(Clone, Copy, Debug, PartialEq, Eq, Structural)]
pub enum ContextState {
    /// The handler is at work.
    Alive,
    /// The handler has sent the final result.
    Finished,
    /// The call was cancelled, or the loop is gone.
    Cancelled,
}

impl ContextState {
    /// The state after a look at the cancel channel has found `polled`: a
    /// context that is alive is cancelled by a cancel signal and by the loss
    /// of the channel; nothing else changes a state.
    pub open spec fn observed(self, polled: Polled<Command>) -> ContextState {
        if self is Alive && !(polled is Empty) {
            ContextState::Cancelled
        } else {
            self
        }
    }

    /// Whether `next` can follow this state: a state stays as it is, or goes
    /// from alive to finished or cancelled.
    pub open spec fn leads_to(self, next: ContextState) -> bool {
        next == self || self is Alive
    }

    /// The state after a look at the cancel channel has found `polled`.
    pub fn observe(self, polled: &Polled<Command>) -> (res: ContextState)
        ensures
            res == self.observed(*polled),
            self.leads_to(res),
    {
        match self {
            ContextState::Alive => match polled {
                Polled::Empty => ContextState::Alive,
                _ => ContextState::Cancelled,
            },
            other => other,
        }
    }
}

/// The handler's end of a call.
pub struct Context {
    context: String,
    commands: Receiver<Command>,
    rpc_caller_commands: Sender<rpc_caller::Command>,
    state: ContextState,
}

impl Context {
    /// The context id of the call.
    pub closed spec fn id(&self) -> Seq<char> {
        self.context@
    }

    /// The state of the context.
    pub closed spec fn state(&self) -> ContextState {
        self.state
    }

    /// The channel to the loop through which the context sends.
    pub closed spec fn loop_commands(&self) -> Sender<rpc_caller::Command> {
        self.rpc_caller_commands
    }

    /// The channel on which the context hears of a cancellation.
    pub closed spec fn signals(&self) -> Receiver<Command> {
        self.commands
    }

    /// Whether two contexts are the same but for their state.
    pub open spec fn same_call(&self, other: &Context) -> bool {
        &&& self.id() == other.id()
        &&& self.loop_commands() == other.loop_commands()
        &&& self.signals() == other.signals()
    }

    /// A context for the call with the id `context`. It hears of a
    /// cancellation on `commands` and sends through `rpc_caller_commands`.
    pub fn new(
        context: String,
        commands: Receiver<Command>,
        rpc_caller_commands: Sender<rpc_caller::Command>,
    ) -> (res: Context)
        ensures
            res.id() == context@,
            res.state() is Alive,
            res.loop_commands() == rpc_caller_commands,
            res.signals() == commands,
    {
        Context { context, commands, rpc_caller_commands, state: ContextState::Alive }
    }

    /// The context id of the call.
    pub fn context(&self) -> (res: &String)
        ensures
            res@ == self.id(),
    {
        &self.context
    }

    /// The state of the context, as far as it knows without a look at the
    /// cancel channel.
    pub fn current_state(&self) -> (res: ContextState)
        ensures
            res == self.state(),
    {
        self.state
    }

    /// Whether the context is alive, as far as it knows without a look at
    /// the cancel channel. A context that is alive must not be let go of.
    pub fn is_alive(&self) -> (res: bool)
        ensures
            res == (self.state() is Alive),
    {
        match self.state {
            ContextState::Alive => true,
            _ => false,
        }
    }

    /// Takes note of what a look at the cancel channel has found.
    pub fn note(&mut self, polled: &Polled<Command>)
        ensures
            final(self).state() == old(self).state().observed(*polled),
            final(self).same_call(old(self)),
    {
        self.state = self.state.observe(polled);
    }

    /// Looks at the cancel channel and takes note of what it finds.
    fn update_state(&mut self)
        ensures
            final(self).state() == old(self).state() || (old(self).state() is Alive && final(self).state() is Cancelled),
            final(self).same_call(old(self)),
    {
        let polled = poll(&self.commands);
        self.note(&polled);
    }

    /// Looks at the cancel channel and says whether the context is alive.
    fn check_liveness(&mut self) -> (res: Result<(), Error>)
        ensures
            final(self).state() == old(self).state() || (old(self).state() is Alive && final(self).state() is Cancelled),
            final(self).same_call(old(self)),
            final(self).state() is Alive ==> res == Ok::<(), Error>(()),
            !(final(self).state() is Alive) ==> res == Err::<(), Error>(Error::RpcDone),
    {
        self.update_state();
        match self.state {
            ContextState::Alive => Ok(()),
            ContextState::Finished | ContextState::Cancelled => Err(Error::RpcDone),
        }
    }

    /// The frame by which a context that has found `polled` on its cancel
    /// channel sends the partial result `args`: the frame when the context
    /// is alive after that look, `RpcDone` when it is not. The state is the
    /// one after the look.
    pub fn update_frame(&mut self, polled: &Polled<Command>, args: Value) -> (res: Result<
        Message,
        Error,
    >)
        ensures
            final(self).state() == old(self).state().observed(*polled),
            final(self).same_call(old(self)),
            final(self).state() is Alive ==> (res matches Ok(Message::RpcResponse(response))
                && response.context@ == old(self).id() && response.kind
                == crate::rpc::ResponseKind::Partial(args)),
            !(final(self).state() is Alive) ==> res == Err::<Message, Error>(Error::RpcDone),
    {
        self.note(polled);
        match self.state {
            ContextState::Alive => Ok(Message::partial(self.context.clone(), args)),
            _ => Err(Error::RpcDone),
        }
    }

    /// The frame by which a context that has found `polled` on its cancel
    /// channel sends the final result `result`: the frame when the context
    /// is alive after that look, and the context is finished then; `RpcDone`
    /// when it is not, and the state is the one after the look.
    pub fn finish_frame(&mut self, polled: &Polled<Command>, result: RpcResult) -> (res: Result<
        Message,
        Error,
    >)
        ensures
            final(self).same_call(old(self)),
            old(self).state().observed(*polled) is Alive ==> final(self).state() is Finished && (
            res matches Ok(Message::RpcResponse(response)) && response.context@ == old(self).id()
                && response.kind == crate::rpc::ResponseKind::Last(result)),
            !(old(self).state().observed(*polled) is Alive) ==> final(self).state() == old(self).state().observed(*polled) && res == Err::<Message, Error>(Error::RpcDone),
    {
        self.note(polled);
        match self.state {
            ContextState::Alive => {
                self.state = ContextState::Finished;
                Ok(Message::last(self.context.clone(), result))
            },
            _ => Err(Error::RpcDone),
        }
    }

    /// Sends a partial result. Only a context that is alive can: any other
    /// fails with `RpcDone`, and so does one that finds itself cancelled.
    /// `Disconnected` says that the loop is gone.
    pub fn update(&mut self, args: Value) -> (res: Result<(), Error>)
        ensures
            final(self).same_call(old(self)),
            !(old(self).state() is Alive) ==> res == Err::<(), Error>(Error::RpcDone) && final(self).state() == old(self).state(),
            old(self).state() is Alive ==> (res == Err::<(), Error>(Error::RpcDone) && final(self).state() is Cancelled) || ((res == Ok::<(), Error>(()) || res == Err::<(), Error>(
                Error::Disconnected,
            )) && final(self).state() is Alive),
    {
        let polled = poll(&self.commands);
        match self.update_frame(&polled, args) {
            Ok(frame) => {
                if send(&self.rpc_caller_commands, rpc_caller::Command::Send(frame)) {
                    Ok(())
                } else {
                    Err(Error::Disconnected)
                }
            },
            Err(error) => Err(error),
        }
    }

    /// Whether the call was cancelled. Looks at the cancel channel first: a
    /// context that is alive becomes cancelled when a cancel signal waits
    /// there or the channel is lost.
    pub fn cancelled(&mut self) -> (res: bool)
        ensures
            final(self).same_call(old(self)),
            res == (final(self).state() is Cancelled),
            final(self).state() == old(self).state() || (old(self).state() is Alive && final(self).state() is Cancelled),
    {
        self.update_state();
        match self.state {
            ContextState::Cancelled => true,
            _ => false,
        }
    }

    /// Sends the final result and finishes the context. Only a context that
    /// is alive can: any other fails with `RpcDone`, and so does one that
    /// finds itself cancelled. `Disconnected` says that the loop is gone; the
    /// context is finished all the same.
    pub fn finish(&mut self, result: RpcResult) -> (res: Result<(), Error>)
        ensures
            final(self).same_call(old(self)),
            !(old(self).state() is Alive) ==> res == Err::<(), Error>(Error::RpcDone) && final(self).state() == old(self).state(),
            old(self).state() is Alive ==> (res == Err::<(), Error>(Error::RpcDone) && final(self).state() is Cancelled) || ((res == Ok::<(), Error>(()) || res == Err::<(), Error>(
                Error::Disconnected,
            )) && final(self).state() is Finished),
    {
        let polled = poll(&self.commands);
        match self.finish_frame(&polled, result) {
            Ok(frame) => {
                if send(&self.rpc_caller_commands, rpc_caller::Command::Send(frame)) {
                    Ok(())
                } else {
                    Err(Error::Disconnected)
                }
            },
            Err(error) => Err(error),
        }
    }

    /// Makes a call of the handler's own through the same loop. Only a
    /// context that is alive can: any other fails with `RpcDone`, and so
    /// does one that finds itself cancelled.
    pub fn call(&mut self, function: &str, args: Value) -> (res: Result<client::Context, Error>)
        ensures
            final(self).same_call(old(self)),
            final(self).state() == old(self).state() || (old(self).state() is Alive && final(self).state() is Cancelled),
            !(final(self).state() is Alive) ==> res matches Err(Error::RpcDone),
            final(self).state() is Alive ==> (res matches Err(Error::Disconnected)) || (
            res matches Ok(made) && !made.is_closed() && made.loop_commands() == old(self).loop_commands()),
    {
        match self.check_liveness() {
            Ok(()) => client::Context::new(self.rpc_caller_commands.clone(), function, args),
            Err(error) => Err(error),
        }
    }
}

} // verus!
