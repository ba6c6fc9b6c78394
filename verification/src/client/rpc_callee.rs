//! The serving side of a peer: the procedures that it offers and the calls
//! that it is working on. It has a loop of its own, which takes what arrives
//! from the broker.

use crate::channel::{arrival, channel, receive, send};
use crate::client::pool::{execute, pool};
use crate::client::rpc::server::{self, Context, Rpc};
use crate::client::rpc_caller;
use crate::client::table::Table;
use crate::error::Error;
use crate::ipc::Message;
use crate::rpc::{ResponseKind, RpcResult};
use crate::spinner;
use serde_json::Value;
use std::sync::mpsc;
use std::sync::Arc;
use threadpool::ThreadPool;
use vstd::prelude::*;

verus! {

/// A command to the serving side.
pub enum Command {
    /// Leave the loop.
    Quit,
    /// Offer the procedure under the name.
    NewRpc(String, Box<dyn Rpc>),
    /// A message has arrived from the broker.
    Received(Message),
}

/// What the serving side is to do after it has handled a command.
pub enum Effect {
    /// Nothing.
    Nothing,
    /// Leave the loop.
    Quit,
    /// Run the procedure on the context with the arguments, on the worker
    /// pool.
    Invoke(Arc<Box<dyn Rpc>>, Context, Value),
    /// Tell the running handler behind the channel that its call was
    /// cancelled.
    Signal(mpsc::Sender<server::Command>),
    /// Hand the command to the calling side.
    Forward(rpc_caller::Command),
}

/// A call that a handler of this peer is working on.
pub struct RunningRpc {
    commands: mpsc::Sender<server::Command>,
}

impl RunningRpc {
    /// The channel on which the handler hears of a cancellation.
    pub closed spec fn signals(&self) -> mpsc::Sender<server::Command> {
        self.commands
    }

    /// A running call whose handler hears of a cancellation on `commands`.
    pub fn new(commands: mpsc::Sender<server::Command>) -> (res: RunningRpc)
        ensures
            res.signals() == commands,
    {
        RunningRpc { commands }
    }

    /// Gives the channel on which the handler hears of a cancellation.
    pub fn into_signals(self) -> (res: mpsc::Sender<server::Command>)
        ensures
            res == self.signals(),
    {
        self.commands
    }
}

/// The source of the commands to the serving side.
pub struct Receiver {
    commands: mpsc::Receiver<Command>,
}

impl Receiver {
    /// The channel that the receiver reads.
    pub closed spec fn source(&self) -> mpsc::Receiver<Command> {
        self.commands
    }

    /// A receiver that reads `commands`.
    pub fn new(commands: mpsc::Receiver<Command>) -> (res: Receiver)
        ensures
            res.source() == commands,
    {
        Receiver { commands }
    }

    /// Waits for the next command. `Disconnected` says that no command will
    /// come any more.
    pub fn recv(&mut self) -> (res: Result<Command, Error>)
        ensures
            final(self).source() == old(self).source(),
            res matches Err(error) ==> error == Error::Disconnected,
    {
        arrival(receive(&self.commands))
    }
}

/// The serving side of a peer.
pub struct Handler {
    remote_procedures: Table<Arc<Box<dyn Rpc>>>,
    running_rpc_calls: Table<RunningRpc>,
    caller_sender: mpsc::Sender<rpc_caller::Command>,
    thread_pool: ThreadPool,
}

impl Handler {
    /// The invariant of the handler.
    pub closed spec fn wf(&self) -> bool {
        self.remote_procedures.wf() && self.running_rpc_calls.wf()
    }

    /// The procedures that the peer offers, by name.
    pub closed spec fn procedures(&self) -> Map<Seq<char>, Arc<Box<dyn Rpc>>> {
        self.remote_procedures@
    }

    /// The calls that handlers of this peer are working on, by context id.
    pub closed spec fn running(&self) -> Map<Seq<char>, RunningRpc> {
        self.running_rpc_calls@
    }

    /// The channel to the loop.
    pub closed spec fn loop_commands(&self) -> mpsc::Sender<rpc_caller::Command> {
        self.caller_sender
    }

    /// A handler without procedures; handlers send through `caller_sender`.
    pub fn new(caller_sender: mpsc::Sender<rpc_caller::Command>) -> (res: Handler)
        ensures
            res.wf(),
            res.procedures() == Map::<Seq<char>, Arc<Box<dyn Rpc>>>::empty(),
            res.running() == Map::<Seq<char>, RunningRpc>::empty(),
            res.loop_commands() == caller_sender,
    {
        Handler {
            remote_procedures: Table::new(),
            running_rpc_calls: Table::new(),
            caller_sender,
            thread_pool: pool(1),
        }
    }

    /// Whether the peer offers the procedure `name`.
    pub fn offers(&self, name: &String) -> (res: bool)
        ensures
            res == self.procedures().contains_key(name@),
    {
        self.remote_procedures.contains_key(name)
    }

    /// Whether a handler is working on the call with this context id.
    pub fn is_running(&self, context: &String) -> (res: bool)
        ensures
            res == self.running().contains_key(context@),
    {
        self.running_rpc_calls.contains_key(context)
    }

    /// Offers `rpc` under `name`, in place of what was offered under it.
    pub fn new_rpc(&mut self, name: String, rpc: Arc<Box<dyn Rpc>>)
        requires
            old(self).wf(),
        ensures
            final(self).wf(),
            final(self).procedures() == old(self).procedures().insert(name@, rpc),
            final(self).running() == old(self).running(),
            final(self).loop_commands() == old(self).loop_commands(),
    {
        self.remote_procedures.insert(name, rpc);
    }

    /// Whether a handler in this state answers `message` with `effect` and
    /// is `after` afterwards.
    ///
    /// A call of a procedure that the peer offers is to be run on a context
    /// of its own, which is alive and sends through the loop, and the call
    /// is recorded as running. A call of any other procedure is declined: a
    /// final `NotHandled` is handed to the calling side. A cancellation is to
    /// be signalled on the channel that was recorded for the call, which is
    /// no longer recorded; one for a call that is not running is dropped. A
    /// response goes to the calling side.
    pub open spec fn answers(&self, message: Message, after: &Handler, effect: Effect) -> bool {
        &&& after.procedures() == self.procedures()
        &&& after.loop_commands() == self.loop_commands()
        &&& match message {
            Message::RpcCall(call) => if self.procedures().contains_key(call.function@) {
                &&& effect matches Effect::Invoke(procedure, context, args)
                &&& procedure == self.procedures()[call.function@]
                &&& context.id() == call.context@
                &&& context.state() is Alive
                &&& context.loop_commands() == self.loop_commands()
                &&& args == call.args
                &&& after.running().contains_key(call.context@)
                &&& after.running().remove(call.context@) == self.running().remove(call.context@)
            } else {
                &&& effect matches Effect::Forward(
                    rpc_caller::Command::Send(Message::RpcResponse(response)),
                )
                &&& response.context == call.context
                &&& response.kind == ResponseKind::Last(RpcResult::NotHandled)
                &&& after.running() == self.running()
            },
            Message::RpcCancel(cancel) => {
                &&& after.running() == self.running().remove(cancel.context@)
                &&& if self.running().contains_key(cancel.context@) {
                    effect == Effect::Signal(self.running()[cancel.context@].signals())
                } else {
                    effect is Nothing
                }
            },
            Message::RpcResponse(response) => {
                &&& effect == Effect::Forward(rpc_caller::Command::OutgoingCallFinished(response))
                &&& after.running() == self.running()
            },
        }
    }

    /// What a message from the broker leads to.
    ///
    /// A call of a procedure that the peer offers is recorded as running and
    /// is to be run on a context of its own; a call of any other procedure
    /// is declined. A cancellation is to be signalled to the handler that
    /// works on the call, which is no longer recorded; one for a call that
    /// is not running is dropped. A response goes to the calling side.
    pub fn received(&mut self, message: Message) -> (effect: Effect)
        requires
            old(self).wf(),
        ensures
            final(self).wf(),
            old(self).answers(message, final(self), effect),
    {
        match message {
            Message::RpcCall(call) => {
                let procedure = match self.remote_procedures.get(&call.function) {
                    Some(procedure) => procedure.clone(),
                    None => {
                        return Effect::Forward(
                            rpc_caller::Command::Send(
                                Message::last(call.context, RpcResult::NotHandled),
                            ),
                        );
                    },
                };
                let (signals, commands) = channel::<server::Command>();
                self.running_rpc_calls.insert(call.context.clone(), RunningRpc::new(signals));
                assert(self.running_rpc_calls@.remove(call.context@) =~= old(self).running_rpc_calls@.remove(call.context@));
                let context = Context::new(call.context, commands, self.caller_sender.clone());
                Effect::Invoke(procedure, context, call.args)
            },
            Message::RpcCancel(cancel) => match self.running_rpc_calls.remove(&cancel.context) {
                Some(running) => Effect::Signal(running.into_signals()),
                None => Effect::Nothing,
            },
            Message::RpcResponse(response) => Effect::Forward(
                rpc_caller::Command::OutgoingCallFinished(response),
            ),
        }
    }

    /// Handles one command: changes the state and says what is to be done.
    pub fn handle(&mut self, command: Command) -> (effect: Effect)
        requires
            old(self).wf(),
        ensures
            final(self).wf(),
            final(self).loop_commands() == old(self).loop_commands(),
            match command {
                Command::Quit => effect is Quit && final(self).procedures() == old(self).procedures() && final(self).running() == old(self).running(),
                Command::NewRpc(name, rpc) => {
                    &&& effect is Nothing
                    &&& final(self).procedures().contains_key(name@)
                    &&& final(self).procedures().remove(name@) == old(self).procedures().remove(
                        name@,
                    )
                    &&& final(self).running() == old(self).running()
                },
                Command::Received(message) => old(self).answers(message, final(self), effect),
            },
    {
        match command {
            Command::Quit => Effect::Quit,
            Command::NewRpc(name, rpc) => {
                let ghost key = name@;
                self.new_rpc(name, Arc::new(rpc));
                assert(self.procedures().remove(key) =~= old(self).procedures().remove(key));
                Effect::Nothing
            },
            Command::Received(message) => self.received(message),
        }
    }

    /// Does what `effect` asks for. A command that the calling side does not
    /// take ends the loop with `Disconnected`; a signal that nobody waits
    /// for any more is dropped.
    pub fn perform(&self, effect: Effect) -> (res: Result<spinner::Command, Error>)
        ensures
            match effect {
                Effect::Quit => res == Ok::<spinner::Command, Error>(spinner::Command::Quit),
                Effect::Forward(_) => res == Ok::<spinner::Command, Error>(
                    spinner::Command::Continue,
                ) || res == Err::<spinner::Command, Error>(Error::Disconnected),
                _ => res == Ok::<spinner::Command, Error>(spinner::Command::Continue),
            },
    {
        match effect {
            Effect::Nothing => Ok(spinner::Command::Continue),
            Effect::Quit => Ok(spinner::Command::Quit),
            Effect::Invoke(procedure, context, args) => {
                execute(&self.thread_pool, procedure, context, args);
                Ok(spinner::Command::Continue)
            },
            Effect::Signal(signals) => {
                let _ = send(&signals, server::Command::Cancel);
                Ok(spinner::Command::Continue)
            },
            Effect::Forward(command) => {
                if send(&self.caller_sender, command) {
                    Ok(spinner::Command::Continue)
                } else {
                    Err(Error::Disconnected)
                }
            },
        }
    }
}

} // verus!
