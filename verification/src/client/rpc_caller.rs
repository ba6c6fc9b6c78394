//! The calling side of a peer: the loop that keeps track of the calls that
//! the peer has made and hands messages to the writer.

use crate::channel::{arrival, receive, send};
use crate::client::table::Table;
use crate::error::Error;
use crate::ipc::Message;
use crate::rpc::{Cancel, Response};
use crate::spinner;
use std::sync::mpsc;
use vstd::prelude::*;

verus! {

/// The sending end of the channel of commands to the loop.
pub type CommandSender = mpsc::Sender<Command>;

/// A command to the loop.
pub enum Command {
    /// Leave the loop.
    Quit,
    /// Make a call: remember that the responses to the call with this
    /// context id go to the channel, and send the message.
    OutgoingCall(String, mpsc::Sender<Response>, Message),
    /// A response to a call that the peer has made.
    OutgoingCallFinished(Response),
    /// Cancel the call with this context id.
    CancelOutgoingRpc(String),
    /// Send the message.
    Send(Message),
}

/// What the loop is to do after it has handled a command.
pub enum Effect {
    /// Nothing.
    Nothing,
    /// Leave the loop.
    Quit,
    /// Hand the message to the writer.
    Enqueue(Message),
    /// Hand the response to the caller that waits behind the channel.
    Deliver(mpsc::Sender<Response>, Response),
}

/// The books of the loop: where the responses to each call that has not
/// ended go, by context id.
pub type Outgoing = Map<Seq<char>, mpsc::Sender<Response>>;

/// What handling one command leads to.
pub struct Step {
    /// The books afterwards.
    pub outgoing: Outgoing,
    /// What is to be done.
    pub effect: Effect,
}

/// What a response to a call of this peer leads to: it goes to the channel
/// that was recorded for the call, which is forgotten with the final result.
/// A response to a call that is not recorded is dropped.
pub open spec fn delivered(outgoing: Outgoing, response: Response) -> Step {
    Step {
        outgoing: if response.kind is Last {
            outgoing.remove(response.context@)
        } else {
            outgoing
        },
        effect: if outgoing.contains_key(response.context@) {
            Effect::Deliver(outgoing[response.context@], response)
        } else {
            Effect::Nothing
        },
    }
}

/// What handling `command` leads to.
///
/// A call is recorded and its message goes to the writer. A response goes
/// to the channel that was recorded for its call. A cancellation forgets the
/// call and goes to the writer. Any other message goes to the writer as it
/// is.
pub open spec fn handled(outgoing: Outgoing, command: Command) -> Step {
    match command {
        Command::Quit => Step { outgoing, effect: Effect::Quit },
        Command::OutgoingCall(context, sink, message) => Step {
            outgoing: outgoing.insert(context@, sink),
            effect: Effect::Enqueue(message),
        },
        Command::OutgoingCallFinished(response) => delivered(outgoing, response),
        Command::CancelOutgoingRpc(context) => Step {
            outgoing: outgoing.remove(context@),
            effect: Effect::Enqueue(Message::RpcCancel(Cancel { context })),
        },
        Command::Send(message) => Step { outgoing, effect: Effect::Enqueue(message) },
    }
}

/// The source of the commands to the loop.
pub struct Receiver {
    commands: mpsc::Receiver<Command>,
}

impl Receiver {
    /// The channel that the receiver reads.
    pub closed spec fn source(&self) -> mpsc::Receiver<Command> {
        self.commands
    }

    /// A receiver that reads `commands`.
    pub fn new(commands: mpsc::Receiver<Command>) -> (res: Receiver)
        ensures
            res.source() == commands,
    {
        Receiver { commands }
    }

    /// Waits for the next command. `Disconnected` says that no command will
    /// come any more.
    pub fn recv(&mut self) -> (res: Result<Command, Error>)
        ensures
            final(self).source() == old(self).source(),
            res matches Err(error) ==> error == Error::Disconnected,
    {
        arrival(receive(&self.commands))
    }
}

/// The state of the loop.
pub struct Handler {
    running_function_calls: Table<mpsc::Sender<Response>>,
    send_queue: mpsc::Sender<Message>,
}

impl Handler {
    /// The invariant of the loop's state.
    pub closed spec fn wf(&self) -> bool {
        self.running_function_calls.wf()
    }

    /// The calls that the peer has made and that have not ended: where the
    /// responses to each go, by context id.
    pub closed spec fn outgoing(&self) -> Outgoing {
        self.running_function_calls@
    }

    /// The channel to the writer.
    pub closed spec fn writer(&self) -> mpsc::Sender<Message> {
        self.send_queue
    }

    /// A loop that has made no calls. Messages go to `send_queue`.
    pub fn new(send_queue: mpsc::Sender<Message>) -> (res: Handler)
        ensures
            res.wf(),
            res.outgoing() == Map::<Seq<char>, mpsc::Sender<Response>>::empty(),
            res.writer() == send_queue,
    {
        Handler { running_function_calls: Table::new(), send_queue }
    }

    /// Whether the call with this context id has been made and has not
    /// ended.
    pub fn is_outstanding(&self, context: &String) -> (res: bool)
        ensures
            res == self.outgoing().contains_key(context@),
    {
        self.running_function_calls.contains_key(context)
    }

    /// Where a response to a call of this peer goes.
    fn deliver(&mut self, response: Response) -> (effect: Effect)
        requires
            old(self).wf(),
        ensures
            final(self).wf(),
            final(self).writer() == old(self).writer(),
            final(self).outgoing() == delivered(old(self).outgoing(), response).outgoing,
            effect == delivered(old(self).outgoing(), response).effect,
    {
        let last = match &response.kind {
            crate::rpc::ResponseKind::Last(_) => true,
            crate::rpc::ResponseKind::Partial(_) => false,
        };
        if last {
            match self.running_function_calls.remove(&response.context) {
                Some(sink) => Effect::Deliver(sink, response),
                None => Effect::Nothing,
            }
        } else {
            match self.running_function_calls.get(&response.context) {
                Some(sink) => Effect::Deliver(sink.clone(), response),
                None => Effect::Nothing,
            }
        }
    }

    /// Handles one command: changes the books and says what is to be done.
    pub fn handle(&mut self, command: Command) -> (effect: Effect)
        requires
            old(self).wf(),
        ensures
            final(self).wf(),
            final(self).writer() == old(self).writer(),
            final(self).outgoing() == handled(old(self).outgoing(), command).outgoing,
            effect == handled(old(self).outgoing(), command).effect,
    {
        match command {
            Command::Quit => Effect::Quit,
            Command::OutgoingCall(context, sink, message) => {
                self.running_function_calls.insert(context, sink);
                Effect::Enqueue(message)
            },
            Command::OutgoingCallFinished(response) => self.deliver(response),
            Command::CancelOutgoingRpc(context) => {
                let _ = self.running_function_calls.remove(&context);
                Effect::Enqueue(Message::cancel(context))
            },
            Command::Send(message) => Effect::Enqueue(message),
        }
    }

    /// Does what `effect` asks for. A message that the writer does not take
    /// ends the loop with `Disconnected`; a response that nobody waits for
    /// any more is dropped.
    pub fn perform(&self, effect: Effect) -> (res: Result<spinner::Command, Error>)
        ensures
            match effect {
                Effect::Quit => res == Ok::<spinner::Command, Error>(spinner::Command::Quit),
                Effect::Enqueue(_) => res == Ok::<spinner::Command, Error>(
                    spinner::Command::Continue,
                ) || res == Err::<spinner::Command, Error>(Error::Disconnected),
                _ => res == Ok::<spinner::Command, Error>(spinner::Command::Continue),
            },
    {
        match effect {
            Effect::Nothing => Ok(spinner::Command::Continue),
            Effect::Quit => Ok(spinner::Command::Quit),
            Effect::Enqueue(message) => {
                if send(&self.send_queue, message) {
                    Ok(spinner::Command::Continue)
                } else {
                    Err(Error::Disconnected)
                }
            },
            Effect::Deliver(sink, response) => {
                let _ = send(&sink, response);
                Ok(spinner::Command::Continue)
            },
        }
    }
}

} // verus!
