//! A peer of the broker: the loop that keeps track of its calls, and the
//! handles by which calls are made and served.

use crate::channel::send;
use crate::client::rpc::client::Context;
use crate::client::rpc::server::Rpc;
use crate::error::Error;
use crate::rpc::{ResponseKind, RpcResult};
use crate::server::plugin_core::NewRpcRequest;
use serde_json::Value;
use std::sync::mpsc::Sender;
use vstd::prelude::*;

pub mod laws;
pub mod pool;
pub mod rpc;
pub mod rpc_callee;
pub mod rpc_caller;
pub mod table;

verus! {

/// Something that can make calls.
pub trait RpcCaller {
    /// Makes the call of `function` with `args`.
    fn call(&mut self, function: &str, args: Value) -> Result<Context, Error>;
}

/// What the broker's answer to a registration request means for the peer:
/// success lets it offer the procedure, a failure is passed on by its kind,
/// and anything else than a final result counts as a failure of unknown
/// kind.
pub open spec fn registration(answer: Result<ResponseKind, Error>) -> Result<(), Error> {
    match answer {
        Ok(ResponseKind::Last(RpcResult::Success(_))) => Ok(()),
        Ok(ResponseKind::Last(RpcResult::Failure(error))) => Err(Error::Rpc(error.kind)),
        Ok(ResponseKind::Last(RpcResult::NotHandled)) => Err(Error::NotHandled),
        Ok(ResponseKind::Partial(_)) => Err(Error::Rpc(crate::rpc::ErrorKind::Unknown)),
        Err(error) => Err(error),
    }
}

/// Whether `res` is a result that the offering of a procedure can have: the
/// meaning of an answer of the broker, or `Disconnected` when a loop of the
/// peer is gone.
pub open spec fn is_offer_result(res: Result<(), Error>) -> bool {
    res == Err::<(), Error>(Error::Disconnected) || exists|answer: ResponseKind|
        res == #[trigger] registration(Ok(answer))
}

/// The handles of a peer on its two loops: through the one it makes calls,
/// through the other it offers procedures.
pub struct Client {
    rpc_loop_commands: rpc_caller::CommandSender,
    serving_commands: Sender<rpc_callee::Command>,
}

impl Client {
    /// The channel to the calling side.
    pub closed spec fn loop_commands(&self) -> Sender<rpc_caller::Command> {
        self.rpc_loop_commands
    }

    /// The channel to the serving side.
    pub closed spec fn serving(&self) -> Sender<rpc_callee::Command> {
        self.serving_commands
    }

    /// The handles of a peer whose calling side takes `rpc_loop_commands`
    /// and whose serving side takes `serving_commands`.
    pub fn new(
        rpc_loop_commands: rpc_caller::CommandSender,
        serving_commands: Sender<rpc_callee::Command>,
    ) -> (res: Client)
        ensures
            res.loop_commands() == rpc_loop_commands,
            res.serving() == serving_commands,
    {
        Client { rpc_loop_commands, serving_commands }
    }

    /// What the broker's answer to a registration request means.
    pub fn registered(answer: Result<ResponseKind, Error>) -> (res: Result<(), Error>)
        ensures
            res == registration(answer),
    {
        match answer {
            Ok(ResponseKind::Last(RpcResult::Success(_))) => Ok(()),
            Ok(ResponseKind::Last(RpcResult::Failure(error))) => Err(Error::Rpc(error.kind)),
            Ok(ResponseKind::Last(RpcResult::NotHandled)) => Err(Error::NotHandled),
            Ok(ResponseKind::Partial(_)) => Err(Error::Rpc(crate::rpc::ErrorKind::Unknown)),
            Err(error) => Err(error),
        }
    }

    /// Offers `rpc` to the other peers under `name`: asks the broker to
    /// register the function at the procedure's priority and, when the
    /// broker agrees, hands the procedure to the serving side. A refusal of
    /// the broker is passed on; `Disconnected` says that a loop is gone.
    pub fn new_rpc(&mut self, name: &str, rpc: Box<dyn Rpc>) -> (res: Result<(), Error>)
        ensures
            final(self).loop_commands() == old(self).loop_commands(),
            final(self).serving() == old(self).serving(),
            is_offer_result(res),
    {
        let request = NewRpcRequest { priority: rpc.priority(), name: name.to_owned() };
        let mut call = match Context::new(
            self.rpc_loop_commands.clone(),
            "core.new_rpc",
            request.encode(),
        ) {
            Ok(call) => call,
            Err(error) => {
                return Err(error);
            },
        };
        let answer = call.recv();
        proof {
            if answer is Ok {
                assert(is_offer_result(registration(Ok(answer->Ok_0))));
            }
        }
        match Client::registered(answer) {
            Ok(()) => {
                if send(
                    &self.serving_commands,
                    rpc_callee::Command::NewRpc(name.to_owned(), rpc),
                ) {
                    Ok(())
                } else {
                    Err(Error::Disconnected)
                }
            },
            Err(error) => Err(error),
        }
    }

    /// A handle that can make calls through the same loop and nothing else.
    pub fn clone(&self) -> (res: Result<ThinClient, Error>)
        ensures
            res matches Ok(thin) && thin.loop_commands() == self.loop_commands(),
    {
        Ok(ThinClient { rpc_loop_commands: self.rpc_loop_commands.clone() })
    }
}

impl RpcCaller for Client {
    fn call(&mut self, function: &str, args: Value) -> (res: Result<Context, Error>)
        ensures
            final(self).loop_commands() == old(self).loop_commands(),
            final(self).serving() == old(self).serving(),
            res matches Ok(made) ==> !made.is_closed() && made.loop_commands() == old(self).loop_commands(),
            res matches Err(error) ==> error == Error::Disconnected,
    {
        Context::new(self.rpc_loop_commands.clone(), function, args)
    }
}

/// A handle on the loop of a peer that can make calls and nothing else. It
/// is cheap to clone, so that many threads can make calls side by side.
pub struct ThinClient {
    rpc_loop_commands: Sender<rpc_caller::Command>,
}

impl ThinClient {
    /// The channel to the loop.
    pub closed spec fn loop_commands(&self) -> Sender<rpc_caller::Command> {
        self.rpc_loop_commands
    }

    /// A handle on the loop behind `commands`.
    pub fn new(commands: Sender<rpc_caller::Command>) -> (res: ThinClient)
        ensures
            res.loop_commands() == commands,
    {
        ThinClient { rpc_loop_commands: commands }
    }

    /// Another handle on the same loop.
    pub fn clone(&self) -> (res: ThinClient)
        ensures
            res.loop_commands() == self.loop_commands(),
    {
        ThinClient { rpc_loop_commands: self.rpc_loop_commands.clone() }
    }
}

impl RpcCaller for ThinClient {
    fn call(&mut self, function: &str, args: Value) -> (res: Result<Context, Error>)
        ensures
            final(self).loop_commands() == old(self).loop_commands(),
            res matches Ok(made) ==> !made.is_closed() && made.loop_commands() == old(self).loop_commands(),
            res matches Err(error) ==> error == Error::Disconnected,
    {
        Context::new(self.rpc_loop_commands.clone(), function, args)
    }
}

} // verus!
