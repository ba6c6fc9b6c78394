//! Whole conversations between peers and the broker, played on one thread:
//! every message that a peer hands to its writer is carried to the broker,
//! and every message that the broker sends is carried to the peer's loops.

use serde_json::Value;
use std::collections::VecDeque;
use std::sync::mpsc;
use std::sync::{Arc, Mutex};
use swiboe::client::pool::run;
use swiboe::client::rpc::client;
use swiboe::client::rpc::server::{Context, ContextState, Rpc};
use swiboe::client::{rpc_callee, rpc_caller};
use swiboe::error::Error;
use swiboe::ipc::Message;
use swiboe::rpc::{self, ErrorKind, ResponseKind, RpcResult};
use swiboe::server::dispatcher::{Broker, Command};
use swiboe::server::ipc_bridge;
use swiboe::server::plugin_core::NewRpcRequest;

struct Peer {
    id: u64,
    caller: rpc_caller::Handler,
    callee: rpc_callee::Handler,
    commands: mpsc::Sender<rpc_caller::Command>,
    inbox: mpsc::Receiver<rpc_caller::Command>,
    wire: mpsc::Receiver<Message>,
    connected: bool,
}

struct Net {
    broker: Broker,
    peers: Vec<Peer>,
    /// The connections that the broker asked to close.
    closed_by_broker: Vec<u64>,
}

fn json(text: &str) -> Value {
    serde_json::from_str(text).unwrap()
}

impl Net {
    fn new() -> Net {
        Net { broker: Broker::new(), peers: Vec::new(), closed_by_broker: Vec::new() }
    }

    fn join(&mut self) -> usize {
        let id = self.peers.len() as u64 + 1;
        let (commands, inbox) = mpsc::channel();
        let (send_queue, wire) = mpsc::channel();
        let broker_commands = self.broker.handle(Command::PeerConnected(id));
        assert!(broker_commands.is_empty());
        self.peers.push(Peer {
            id,
            caller: rpc_caller::Handler::new(send_queue),
            callee: rpc_callee::Handler::new(commands.clone()),
            commands,
            inbox,
            wire,
            connected: true,
        });
        self.peers.len() - 1
    }

    fn call(&mut self, peer: usize, function: &str, args: Value) -> client::Context {
        let context = client::Context::new(self.peers[peer].commands.clone(), function, args).unwrap();
        self.settle();
        context
    }

    /// Asks the broker to register `name` for the peer and, when the broker
    /// agrees, lets the peer offer `rpc`.
    fn offer(&mut self, peer: usize, name: &str, rpc: Box<dyn Rpc>) -> RpcResult {
        let request = NewRpcRequest { priority: rpc.priority(), name: name.to_string() };
        let mut call = self.call(peer, "core.new_rpc", request.encode());
        let answer = match call.try_recv() {
            Ok(Some(ResponseKind::Last(result))) => result,
            other => panic!("no final answer to the registration: {:?}", other),
        };
        if answer.is_ok() {
            self.peers[peer].callee.new_rpc(name.to_string(), Arc::new(rpc));
        }
        answer
    }

    fn disconnect(&mut self, peer: usize) {
        self.peers[peer].connected = false;
        let id = self.peers[peer].id;
        let commands = self.broker.handle(Command::PeerDisconnected(id));
        self.carry_out(commands);
        self.settle();
    }

    fn index_of(&self, id: u64) -> usize {
        self.peers.iter().position(|p| p.id == id).unwrap()
    }

    fn carry_out(&mut self, commands: Vec<ipc_bridge::Command>) {
        let mut queue: VecDeque<ipc_bridge::Command> = commands.into_iter().collect();
        while let Some(command) = queue.pop_front() {
            match command {
                ipc_bridge::Command::Quit => {},
                ipc_bridge::Command::SendToPeer(id, message) => {
                    let at = self.index_of(id);
                    if !self.peers[at].connected {
                        continue;
                    }
                    let effect = self.peers[at].callee.handle(rpc_callee::Command::Received(message));
                    match effect {
                        rpc_callee::Effect::Invoke(procedure, context, args) => {
                            run(&procedure, context, args)
                        },
                        other => {
                            self.peers[at].callee.perform(other).unwrap();
                        },
                    }
                },
                ipc_bridge::Command::DisconnectPeer(id) => {
                    let at = self.index_of(id);
                    self.peers[at].connected = false;
                    self.closed_by_broker.push(id);
                    for more in self.broker.handle(Command::PeerDisconnected(id)) {
                        queue.push_back(more);
                    }
                },
            }
        }
    }

    /// Carries messages about until nobody has anything to say.
    fn settle(&mut self) {
        loop {
            let mut progress = false;
            for at in 0..self.peers.len() {
                while let Ok(command) = self.peers[at].inbox.try_recv() {
                    let effect = self.peers[at].caller.handle(command);
                    self.peers[at].caller.perform(effect).unwrap();
                    progress = true;
                }
                while let Ok(message) = self.peers[at].wire.try_recv() {
                    progress = true;
                    if !self.peers[at].connected {
                        continue;
                    }
                    let id = self.peers[at].id;
                    let commands = self.broker.handle(Command::Received(id, message));
                    self.carry_out(commands);
                }
            }
            if !progress {
                break;
            }
        }
    }
}

/// Answers with its arguments.
struct Echo {
    priority: u16,
}

impl Rpc for Echo {
    fn priority(&self) -> u16 {
        self.priority
    }

    fn call(&self, mut context: Context, args: Value) {
        context.finish(RpcResult::Success(args)).unwrap();
    }
}

/// Declines every call.
struct Decline {
    priority: u16,
}

impl Rpc for Decline {
    fn priority(&self) -> u16 {
        self.priority
    }

    fn call(&self, mut context: Context, _args: Value) {
        context.finish(RpcResult::NotHandled).unwrap();
    }
}

/// Answers with a fixed value.
struct Fixed {
    priority: u16,
    answer: Value,
}

impl Rpc for Fixed {
    fn priority(&self) -> u16 {
        self.priority
    }

    fn call(&self, mut context: Context, _args: Value) {
        context.finish(RpcResult::Success(self.answer.clone())).unwrap();
    }
}

/// Sends some partial results and keeps the context for the test to look at.
struct Stream {
    priority: u16,
    partials: Vec<Value>,
    parked: Arc<Mutex<Option<Context>>>,
}

impl Rpc for Stream {
    fn priority(&self) -> u16 {
        self.priority
    }

    fn call(&self, mut context: Context, _args: Value) {
        for partial in self.partials.iter() {
            context.update(partial.clone()).unwrap();
        }
        *self.parked.lock().unwrap() = Some(context);
    }
}

/// A procedure that relies on the default priority.
struct Plain;

impl Rpc for Plain {
    fn call(&self, mut context: Context, _args: Value) {
        context.finish(RpcResult::Success(Value::Null)).unwrap();
    }
}

/// Passes its arguments on to another procedure and keeps both ends for the
/// test to look at.
struct Relay {
    to: String,
    made: Arc<Mutex<Option<client::Context>>>,
    parked: Arc<Mutex<Option<Context>>>,
}

impl Rpc for Relay {
    fn call(&self, mut context: Context, args: Value) {
        let nested = context.call(&self.to, args).unwrap();
        *self.made.lock().unwrap() = Some(nested);
        *self.parked.lock().unwrap() = Some(context);
    }
}

fn expect_frame(context: &mut client::Context) -> ResponseKind {
    match context.try_recv() {
        Ok(Some(kind)) => kind,
        other => panic!("expected a frame, got {:?}", other),
    }
}

#[test]
fn basic_echo() {
    let mut net = Net::new();
    let a = net.join();
    let b = net.join();
    assert_eq!(net.offer(b, "echo", Box::new(Echo { priority: 100 })), RpcResult::Success(json("{}")));

    let mut call = net.call(a, "echo", json(r#"{"n":42}"#));
    assert_eq!(expect_frame(&mut call), ResponseKind::Last(RpcResult::Success(json(r#"{"n":42}"#))));
    // Exactly one response: the stream is closed and nothing else waits.
    assert!(call.done());
    assert_eq!(call.try_recv(), Err(Error::RpcDone));
    assert_eq!(net.broker.calls_in_flight(), 0);
}

#[test]
fn priority_fallthrough() {
    let mut net = Net::new();
    let a = net.join();
    let b = net.join();
    let c = net.join();
    assert!(net.offer(b, "greet", Box::new(Decline { priority: 50 })).is_ok());
    assert!(net
        .offer(c, "greet", Box::new(Fixed { priority: 100, answer: json(r#"{"msg":"hi"}"#) }))
        .is_ok());

    let mut call = net.call(a, "greet", Value::Null);
    assert_eq!(
        expect_frame(&mut call),
        ResponseKind::Last(RpcResult::Success(json(r#"{"msg":"hi"}"#)))
    );
    assert_eq!(call.try_recv(), Err(Error::RpcDone));
}

#[test]
fn priority_fallthrough_whatever_the_order_of_registration() {
    let mut net = Net::new();
    let a = net.join();
    let b = net.join();
    let c = net.join();
    // The handler with the higher number registers first.
    assert!(net
        .offer(c, "greet", Box::new(Fixed { priority: 20, answer: json(r#"{"msg":"hi"}"#) }))
        .is_ok());
    assert!(net.offer(b, "greet", Box::new(Decline { priority: 10 })).is_ok());

    let mut call = net.call(a, "greet", Value::Null);
    assert_eq!(
        expect_frame(&mut call),
        ResponseKind::Last(RpcResult::Success(json(r#"{"msg":"hi"}"#)))
    );
}

#[test]
fn lower_priority_number_is_asked_first() {
    let mut net = Net::new();
    let a = net.join();
    let b = net.join();
    let c = net.join();
    assert!(net.offer(b, "pick", Box::new(Fixed { priority: 20, answer: json("20") })).is_ok());
    assert!(net.offer(c, "pick", Box::new(Fixed { priority: 10, answer: json("10") })).is_ok());
    let mut call = net.call(a, "pick", Value::Null);
    assert_eq!(expect_frame(&mut call), ResponseKind::Last(RpcResult::Success(json("10"))));
}

#[test]
fn equal_priorities_earliest_registration_wins() {
    let mut net = Net::new();
    let a = net.join();
    let b = net.join();
    let c = net.join();
    assert!(net.offer(b, "pick", Box::new(Fixed { priority: 7, answer: json(r#""first""#) })).is_ok());
    assert!(net.offer(c, "pick", Box::new(Fixed { priority: 7, answer: json(r#""second""#) })).is_ok());
    let mut call = net.call(a, "pick", Value::Null);
    assert_eq!(expect_frame(&mut call), ResponseKind::Last(RpcResult::Success(json(r#""first""#))));
}

#[test]
fn every_handler_declines() {
    let mut net = Net::new();
    let a = net.join();
    let b = net.join();
    let c = net.join();
    assert!(net.offer(b, "greet", Box::new(Decline { priority: 1 })).is_ok());
    assert!(net.offer(c, "greet", Box::new(Decline { priority: 2 })).is_ok());
    let mut call = net.call(a, "greet", Value::Null);
    assert_eq!(expect_frame(&mut call), ResponseKind::Last(RpcResult::NotHandled));
    assert_eq!(net.broker.calls_in_flight(), 0);
}

#[test]
fn streaming_and_cancel() {
    let mut net = Net::new();
    let a = net.join();
    let b = net.join();
    let parked = Arc::new(Mutex::new(None));
    let stream = Stream {
        priority: 100,
        partials: vec![json(r#"{"i":0}"#), json(r#"{"i":1}"#)],
        parked: parked.clone(),
    };
    assert!(net.offer(b, "stream", Box::new(stream)).is_ok());

    let mut call = net.call(a, "stream", Value::Null);
    assert_eq!(expect_frame(&mut call), ResponseKind::Partial(json(r#"{"i":0}"#)));
    assert_eq!(expect_frame(&mut call), ResponseKind::Partial(json(r#"{"i":1}"#)));
    assert!(!call.done());

    let mut context = parked.lock().unwrap().take().unwrap();
    assert_eq!(context.current_state(), ContextState::Alive);
    assert!(!context.cancelled());

    assert_eq!(call.cancel(), Ok(()));
    net.settle();

    // The caller's next receive reports the end of the stream.
    assert_eq!(call.try_recv(), Err(Error::RpcDone));
    assert_eq!(call.recv(), Err(Error::RpcDone));
    // The handler finds itself cancelled.
    assert!(context.cancelled());
    assert_eq!(context.current_state(), ContextState::Cancelled);
    assert_eq!(context.finish(RpcResult::Success(Value::Null)), Err(Error::RpcDone));
    assert_eq!(context.update(Value::Null), Err(Error::RpcDone));
    assert_eq!(net.broker.calls_in_flight(), 0);
    let id = call.context().clone();
    assert!(!net.peers[a].caller.is_outstanding(&id));
    assert!(!net.peers[b].callee.is_running(&id));
}

#[test]
fn unknown_function() {
    let mut net = Net::new();
    let a = net.join();
    let mut call = net.call(a, "no.such.fn", Value::Null);
    assert_eq!(expect_frame(&mut call), ResponseKind::Last(RpcResult::NotHandled));
    assert_eq!(call.try_recv(), Err(Error::RpcDone));
    assert_eq!(net.broker.calls_in_flight(), 0);
}

#[test]
fn duplicate_registration() {
    let mut net = Net::new();
    let b = net.join();
    assert_eq!(net.offer(b, "x", Box::new(Echo { priority: 1 })), RpcResult::Success(json("{}")));
    assert_eq!(
        net.offer(b, "x", Box::new(Echo { priority: 2 })),
        RpcResult::Failure(rpc::Error { kind: ErrorKind::DuplicateFunctionForPeer, details: None })
    );
    assert!(net.broker.has_function(&"x".to_string()));
}

#[test]
fn handler_disconnect_mid_stream() {
    let mut net = Net::new();
    let a = net.join();
    let b = net.join();
    let parked = Arc::new(Mutex::new(None));
    let slow = Stream { priority: 5, partials: vec![json(r#"{"step":1}"#)], parked: parked.clone() };
    assert!(net.offer(b, "slow", Box::new(slow)).is_ok());
    assert!(net.broker.has_function(&"slow".to_string()));

    let mut call = net.call(a, "slow", Value::Null);
    net.disconnect(b);

    assert_eq!(expect_frame(&mut call), ResponseKind::Partial(json(r#"{"step":1}"#)));
    assert_eq!(
        expect_frame(&mut call),
        ResponseKind::Last(RpcResult::Failure(rpc::Error {
            kind: ErrorKind::Disconnected,
            details: None
        }))
    );
    assert_eq!(call.try_recv(), Err(Error::RpcDone));
    assert!(!net.broker.has_function(&"slow".to_string()));
    assert!(!net.broker.is_connected(net.peers[b].id));
    assert_eq!(net.broker.calls_in_flight(), 0);
}

#[test]
fn handler_disconnect_is_not_retried_with_the_next_handler() {
    let mut net = Net::new();
    let a = net.join();
    let b = net.join();
    let c = net.join();
    let parked = Arc::new(Mutex::new(None));
    let slow = Stream { priority: 5, partials: vec![], parked: parked.clone() };
    assert!(net.offer(b, "slow", Box::new(slow)).is_ok());
    assert!(net.offer(c, "slow", Box::new(Fixed { priority: 6, answer: json("1") })).is_ok());
    let mut call = net.call(a, "slow", Value::Null);
    net.disconnect(b);
    assert_eq!(
        expect_frame(&mut call),
        ResponseKind::Last(RpcResult::Failure(rpc::Error {
            kind: ErrorKind::Disconnected,
            details: None
        }))
    );
    // The other handler still serves the function.
    assert!(net.broker.has_function(&"slow".to_string()));
}

#[test]
fn caller_disconnect_cancels_the_handler() {
    let mut net = Net::new();
    let a = net.join();
    let b = net.join();
    let parked = Arc::new(Mutex::new(None));
    let slow = Stream { priority: 5, partials: vec![], parked: parked.clone() };
    assert!(net.offer(b, "slow", Box::new(slow)).is_ok());
    let call = net.call(a, "slow", Value::Null);
    assert_eq!(net.broker.calls_in_flight(), 1);
    let mut context = parked.lock().unwrap().take().unwrap();
    assert!(!context.cancelled());

    net.disconnect(a);
    assert!(context.cancelled());
    assert_eq!(net.broker.calls_in_flight(), 0);
    assert!(!call.done());
}

#[test]
fn disconnecting_twice_changes_nothing() {
    let mut net = Net::new();
    let a = net.join();
    let b = net.join();
    assert!(net.offer(b, "echo", Box::new(Echo { priority: 1 })).is_ok());
    let id = net.peers[b].id;
    net.disconnect(b);
    assert!(!net.broker.is_connected(id));
    assert!(net.broker.handle(Command::PeerDisconnected(id)).is_empty());
    assert!(net.broker.disconnect(id).is_empty());
    assert!(net.broker.is_connected(net.peers[a].id));
    assert!(!net.broker.has_function(&"echo".to_string()));
    // A peer that never connected.
    assert!(net.broker.disconnect(99).is_empty());
}

#[test]
fn payloads_pass_through_unchanged() {
    let payloads = [
        "null",
        "true",
        "0",
        "-17",
        "18446744073709551615",
        "2.5",
        r#""text with \"quotes\" and é""#,
        "[]",
        "{}",
        r#"[1,[2,[3,{"deep":[null,false]}]]]"#,
        r#"{"a":{"b":{"c":[1,2,3]}},"empty":"","list":[{"x":1},{"x":2}]}"#,
    ];
    let mut net = Net::new();
    let a = net.join();
    let b = net.join();
    assert!(net.offer(b, "echo", Box::new(Echo { priority: 100 })).is_ok());
    for payload in payloads.iter() {
        let mut call = net.call(a, "echo", json(payload));
        assert_eq!(expect_frame(&mut call), ResponseKind::Last(RpcResult::Success(json(payload))));
    }
}

#[test]
fn one_final_per_call_over_many_calls() {
    let mut net = Net::new();
    let a = net.join();
    let b = net.join();
    let c = net.join();
    assert!(net.offer(b, "work", Box::new(Decline { priority: 1 })).is_ok());
    assert!(net.offer(c, "work", Box::new(Echo { priority: 2 })).is_ok());
    let mut calls = Vec::new();
    for n in 0..5u64 {
        calls.push((n, net.call(a, "work", Value::from(n))));
    }
    for (n, call) in calls.iter_mut() {
        assert_eq!(expect_frame(call), ResponseKind::Last(RpcResult::Success(Value::from(*n))));
        assert_eq!(call.try_recv(), Err(Error::RpcDone));
    }
    assert_eq!(net.broker.calls_in_flight(), 0);
}

#[test]
fn cancel_after_the_final_result_is_ignored() {
    let mut net = Net::new();
    let a = net.join();
    let b = net.join();
    assert!(net.offer(b, "echo", Box::new(Echo { priority: 1 })).is_ok());
    let call = net.call(a, "echo", Value::Null);
    let id = call.context().clone();
    let from = net.peers[a].id;
    let late = net.broker.handle(Command::Received(from, Message::cancel(id)));
    assert!(late.is_empty());
}

#[test]
fn default_priority_is_the_last_to_be_asked() {
    let mut net = Net::new();
    let a = net.join();
    let b = net.join();
    let c = net.join();
    assert!(net.offer(b, "f", Box::new(Plain)).is_ok());
    assert!(net.offer(c, "f", Box::new(Fixed { priority: 65534, answer: json("1") })).is_ok());
    let mut call = net.call(a, "f", Value::Null);
    assert_eq!(expect_frame(&mut call), ResponseKind::Last(RpcResult::Success(json("1"))));
}

#[test]
fn a_handler_may_call_other_procedures() {
    let mut net = Net::new();
    let a = net.join();
    let b = net.join();
    let c = net.join();
    let made = Arc::new(Mutex::new(None));
    let parked = Arc::new(Mutex::new(None));
    let relay = Relay { to: "echo".to_string(), made: made.clone(), parked: parked.clone() };
    assert!(net.offer(b, "relay", Box::new(relay)).is_ok());
    assert!(net.offer(c, "echo", Box::new(Echo { priority: 1 })).is_ok());

    let mut outer = net.call(a, "relay", json("[1,2]"));
    net.settle();
    let mut nested = made.lock().unwrap().take().unwrap();
    let answer = expect_frame(&mut nested);
    assert_eq!(answer, ResponseKind::Last(RpcResult::Success(json("[1,2]"))));
    let mut context = parked.lock().unwrap().take().unwrap();
    assert_eq!(context.finish(RpcResult::Success(json("[1,2]"))), Ok(()));
    net.settle();
    assert_eq!(expect_frame(&mut outer), ResponseKind::Last(RpcResult::Success(json("[1,2]"))));

    // Once the context is finished it makes no more calls.
    assert!(matches!(context.call("echo", Value::Null), Err(Error::RpcDone)));
}

#[test]
fn a_context_id_in_use_gets_the_peer_disconnected() {
    let mut net = Net::new();
    let a = net.join();
    let b = net.join();
    let parked = Arc::new(Mutex::new(None));
    let slow = Stream { priority: 5, partials: vec![], parked: parked.clone() };
    assert!(net.offer(b, "slow", Box::new(slow)).is_ok());
    let call = net.call(a, "slow", Value::Null);
    let id = call.context().clone();
    let from = net.peers[a].id;
    let again = Message::call("slow".to_string(), id.clone(), Value::Null);
    let commands = net.broker.handle(Command::Received(from, again));
    // The handler is told to stop, and the connection is to be closed.
    assert_eq!(
        commands,
        vec![
            ipc_bridge::Command::SendToPeer(net.peers[b].id, Message::cancel(id)),
            ipc_bridge::Command::DisconnectPeer(from),
        ]
    );
    assert!(!net.broker.is_connected(from));
    assert_eq!(net.broker.calls_in_flight(), 0);
}
