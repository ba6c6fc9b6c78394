//! The broker's dispatcher: it routes calls to the peers that serve them,
//! responses back to the callers, and cancellations to the handlers.
//!
//! The dispatcher is a state machine. `BrokerState` is its state as the
//! contracts see it, and each kind of input has a function on that state that
//! says what the next state is and which commands go to the loop that owns
//! the sockets. `Broker` is the executable dispatcher; each of its methods
//! computes exactly what the function of the same name describes.

use crate::ipc::Message;
use crate::json::{empty_object, json_entries};
use crate::rpc::{Call, Cancel, Error, ErrorKind, Response, ResponseKind, RpcResult};
use crate::seqs::{any, position};
use crate::server::ipc_bridge;
use crate::server::plugin_core::{
    is_new_rpc_request,
    new_rpc_name,
    requested_name,
    requested_priority,
    NewRpcRequest,
};
use crate::server::soundness::{
    lemma_deregistered_by_wf,
    lemma_peer_connected_wf,
    lemma_peer_disconnected_wf,
    lemma_registered_by_wf,
    lemma_route_call_wf,
    lemma_route_cancel_wf,
    lemma_route_response_wf,
};
use crate::server::registry::{
    deregistered,
    first_handler,
    is_registered,
    next_handler,
    registered,
    registry_wf,
    PeerId,
    RegistrationView,
    Registry,
};
use serde_json::Value;
use vstd::prelude::*;

verus! {

/// A call that has been handed to a handler and has not ended.
#[derive(Debug, PartialEq, Eq)]
pub struct InFlight {
    /// The call as the caller sent it.
    pub call: Call,
    /// The peer that made the call.
    pub caller: PeerId,
    /// The peer that is servicing the call.
    pub handler: PeerId,
}

/// What the dispatcher is told.
#[derive(Debug, PartialEq, Eq)]
pub enum Command {
    /// Stop.
    Quit,
    /// A peer has connected.
    PeerConnected(PeerId),
    /// A peer's connection is gone.
    PeerDisconnected(PeerId),
    /// A peer has sent a message.
    Received(PeerId, Message),
}

/// The state of the dispatcher.
pub struct BrokerState {
    /// The connected peers.
    pub peers: Seq<PeerId>,
    /// The function registry.
    pub registrations: Seq<RegistrationView>,
    /// The calls in flight, oldest first.
    pub in_flight: Seq<InFlight>,
    /// The value with which a successful registration is answered.
    pub ack: Value,
}

/// What handling one input leads to.
pub struct Outcome {
    /// The state afterwards.
    pub state: BrokerState,
    /// The commands for the loop that owns the sockets, in order.
    pub commands: Seq<ipc_bridge::Command>,
}

/// The peer `peer`.
pub open spec fn is_peer(peer: PeerId) -> spec_fn(PeerId) -> bool {
    |p: PeerId| p == peer
}

/// The call in flight with this context id.
pub open spec fn about(context: Seq<char>) -> spec_fn(InFlight) -> bool {
    |f: InFlight| f.call.context@ == context
}

/// Calls in flight that `peer` neither made nor services.
pub open spec fn apart_from(peer: PeerId) -> spec_fn(InFlight) -> bool {
    |f: InFlight| f.caller != peer && f.handler != peer
}

/// The final response `result` to the call with context id `context`, on its
/// way to `to`.
pub open spec fn reply(to: PeerId, context: String, result: RpcResult) -> ipc_bridge::Command {
    ipc_bridge::Command::SendToPeer(
        to,
        Message::RpcResponse(Response { context, kind: ResponseKind::Last(result) }),
    )
}

/// A failure of the given kind without details.
pub open spec fn failure(kind: ErrorKind) -> RpcResult {
    RpcResult::Failure(Error { kind, details: None })
}

/// What is sent on account of a call in flight when `peer` goes away: a
/// cancellation to the handler when the caller went, the failure
/// `Disconnected` to the caller when the handler went.
pub open spec fn farewell(peer: PeerId) -> spec_fn(InFlight) -> Option<ipc_bridge::Command> {
    |f: InFlight|
        if f.caller == peer {
            if f.handler == peer {
                None
            } else {
                Some(
                    ipc_bridge::Command::SendToPeer(
                        f.handler,
                        Message::RpcCancel(Cancel { context: f.call.context }),
                    ),
                )
            }
        } else if f.handler == peer {
            Some(reply(f.caller, f.call.context, failure(ErrorKind::Disconnected)))
        } else {
            None
        }
}

impl BrokerState {
    /// Whether `peer` is connected.
    pub open spec fn is_connected(self, peer: PeerId) -> bool {
        any(self.peers, is_peer(peer))
    }

    /// Whether a call with this context id is in flight.
    pub open spec fn is_in_flight(self, context: Seq<char>) -> bool {
        any(self.in_flight, about(context))
    }

    /// Whether `peer` services no call in flight.
    pub open spec fn services_nothing(self, peer: PeerId) -> bool {
        forall|i: int|
            0 <= i < self.in_flight.len() ==> (#[trigger] self.in_flight[i]).handler != peer
    }

    /// The call in flight with this context id.
    pub open spec fn flight(self, context: Seq<char>) -> InFlight
        recommends
            self.is_in_flight(context),
    {
        self.in_flight[position(self.in_flight, about(context), 0)]
    }

    /// The invariant of the dispatcher: the registry is well formed, no peer
    /// is listed twice, only connected peers have registrations, context ids
    /// in flight are unique, and every call in flight has a connected caller
    /// and a connected handler that is registered for the function.
    pub open spec fn wf(self) -> bool {
        &&& registry_wf(self.registrations)
        &&& json_entries(self.ack) == Some(Map::<Seq<char>, Value>::empty())
        &&& forall|i: int, j: int|
            #![trigger self.peers[i], self.peers[j]]
            0 <= i < j < self.peers.len() ==> self.peers[i] != self.peers[j]
        &&& forall|i: int|
            0 <= i < self.registrations.len() ==> self.is_connected(
                (#[trigger] self.registrations[i]).peer,
            )
        &&& forall|i: int, j: int|
            #![trigger self.in_flight[i], self.in_flight[j]]
            0 <= i < j < self.in_flight.len() ==> self.in_flight[i].call.context@
                != self.in_flight[j].call.context@
        &&& forall|i: int|
            #![trigger self.in_flight[i]]
            0 <= i < self.in_flight.len() ==> self.is_connected(self.in_flight[i].caller)
                && self.is_connected(self.in_flight[i].handler) && is_registered(
                self.registrations,
                self.in_flight[i].call.function@,
                self.in_flight[i].handler,
            )
    }

    /// Nothing changes and nothing is sent.
    pub open spec fn idle(self) -> Outcome {
        Outcome { state: self, commands: Seq::empty() }
    }

    /// A peer has connected: it is listed, unless it was already.
    pub open spec fn peer_connected(self, peer: PeerId) -> Outcome {
        if self.is_connected(peer) {
            self.idle()
        } else {
            Outcome {
                state: BrokerState { peers: self.peers.push(peer), ..self },
                commands: Seq::empty(),
            }
        }
    }

    /// A peer has gone. Its registrations leave the registry, and every call
    /// in flight that it made or serviced ends: the handler of a call that it
    /// made gets a cancellation, the caller of a call that it serviced gets
    /// the failure `Disconnected`. For a peer that is not connected nothing
    /// happens.
    pub open spec fn peer_disconnected(self, peer: PeerId) -> Outcome {
        if !self.is_connected(peer) {
            self.idle()
        } else {
            Outcome {
                state: BrokerState {
                    peers: self.peers.remove(position(self.peers, is_peer(peer), 0)),
                    registrations: deregistered(self.registrations, peer),
                    in_flight: self.in_flight.filter(apart_from(peer)),
                    ack: self.ack,
                },
                commands: self.in_flight.filter_map(farewell(peer)),
            }
        }
    }

    /// The peer `from` asks to register a function. The answer is the final
    /// response to the call: success, `DuplicateFunctionForPeer` when the
    /// peer had registered the function, `InvalidArgs` when the arguments
    /// are no registration request.
    pub open spec fn new_rpc(self, from: PeerId, call: Call) -> Outcome {
        if !is_new_rpc_request(call.args) {
            Outcome {
                state: self,
                commands: seq![reply(from, call.context, failure(ErrorKind::InvalidArgs))],
            }
        } else {
            let name = requested_name(call.args).unwrap();
            let priority = requested_priority(call.args).unwrap();
            if is_registered(self.registrations, name, from) {
                Outcome {
                    state: self,
                    commands: seq![
                        reply(from, call.context, failure(ErrorKind::DuplicateFunctionForPeer)),
                    ],
                }
            } else {
                Outcome {
                    state: BrokerState {
                        registrations: registered(self.registrations, name, from, priority),
                        ..self
                    },
                    commands: seq![reply(from, call.context, RpcResult::Success(self.ack))],
                }
            }
        }
    }

    /// The peer `from` makes a call. A call whose context id is already in
    /// flight is a breach of the protocol: the peer is disconnected. A
    /// registration request is answered by the broker itself. Any other call
    /// goes to the first handler of the function and is in flight from then
    /// on; when nobody serves the function the caller gets `NotHandled`.
    pub open spec fn route_call(self, from: PeerId, call: Call) -> Outcome {
        if !self.is_connected(from) {
            self.idle()
        } else if self.is_in_flight(call.context@) {
            let gone = self.peer_disconnected(from);
            Outcome {
                state: gone.state,
                commands: gone.commands.push(ipc_bridge::Command::DisconnectPeer(from)),
            }
        } else if call.function@ == new_rpc_name() {
            self.new_rpc(from, call)
        } else {
            match first_handler(self.registrations, call.function@) {
                Some(handler) => Outcome {
                    state: BrokerState {
                        in_flight: self.in_flight.push(InFlight { call, caller: from, handler }),
                        ..self
                    },
                    commands: seq![
                        ipc_bridge::Command::SendToPeer(handler, Message::RpcCall(call)),
                    ],
                },
                None => Outcome {
                    state: self,
                    commands: seq![reply(from, call.context, RpcResult::NotHandled)],
                },
            }
        }
    }

    /// The peer `from` sends a frame of a response. It counts only when it
    /// belongs to a call in flight that `from` services; any other is
    /// dropped. A partial result goes to the caller. When the handler
    /// declines and another handler stands behind it in the function's
    /// chain, the call goes to that one. Every other final result goes to
    /// the caller and ends the call.
    pub open spec fn route_response(self, from: PeerId, response: Response) -> Outcome {
        let at = position(self.in_flight, about(response.context@), 0);
        if !self.is_connected(from) || at >= self.in_flight.len() || self.in_flight[at].handler
            != from {
            self.idle()
        } else {
            let flight = self.in_flight[at];
            let next = next_handler(self.registrations, flight.call.function@, from);
            if response.kind.is_not_handled() && next is Some {
                Outcome {
                    state: BrokerState {
                        in_flight: self.in_flight.update(
                            at,
                            InFlight {
                                call: flight.call,
                                caller: flight.caller,
                                handler: next.unwrap(),
                            },
                        ),
                        ..self
                    },
                    commands: seq![
                        ipc_bridge::Command::SendToPeer(
                            next.unwrap(),
                            Message::RpcCall(flight.call),
                        ),
                    ],
                }
            } else {
                Outcome {
                    state: if response.kind.is_last() {
                        BrokerState { in_flight: self.in_flight.remove(at), ..self }
                    } else {
                        self
                    },
                    commands: seq![
                        ipc_bridge::Command::SendToPeer(
                            flight.caller,
                            Message::RpcResponse(response),
                        ),
                    ],
                }
            }
        }
    }

    /// The peer `from` cancels a call. It counts only when the call is in
    /// flight and `from` made it; any other is dropped. The cancellation
    /// goes to the handler and the call is no longer in flight.
    pub open spec fn route_cancel(self, from: PeerId, cancel: Cancel) -> Outcome {
        let at = position(self.in_flight, about(cancel.context@), 0);
        if !self.is_connected(from) || at >= self.in_flight.len() || self.in_flight[at].caller
            != from {
            self.idle()
        } else {
            Outcome {
                state: BrokerState { in_flight: self.in_flight.remove(at), ..self },
                commands: seq![
                    ipc_bridge::Command::SendToPeer(
                        self.in_flight[at].handler,
                        Message::RpcCancel(cancel),
                    ),
                ],
            }
        }
    }

    /// The peer `from` has sent `message`.
    pub open spec fn received(self, from: PeerId, message: Message) -> Outcome {
        match message {
            Message::RpcCall(call) => self.route_call(from, call),
            Message::RpcResponse(response) => self.route_response(from, response),
            Message::RpcCancel(cancel) => self.route_cancel(from, cancel),
        }
    }

    /// What the dispatcher does on `command`.
    pub open spec fn handle(self, command: Command) -> Outcome {
        match command {
            Command::Quit => Outcome { state: self, commands: seq![ipc_bridge::Command::Quit] },
            Command::PeerConnected(peer) => self.peer_connected(peer),
            Command::PeerDisconnected(peer) => self.peer_disconnected(peer),
            Command::Received(from, message) => self.received(from, message),
        }
    }
}

/// The broker's dispatcher.
pub struct Broker {
    peers: Vec<PeerId>,
    registry: Registry,
    in_flight: Vec<InFlight>,
    ack: Value,
}

impl View for Broker {
    type V = BrokerState;

    closed spec fn view(&self) -> BrokerState {
        BrokerState {
            peers: self.peers@,
            registrations: self.registry@,
            in_flight: self.in_flight@,
            ack: self.ack,
        }
    }
}

impl Broker {
    /// A dispatcher without peers, registrations or calls in flight.
    pub fn new() -> (res: Broker)
        ensures
            res@.wf(),
            res@.peers == Seq::<PeerId>::empty(),
            res@.registrations == Seq::<RegistrationView>::empty(),
            res@.in_flight == Seq::<InFlight>::empty(),
    {
        Broker {
            peers: Vec::new(),
            registry: Registry::new(),
            in_flight: Vec::new(),
            ack: empty_object(),
        }
    }

    /// Whether `peer` is connected.
    pub fn is_connected(&self, peer: PeerId) -> (res: bool)
        ensures
            res == self@.is_connected(peer),
    {
        self.find_peer(peer) < self.peers.len()
    }

    /// Whether a call with this context id is in flight.
    pub fn is_in_flight(&self, context: &String) -> (res: bool)
        ensures
            res == self@.is_in_flight(context@),
    {
        self.find_flight(context) < self.in_flight.len()
    }

    /// Whether any peer serves the function `name`.
    pub fn has_function(&self, name: &String) -> (res: bool)
        ensures
            res == first_handler(self@.registrations, name@).is_some(),
    {
        self.registry.has_function(name)
    }

    /// The number of calls in flight.
    pub fn calls_in_flight(&self) -> (res: usize)
        ensures
            res == self@.in_flight.len(),
    {
        self.in_flight.len()
    }

    /// Registers the function `name` for `peer` with `priority`; refused when
    /// the peer had registered the function. The invariant is kept when the
    /// peer is connected.
    pub fn register(&mut self, peer: PeerId, name: String, priority: u16) -> (res: Result<
        (),
        ErrorKind,
    >)
        ensures
            old(self)@.wf() && old(self)@.is_connected(peer) ==> final(self)@.wf(),
            is_registered(old(self)@.registrations, name@, peer) ==> res == Err::<(), ErrorKind>(
                ErrorKind::DuplicateFunctionForPeer,
            ) && final(self)@ == old(self)@,
            !is_registered(old(self)@.registrations, name@, peer) ==> res == Ok::<(), ErrorKind>(
                (),
            ) && final(self)@ == (BrokerState {
                registrations: registered(old(self)@.registrations, name@, peer, priority),
                ..old(self)@
            }),
    {
        proof {
            if self@.wf() && self@.is_connected(peer) && !is_registered(
                self@.registrations,
                name@,
                peer,
            ) {
                lemma_registered_by_wf(self@, peer, name@, priority);
            }
        }
        self.registry.register(peer, name, priority)
    }

    /// Removes every registration of `peer`. The invariant is kept when the
    /// peer services no call in flight.
    pub fn deregister(&mut self, peer: PeerId)
        ensures
            old(self)@.wf() && old(self)@.services_nothing(peer) ==> final(self)@.wf(),
            final(self)@ == (BrokerState {
                registrations: deregistered(old(self)@.registrations, peer),
                ..old(self)@
            }),
    {
        proof {
            if self@.wf() && self@.services_nothing(peer) {
                lemma_deregistered_by_wf(self@, peer);
            }
        }
        self.registry.deregister(peer)
    }

    /// Lists `peer` as connected.
    pub fn connect(&mut self, peer: PeerId)
        ensures
            final(self)@ == old(self)@.peer_connected(peer).state,
            old(self)@.wf() ==> final(self)@.wf(),
    {
        if !self.is_connected(peer) {
            self.peers.push(peer);
        }
        proof {
            if old(self)@.wf() {
                lemma_peer_connected_wf(old(self)@, peer);
            }
        }
    }

    /// Forgets `peer` and ends the calls that it made or serviced.
    pub fn disconnect(&mut self, peer: PeerId) -> (commands: Vec<ipc_bridge::Command>)
        ensures
            final(self)@ == old(self)@.peer_disconnected(peer).state,
            commands@ == old(self)@.peer_disconnected(peer).commands,
            old(self)@.wf() ==> final(self)@.wf(),
    {
        let mut commands: Vec<ipc_bridge::Command> = Vec::new();
        let at = self.find_peer(peer);
        if at >= self.peers.len() {
            return commands;
        }
        self.peers.remove(at);
        self.registry.deregister(peer);
        let ghost orig = self.in_flight@;
        let ghost rest = self@;
        let ghost mut seen: int = 0;
        let mut i: usize = 0;
        assert(orig.take(0).filter(apart_from(peer)) =~= self.in_flight@.take(0)) by {
            reveal(Seq::filter);
        }
        assert(orig.take(0).filter_map(farewell(peer)) =~= commands@);
        assert(self.in_flight@.skip(0) =~= orig.skip(0));
        while i < self.in_flight.len()
            invariant
                0 <= i <= self.in_flight.len(),
                0 <= seen <= orig.len(),
                self.in_flight@.len() - i == orig.len() - seen,
                self.in_flight@.take(i as int) == orig.take(seen).filter(apart_from(peer)),
                self.in_flight@.skip(i as int) == orig.skip(seen),
                commands@ == orig.take(seen).filter_map(farewell(peer)),
                self@.peers == rest.peers,
                self@.registrations == rest.registrations,
                self@.ack == rest.ack,
            decreases self.in_flight.len() - i,
        {
            let ghost before = self.in_flight@;
            assert(before[i as int] == before.skip(i as int)[0]);
            assert(orig[seen] == orig.skip(seen)[0]);
            proof {
                assert(orig.take(seen + 1) =~= orig.take(seen).push(orig[seen]));
                orig.take(seen).lemma_filter_push(orig[seen], apart_from(peer));
                orig.lemma_filter_map_take_succ(farewell(peer), seen);
            }
            if self.in_flight[i].caller == peer || self.in_flight[i].handler == peer {
                let flight = self.in_flight.remove(i);
                if flight.caller != peer {
                    commands.push(
                        ipc_bridge::Command::SendToPeer(
                            flight.caller,
                            Message::RpcResponse(
                                Response {
                                    context: flight.call.context,
                                    kind: ResponseKind::Last(
                                        RpcResult::Failure(Error::new(ErrorKind::Disconnected)),
                                    ),
                                },
                            ),
                        ),
                    );
                } else if flight.handler != peer {
                    commands.push(
                        ipc_bridge::Command::SendToPeer(
                            flight.handler,
                            Message::RpcCancel(Cancel { context: flight.call.context }),
                        ),
                    );
                }
                assert(self.in_flight@.take(i as int) =~= before.take(i as int));
                assert forall|k: int| 0 <= k < self.in_flight@.len() - i implies self.in_flight@.skip(
                    i as int,
                )[k] == orig.skip(seen + 1)[k] by {
                    assert(self.in_flight@[i + k] == before[i + k + 1]);
                    assert(before.skip(i as int)[k + 1] == orig.skip(seen)[k + 1]);
                }
                assert(self.in_flight@.skip(i as int) =~= orig.skip(seen + 1));
            } else {
                i += 1;
                assert(self.in_flight@.take(i as int) =~= before.take(i - 1).push(before[i - 1]));
                assert forall|k: int| 0 <= k < self.in_flight@.len() - i implies self.in_flight@.skip(
                    i as int,
                )[k] == orig.skip(seen + 1)[k] by {
                    assert(before.skip(i - 1)[k + 1] == orig.skip(seen)[k + 1]);
                }
                assert(self.in_flight@.skip(i as int) =~= orig.skip(seen + 1));
            }
            proof {
                seen = seen + 1;
            }
        }
        assert(self.in_flight@.take(i as int) =~= self.in_flight@);
        assert(orig.take(seen) =~= orig);
        proof {
            if old(self)@.wf() {
                lemma_peer_disconnected_wf(old(self)@, peer);
            }
        }
        commands
    }

    /// Answers a registration request of the peer `from`.
    fn new_rpc(&mut self, from: PeerId, call: Call) -> (commands: Vec<ipc_bridge::Command>)
        ensures
            final(self)@ == old(self)@.new_rpc(from, call).state,
            commands@ == old(self)@.new_rpc(from, call).commands,
    {
        let result = match NewRpcRequest::decode(&call.args) {
            None => RpcResult::Failure(Error::new(ErrorKind::InvalidArgs)),
            Some(request) => match self.registry.register(from, request.name, request.priority) {
                Ok(()) => RpcResult::Success(self.ack.clone()),
                Err(kind) => RpcResult::Failure(Error::new(kind)),
            },
        };
        let commands = vec![
            ipc_bridge::Command::SendToPeer(
                from,
                Message::RpcResponse(
                    Response { context: call.context, kind: ResponseKind::Last(result) },
                ),
            ),
        ];
        assert(commands@ =~= old(self)@.new_rpc(from, call).commands);
        commands
    }

    /// Routes a call that the peer `from` makes.
    pub fn route_call(&mut self, from: PeerId, call: Call) -> (commands: Vec<ipc_bridge::Command>)
        ensures
            final(self)@ == old(self)@.route_call(from, call).state,
            commands@ == old(self)@.route_call(from, call).commands,
            old(self)@.wf() ==> final(self)@.wf(),
    {
        proof {
            lemma_route_call_wf(old(self)@, from, call);
        }
        if !self.is_connected(from) {
            return Vec::new();
        }
        if self.is_in_flight(&call.context) {
            let mut commands = self.disconnect(from);
            commands.push(ipc_bridge::Command::DisconnectPeer(from));
            return commands;
        }
        let reserved = String::from_str("core.new_rpc");
        if call.function == reserved {
            return self.new_rpc(from, call);
        }
        match self.registry.first_handler(&call.function) {
            Some(handler) => {
                let forward = call.clone();
                self.in_flight.push(InFlight { call, caller: from, handler });
                let commands = vec![
                    ipc_bridge::Command::SendToPeer(handler, Message::RpcCall(forward)),
                ];
                assert(commands@ =~= old(self)@.route_call(from, call).commands);
                commands
            },
            None => {
                let commands = vec![
                    ipc_bridge::Command::SendToPeer(
                        from,
                        Message::RpcResponse(
                            Response {
                                context: call.context,
                                kind: ResponseKind::Last(RpcResult::NotHandled),
                            },
                        ),
                    ),
                ];
                assert(commands@ =~= old(self)@.route_call(from, call).commands);
                commands
            },
        }
    }

    /// Routes a frame of a response that the peer `from` sends.
    pub fn route_response(&mut self, from: PeerId, response: Response) -> (commands: Vec<
        ipc_bridge::Command,
    >)
        ensures
            final(self)@ == old(self)@.route_response(from, response).state,
            commands@ == old(self)@.route_response(from, response).commands,
            old(self)@.wf() ==> final(self)@.wf(),
    {
        proof {
            lemma_route_response_wf(old(self)@, from, response);
        }
        if !self.is_connected(from) {
            return Vec::new();
        }
        let at = self.find_flight(&response.context);
        if at >= self.in_flight.len() {
            return Vec::new();
        }
        if self.in_flight[at].handler != from {
            return Vec::new();
        }
        let declined = match &response.kind {
            ResponseKind::Last(RpcResult::NotHandled) => true,
            _ => false,
        };
        let last = match &response.kind {
            ResponseKind::Last(_) => true,
            _ => false,
        };
        if declined {
            match self.registry.next_handler(&self.in_flight[at].call.function, from) {
                Some(next) => {
                    let flight = self.in_flight.remove(at);
                    let forward = flight.call.clone();
                    self.in_flight.insert(
                        at,
                        InFlight { call: flight.call, caller: flight.caller, handler: next },
                    );
                    assert(self.in_flight@ =~= old(self).in_flight@.update(
                        at as int,
                        InFlight { call: flight.call, caller: flight.caller, handler: next },
                    ));
                    let commands = vec![
                        ipc_bridge::Command::SendToPeer(next, Message::RpcCall(forward)),
                    ];
                    assert(commands@ =~= old(self)@.route_response(from, response).commands);
                    return commands;
                },
                None => {},
            }
        }
        let caller = self.in_flight[at].caller;
        if last {
            self.in_flight.remove(at);
        }
        let commands = vec![
            ipc_bridge::Command::SendToPeer(caller, Message::RpcResponse(response)),
        ];
        assert(commands@ =~= old(self)@.route_response(from, response).commands);
        commands
    }

    /// Routes a cancellation that the peer `from` sends.
    pub fn route_cancel(&mut self, from: PeerId, cancel: Cancel) -> (commands: Vec<
        ipc_bridge::Command,
    >)
        ensures
            final(self)@ == old(self)@.route_cancel(from, cancel).state,
            commands@ == old(self)@.route_cancel(from, cancel).commands,
            old(self)@.wf() ==> final(self)@.wf(),
    {
        proof {
            lemma_route_cancel_wf(old(self)@, from, cancel);
        }
        if !self.is_connected(from) {
            return Vec::new();
        }
        let at = self.find_flight(&cancel.context);
        if at >= self.in_flight.len() {
            return Vec::new();
        }
        if self.in_flight[at].caller != from {
            return Vec::new();
        }
        let flight = self.in_flight.remove(at);
        let commands = vec![
            ipc_bridge::Command::SendToPeer(flight.handler, Message::RpcCancel(cancel)),
        ];
        assert(commands@ =~= old(self)@.route_cancel(from, cancel).commands);
        commands
    }

    /// Handles one command and returns the commands for the loop that owns
    /// the sockets, in the order in which they are to be carried out.
    pub fn handle(&mut self, command: Command) -> (commands: Vec<ipc_bridge::Command>)
        ensures
            final(self)@ == old(self)@.handle(command).state,
            commands@ == old(self)@.handle(command).commands,
            old(self)@.wf() ==> final(self)@.wf(),
    {
        match command {
            Command::Quit => {
                let commands = vec![ipc_bridge::Command::Quit];
                assert(commands@ =~= old(self)@.handle(command).commands);
                commands
            },
            Command::PeerConnected(peer) => {
                self.connect(peer);
                Vec::new()
            },
            Command::PeerDisconnected(peer) => self.disconnect(peer),
            Command::Received(from, message) => match message {
                Message::RpcCall(call) => self.route_call(from, call),
                Message::RpcResponse(response) => self.route_response(from, response),
                Message::RpcCancel(cancel) => self.route_cancel(from, cancel),
            },
        }
    }

    /// The index of `peer` among the connected peers.
    fn find_peer(&self, peer: PeerId) -> (res: usize)
        ensures
            res == position(self@.peers, is_peer(peer), 0),
            res <= self@.peers.len(),
    {
        let mut i: usize = 0;
        while i < self.peers.len()
            invariant
                i <= self.peers.len(),
                position(self.peers@, is_peer(peer), 0) == position(
                    self.peers@,
                    is_peer(peer),
                    i as int,
                ),
            decreases self.peers.len() - i,
        {
            if self.peers[i] == peer {
                return i;
            }
            i += 1;
        }
        i
    }

    /// The index of the call in flight with this context id.
    fn find_flight(&self, context: &String) -> (res: usize)
        ensures
            res == position(self@.in_flight, about(context@), 0),
            res <= self@.in_flight.len(),
    {
        let mut i: usize = 0;
        while i < self.in_flight.len()
            invariant
                i <= self.in_flight.len(),
                position(self.in_flight@, about(context@), 0) == position(
                    self.in_flight@,
                    about(context@),
                    i as int,
                ),
            decreases self.in_flight.len() - i,
        {
            if self.in_flight[i].call.context == *context {
                return i;
            }
            i += 1;
        }
        i
    }
}

} // verus!
