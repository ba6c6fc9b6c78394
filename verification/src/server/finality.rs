//! Every call that the dispatcher accepts ends with exactly one final
//! response to its caller, unless the caller itself ends it.
//!
//! The law is stated of whole runs of the dispatcher: of any sequence of
//! commands, handled one after the other.

use crate::ipc::Message;
use crate::seqs::{
    any,
    lemma_any,
    lemma_any_add,
    lemma_any_at,
    lemma_any_first,
    lemma_any_skip,
    lemma_none,
    lemma_position,
    lemma_position_is,
    position,
};
use crate::server::dispatcher::{
    about,
    apart_from,
    farewell,
    BrokerState,
    Command,
    InFlight,
    Outcome,
};
use crate::server::soundness::lemma_handle_wf;
use crate::server::ipc_bridge;
use crate::server::laws::lemma_ended;
use crate::server::registry::{lemma_kept, lemma_origin, PeerId};
use vstd::prelude::*;

verus! {

/// What a sequence of commands, handled in order, leads to: the state at the
/// end and everything that was sent on the way, in order.
pub open spec fn run(s: BrokerState, commands: Seq<Command>) -> Outcome
    decreases commands.len(),
{
    if commands.len() == 0 {
        s.idle()
    } else {
        let first = s.handle(commands[0]);
        let rest = run(first.state, commands.skip(1));
        Outcome { state: rest.state, commands: first.commands + rest.commands }
    }
}

/// Order is kept: what goes out on account of earlier commands goes out
/// before what goes out on account of later ones. Handling two sequences of
/// commands one after the other sends what the first leads to and then what
/// the second leads to.
pub proof fn lemma_run_in_order(s: BrokerState, earlier: Seq<Command>, later: Seq<Command>)
    ensures
        run(s, earlier + later).state == run(run(s, earlier).state, later).state,
        run(s, earlier + later).commands == run(s, earlier).commands + run(
            run(s, earlier).state,
            later,
        ).commands,
    decreases earlier.len(),
{
    if earlier.len() == 0 {
        assert(earlier + later =~= later);
        assert(run(s, earlier).commands + run(s, later).commands =~= run(s, later).commands);
    } else {
        let first = s.handle(earlier[0]);
        assert((earlier + later)[0] == earlier[0]);
        assert((earlier + later).skip(1) =~= earlier.skip(1) + later);
        lemma_run_in_order(first.state, earlier.skip(1), later);
        let middle = run(first.state, earlier.skip(1));
        assert(first.commands + (middle.commands + run(middle.state, later).commands) =~= (
        first.commands + middle.commands) + run(middle.state, later).commands);
    }
}

/// The frames of one response stream reach the caller in the order in which
/// the handler sent them: of a partial result and the frame that the handler
/// sends after it, the partial result is passed on first.
pub proof fn lemma_frames_keep_their_order(
    s: BrokerState,
    first: crate::rpc::Response,
    second: crate::rpc::Response,
)
    requires
        s.wf(),
        s.is_in_flight(first.context@),
        second.context@ == first.context@,
        first.kind is Partial,
        !second.kind.is_not_handled(),
    ensures
        ({
            let flight = s.flight(first.context@);
            run(
                s,
                seq![
                    Command::Received(flight.handler, Message::RpcResponse(first)),
                    Command::Received(flight.handler, Message::RpcResponse(second)),
                ],
            ).commands == seq![
                ipc_bridge::Command::SendToPeer(flight.caller, Message::RpcResponse(first)),
                ipc_bridge::Command::SendToPeer(flight.caller, Message::RpcResponse(second)),
            ]
        }),
{
    let at = lemma_any_first(s.in_flight, about(first.context@));
    let flight = s.in_flight[at];
    let one = Command::Received(flight.handler, Message::RpcResponse(first));
    let two = Command::Received(flight.handler, Message::RpcResponse(second));
    let both = seq![one, two];
    let after_one = s.handle(one);
    assert(after_one.state == s);
    assert(both.skip(1) =~= seq![two]);
    assert(seq![two].skip(1) =~= Seq::<Command>::empty());
    let after_two = s.handle(two);
    assert(run(after_two.state, Seq::<Command>::empty()).commands =~= Seq::empty());
    assert(run(s, seq![two]).commands =~= after_two.commands);
    assert(run(s, both).commands =~= after_one.commands + after_two.commands);
}

/// A final response to the call with this context id, on its way to `to`.
pub open spec fn is_final_for(to: PeerId, context: Seq<char>) -> spec_fn(
    ipc_bridge::Command,
) -> bool {
    |c: ipc_bridge::Command|
        match c {
            ipc_bridge::Command::SendToPeer(peer, Message::RpcResponse(response)) => peer == to
                && response.context@ == context && response.kind is Last,
            _ => false,
        }
}

/// How many final responses to the call with this context id are sent to
/// `to`.
pub open spec fn finals(sent: Seq<ipc_bridge::Command>, to: PeerId, context: Seq<char>) -> nat {
    sent.filter(is_final_for(to, context)).len()
}

/// The order to close the connection to `peer`.
pub open spec fn is_disconnect_of(peer: PeerId) -> spec_fn(ipc_bridge::Command) -> bool {
    |c: ipc_bridge::Command| c == ipc_bridge::Command::DisconnectPeer(peer)
}

/// A command by which the caller itself ends the call with this context id:
/// its cancellation of the call, or the loss of its connection.
pub open spec fn ends_by_caller(caller: PeerId, context: Seq<char>) -> spec_fn(Command) -> bool {
    |c: Command|
        match c {
            Command::PeerDisconnected(peer) => peer == caller,
            Command::Received(peer, Message::RpcCancel(cancel)) => peer == caller
                && cancel.context@ == context,
            _ => false,
        }
}

/// A call with this context id, made by any peer.
pub open spec fn is_call_with(context: Seq<char>) -> spec_fn(Command) -> bool {
    |c: Command|
        match c {
            Command::Received(_, Message::RpcCall(call)) => call.context@ == context,
            _ => false,
        }
}

/// Nothing is counted in an empty sequence.
pub(crate) proof fn lemma_finals_empty(to: PeerId, context: Seq<char>)
    ensures
        finals(Seq::<ipc_bridge::Command>::empty(), to, context) == 0,
{
    reveal(Seq::filter);
}

/// The count over a sequence with one more command.
pub(crate) proof fn lemma_finals_push(
    sent: Seq<ipc_bridge::Command>,
    c: ipc_bridge::Command,
    to: PeerId,
    context: Seq<char>,
)
    ensures
        finals(sent.push(c), to, context) == finals(sent, to, context) + (if is_final_for(
            to,
            context,
        )(c) {
            1nat
        } else {
            0nat
        }),
{
    sent.lemma_filter_push(c, is_final_for(to, context));
}

/// The count of one command.
pub(crate) proof fn lemma_finals_one(c: ipc_bridge::Command, to: PeerId, context: Seq<char>)
    ensures
        finals(seq![c], to, context) == (if is_final_for(to, context)(c) {
            1nat
        } else {
            0nat
        }),
{
    lemma_finals_empty(to, context);
    lemma_finals_push(Seq::empty(), c, to, context);
    assert(Seq::<ipc_bridge::Command>::empty().push(c) =~= seq![c]);
}

/// The count over two sequences, one after the other.
pub(crate) proof fn lemma_finals_add(
    a: Seq<ipc_bridge::Command>,
    b: Seq<ipc_bridge::Command>,
    to: PeerId,
    context: Seq<char>,
)
    ensures
        finals(a + b, to, context) == finals(a, to, context) + finals(b, to, context),
{
    Seq::filter_distributes_over_add(a, b, is_final_for(to, context));
}

/// Whether the calls in flight have pairwise different context ids.
pub open spec fn distinct_contexts(flights: Seq<InFlight>) -> bool {
    forall|i: int, j: int|
        #![trigger flights[i], flights[j]]
        0 <= i < j < flights.len() ==> flights[i].call.context@ != flights[j].call.context@
}

/// When a peer goes away, the caller of a call in flight gets one final
/// response if the peer was servicing the call for another peer, and none
/// otherwise. No final response goes out for a context id that is not in
/// flight.
pub(crate) proof fn lemma_farewell_finals(
    flights: Seq<InFlight>,
    peer: PeerId,
    to: PeerId,
    context: Seq<char>,
)
    requires
        distinct_contexts(flights),
    ensures
        finals(flights.filter_map(farewell(peer)), to, context) == (if any(flights, about(context))
            && flights[position(flights, about(context), 0)].handler == peer && flights[position(
            flights,
            about(context),
            0,
        )].caller == to && to != peer {
            1nat
        } else {
            0nat
        }),
        !any(flights.filter_map(farewell(peer)), is_disconnect_of(to)),
    decreases flights.len(),
{
    let sent = flights.filter_map(farewell(peer));
    if flights.len() == 0 {
        lemma_finals_empty(to, context);
        lemma_any(flights, about(context));
        lemma_any(sent, is_disconnect_of(to));
    } else {
        let front = flights.drop_last();
        let last = flights.last();
        let n = front.len() as int;
        let front_sent = front.filter_map(farewell(peer));
        assert forall|i: int, j: int| 0 <= i < j < front.len() implies (
        #[trigger] front[i]).call.context@ != (#[trigger] front[j]).call.context@ by {
            assert(flights[i].call.context@ != flights[j].call.context@);
        }
        lemma_farewell_finals(front, peer, to, context);
        let tail: Seq<ipc_bridge::Command> = match farewell(peer)(last) {
            Some(c) => seq![c],
            None => Seq::empty(),
        };
        assert(sent == front_sent + tail);
        lemma_finals_add(front_sent, tail, to, context);
        lemma_any_add(front_sent, tail, is_disconnect_of(to));
        lemma_any(tail, is_disconnect_of(to));
        match farewell(peer)(last) {
            Some(c) => {
                lemma_finals_one(c, to, context);
            },
            None => {
                lemma_finals_empty(to, context);
            },
        }
        lemma_any(front, about(context));
        lemma_any(flights, about(context));
        if any(front, about(context)) {
            let at = lemma_any_first(front, about(context));
            assert(flights[at] == front[at]);
            assert forall|j: int| 0 <= j < at implies !about(context)(#[trigger] flights[j]) by {
                lemma_position(front, about(context), 0);
                assert(flights[j] == front[j]);
            }
            lemma_position_is(flights, about(context), 0, at);
            assert(flights[at].call.context@ != flights[n].call.context@);
        } else {
            assert forall|j: int| 0 <= j < n implies !about(context)(#[trigger] flights[j]) by {
                lemma_none(front, about(context), j);
                assert(flights[j] == front[j]);
            }
            if about(context)(last) {
                lemma_position_is(flights, about(context), 0, n);
            } else {
                lemma_position_is(flights, about(context), 0, n + 1);
            }
        }
    }
}

/// After a peer has gone, the calls in flight that it neither made nor
/// serviced are in flight as before, and no others.
pub(crate) proof fn lemma_apart_from(flights: Seq<InFlight>, peer: PeerId, context: Seq<char>)
    requires
        distinct_contexts(flights),
    ensures
        any(flights.filter(apart_from(peer)), about(context)) <==> any(flights, about(context))
            && apart_from(peer)(flights[position(flights, about(context), 0)]),
        any(flights.filter(apart_from(peer)), about(context)) ==> flights.filter(
            apart_from(peer),
        )[position(flights.filter(apart_from(peer)), about(context), 0)] == flights[position(
            flights,
            about(context),
            0,
        )],
{
    let kept = flights.filter(apart_from(peer));
    lemma_any(flights, about(context));
    lemma_any(kept, about(context));
    if any(kept, about(context)) {
        let i = lemma_any_first(kept, about(context));
        lemma_origin(flights, apart_from(peer), i);
        let a = crate::server::registry::origin(flights, apart_from(peer), i);
        lemma_any_at(flights, about(context), a);
        let at = lemma_any_first(flights, about(context));
        if at < a {
            assert(flights[at].call.context@ != flights[a].call.context@);
        } else if a < at {
            assert(flights[a].call.context@ != flights[at].call.context@);
        }
    }
    if any(flights, about(context)) {
        let at = lemma_any_first(flights, about(context));
        if apart_from(peer)(flights[at]) {
            let i = lemma_kept(flights, apart_from(peer), at);
            lemma_any_at(kept, about(context), i);
        }
    }
}

/// One step of the dispatcher, seen from a call in flight: its caller gets at
/// most one final response; while the call stays in flight the caller gets
/// none and remains its caller; and when the call ends without a final
/// response, the caller has cancelled it, has lost its connection, or is
/// being disconnected for a breach of the protocol.
pub proof fn lemma_step_in_flight(s: BrokerState, command: Command, context: Seq<char>)
    requires
        s.wf(),
        s.is_in_flight(context),
    ensures
        ({
            let caller = s.flight(context).caller;
            let next = s.handle(command);
            let count = finals(next.commands, caller, context);
            &&& count <= 1
            &&& next.state.is_in_flight(context) ==> count == 0 && next.state.flight(
                context,
            ).caller == caller
            &&& !next.state.is_in_flight(context) ==> count == 1 || ends_by_caller(
                caller,
                context,
            )(command) || any(next.commands, is_disconnect_of(caller))
        }),
{
    let at = lemma_any_first(s.in_flight, about(context));
    let flight = s.in_flight[at];
    let caller = flight.caller;
    let next = s.handle(command);
    lemma_finals_empty(caller, context);
    match command {
        Command::Quit => {
            lemma_finals_one(ipc_bridge::Command::Quit, caller, context);
        },
        Command::PeerConnected(peer) => {},
        Command::PeerDisconnected(peer) => {
            lemma_gone(s, peer, context);
        },
        Command::Received(from, message) => match message {
            Message::RpcCall(call) => {
                if s.is_connected(from) {
                    if s.is_in_flight(call.context@) {
                        lemma_gone(s, from, context);
                        let gone = s.peer_disconnected(from);
                        let order = ipc_bridge::Command::DisconnectPeer(from);
                        lemma_finals_push(gone.commands, order, caller, context);
                        assert(gone.commands.push(order) == gone.commands + seq![order]);
                        lemma_any_add(gone.commands, seq![order], is_disconnect_of(caller));
                        lemma_any(seq![order], is_disconnect_of(caller));
                        if from == caller {
                            assert(is_disconnect_of(caller)(seq![order][0]));
                        }
                    } else if call.function@ == crate::server::plugin_core::new_rpc_name() {
                        lemma_none(s.in_flight, about(call.context@), at);
                        lemma_new_rpc_finals(s, from, call, caller, context);
                    } else {
                        match crate::server::registry::first_handler(
                            s.registrations,
                            call.function@,
                        ) {
                            Some(handler) => {
                                lemma_finals_one(
                                    ipc_bridge::Command::SendToPeer(
                                        handler,
                                        Message::RpcCall(call),
                                    ),
                                    caller,
                                    context,
                                );
                                let t = next.state;
                                assert(t.in_flight[at] == s.in_flight[at]);
                                assert forall|j: int| 0 <= j < at implies !about(context)(
                                    #[trigger] t.in_flight[j],
                                ) by {
                                    lemma_position(s.in_flight, about(context), 0);
                                    assert(t.in_flight[j] == s.in_flight[j]);
                                }
                                lemma_position_is(t.in_flight, about(context), 0, at);
                            },
                            None => {
                                lemma_finals_one(next.commands[0], caller, context);
                                assert(next.commands =~= seq![next.commands[0]]);
                            },
                        }
                    }
                }
            },
            Message::RpcResponse(response) => {
                lemma_response_finals(s, from, response, context);
            },
            Message::RpcCancel(cancel) => {
                lemma_cancel_finals(s, from, cancel, context);
            },
        },
    }
}

/// Answering a registration request sends one final response, for the
/// request's own context id, and leaves the calls in flight alone.
pub(crate) proof fn lemma_new_rpc_finals(
    s: BrokerState,
    from: PeerId,
    call: crate::rpc::Call,
    to: PeerId,
    context: Seq<char>,
)
    ensures
        s.new_rpc(from, call).state.in_flight == s.in_flight,
        finals(s.new_rpc(from, call).commands, to, context) == (if to == from && call.context@
            == context {
            1nat
        } else {
            0nat
        }),
        !any(s.new_rpc(from, call).commands, is_disconnect_of(to)),
{
    let sent = s.new_rpc(from, call).commands;
    assert(sent =~= seq![sent[0]]);
    lemma_finals_one(sent[0], to, context);
    lemma_any(sent, is_disconnect_of(to));
}

/// The loss of a peer, seen from a call in flight.
pub(crate) proof fn lemma_gone(s: BrokerState, peer: PeerId, context: Seq<char>)
    requires
        s.wf(),
        s.is_in_flight(context),
    ensures
        ({
            let caller = s.flight(context).caller;
            let next = s.peer_disconnected(peer);
            let count = finals(next.commands, caller, context);
            &&& count <= 1
            &&& !any(next.commands, is_disconnect_of(caller))
            &&& next.state.is_in_flight(context) ==> count == 0 && next.state.flight(context)
                == s.flight(context)
            &&& !next.state.is_in_flight(context) ==> count == 1 || peer == caller
        }),
{
    let caller = s.flight(context).caller;
    lemma_finals_empty(caller, context);
    lemma_any(Seq::<ipc_bridge::Command>::empty(), is_disconnect_of(caller));
    if s.is_connected(peer) {
        lemma_farewell_finals(s.in_flight, peer, caller, context);
        lemma_apart_from(s.in_flight, peer, context);
    }
}

/// A frame of a response, seen from a call in flight.
pub(crate) proof fn lemma_response_finals(
    s: BrokerState,
    from: PeerId,
    response: crate::rpc::Response,
    context: Seq<char>,
)
    requires
        s.wf(),
        s.is_in_flight(context),
    ensures
        ({
            let caller = s.flight(context).caller;
            let next = s.route_response(from, response);
            let count = finals(next.commands, caller, context);
            &&& count <= 1
            &&& next.state.is_in_flight(context) ==> count == 0 && next.state.flight(
                context,
            ).caller == caller
            &&& !next.state.is_in_flight(context) ==> count == 1
        }),
{
    let at = lemma_any_first(s.in_flight, about(context));
    let caller = s.in_flight[at].caller;
    let next = s.route_response(from, response);
    let t = next.state;
    lemma_finals_empty(caller, context);
    let hit = position(s.in_flight, about(response.context@), 0);
    lemma_position(s.in_flight, about(response.context@), 0);
    if s.is_connected(from) && hit < s.in_flight.len() && s.in_flight[hit].handler == from {
        lemma_position(s.in_flight, about(context), 0);
        assert(next.commands =~= seq![next.commands[0]]);
        lemma_finals_one(next.commands[0], caller, context);
        if hit != at {
            if hit < at {
                assert(s.in_flight[hit].call.context@ != s.in_flight[at].call.context@);
            } else {
                assert(s.in_flight[at].call.context@ != s.in_flight[hit].call.context@);
            }
        }
        let moved = response.kind.is_not_handled() && crate::server::registry::next_handler(
            s.registrations,
            s.in_flight[hit].call.function@,
            from,
        ) is Some;
        if moved || !response.kind.is_last() {
            assert(t.in_flight.len() == s.in_flight.len());
            assert(t.in_flight[at].call.context@ == context);
            assert(t.in_flight[at].caller == caller);
            assert forall|j: int| 0 <= j < at implies !about(context)(#[trigger] t.in_flight[j]) by {
                assert(s.in_flight[j].call.context@ == t.in_flight[j].call.context@);
                assert(!about(context)(s.in_flight[j]));
            }
            lemma_position_is(t.in_flight, about(context), 0, at);
        } else if hit == at {
            lemma_ended(s, at);
        } else {
            lemma_still_in_flight(s, hit, context);
        }
    }
}

/// Taking another call out of the calls in flight leaves this one in flight.
pub(crate) proof fn lemma_still_in_flight(s: BrokerState, hit: int, context: Seq<char>)
    requires
        s.wf(),
        s.is_in_flight(context),
        0 <= hit < s.in_flight.len(),
        hit != position(s.in_flight, about(context), 0),
    ensures
        any(s.in_flight.remove(hit), about(context)),
        s.in_flight.remove(hit)[position(s.in_flight.remove(hit), about(context), 0)]
            == s.flight(context),
{
    let at = lemma_any_first(s.in_flight, about(context));
    let rest = s.in_flight.remove(hit);
    let k = if at < hit { at } else { at - 1 };
    assert(rest[k] == s.in_flight[at]);
    assert forall|j: int| 0 <= j < k implies !about(context)(#[trigger] rest[j]) by {
        let b = if j < hit { j } else { j + 1 };
        assert(rest[j] == s.in_flight[b]);
        lemma_position(s.in_flight, about(context), 0);
        assert(!about(context)(s.in_flight[b]));
    }
    lemma_position_is(rest, about(context), 0, k);
}

/// A cancellation, seen from a call in flight.
pub(crate) proof fn lemma_cancel_finals(
    s: BrokerState,
    from: PeerId,
    cancel: crate::rpc::Cancel,
    context: Seq<char>,
)
    requires
        s.wf(),
        s.is_in_flight(context),
    ensures
        ({
            let caller = s.flight(context).caller;
            let next = s.route_cancel(from, cancel);
            &&& finals(next.commands, caller, context) == 0
            &&& !any(next.commands, is_disconnect_of(caller))
            &&& next.state.is_in_flight(context) ==> next.state.flight(context).caller == caller
            &&& !next.state.is_in_flight(context) ==> from == caller && cancel.context@ == context
        }),
{
    let at = lemma_any_first(s.in_flight, about(context));
    let caller = s.in_flight[at].caller;
    let next = s.route_cancel(from, cancel);
    lemma_finals_empty(caller, context);
    lemma_any(next.commands, is_disconnect_of(caller));
    let hit = position(s.in_flight, about(cancel.context@), 0);
    lemma_position(s.in_flight, about(cancel.context@), 0);
    if s.is_connected(from) && hit < s.in_flight.len() && s.in_flight[hit].caller == from {
        assert(next.commands =~= seq![next.commands[0]]);
        lemma_finals_one(next.commands[0], caller, context);
        if hit != at {
            lemma_still_in_flight(s, hit, context);
        } else {
            lemma_ended(s, at);
        }
    }
}

/// One step of the dispatcher, seen from a context id that is not in flight:
/// unless the step is a call with that context id, no final response for it
/// goes out and it is not in flight afterwards.
pub proof fn lemma_step_not_in_flight(
    s: BrokerState,
    command: Command,
    to: PeerId,
    context: Seq<char>,
)
    requires
        s.wf(),
        !s.is_in_flight(context),
        !is_call_with(context)(command),
    ensures
        finals(s.handle(command).commands, to, context) == 0,
        !s.handle(command).state.is_in_flight(context),
{
    let next = s.handle(command);
    lemma_finals_empty(to, context);
    match command {
        Command::Quit => {
            lemma_finals_one(ipc_bridge::Command::Quit, to, context);
        },
        Command::PeerConnected(peer) => {},
        Command::PeerDisconnected(peer) => {
            lemma_gone_elsewhere(s, peer, to, context);
        },
        Command::Received(from, message) => match message {
            Message::RpcCall(call) => {
                if s.is_connected(from) {
                    if s.is_in_flight(call.context@) {
                        lemma_gone_elsewhere(s, from, to, context);
                        let gone = s.peer_disconnected(from);
                        let order = ipc_bridge::Command::DisconnectPeer(from);
                        lemma_finals_push(gone.commands, order, to, context);
                    } else if call.function@ == crate::server::plugin_core::new_rpc_name() {
                        lemma_new_rpc_finals(s, from, call, to, context);
                    } else {
                        assert(next.commands =~= seq![next.commands[0]]);
                        lemma_finals_one(next.commands[0], to, context);
                        lemma_any(next.state.in_flight, about(context));
                        assert forall|j: int| 0 <= j < next.state.in_flight.len() implies !about(
                            context,
                        )(#[trigger] next.state.in_flight[j]) by {
                            if j < s.in_flight.len() {
                                lemma_none(s.in_flight, about(context), j);
                            }
                        }
                    }
                }
            },
            Message::RpcResponse(response) => {
                let hit = position(s.in_flight, about(response.context@), 0);
                lemma_position(s.in_flight, about(response.context@), 0);
                if s.is_connected(from) && hit < s.in_flight.len() && s.in_flight[hit].handler
                    == from {
                    lemma_none(s.in_flight, about(context), hit);
                    assert(next.commands =~= seq![next.commands[0]]);
                    lemma_finals_one(next.commands[0], to, context);
                    lemma_any(next.state.in_flight, about(context));
                    assert forall|j: int| 0 <= j < next.state.in_flight.len() implies !about(
                        context,
                    )(#[trigger] next.state.in_flight[j]) by {
                        if next.state.in_flight.len() == s.in_flight.len() {
                            lemma_none(s.in_flight, about(context), j);
                        } else {
                            let b = if j < hit { j } else { j + 1 };
                            lemma_none(s.in_flight, about(context), b);
                        }
                    }
                }
            },
            Message::RpcCancel(cancel) => {
                let hit = position(s.in_flight, about(cancel.context@), 0);
                lemma_position(s.in_flight, about(cancel.context@), 0);
                if s.is_connected(from) && hit < s.in_flight.len() && s.in_flight[hit].caller
                    == from {
                    assert(next.commands =~= seq![next.commands[0]]);
                    lemma_finals_one(next.commands[0], to, context);
                    lemma_any(next.state.in_flight, about(context));
                    assert forall|j: int| 0 <= j < next.state.in_flight.len() implies !about(
                        context,
                    )(#[trigger] next.state.in_flight[j]) by {
                        let b = if j < hit { j } else { j + 1 };
                        lemma_none(s.in_flight, about(context), b);
                    }
                }
            },
        },
    }
}

/// The loss of a peer, seen from a context id that is not in flight.
pub(crate) proof fn lemma_gone_elsewhere(s: BrokerState, peer: PeerId, to: PeerId, context: Seq<char>)
    requires
        s.wf(),
        !s.is_in_flight(context),
    ensures
        finals(s.peer_disconnected(peer).commands, to, context) == 0,
        !s.peer_disconnected(peer).state.is_in_flight(context),
{
    lemma_finals_empty(to, context);
    if s.is_connected(peer) {
        lemma_farewell_finals(s.in_flight, peer, to, context);
        lemma_apart_from(s.in_flight, peer, context);
    }
}

/// While no call with a context id is made and none is in flight, no final
/// response for it goes out.
pub proof fn lemma_no_final_without_call(
    s: BrokerState,
    commands: Seq<Command>,
    to: PeerId,
    context: Seq<char>,
)
    requires
        s.wf(),
        !s.is_in_flight(context),
        !any(commands, is_call_with(context)),
    ensures
        finals(run(s, commands).commands, to, context) == 0,
        !run(s, commands).state.is_in_flight(context),
        run(s, commands).state.wf(),
    decreases commands.len(),
{
    if commands.len() == 0 {
        lemma_finals_empty(to, context);
    } else {
        let first = s.handle(commands[0]);
        lemma_any_skip(commands, is_call_with(context));
        lemma_handle_wf(s, commands[0]);
        lemma_step_not_in_flight(s, commands[0], to, context);
        lemma_no_final_without_call(first.state, commands.skip(1), to, context);
        lemma_finals_add(
            first.commands,
            run(first.state, commands.skip(1)).commands,
            to,
            context,
        );
    }
}

/// Exactly one final: the caller of a call that the dispatcher has accepted
/// gets at most one final response to it, whatever happens afterwards, and
/// none while the call is in flight. When the call is no longer in flight,
/// the caller has got exactly one final response, unless it ended the call
/// itself, by cancelling it or by losing its connection, or was disconnected
/// for a breach of the protocol.
///
/// The commands hold no new call with the same context id: a context id
/// stands for one call.
pub proof fn lemma_exactly_one_final(s: BrokerState, commands: Seq<Command>, context: Seq<char>)
    requires
        s.wf(),
        s.is_in_flight(context),
        !any(commands, is_call_with(context)),
    ensures
        ({
            let caller = s.flight(context).caller;
            let end = run(s, commands);
            let count = finals(end.commands, caller, context);
            &&& count <= 1
            &&& end.state.is_in_flight(context) ==> count == 0
            &&& !end.state.is_in_flight(context) ==> count == 1 || any(
                commands,
                ends_by_caller(caller, context),
            ) || any(end.commands, is_disconnect_of(caller))
        }),
    decreases commands.len(),
{
    let caller = s.flight(context).caller;
    if commands.len() == 0 {
        lemma_finals_empty(caller, context);
    } else {
        let first = s.handle(commands[0]);
        let rest = run(first.state, commands.skip(1));
        lemma_any_skip(commands, is_call_with(context));
        lemma_any_skip(commands, ends_by_caller(caller, context));
        lemma_handle_wf(s, commands[0]);
        lemma_step_in_flight(s, commands[0], context);
        lemma_finals_add(first.commands, rest.commands, caller, context);
        lemma_any_add(first.commands, rest.commands, is_disconnect_of(caller));
        if first.state.is_in_flight(context) {
            lemma_exactly_one_final(first.state, commands.skip(1), context);
        } else {
            lemma_no_final_without_call(first.state, commands.skip(1), caller, context);
        }
    }
}

} // verus!
