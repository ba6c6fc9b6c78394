//! The invariant of the dispatcher holds after every step.

use crate::ipc::Message;
use crate::rpc::{Call, Cancel, Response};
use crate::seqs::{any, lemma_any, lemma_any_at, lemma_any_first, lemma_none, lemma_position, position};
use crate::server::dispatcher::{about, apart_from, is_peer, BrokerState, Command};
use crate::server::plugin_core::{
    is_new_rpc_request,
    new_rpc_name,
    requested_name,
    requested_priority,
};
use crate::server::registry::{
    deregistered,
    first_handler,
    insertion_point,
    is_registered,
    lemma_deregistered_from,
    lemma_deregistered_keeps,
    lemma_deregistered_wf,
    lemma_origin,
    lemma_origin_rises,
    lemma_registered_keeps,
    lemma_registered_wf,
    named,
    named_behind,
    named_by,
    next_handler,
    origin,
    registered,
    PeerId,
};
use vstd::prelude::*;

verus! {

/// A peer that is connected stays so when another peer is listed.
pub(crate) proof fn lemma_stays_connected_on_push(peers: Seq<PeerId>, peer: PeerId, other: PeerId)
    requires
        any(peers, is_peer(other)),
    ensures
        any(peers.push(peer), is_peer(other)),
{
    let j = lemma_any_first(peers, is_peer(other));
    assert(peers.push(peer)[j] == other);
    lemma_any_at(peers.push(peer), is_peer(other), j);
}

/// A peer that is connected stays so when another peer is taken off the
/// list.
pub(crate) proof fn lemma_stays_connected_on_remove(peers: Seq<PeerId>, at: int, other: PeerId)
    requires
        any(peers, is_peer(other)),
        0 <= at < peers.len(),
        peers[at] != other,
    ensures
        any(peers.remove(at), is_peer(other)),
{
    let j = lemma_any_first(peers, is_peer(other));
    let k = if j < at { j } else { j - 1 };
    assert(peers.remove(at)[k] == other);
    lemma_any_at(peers.remove(at), is_peer(other), k);
}

/// Listing a peer keeps the invariant.
pub proof fn lemma_peer_connected_wf(s: BrokerState, peer: PeerId)
    requires
        s.wf(),
    ensures
        s.peer_connected(peer).state.wf(),
{
    let t = s.peer_connected(peer).state;
    if !s.is_connected(peer) {
        assert forall|i: int, j: int| 0 <= i < j < t.peers.len() implies #[trigger] t.peers[i]
            != #[trigger] t.peers[j] by {
            if j == s.peers.len() {
                lemma_none(s.peers, is_peer(peer), i);
            }
        }
        assert forall|i: int| 0 <= i < t.registrations.len() implies t.is_connected(
            (#[trigger] t.registrations[i]).peer,
        ) by {
            assert(s.is_connected(s.registrations[i].peer));
            lemma_stays_connected_on_push(s.peers, peer, s.registrations[i].peer);
        }
        assert forall|i: int| 0 <= i < t.in_flight.len() implies t.is_connected(
            (#[trigger] t.in_flight[i]).caller,
        ) && t.is_connected(t.in_flight[i].handler) && is_registered(
            t.registrations,
            t.in_flight[i].call.function@,
            t.in_flight[i].handler,
        ) by {
            assert(s.is_connected(s.in_flight[i].caller));
            lemma_stays_connected_on_push(s.peers, peer, s.in_flight[i].caller);
            lemma_stays_connected_on_push(s.peers, peer, s.in_flight[i].handler);
        }
    }
}

/// Forgetting a peer keeps the invariant, and the peer is not connected
/// afterwards.
pub proof fn lemma_peer_disconnected_wf(s: BrokerState, peer: PeerId)
    requires
        s.wf(),
    ensures
        s.peer_disconnected(peer).state.wf(),
        !s.peer_disconnected(peer).state.is_connected(peer),
{
    let t = s.peer_disconnected(peer).state;
    if s.is_connected(peer) {
        let at = lemma_any_first(s.peers, is_peer(peer));
        lemma_deregistered_wf(s.registrations, peer);
        assert forall|i: int, j: int| 0 <= i < j < t.peers.len() implies #[trigger] t.peers[i]
            != #[trigger] t.peers[j] by {
            let a = if i < at { i } else { i + 1 };
            let b = if j < at { j } else { j + 1 };
            assert(t.peers[i] == s.peers[a] && t.peers[j] == s.peers[b]);
        }
        assert(!t.is_connected(peer)) by {
            lemma_any(t.peers, is_peer(peer));
            assert forall|j: int| 0 <= j < t.peers.len() implies !is_peer(peer)(
                #[trigger] t.peers[j],
            ) by {
                let b = if j < at { j } else { j + 1 };
                assert(t.peers[j] == s.peers[b]);
                if b < at {
                    assert(s.peers[b] != s.peers[at]);
                } else {
                    assert(s.peers[at] != s.peers[b]);
                }
            }
        }
        assert forall|i: int| 0 <= i < t.registrations.len() implies t.is_connected(
            (#[trigger] t.registrations[i]).peer,
        ) by {
            let a = lemma_deregistered_from(s.registrations, peer, i);
            assert(s.is_connected(s.registrations[a].peer));
            lemma_stays_connected_on_remove(s.peers, at, s.registrations[a].peer);
        }
        assert forall|i: int, j: int| 0 <= i < j < t.in_flight.len() implies (
        #[trigger] t.in_flight[i]).call.context@ != (#[trigger] t.in_flight[j]).call.context@ by {
            lemma_origin(s.in_flight, apart_from(peer), i);
            lemma_origin(s.in_flight, apart_from(peer), j);
            lemma_origin_rises(s.in_flight, apart_from(peer), i, j);
            let a = origin(s.in_flight, apart_from(peer), i);
            let b = origin(s.in_flight, apart_from(peer), j);
            assert(s.in_flight[a].call.context@ != s.in_flight[b].call.context@);
        }
        assert forall|i: int| 0 <= i < t.in_flight.len() implies t.is_connected(
            (#[trigger] t.in_flight[i]).caller,
        ) && t.is_connected(t.in_flight[i].handler) && is_registered(
            t.registrations,
            t.in_flight[i].call.function@,
            t.in_flight[i].handler,
        ) by {
            lemma_origin(s.in_flight, apart_from(peer), i);
            let a = origin(s.in_flight, apart_from(peer), i);
            let f = s.in_flight[a];
            assert(s.is_connected(f.caller));
            lemma_stays_connected_on_remove(s.peers, at, f.caller);
            lemma_stays_connected_on_remove(s.peers, at, f.handler);
            lemma_deregistered_keeps(s.registrations, peer, f.call.function@, f.handler);
        }
    }
}

/// A registration by a connected peer keeps the invariant.
pub proof fn lemma_registered_by_wf(s: BrokerState, peer: PeerId, name: Seq<char>, priority: u16)
    requires
        s.wf(),
        s.is_connected(peer),
        !is_registered(s.registrations, name, peer),
    ensures
        (BrokerState {
            registrations: registered(s.registrations, name, peer, priority),
            ..s
        }).wf(),
{
    let t = BrokerState { registrations: registered(s.registrations, name, peer, priority), ..s };
    lemma_registered_wf(s.registrations, name, peer, priority);
    lemma_position(s.registrations, named_behind(name, priority), 0);
    let at = insertion_point(s.registrations, name, priority);
    assert forall|i: int| 0 <= i < t.registrations.len() implies t.is_connected(
        (#[trigger] t.registrations[i]).peer,
    ) by {
        if i != at {
            let a = if i < at { i } else { i - 1 };
            assert(t.registrations[i] == s.registrations[a]);
            assert(s.is_connected(s.registrations[a].peer));
        }
    }
    assert forall|i: int| 0 <= i < t.in_flight.len() implies t.is_connected(
        (#[trigger] t.in_flight[i]).caller,
    ) && t.is_connected(t.in_flight[i].handler) && is_registered(
        t.registrations,
        t.in_flight[i].call.function@,
        t.in_flight[i].handler,
    ) by {
        assert(s.is_connected(s.in_flight[i].caller));
        lemma_registered_keeps(
            s.registrations,
            name,
            peer,
            priority,
            s.in_flight[i].call.function@,
            s.in_flight[i].handler,
        );
    }
}

/// Taking the registrations of a peer away keeps the invariant when the
/// peer services no call in flight.
pub proof fn lemma_deregistered_by_wf(s: BrokerState, peer: PeerId)
    requires
        s.wf(),
        s.services_nothing(peer),
    ensures
        (BrokerState { registrations: deregistered(s.registrations, peer), ..s }).wf(),
{
    let t = BrokerState { registrations: deregistered(s.registrations, peer), ..s };
    lemma_deregistered_wf(s.registrations, peer);
    assert forall|i: int| 0 <= i < t.registrations.len() implies t.is_connected(
        (#[trigger] t.registrations[i]).peer,
    ) by {
        let a = lemma_deregistered_from(s.registrations, peer, i);
        assert(s.is_connected(s.registrations[a].peer));
    }
    assert forall|i: int| 0 <= i < t.in_flight.len() implies t.is_connected(
        (#[trigger] t.in_flight[i]).caller,
    ) && t.is_connected(t.in_flight[i].handler) && is_registered(
        t.registrations,
        t.in_flight[i].call.function@,
        t.in_flight[i].handler,
    ) by {
        assert(s.is_connected(s.in_flight[i].caller));
        lemma_deregistered_keeps(
            s.registrations,
            peer,
            s.in_flight[i].call.function@,
            s.in_flight[i].handler,
        );
    }
}

/// Answering a registration request keeps the invariant.
pub proof fn lemma_new_rpc_wf(s: BrokerState, from: PeerId, call: Call)
    requires
        s.wf(),
        s.is_connected(from),
    ensures
        s.new_rpc(from, call).state.wf(),
{
    if is_new_rpc_request(call.args) {
        let name = requested_name(call.args).unwrap();
        let priority = requested_priority(call.args).unwrap();
        if !is_registered(s.registrations, name, from) {
            lemma_registered_by_wf(s, from, name, priority);
        }
    }
}

/// Routing a call keeps the invariant.
pub proof fn lemma_route_call_wf(s: BrokerState, from: PeerId, call: Call)
    ensures
        s.wf() ==> s.route_call(from, call).state.wf(),
{
    if s.wf() && s.is_connected(from) {
        let t = s.route_call(from, call).state;
        if s.is_in_flight(call.context@) {
            lemma_peer_disconnected_wf(s, from);
        } else if call.function@ == new_rpc_name() {
            lemma_new_rpc_wf(s, from, call);
        } else if first_handler(s.registrations, call.function@) is Some {
            lemma_position(s.registrations, named(call.function@), 0);
            let at = position(s.registrations, named(call.function@), 0);
            let handler = s.registrations[at].peer;
            assert(named_by(call.function@, handler)(s.registrations[at]));
            lemma_any_at(s.registrations, named_by(call.function@, handler), at);
            assert(s.is_connected(s.registrations[at].peer));
            assert forall|i: int, j: int| 0 <= i < j < t.in_flight.len() implies (
            #[trigger] t.in_flight[i]).call.context@ != (
            #[trigger] t.in_flight[j]).call.context@ by {
                if j == s.in_flight.len() {
                    lemma_none(s.in_flight, about(call.context@), i);
                }
            }
            assert forall|i: int| 0 <= i < t.in_flight.len() implies t.is_connected(
                (#[trigger] t.in_flight[i]).caller,
            ) && t.is_connected(t.in_flight[i].handler) && is_registered(
                t.registrations,
                t.in_flight[i].call.function@,
                t.in_flight[i].handler,
            ) by {
                if i < s.in_flight.len() {
                    assert(s.is_connected(s.in_flight[i].caller));
                }
            }
        }
    }
}

/// Routing a frame of a response keeps the invariant.
pub proof fn lemma_route_response_wf(s: BrokerState, from: PeerId, response: Response)
    ensures
        s.wf() ==> s.route_response(from, response).state.wf(),
{
    let at = position(s.in_flight, about(response.context@), 0);
    if s.wf() && s.is_connected(from) && at < s.in_flight.len() && s.in_flight[at].handler
        == from {
        lemma_position(s.in_flight, about(response.context@), 0);
        let t = s.route_response(from, response).state;
        let flight = s.in_flight[at];
        let next = next_handler(s.registrations, flight.call.function@, from);
        if response.kind.is_not_handled() && next is Some {
            let first = position(s.registrations, named_by(flight.call.function@, from), 0);
            assert(is_registered(s.registrations, flight.call.function@, from));
            lemma_position(s.registrations, named_by(flight.call.function@, from), 0);
            lemma_position(s.registrations, named(flight.call.function@), first + 1);
            let n = position(s.registrations, named(flight.call.function@), first + 1);
            assert(named_by(flight.call.function@, next.unwrap())(s.registrations[n]));
            lemma_any_at(s.registrations, named_by(flight.call.function@, next.unwrap()), n);
            assert(s.is_connected(s.registrations[n].peer));
            assert forall|i: int, j: int| 0 <= i < j < t.in_flight.len() implies (
            #[trigger] t.in_flight[i]).call.context@ != (
            #[trigger] t.in_flight[j]).call.context@ by {
                assert(s.in_flight[i].call.context@ != s.in_flight[j].call.context@);
            }
            assert forall|i: int| 0 <= i < t.in_flight.len() implies t.is_connected(
                (#[trigger] t.in_flight[i]).caller,
            ) && t.is_connected(t.in_flight[i].handler) && is_registered(
                t.registrations,
                t.in_flight[i].call.function@,
                t.in_flight[i].handler,
            ) by {
                assert(s.is_connected(s.in_flight[i].caller));
            }
        } else if response.kind.is_last() {
            lemma_remove_flight_wf(s, at);
        }
    }
}

/// Ending a call in flight keeps the invariant.
pub(crate) proof fn lemma_remove_flight_wf(s: BrokerState, at: int)
    requires
        s.wf(),
        0 <= at < s.in_flight.len(),
    ensures
        (BrokerState { in_flight: s.in_flight.remove(at), ..s }).wf(),
{
    let t = BrokerState { in_flight: s.in_flight.remove(at), ..s };
    assert forall|i: int, j: int| 0 <= i < j < t.in_flight.len() implies (
    #[trigger] t.in_flight[i]).call.context@ != (#[trigger] t.in_flight[j]).call.context@ by {
        let a = if i < at { i } else { i + 1 };
        let b = if j < at { j } else { j + 1 };
        assert(s.in_flight[a].call.context@ != s.in_flight[b].call.context@);
    }
    assert forall|i: int| 0 <= i < t.in_flight.len() implies t.is_connected(
        (#[trigger] t.in_flight[i]).caller,
    ) && t.is_connected(t.in_flight[i].handler) && is_registered(
        t.registrations,
        t.in_flight[i].call.function@,
        t.in_flight[i].handler,
    ) by {
        let a = if i < at { i } else { i + 1 };
        assert(s.is_connected(s.in_flight[a].caller));
    }
}

/// Routing a cancellation keeps the invariant.
pub proof fn lemma_route_cancel_wf(s: BrokerState, from: PeerId, cancel: Cancel)
    ensures
        s.wf() ==> s.route_cancel(from, cancel).state.wf(),
{
    let at = position(s.in_flight, about(cancel.context@), 0);
    if s.wf() && s.is_connected(from) && at < s.in_flight.len() && s.in_flight[at].caller == from {
        lemma_position(s.in_flight, about(cancel.context@), 0);
        lemma_remove_flight_wf(s, at);
    }
}

/// Every step of the dispatcher keeps the invariant.
pub proof fn lemma_handle_wf(s: BrokerState, command: Command)
    requires
        s.wf(),
    ensures
        s.handle(command).state.wf(),
{
    match command {
        Command::Quit => {},
        Command::PeerConnected(peer) => lemma_peer_connected_wf(s, peer),
        Command::PeerDisconnected(peer) => lemma_peer_disconnected_wf(s, peer),
        Command::Received(from, message) => match message {
            Message::RpcCall(call) => lemma_route_call_wf(s, from, call),
            Message::RpcResponse(response) => lemma_route_response_wf(s, from, response),
            Message::RpcCancel(cancel) => lemma_route_cancel_wf(s, from, cancel),
        },
    }
}

} // verus!
