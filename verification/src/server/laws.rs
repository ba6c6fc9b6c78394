//! What holds of the dispatcher whatever it is told: laws over the state
//! machine of `dispatcher`, each proved from the definitions there.

use crate::ipc::Message;
use crate::rpc::{Call, Response, ResponseKind, RpcResult};
use crate::seqs::{any, lemma_any, lemma_any_first, lemma_none, lemma_position_is, position};
use crate::server::dispatcher::{about, BrokerState, InFlight};
use crate::server::soundness::{
    lemma_peer_disconnected_wf,
    lemma_route_call_wf,
    lemma_route_response_wf,
};
use crate::server::ipc_bridge;
use crate::server::plugin_core::new_rpc_name;
use crate::server::registry::{
    by_others,
    deregistered,
    first_handler,
    is_registered,
    lemma_origin,
    named,
    named_by,
    next_handler,
    registry_wf,
    PeerId,
    RegistrationView,
};
use vstd::prelude::*;

verus! {

/// Filtering a sequence whose elements all pass the filter changes nothing.
pub(crate) proof fn lemma_filter_all<T>(s: Seq<T>, p: spec_fn(T) -> bool)
    requires
        forall|i: int| 0 <= i < s.len() ==> p(#[trigger] s[i]),
    ensures
        s.filter(p) == s,
    decreases s.len(),
{
    reveal(Seq::filter);
    if s.len() > 0 {
        assert forall|i: int| 0 <= i < s.drop_last().len() implies p(#[trigger] s.drop_last()[i]) by {
            assert(s.drop_last()[i] == s[i]);
        }
        lemma_filter_all(s.drop_last(), p);
        assert(s.drop_last().push(s.last()) =~= s);
    }
}

/// Deregistration is idempotent: removing a peer's registrations a second
/// time changes nothing.
pub proof fn lemma_deregister_idempotent(regs: Seq<RegistrationView>, peer: PeerId)
    ensures
        deregistered(deregistered(regs, peer), peer) == deregistered(regs, peer),
{
    let once = deregistered(regs, peer);
    assert forall|i: int| 0 <= i < once.len() implies by_others(peer)(#[trigger] once[i]) by {
        lemma_origin(regs, by_others(peer), i);
    }
    lemma_filter_all(once, by_others(peer));
}

/// Disconnecting is idempotent: once a peer has been disconnected it is not
/// connected, and disconnecting it again changes nothing and sends nothing.
/// So does disconnecting any peer that is not connected.
pub proof fn lemma_disconnect_idempotent(s: BrokerState, peer: PeerId)
    requires
        s.wf(),
    ensures
        !s.peer_disconnected(peer).state.is_connected(peer),
        s.peer_disconnected(peer).state.peer_disconnected(peer) == s.peer_disconnected(
            peer,
        ).state.idle(),
        !s.is_connected(peer) ==> s.peer_disconnected(peer) == s.idle(),
{
    lemma_peer_disconnected_wf(s, peer);
}

/// The priority with which `peer` has registered the function `name`.
pub open spec fn priority_of(regs: Seq<RegistrationView>, name: Seq<char>, peer: PeerId) -> u16
    recommends
        is_registered(regs, name, peer),
{
    regs[position(regs, named_by(name, peer), 0)].priority
}

/// Whether `first` and `second` are the only peers that serve the function
/// `name`.
pub open spec fn only_handlers(
    regs: Seq<RegistrationView>,
    name: Seq<char>,
    first: PeerId,
    second: PeerId,
) -> bool {
    &&& is_registered(regs, name, first)
    &&& is_registered(regs, name, second)
    &&& forall|i: int|
        0 <= i < regs.len() && (#[trigger] regs[i]).name == name ==> regs[i].peer == first
            || regs[i].peer == second
}

/// The lower priority number is tried first: of two handlers of a function,
/// the one with the lower number is the first handler and the other one is
/// tried when it declines; nobody is tried after that.
pub proof fn lemma_lower_number_first(
    regs: Seq<RegistrationView>,
    name: Seq<char>,
    first: PeerId,
    second: PeerId,
)
    requires
        registry_wf(regs),
        only_handlers(regs, name, first, second),
        priority_of(regs, name, first) < priority_of(regs, name, second),
    ensures
        first_handler(regs, name) == Some(first),
        next_handler(regs, name, first) == Some(second),
        next_handler(regs, name, second) is None,
{
    let a = lemma_any_first(regs, named_by(name, first));
    let b = lemma_any_first(regs, named_by(name, second));
    assert(a < b) by {
        if b < a {
            assert(regs[b].priority <= regs[a].priority);
        }
    }
    assert forall|j: int| 0 <= j < a implies !named(name)(#[trigger] regs[j]) by {
        if regs[j].name == name {
            if regs[j].peer == first {
                assert(regs[j].peer != regs[a].peer);
            } else {
                assert(regs[j].peer != regs[b].peer);
            }
        }
    }
    lemma_position_is(regs, named(name), 0, a);
    assert forall|j: int| a + 1 <= j < b implies !named(name)(#[trigger] regs[j]) by {
        if regs[j].name == name {
            if regs[j].peer == first {
                assert(regs[a].peer != regs[j].peer);
            } else {
                assert(regs[j].peer != regs[b].peer);
            }
        }
    }
    lemma_position_is(regs, named(name), a + 1, b);
    assert forall|j: int| b + 1 <= j < regs.len() implies !named(name)(#[trigger] regs[j]) by {
        if regs[j].name == name {
            if regs[j].peer == first {
                assert(regs[a].peer != regs[j].peer);
            } else {
                assert(regs[b].peer != regs[j].peer);
            }
        }
    }
    lemma_position_is(regs, named(name), b + 1, regs.len() as int);
}

/// Whether `call` is one that the dispatcher hands to a handler when the peer
/// `caller` makes it: the caller is connected, the function is not the
/// broker's own, and the context id is not in use.
pub open spec fn is_fresh_call(s: BrokerState, caller: PeerId, call: Call) -> bool {
    &&& s.is_connected(caller)
    &&& call.function@ != new_rpc_name()
    &&& !s.is_in_flight(call.context@)
}

/// A call that is handed to the first handler is in flight afterwards, with
/// that handler, as the youngest call.
pub proof fn lemma_accepted(s: BrokerState, caller: PeerId, call: Call, handler: PeerId)
    requires
        s.wf(),
        is_fresh_call(s, caller, call),
        first_handler(s.registrations, call.function@) == Some(handler),
    ensures
        s.route_call(caller, call).commands == seq![
            ipc_bridge::Command::SendToPeer(handler, Message::RpcCall(call)),
        ],
        s.route_call(caller, call).state.wf(),
        s.route_call(caller, call).state.is_in_flight(call.context@),
        s.route_call(caller, call).state.flight(call.context@) == (InFlight {
            call,
            caller,
            handler,
        }),
        s.route_call(caller, call).state.registrations == s.registrations,
        s.route_call(caller, call).state.is_connected(handler),
        position(s.route_call(caller, call).state.in_flight, about(call.context@), 0)
            == s.in_flight.len(),
{
    lemma_route_call_wf(s, caller, call);
    let t = s.route_call(caller, call).state;
    let last = s.in_flight.len() as int;
    assert forall|j: int| 0 <= j < last implies !about(call.context@)(#[trigger] t.in_flight[j]) by {
        lemma_none(s.in_flight, about(call.context@), j);
    }
    assert(about(call.context@)(t.in_flight[last]));
    lemma_position_is(t.in_flight, about(call.context@), 0, last);
    assert(t.is_connected(t.in_flight[last].handler));
}

/// Priority chaining: when the handler with the lower priority number
/// declines a call, the call goes to the handler with the higher number, and
/// what that one answers is what the caller gets.
pub proof fn lemma_priority_chaining(
    s: BrokerState,
    caller: PeerId,
    call: Call,
    first: PeerId,
    second: PeerId,
    declined: Response,
    answer: Response,
)
    requires
        s.wf(),
        is_fresh_call(s, caller, call),
        only_handlers(s.registrations, call.function@, first, second),
        priority_of(s.registrations, call.function@, first) < priority_of(
            s.registrations,
            call.function@,
            second,
        ),
        declined.context@ == call.context@,
        declined.kind == ResponseKind::Last(RpcResult::NotHandled),
        answer.context@ == call.context@,
        answer.kind is Last,
    ensures
        ({
            let called = s.route_call(caller, call);
            let passed_on = called.state.route_response(first, declined);
            let answered = passed_on.state.route_response(second, answer);
            &&& called.commands == seq![
                ipc_bridge::Command::SendToPeer(first, Message::RpcCall(call)),
            ]
            &&& passed_on.commands == seq![
                ipc_bridge::Command::SendToPeer(second, Message::RpcCall(call)),
            ]
            &&& answered.commands == seq![
                ipc_bridge::Command::SendToPeer(caller, Message::RpcResponse(answer)),
            ]
            &&& !answered.state.is_in_flight(call.context@)
        }),
{
    lemma_lower_number_first(s.registrations, call.function@, first, second);
    lemma_accepted(s, caller, call, first);
    let called = s.route_call(caller, call);
    let at = s.in_flight.len() as int;
    let passed_on = called.state.route_response(first, declined);
    lemma_route_response_wf(called.state, first, declined);
    let t = passed_on.state;
    assert(t.in_flight[at] == (InFlight { call, caller, handler: second }));
    assert forall|j: int| 0 <= j < at implies !about(call.context@)(#[trigger] t.in_flight[j]) by {
        lemma_none(s.in_flight, about(call.context@), j);
    }
    lemma_position_is(t.in_flight, about(call.context@), 0, at);
    assert(t.is_connected(t.in_flight[at].handler));
    let answered = t.route_response(second, answer);
    lemma_ended(t, at);
}

/// Once the call at `at` is taken out of the calls in flight, no call with
/// its context id is in flight.
pub(crate) proof fn lemma_ended(s: BrokerState, at: int)
    requires
        s.wf(),
        0 <= at < s.in_flight.len(),
    ensures
        !any(s.in_flight.remove(at), about(s.in_flight[at].call.context@)),
{
    let context = s.in_flight[at].call.context@;
    let rest = s.in_flight.remove(at);
    lemma_any(rest, about(context));
    assert forall|j: int| 0 <= j < rest.len() implies !about(context)(#[trigger] rest[j]) by {
        let b = if j < at { j } else { j + 1 };
        assert(rest[j] == s.in_flight[b]);
        if b < at {
            assert(s.in_flight[b].call.context@ != s.in_flight[at].call.context@);
        } else {
            assert(s.in_flight[at].call.context@ != s.in_flight[b].call.context@);
        }
    }
}

/// Payloads pass through unchanged: the handler gets the call with the
/// arguments that the caller sent, and when it answers with those arguments
/// as its result, the caller gets exactly them back.
pub proof fn lemma_echo_round_trip(
    s: BrokerState,
    caller: PeerId,
    call: Call,
    handler: PeerId,
    answer: Response,
)
    requires
        s.wf(),
        is_fresh_call(s, caller, call),
        first_handler(s.registrations, call.function@) == Some(handler),
        answer.context@ == call.context@,
        answer.kind == ResponseKind::Last(RpcResult::Success(call.args)),
    ensures
        s.route_call(caller, call).commands == seq![
            ipc_bridge::Command::SendToPeer(handler, Message::RpcCall(call)),
        ],
        s.route_call(caller, call).state.route_response(handler, answer).commands == seq![
            ipc_bridge::Command::SendToPeer(
                caller,
                Message::RpcResponse(
                    Response {
                        context: answer.context,
                        kind: ResponseKind::Last(RpcResult::Success(call.args)),
                    },
                ),
            ),
        ],
{
    lemma_accepted(s, caller, call, handler);
}

} // verus!
