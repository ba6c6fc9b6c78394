//! The two ends of a call, each with the channels that it talks through.

use serde_json::Value;
use std::sync::mpsc;
use swiboe::channel::Polled;
use swiboe::client::rpc::client;
use swiboe::client::rpc::server::{Command, Context, ContextState};
use swiboe::client::rpc_caller;
use swiboe::client::{RpcCaller, ThinClient};
use swiboe::error::Error;
use swiboe::ipc::Message;
use swiboe::rpc::{Call, Error as RpcError, ErrorKind, Response, ResponseKind, RpcResult};

struct Serving {
    context: Context,
    signals: mpsc::Sender<Command>,
    sent: mpsc::Receiver<rpc_caller::Command>,
}

fn serving(id: &str) -> Serving {
    let (signals, commands) = mpsc::channel();
    let (to_loop, sent) = mpsc::channel();
    Serving { context: Context::new(id.to_string(), commands, to_loop), signals, sent }
}

fn sent_message(sent: &mpsc::Receiver<rpc_caller::Command>) -> Message {
    match sent.try_recv() {
        Ok(rpc_caller::Command::Send(message)) => message,
        _ => panic!("the context has sent no message"),
    }
}

fn nothing_sent(sent: &mpsc::Receiver<rpc_caller::Command>) -> bool {
    match sent.try_recv() {
        Err(mpsc::TryRecvError::Empty) => true,
        _ => false,
    }
}

fn number(n: u64) -> Value {
    Value::from(n)
}

#[test]
fn a_new_context_is_alive() {
    let mut s = serving("c");
    assert_eq!(s.context.context(), "c");
    assert!(s.context.is_alive());
    assert_eq!(s.context.current_state(), ContextState::Alive);
    assert!(!s.context.cancelled());
    assert!(s.context.is_alive());
    assert!(nothing_sent(&s.sent));
}

#[test]
fn update_sends_a_partial_result() {
    let mut s = serving("c");
    assert_eq!(s.context.update(number(1)), Ok(()));
    assert_eq!(s.context.update(number(2)), Ok(()));
    assert_eq!(sent_message(&s.sent), Message::partial("c".to_string(), number(1)));
    assert_eq!(sent_message(&s.sent), Message::partial("c".to_string(), number(2)));
    assert!(nothing_sent(&s.sent));
    assert!(s.context.is_alive());
}

#[test]
fn finish_sends_the_final_result_once() {
    let mut s = serving("c");
    assert_eq!(s.context.finish(RpcResult::Success(number(9))), Ok(()));
    assert_eq!(s.context.current_state(), ContextState::Finished);
    assert!(!s.context.is_alive());
    assert_eq!(
        sent_message(&s.sent),
        Message::RpcResponse(Response {
            context: "c".to_string(),
            kind: ResponseKind::Last(RpcResult::Success(number(9)))
        })
    );
    assert_eq!(s.context.finish(RpcResult::Success(number(10))), Err(Error::RpcDone));
    assert_eq!(s.context.update(number(11)), Err(Error::RpcDone));
    assert!(nothing_sent(&s.sent));
    assert_eq!(s.context.current_state(), ContextState::Finished);
}

#[test]
fn a_finished_context_is_not_cancelled_by_a_late_signal() {
    let mut s = serving("c");
    assert_eq!(s.context.finish(RpcResult::NotHandled), Ok(()));
    s.signals.send(Command::Cancel).unwrap();
    assert!(!s.context.cancelled());
    assert_eq!(s.context.current_state(), ContextState::Finished);
}

#[test]
fn a_cancel_signal_cancels() {
    let mut s = serving("c");
    s.signals.send(Command::Cancel).unwrap();
    // Nobody has looked yet.
    assert!(s.context.is_alive());
    assert!(s.context.cancelled());
    assert_eq!(s.context.current_state(), ContextState::Cancelled);
    assert!(s.context.cancelled());
    assert_eq!(s.context.update(number(1)), Err(Error::RpcDone));
    assert_eq!(s.context.finish(RpcResult::Success(number(1))), Err(Error::RpcDone));
    assert!(nothing_sent(&s.sent));
    assert_eq!(s.context.current_state(), ContextState::Cancelled);
}

#[test]
fn update_and_finish_look_for_a_cancellation_first() {
    let mut s = serving("c");
    s.signals.send(Command::Cancel).unwrap();
    assert_eq!(s.context.update(number(1)), Err(Error::RpcDone));
    assert_eq!(s.context.current_state(), ContextState::Cancelled);

    let mut s = serving("d");
    s.signals.send(Command::Cancel).unwrap();
    assert_eq!(s.context.finish(RpcResult::NotHandled), Err(Error::RpcDone));
    assert_eq!(s.context.current_state(), ContextState::Cancelled);
    assert!(nothing_sent(&s.sent));
}

#[test]
fn the_loss_of_the_signal_channel_cancels() {
    let Serving { mut context, signals, sent: _sent } = serving("c");
    drop(signals);
    assert!(context.cancelled());
    assert_eq!(context.current_state(), ContextState::Cancelled);
}

#[test]
fn the_loss_of_the_loop_is_reported() {
    let Serving { mut context, signals: _signals, sent } = serving("c");
    drop(sent);
    assert_eq!(context.update(number(1)), Err(Error::Disconnected));
    assert!(context.is_alive());
    assert_eq!(context.finish(RpcResult::NotHandled), Err(Error::Disconnected));
    // Finished all the same.
    assert_eq!(context.current_state(), ContextState::Finished);
    assert!(matches!(context.call("f", Value::Null), Err(Error::RpcDone)));
}

#[test]
fn states_after_a_look_at_the_cancel_channel() {
    let looks = || [Polled::Item(Command::Cancel), Polled::Empty, Polled::Disconnected];
    for polled in looks().iter() {
        let after = ContextState::Alive.observe(polled);
        let expected = if *polled == Polled::Empty { ContextState::Alive } else { ContextState::Cancelled };
        assert_eq!(after, expected);
        assert_eq!(ContextState::Finished.observe(polled), ContextState::Finished);
        assert_eq!(ContextState::Cancelled.observe(polled), ContextState::Cancelled);
    }
}

#[test]
fn frames_for_given_looks() {
    let mut s = serving("c");
    assert_eq!(
        s.context.update_frame(&Polled::Empty, number(3)),
        Ok(Message::partial("c".to_string(), number(3)))
    );
    assert_eq!(
        s.context.finish_frame(&Polled::Empty, RpcResult::NotHandled),
        Ok(Message::last("c".to_string(), RpcResult::NotHandled))
    );
    assert_eq!(s.context.current_state(), ContextState::Finished);
    assert_eq!(s.context.update_frame(&Polled::Empty, number(3)), Err(Error::RpcDone));

    let mut s = serving("d");
    assert_eq!(s.context.update_frame(&Polled::Item(Command::Cancel), number(3)), Err(Error::RpcDone));
    assert_eq!(s.context.current_state(), ContextState::Cancelled);

    let mut s = serving("e");
    assert_eq!(
        s.context.finish_frame(&Polled::Disconnected, RpcResult::NotHandled),
        Err(Error::RpcDone)
    );
    assert_eq!(s.context.current_state(), ContextState::Cancelled);

    let mut s = serving("f");
    s.context.note(&Polled::Empty);
    assert!(s.context.is_alive());
    s.context.note(&Polled::Disconnected);
    assert_eq!(s.context.current_state(), ContextState::Cancelled);
    // Nothing of this went through the channel.
    assert!(nothing_sent(&s.sent));
}

struct Calling {
    context: client::Context,
    sink: mpsc::Sender<Response>,
    call: Call,
    commands: mpsc::Receiver<rpc_caller::Command>,
}

fn calling(function: &str, args: Value) -> Calling {
    let (to_loop, commands) = mpsc::channel();
    let context = client::Context::new(to_loop, function, args).unwrap();
    match commands.try_recv() {
        Ok(rpc_caller::Command::OutgoingCall(id, sink, Message::RpcCall(call))) => {
            assert_eq!(&id, context.context());
            Calling { context, sink, call, commands }
        },
        _ => panic!("no call was made"),
    }
}

fn frame(c: &Calling, kind: ResponseKind) -> Response {
    Response { context: c.call.context.clone(), kind }
}

#[test]
fn a_call_is_made_through_the_loop() {
    let c = calling("buffer.open", number(5));
    assert_eq!(c.call.function, "buffer.open");
    assert_eq!(c.call.args, number(5));
    assert_eq!(&c.call.context, c.context.context());
    assert!(!c.context.done());
    assert!(matches!(c.commands.try_recv(), Err(mpsc::TryRecvError::Empty)));
}

#[test]
fn context_ids_are_fresh_and_uuid_shaped() {
    let a = calling("f", Value::Null);
    let b = calling("f", Value::Null);
    assert_ne!(a.context.context(), b.context.context());
    for id in [a.context.context(), b.context.context()] {
        assert_eq!(id.chars().count(), 36);
        let dashes: Vec<usize> =
            id.chars().enumerate().filter(|(_, c)| *c == '-').map(|(i, _)| i).collect();
        assert_eq!(dashes, vec![8, 13, 18, 23]);
        assert!(id.chars().all(|c| c == '-' || c.is_ascii_hexdigit()));
    }
}

#[test]
fn the_command_for_a_call() {
    let (sink, _values) = mpsc::channel();
    let command = client::Context::outgoing("id-1".to_string(), sink, "f", number(1));
    match command {
        rpc_caller::Command::OutgoingCall(id, _, message) => {
            assert_eq!(id, "id-1");
            assert_eq!(message, Message::call("f".to_string(), "id-1".to_string(), number(1)));
        },
        _ => panic!("not a call"),
    }
}

#[test]
fn no_loop_no_call() {
    let (to_loop, commands) = mpsc::channel();
    drop(commands);
    assert!(matches!(client::Context::new(to_loop, "f", Value::Null), Err(Error::Disconnected)));
}

#[test]
fn partial_results_then_the_final_one() {
    let mut c = calling("f", Value::Null);
    assert_eq!(c.context.try_recv(), Ok(None));
    c.sink.send(frame(&c, ResponseKind::Partial(number(1)))).unwrap();
    c.sink.send(frame(&c, ResponseKind::Partial(number(2)))).unwrap();
    c.sink.send(frame(&c, ResponseKind::Last(RpcResult::Success(number(3))))).unwrap();
    assert_eq!(c.context.try_recv(), Ok(Some(ResponseKind::Partial(number(1)))));
    assert!(!c.context.done());
    assert_eq!(c.context.recv(), Ok(ResponseKind::Partial(number(2))));
    assert_eq!(c.context.recv(), Ok(ResponseKind::Last(RpcResult::Success(number(3)))));
    assert!(c.context.done());
    assert_eq!(c.context.recv(), Err(Error::RpcDone));
    assert_eq!(c.context.try_recv(), Err(Error::RpcDone));
}

#[test]
fn a_failure_is_a_final_result() {
    let mut c = calling("f", Value::Null);
    let failed = RpcResult::Failure(RpcError { kind: ErrorKind::Io, details: Some(number(5)) });
    c.sink.send(frame(&c, ResponseKind::Last(failed.clone()))).unwrap();
    assert_eq!(c.context.try_recv(), Ok(Some(ResponseKind::Last(failed))));
    assert!(c.context.done());
}

#[test]
fn the_loss_of_the_loop_closes_the_stream() {
    let Calling { mut context, sink, call: _call, commands: _commands } = calling("f", Value::Null);
    drop(sink);
    assert_eq!(context.try_recv(), Err(Error::Disconnected));
    assert!(context.done());
    assert_eq!(context.try_recv(), Err(Error::RpcDone));

    let Calling { mut context, sink, call: _call, commands: _commands } = calling("f", Value::Null);
    drop(sink);
    assert_eq!(context.recv(), Err(Error::Disconnected));
    assert_eq!(context.recv(), Err(Error::RpcDone));
}

#[test]
fn cancel_tells_the_loop_and_closes_the_stream() {
    let mut c = calling("f", Value::Null);
    c.sink.send(frame(&c, ResponseKind::Partial(number(1)))).unwrap();
    assert_eq!(c.context.cancel(), Ok(()));
    assert!(c.context.done());
    match c.commands.try_recv() {
        Ok(rpc_caller::Command::CancelOutgoingRpc(id)) => assert_eq!(&id, c.context.context()),
        _ => panic!("the loop was not told"),
    }
    // What had arrived is not handed out any more.
    assert_eq!(c.context.try_recv(), Err(Error::RpcDone));
    // Cancelling again does nothing.
    assert_eq!(c.context.cancel(), Ok(()));
    assert!(matches!(c.commands.try_recv(), Err(mpsc::TryRecvError::Empty)));
}

#[test]
fn cancel_after_the_final_result_does_nothing() {
    let mut c = calling("f", Value::Null);
    c.sink.send(frame(&c, ResponseKind::Last(RpcResult::NotHandled))).unwrap();
    assert_eq!(c.context.recv(), Ok(ResponseKind::Last(RpcResult::NotHandled)));
    assert_eq!(c.context.cancel(), Ok(()));
    assert!(matches!(c.commands.try_recv(), Err(mpsc::TryRecvError::Empty)));
    assert!(c.context.cancelling().is_none());
}

#[test]
fn cancel_without_a_loop() {
    let Calling { mut context, sink: _sink, call: _call, commands } = calling("f", Value::Null);
    drop(commands);
    assert_eq!(context.cancel(), Err(Error::Disconnected));
    assert!(context.done());
}

#[test]
fn accept_for_given_looks() {
    let mut c = calling("f", Value::Null);
    assert_eq!(c.context.accept(Polled::Empty), Ok(None));
    assert!(!c.context.done());
    let partial = frame(&c, ResponseKind::Partial(number(1)));
    assert_eq!(c.context.accept(Polled::Item(partial)), Ok(Some(ResponseKind::Partial(number(1)))));
    assert!(!c.context.done());
    let last = frame(&c, ResponseKind::Last(RpcResult::NotHandled));
    assert_eq!(
        c.context.accept(Polled::Item(last.clone())),
        Ok(Some(ResponseKind::Last(RpcResult::NotHandled)))
    );
    assert!(c.context.done());
    assert_eq!(c.context.accept(Polled::Item(last)), Err(Error::RpcDone));
    assert_eq!(c.context.accept(Polled::Empty), Err(Error::RpcDone));

    let mut d = calling("f", Value::Null);
    assert_eq!(d.context.accept(Polled::Disconnected), Err(Error::Disconnected));
    assert!(d.context.done());
}

#[test]
fn a_thin_client_and_its_clone_call_through_the_same_loop() {
    let (to_loop, commands) = mpsc::channel();
    let mut thin = ThinClient::new(to_loop);
    let mut twin = thin.clone();
    let first = thin.call("f", number(1)).unwrap();
    let second = twin.call("g", number(2)).unwrap();
    assert_ne!(first.context(), second.context());
    let mut functions = Vec::new();
    while let Ok(rpc_caller::Command::OutgoingCall(_, _, Message::RpcCall(call))) = commands.try_recv() {
        functions.push(call.function);
    }
    assert_eq!(functions, vec!["f".to_string(), "g".to_string()]);
    drop(commands);
    assert!(matches!(twin.call("g", number(2)), Err(Error::Disconnected)));
}

#[test]
fn a_handler_calls_through_the_loop_of_its_context() {
    let mut s = serving("outer");
    let nested = s.context.call("inner", number(4)).unwrap();
    match s.sent.try_recv() {
        Ok(rpc_caller::Command::OutgoingCall(id, _, Message::RpcCall(call))) => {
            assert_eq!(&id, nested.context());
            assert_eq!(call.function, "inner");
            assert_eq!(call.args, number(4));
            assert_ne!(call.context, "outer");
        },
        _ => panic!("no call was made"),
    }
    s.signals.send(Command::Cancel).unwrap();
    assert!(matches!(s.context.call("inner", number(4)), Err(Error::RpcDone)));
    assert_eq!(s.context.current_state(), ContextState::Cancelled);
}
