//! The requests that are the library's own, the frames on the wire, and
//! small things.

use serde_json::Value;
use swiboe::error::Error;
use swiboe::ipc::{self, Message};
use swiboe::json;
use swiboe::plugin::list_files::{Batch, ListFilesRequest, ListFilesResponse, ListFilesUpdate};
use swiboe::rpc::{self, Call, Cancel, ErrorKind, Response, ResponseKind, RpcResult};
use swiboe::server::plugin_core::NewRpcRequest;

fn parse(s: &str) -> Value {
    serde_json::from_str(s).unwrap()
}

#[test]
fn a_registration_request_is_read_back_as_written() {
    for (priority, name) in [(0u16, ""), (1, "f"), (100, "buffer.open"), (65535, "grüße, welt")] {
        let request = NewRpcRequest { priority, name: name.to_string() };
        let args = request.encode();
        assert_eq!(NewRpcRequest::decode(&args), Some(NewRpcRequest { priority, name: name.to_string() }));
    }
}

#[test]
fn a_registration_request_on_the_wire() {
    let args = NewRpcRequest { priority: 258, name: "x.y".to_string() }.encode();
    assert_eq!(args, parse(r#"{"priority":258,"name":"x.y"}"#));
    assert_eq!(
        NewRpcRequest::decode(&parse(r#"{"name":"x.y","priority":258}"#)),
        Some(NewRpcRequest { priority: 258, name: "x.y".to_string() })
    );
}

#[test]
fn what_is_no_registration_request() {
    for args in [
        "null",
        "7",
        r#""f""#,
        "[]",
        "{}",
        r#"{"priority":7}"#,
        r#"{"name":"f"}"#,
        r#"{"priority":65536,"name":"f"}"#,
        r#"{"priority":-1,"name":"f"}"#,
        r#"{"priority":7.0,"name":"f"}"#,
        r#"{"priority":7,"name":["f"]}"#,
        r#"[{"priority":7,"name":"f"}]"#,
    ] {
        assert_eq!(NewRpcRequest::decode(&parse(args)), None, "{}", args);
    }
}

#[test]
fn the_empty_object() {
    assert_eq!(json::empty_object(), parse("{}"));
    assert_ne!(json::empty_object(), Value::Null);
}

#[test]
fn a_list_files_request() {
    assert_eq!(
        ListFilesRequest::decode(&parse(r#"{"directory":"/tmp/some dir"}"#)),
        Some(ListFilesRequest { directory: "/tmp/some dir".to_string() })
    );
    assert_eq!(
        ListFilesRequest::decode(&parse(r#"{"directory":"","depth":3}"#)),
        Some(ListFilesRequest { directory: String::new() })
    );
    for args in ["null", "{}", r#"{"directory":7}"#, r#"{"Directory":"/"}"#, r#"["/"]"#, r#""/""#] {
        assert_eq!(ListFilesRequest::decode(&parse(args)), None, "{}", args);
    }
    assert_eq!(ListFilesResponse, ListFilesResponse);
}

#[test]
fn files_are_gathered_until_an_update_is_due() {
    let mut batch = Batch::new(1000);
    assert_eq!(batch.add("a".to_string(), 1000), None);
    assert_eq!(batch.add("b".to_string(), 1049), None);
    // Exactly the interval is not yet more than the interval.
    assert_eq!(batch.add("c".to_string(), 1050), None);
    assert_eq!(
        batch.add("d".to_string(), 1051),
        Some(ListFilesUpdate {
            files: vec!["a".to_string(), "b".to_string(), "c".to_string(), "d".to_string()]
        })
    );
    // The time counts from the update.
    assert_eq!(batch.add("e".to_string(), 1101), None);
    assert_eq!(
        batch.add("f".to_string(), 1102),
        Some(ListFilesUpdate { files: vec!["e".to_string(), "f".to_string()] })
    );
    assert_eq!(batch.take(), ListFilesUpdate { files: vec![] });
}

#[test]
fn what_is_left_goes_with_the_last_update() {
    let mut batch = Batch::new(0);
    assert_eq!(batch.take(), ListFilesUpdate { files: vec![] });
    assert_eq!(batch.add("a".to_string(), 10), None);
    assert_eq!(batch.add("b".to_string(), 20), None);
    assert_eq!(batch.take(), ListFilesUpdate { files: vec!["a".to_string(), "b".to_string()] });
    assert_eq!(batch.take(), ListFilesUpdate { files: vec![] });
    // Taking does not restart the time.
    assert_eq!(
        batch.add("c".to_string(), 51),
        Some(ListFilesUpdate { files: vec!["c".to_string()] })
    );
}

#[test]
fn a_clock_that_runs_backwards_makes_nothing_due() {
    let mut batch = Batch::new(u64::MAX);
    assert_eq!(batch.add("a".to_string(), 0), None);
    assert_eq!(batch.add("b".to_string(), u64::MAX), None);
    let mut batch = Batch::new(0);
    assert_eq!(
        batch.add("a".to_string(), u64::MAX),
        Some(ListFilesUpdate { files: vec!["a".to_string()] })
    );
}

#[test]
fn frames_carry_their_length_first() {
    assert_eq!(ipc::frame(&vec![]), Some(vec![0, 0, 0, 0]));
    assert_eq!(ipc::frame(&vec![7]), Some(vec![1, 0, 0, 0, 7]));
    assert_eq!(ipc::frame(&b"{}".to_vec()), Some(vec![2, 0, 0, 0, b'{', b'}']));
    let long = vec![9u8; 258];
    let framed = ipc::frame(&long).unwrap();
    assert_eq!(&framed[..4], &[2, 1, 0, 0]);
    assert_eq!(&framed[4..], &long[..]);
    let longer = vec![1u8; 70000];
    let framed = ipc::frame(&longer).unwrap();
    assert_eq!(&framed[..4], &[0x70, 0x11, 0x01, 0x00]);
    assert_eq!(framed.len(), 70004);
}

#[test]
fn frames_are_taken_off_a_buffer_one_by_one() {
    let mut buffer = Vec::new();
    assert_eq!(ipc::unframe(&mut buffer), None);
    buffer.extend(ipc::frame(&b"first".to_vec()).unwrap());
    buffer.extend(ipc::frame(&vec![]).unwrap());
    buffer.extend(ipc::frame(&b"third".to_vec()).unwrap());
    buffer.extend([3, 0, 0, 0, b'x']);
    assert_eq!(ipc::unframe(&mut buffer), Some(b"first".to_vec()));
    assert_eq!(ipc::unframe(&mut buffer), Some(vec![]));
    assert_eq!(ipc::unframe(&mut buffer), Some(b"third".to_vec()));
    // The fourth frame has not arrived in full.
    assert_eq!(ipc::unframe(&mut buffer), None);
    assert_eq!(buffer, vec![3, 0, 0, 0, b'x']);
    buffer.extend(b"yz");
    assert_eq!(ipc::unframe(&mut buffer), Some(b"xyz".to_vec()));
    assert!(buffer.is_empty());
}

#[test]
fn a_buffer_without_a_whole_prefix_holds_no_frame() {
    for len in 0..4usize {
        let mut buffer = vec![0u8; len];
        assert_eq!(ipc::unframe(&mut buffer), None);
        assert_eq!(buffer.len(), len);
    }
    let mut buffer = vec![0xff, 0xff, 0xff, 0xff, 1, 2, 3];
    assert_eq!(ipc::unframe(&mut buffer), None);
    assert_eq!(buffer, vec![0xff, 0xff, 0xff, 0xff, 1, 2, 3]);
}

#[test]
fn large_frames_round_trip() {
    let payload: Vec<u8> = (0..100_000u32).map(|i| (i % 251) as u8).collect();
    let mut buffer = ipc::frame(&payload).unwrap();
    buffer.push(42);
    assert_eq!(ipc::unframe(&mut buffer), Some(payload));
    assert_eq!(buffer, vec![42]);
}

#[test]
fn messages_are_built_from_their_parts() {
    assert_eq!(
        Message::call("f".to_string(), "c".to_string(), parse("[1]")),
        Message::RpcCall(Call { function: "f".to_string(), context: "c".to_string(), args: parse("[1]") })
    );
    assert_eq!(Message::cancel("c".to_string()), Message::RpcCancel(Cancel { context: "c".to_string() }));
    assert_eq!(
        Message::partial("c".to_string(), parse("1")),
        Message::RpcResponse(Response { context: "c".to_string(), kind: ResponseKind::Partial(parse("1")) })
    );
    assert_eq!(
        Message::last("c".to_string(), RpcResult::NotHandled),
        Message::RpcResponse(Response {
            context: "c".to_string(),
            kind: ResponseKind::Last(RpcResult::NotHandled)
        })
    );
}

#[test]
fn results_and_errors() {
    assert!(RpcResult::Success(Value::Null).is_ok());
    assert!(!RpcResult::NotHandled.is_ok());
    assert!(!RpcResult::Failure(rpc::Error::new(ErrorKind::Io)).is_ok());
    assert_eq!(rpc::Error::new(ErrorKind::InvalidArgs), rpc::Error { kind: ErrorKind::InvalidArgs, details: None });
    let call = Call { function: "f".to_string(), context: "c".to_string(), args: parse(r#"{"a":[1,2]}"#) };
    assert_eq!(call.clone(), call);
}

#[test]
fn every_error_has_a_description() {
    assert_eq!(Error::Disconnected.description(), "channel or connection is closed");
    assert_eq!(Error::RpcDone.description(), "the call is finished or cancelled");
    assert_eq!(Error::NotHandled.description(), "no handler for the function");
    assert_eq!(Error::Rpc(ErrorKind::Io).description(), "the call failed");
}
