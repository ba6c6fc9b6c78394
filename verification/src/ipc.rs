//! The envelope that travels between a peer and the broker, and the frame
//! in which its encoding travels: four bytes that give the length of the
//! payload, least significant byte first, and then the payload.

use crate::rpc::{Call, Cancel, Response, ResponseKind, RpcResult};
use serde_json::Value;
use vstd::prelude::*;

verus! {

/// One message on the wire.
#[derive(Debug, PartialEq, Eq)]
pub enum Message {
    RpcCall(Call),
    RpcCancel(Cancel),
    RpcResponse(Response),
}

impl Clone for Message {
    fn clone(&self) -> (res: Message)
        ensures
            res == *self,
    {
        match self {
            Message::RpcCall(call) => Message::RpcCall(call.clone()),
            Message::RpcCancel(cancel) => Message::RpcCancel(cancel.clone()),
            Message::RpcResponse(response) => Message::RpcResponse(response.clone()),
        }
    }
}

impl Message {
    /// The call of `function` with `args` under the context id `context`.
    pub fn call(function: String, context: String, args: Value) -> (res: Message)
        ensures
            res == Message::RpcCall(Call { function, context, args }),
    {
        Message::RpcCall(Call { function, context, args })
    }

    /// The cancellation of the call with the context id `context`.
    pub fn cancel(context: String) -> (res: Message)
        ensures
            res == Message::RpcCancel(Cancel { context }),
    {
        Message::RpcCancel(Cancel { context })
    }

    /// The partial result `value` of the call with the context id `context`.
    pub fn partial(context: String, value: Value) -> (res: Message)
        ensures
            res == Message::RpcResponse(Response { context, kind: ResponseKind::Partial(value) }),
    {
        Message::RpcResponse(Response { context, kind: ResponseKind::Partial(value) })
    }

    /// The final result `result` of the call with the context id `context`.
    pub fn last(context: String, result: RpcResult) -> (res: Message)
        ensures
            res == Message::RpcResponse(Response { context, kind: ResponseKind::Last(result) }),
    {
        Message::RpcResponse(Response { context, kind: ResponseKind::Last(result) })
    }
}

/// The number of bytes that give the length of a payload.
pub const PREFIX_LEN: usize = 4;

/// The longest payload that a frame can hold.
pub const MAX_PAYLOAD: usize = 0xffff_ffff;

/// The four bytes that give the length `len`, least significant byte first.
pub open spec fn length_prefix(len: nat) -> Seq<u8> {
    seq![
        (len % 256) as u8,
        (len / 256 % 256) as u8,
        (len / 65536 % 256) as u8,
        (len / 16777216 % 256) as u8,
    ]
}

/// The length that the first four bytes of `bytes` give.
pub open spec fn prefixed_length(bytes: Seq<u8>) -> nat
    recommends
        bytes.len() >= 4,
{
    (bytes[0] as nat) + (bytes[1] as nat) * 256 + (bytes[2] as nat) * 65536 + (bytes[3] as nat)
        * 16777216
}

/// The frame that carries `payload`.
pub open spec fn framed(payload: Seq<u8>) -> Seq<u8> {
    length_prefix(payload.len()) + payload
}

/// Whether `buffer` starts with a whole frame.
pub open spec fn has_frame(buffer: Seq<u8>) -> bool {
    buffer.len() >= 4 && buffer.len() >= 4 + prefixed_length(buffer)
}

/// The payload of the frame that `buffer` starts with.
pub open spec fn first_payload(buffer: Seq<u8>) -> Seq<u8>
    recommends
        has_frame(buffer),
{
    buffer.subrange(4, 4 + prefixed_length(buffer) as int)
}

/// What stands in `buffer` behind the frame that it starts with.
pub open spec fn behind_first(buffer: Seq<u8>) -> Seq<u8>
    recommends
        has_frame(buffer),
{
    buffer.subrange(4 + prefixed_length(buffer) as int, buffer.len() as int)
}

/// A frame is read back as it was written: a buffer that holds the frame of
/// a payload and then anything else starts with a whole frame, whose payload
/// is the one that was framed, and what follows is what was behind it.
pub proof fn lemma_frame_round_trip(payload: Seq<u8>, more: Seq<u8>)
    requires
        payload.len() <= MAX_PAYLOAD,
    ensures
        has_frame(framed(payload) + more),
        first_payload(framed(payload) + more) == payload,
        behind_first(framed(payload) + more) == more,
{
    let len = payload.len();
    let buffer = framed(payload) + more;
    assert(buffer[0] == (len % 256) as u8);
    assert(buffer[1] == (len / 256 % 256) as u8);
    assert(buffer[2] == (len / 65536 % 256) as u8);
    assert(buffer[3] == (len / 16777216 % 256) as u8);
    assert(prefixed_length(buffer) == len) by {
        assert(len == (len % 256) + (len / 256 % 256) * 256 + (len / 65536 % 256) * 65536 + (len
            / 16777216 % 256) * 16777216) by (nonlinear_arith)
            requires
                len <= 0xffff_ffff,
        ;
    }
    assert(first_payload(buffer) =~= payload);
    assert(behind_first(buffer) =~= more);
}

/// Puts `payload` into a frame; `None` when it is too long for one.
pub fn frame(payload: &Vec<u8>) -> (res: Option<Vec<u8>>)
    ensures
        payload@.len() <= MAX_PAYLOAD ==> (res matches Some(bytes) && bytes@ == framed(payload@)),
        payload@.len() > MAX_PAYLOAD ==> res is None,
{
    let len = payload.len();
    if len > MAX_PAYLOAD {
        return None;
    }
    let mut bytes: Vec<u8> = Vec::new();
    bytes.push((len % 256) as u8);
    bytes.push((len / 256 % 256) as u8);
    bytes.push((len / 65536 % 256) as u8);
    bytes.push((len / 16777216 % 256) as u8);
    let mut i: usize = 0;
    while i < len
        invariant
            i <= len,
            len == payload@.len(),
            bytes@ == length_prefix(len as nat) + payload@.take(i as int),
        decreases len - i,
    {
        bytes.push(payload[i]);
        i += 1;
        assert(payload@.take(i as int) =~= payload@.take(i - 1).push(payload@[i - 1]));
    }
    assert(payload@.take(len as int) =~= payload@);
    Some(bytes)
}

/// Takes the first frame off `buffer`: its payload, when the buffer starts
/// with a whole frame, and then the buffer holds what stood behind the
/// frame; `None` when more bytes have to arrive first, and then the buffer
/// is as it was.
pub fn unframe(buffer: &mut Vec<u8>) -> (res: Option<Vec<u8>>)
    ensures
        has_frame(old(buffer)@) ==> (res matches Some(payload) && payload@ == first_payload(
            old(buffer)@,
        )) && final(buffer)@ == behind_first(old(buffer)@),
        !has_frame(old(buffer)@) ==> res is None && final(buffer)@ == old(buffer)@,
{
    if buffer.len() < 4 {
        return None;
    }
    let len: u64 = (buffer[0] as u64) + (buffer[1] as u64) * 256 + (buffer[2] as u64) * 65536 + (
    buffer[3] as u64) * 16777216;
    let have: u64 = (buffer.len() - 4) as u64;
    if have < len {
        return None;
    }
    let end: usize = 4 + len as usize;
    let mut payload: Vec<u8> = Vec::new();
    let mut i: usize = 4;
    while i < end
        invariant
            4 <= i <= end <= buffer@.len(),
            payload@ == buffer@.subrange(4, i as int),
        decreases end - i,
    {
        payload.push(buffer[i]);
        i += 1;
        assert(buffer@.subrange(4, i as int) =~= buffer@.subrange(4, i - 1).push(buffer@[i - 1]));
    }
    let mut rest: Vec<u8> = Vec::new();
    let total = buffer.len();
    while i < total
        invariant
            end <= i <= total,
            total == buffer@.len(),
            rest@ == buffer@.subrange(end as int, i as int),
        decreases total - i,
    {
        rest.push(buffer[i]);
        i += 1;
        assert(buffer@.subrange(end as int, i as int) =~= buffer@.subrange(end as int, i - 1).push(
            buffer@[i - 1],
        ));
    }
    *buffer = rest;
    Some(payload)
}

} // verus!
