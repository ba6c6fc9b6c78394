//! In-process channels between the threads of a peer.
//!
//! What travels through a channel depends on what the other threads do, so
//! nothing is claimed of what a look into a channel finds or of whether an
//! item arrives. The code that uses a channel is verified for every answer.

use crate::error::Error;
use std::sync::mpsc::{Receiver, Sender, TryRecvError};
use vstd::prelude::*;

verus! {

/// `std::sync::mpsc::Sender`: the sending end of a channel.
#[verifier::external_type_specification]
#[verifier::external_body]
#[verifier::reject_recursive_types(T)]
pub struct ExSender<T>(std::sync::mpsc::Sender<T>);

/// `std::sync::mpsc::Receiver`: the receiving end of a channel.
#[verifier::external_type_specification]
#[verifier::external_body]
#[verifier::reject_recursive_types(T)]
pub struct ExReceiver<T>(std::sync::mpsc::Receiver<T>);

/// What a look into a channel found.
#[derive(Debug, PartialEq, Eq)]
pub enum Polled<T> {
    /// An item was waiting.
    Item(T),
    /// Nothing is waiting, but a sender is still alive.
    Empty,
    /// Nothing is waiting and every sender is gone.
    Disconnected,
}

/// `std::sync::mpsc::channel`: a new channel. Nothing is claimed of it.
#[verifier::external_body]
pub(crate) fn channel<T>() -> (res: (Sender<T>, Receiver<T>)) {
    std::sync::mpsc::channel()
}

/// `Sender::send`: whether the item was handed to the channel; it is not when
/// the receiver is gone. Nothing is claimed of the answer.
#[verifier::external_body]
pub(crate) fn send<T>(sender: &Sender<T>, item: T) -> (delivered: bool) {
    sender.send(item).is_ok()
}

/// `Receiver::try_recv`: looks into the channel without waiting. Nothing is
/// claimed of the answer.
#[verifier::external_body]
pub(crate) fn poll<T>(receiver: &Receiver<T>) -> (res: Polled<T>) {
    match receiver.try_recv() {
        Ok(item) => Polled::Item(item),
        Err(TryRecvError::Empty) => Polled::Empty,
        Err(TryRecvError::Disconnected) => Polled::Disconnected,
    }
}

/// `Receiver::recv`: waits for the next item; `None` once every sender is
/// gone. Nothing is claimed of the answer.
#[verifier::external_body]
pub(crate) fn receive<T>(receiver: &Receiver<T>) -> (res: Option<T>) {
    receiver.recv().ok()
}

/// What a wait on a channel amounts to: the item that arrived, or
/// `Disconnected` when the wait found every sender gone.
pub fn arrival<T>(received: Option<T>) -> (res: Result<T, Error>)
    ensures
        res == (match received {
            Some(item) => Ok::<T, Error>(item),
            None => Err::<T, Error>(Error::Disconnected),
        }),
{
    match received {
        Some(item) => Ok(item),
        None => Err(Error::Disconnected),
    }
}

/// `Clone::clone` of `Sender`: another handle on the same channel. The
/// contracts do not tell the handles of one channel apart.
pub assume_specification<T>[ <std::sync::mpsc::Sender<T> as Clone>::clone ](
    sender: &std::sync::mpsc::Sender<T>,
) -> (res: std::sync::mpsc::Sender<T>)
    ensures
        res == *sender,
;

} // verus!
