//! What the dispatcher asks of the loop that owns the sockets, the ids that
//! the loop gives to the peers, and how much may wait to be written to one.

use crate::ipc::Message;
use crate::server::registry::PeerId;
use vstd::prelude::*;

verus! {

/// A command to the loop that owns the sockets.
#[derive(Debug, PartialEq, Eq)]
pub enum Command {
    /// Stop the loop.
    Quit,
    /// Write the message to the peer.
    SendToPeer(PeerId, Message),
    /// Close the connection to the peer.
    DisconnectPeer(PeerId),
}

/// The most bytes that may wait to be written to one peer. A peer that lets
/// more pile up is disconnected.
pub const WRITE_QUEUE_LIMIT: usize = 0x400_0000;

/// Whether a write queue that holds `queued` bytes takes `more` bytes: it
/// does as long as it stays within the limit.
pub fn queue_takes(queued: usize, more: usize) -> (res: bool)
    ensures
        res == (queued + more <= WRITE_QUEUE_LIMIT),
{
    queued <= WRITE_QUEUE_LIMIT && more <= WRITE_QUEUE_LIMIT - queued
}

/// The source of the ids of the peers that connect. No id is given twice.
pub struct PeerIds {
    next: PeerId,
}

impl PeerIds {
    /// The id that is given next.
    pub closed spec fn next_id(&self) -> PeerId {
        self.next
    }

    /// A source that starts with the id 1.
    pub fn new() -> (res: PeerIds)
        ensures
            res.next_id() == 1,
    {
        PeerIds { next: 1 }
    }

    /// Gives the next id. Every id that is given later is greater. When the
    /// ids have run out, none is given.
    pub fn allocate(&mut self) -> (res: Option<PeerId>)
        ensures
            old(self).next_id() < u64::MAX ==> res == Some(old(self).next_id()) && final(self).next_id() == old(self).next_id() + 1,
            old(self).next_id() == u64::MAX ==> res is None && final(self).next_id() == old(self).next_id(),
    {
        if self.next == u64::MAX {
            None
        } else {
            let id = self.next;
            self.next = self.next + 1;
            Some(id)
        }
    }
}

} // verus!
