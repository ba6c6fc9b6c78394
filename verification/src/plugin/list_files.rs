//! Listing the files below a directory: the request, the stream of updates
//! that answers it, and the rule by which the files that were found are
//! gathered into updates.

use crate::json::{json_member, json_text, member, text};
use serde_json::Value;
use vstd::prelude::*;

verus! {

/// A partial result: files that were found since the last update.
#[derive(Debug, PartialEq, Eq)]
pub struct ListFilesUpdate {
    pub files: Vec<String>,
}

/// The arguments of the call: the directory to walk.
#[derive(Debug, PartialEq, Eq)]
pub struct ListFilesRequest {
    pub directory: String,
}

/// The final result. It says nothing: the files came with the updates.
#[derive(Debug, PartialEq, Eq)]
pub struct ListFilesResponse;

/// The directory that `args` names: the member `directory`, when it is a
/// string.
pub open spec fn requested_directory(args: Value) -> Option<Seq<char>> {
    match json_member(args, "directory"@) {
        Some(d) => json_text(d),
        None => None,
    }
}

impl ListFilesRequest {
    /// Reads the request out of the arguments of a call; `None` when they
    /// name no directory.
    pub fn decode(args: &Value) -> (res: Option<ListFilesRequest>)
        ensures
            res is Some <==> requested_directory(*args) is Some,
            res matches Some(request) ==> Some(request.directory@) == requested_directory(*args),
    {
        match member(args, "directory") {
            Some(d) => match text(d) {
                Some(directory) => Some(ListFilesRequest { directory }),
                None => None,
            },
            None => None,
        }
    }
}

/// The longest time, in milliseconds, for which files are gathered before
/// they are sent.
pub const UPDATE_INTERVAL_MS: u64 = 50;

/// Whether the files that were gathered are due to be sent at the time `now`
/// when the last update went out at the time `last`: they are once more than
/// the update interval has passed.
pub open spec fn is_due(last: u64, now: u64) -> bool {
    now - last > UPDATE_INTERVAL_MS
}

/// The files that were found and have not been sent.
pub struct Batch {
    files: Vec<String>,
    last: u64,
}

impl Batch {
    /// The files that wait to be sent, in the order in which they were
    /// found.
    pub closed spec fn waiting(&self) -> Seq<String> {
        self.files@
    }

    /// The time of the last update, in milliseconds.
    pub closed spec fn last_update(&self) -> u64 {
        self.last
    }

    /// An empty batch that counts its time from `now`.
    pub fn new(now: u64) -> (res: Batch)
        ensures
            res.waiting() == Seq::<String>::empty(),
            res.last_update() == now,
    {
        Batch { files: Vec::new(), last: now }
    }

    /// Takes note of a file that was found at the time `now`. When an
    /// update is due, it holds every file that waited and this one, and the
    /// batch is empty and counts its time from `now`; otherwise the file
    /// waits with the others.
    pub fn add(&mut self, file: String, now: u64) -> (res: Option<ListFilesUpdate>)
        ensures
            is_due(old(self).last_update(), now) ==> (res matches Some(update) && update.files@
                == old(self).waiting().push(file)) && final(self).waiting() == Seq::<
                String,
            >::empty() && final(self).last_update() == now,
            !is_due(old(self).last_update(), now) ==> res is None && final(self).waiting() == old(self).waiting().push(file) && final(self).last_update() == old(self).last_update(),
    {
        self.files.push(file);
        if now > self.last && now - self.last > UPDATE_INTERVAL_MS {
            self.last = now;
            Some(self.take())
        } else {
            None
        }
    }

    /// Takes every file that waits, as the last update of the walk.
    pub fn take(&mut self) -> (res: ListFilesUpdate)
        ensures
            res.files@ == old(self).waiting(),
            final(self).waiting() == Seq::<String>::empty(),
            final(self).last_update() == old(self).last_update(),
    {
        let mut files: Vec<String> = Vec::new();
        std::mem::swap(&mut files, &mut self.files);
        ListFilesUpdate { files }
    }
}

} // verus!
