//! The control flow of a loop that handles one command after the other.

use crate::error::Error;
use vstd::prelude::*;

verus! {

/// What a loop does after it has handled a command.
#[derive(Clone, Copy, Debug, PartialEq, Eq, Structural)]
pub enum Command {
    /// Leave the loop.
    Quit,
    /// Take the next command.
    Continue,
}

/// Whether a loop takes another command after a handler has returned
/// `handled`: it does unless the handler asked to quit or failed.
pub fn goes_on(handled: &Result<Command, Error>) -> (res: bool)
    ensures
        res == (*handled == Ok::<Command, Error>(Command::Continue)),
{
    match handled {
        Ok(Command::Continue) => true,
        _ => false,
    }
}

} // verus!
