//! Errors of the game-logic layer.

use vstd::prelude::*;

verus! {

/// A handler's failure: either a coded feedback to push back to the client,
/// or plain text.
#[derive(Debug, PartialEq, Eq)]
pub enum Error {
    Feedback((u32, String)),
    Message(String),
}

pub type Result<T> = core::result::Result<T, Error>;

} // verus!
