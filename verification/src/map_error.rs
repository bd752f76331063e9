//! The failure of a fetch, as the transport reports it.

use vstd::prelude::*;

verus! {

/// The class of a failure.
#[derive(Debug, Clone, Copy, PartialEq, Eq, Structural)]
pub enum MapErrorTag {
    /// The transport could not deliver the bytes.
    Network,
}

/// A failure: its class, and a message for a log.
#[derive(Debug, Clone, PartialEq)]
pub struct MapError {
    pub tag: MapErrorTag,
    pub msg: String,
}

impl MapError {
    /// A failure of class `tag` with the message `msg`.
    pub fn new(tag: MapErrorTag, msg: String) -> (e: MapError)
        ensures
            e.tag == tag,
            e.msg == msg,
    {
        MapError { tag, msg }
    }

    /// The message of the failure.
    pub fn message(&self) -> (text: String)
        ensures
            text@ == self.msg@,
    {
        self.msg.clone()
    }
}

} // verus!
