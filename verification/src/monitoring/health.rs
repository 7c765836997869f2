//! The health kept of each sender, receiver and playout. Nothing is assessed yet: each
//! record is empty.

use vstd::prelude::*;

verus! {

/// The health of a sender.
#[derive(Debug, Clone, Copy, PartialEq, Eq, Structural)]
pub struct SenderHealth {}

/// The health of a receiver.
#[derive(Debug, Clone, Copy, PartialEq, Eq, Structural)]
pub struct ReceiverHealth {}

/// The health of a playout.
#[derive(Debug, Clone, Copy, PartialEq, Eq, Structural)]
pub struct PlayoutHealth {}

impl SenderHealth {
    /// The health record of the sender `_src`.
    pub fn new(_src: String) -> (r: Self)
        ensures
            r == (SenderHealth {}),
    {
        SenderHealth {}
    }
}

impl ReceiverHealth {
    /// The health record of the receiver `_src`.
    pub fn new(_src: String) -> (r: Self)
        ensures
            r == (ReceiverHealth {}),
    {
        ReceiverHealth {}
    }
}

impl PlayoutHealth {
    /// The health record of the playout `_src`.
    pub fn new(_src: String) -> (r: Self)
        ensures
            r == (PlayoutHealth {}),
    {
        PlayoutHealth {}
    }
}

} // verus!
