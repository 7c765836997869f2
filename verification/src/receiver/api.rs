//! What the audio side learns when it asks a receiver for data.

use vstd::prelude::*;

verus! {

/// The state of the data asked for.
#[derive(Debug, Clone, Copy, PartialEq, Eq, Structural)]
pub enum DataState {
    Ready,
    NotReady,
    ReceiverNotReady,
    Missed,
    InvalidChannelNumber,
    SyncError,
}

} // verus!
