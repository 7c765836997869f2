//! What the senders, receivers and playouts report, and the statistics kept of it.

pub mod health;
pub mod observability;
pub mod receiver_stats;
pub mod sender_stats;
pub mod skipped;
pub mod stats;

use crate::address::IpAddress;
use crate::formats::{AudioFormat, Frames};
use vstd::prelude::*;

verus! {

/// A change of the virtual sound card's state.
#[derive(Debug, Clone, Copy, PartialEq, Eq, Structural)]
pub enum VscState {
    VscCreated,
}

/// What a sender reports of its stream.
#[derive(Debug, Clone, Copy, PartialEq, Eq, Structural)]
pub enum TxStats {
    BufferUnderrun,
    PacketTime(u64),
    PacketSize(usize),
}

/// What a playout reports.
#[derive(Debug, Clone, Copy, PartialEq, Eq, Structural)]
pub enum PoStats {
    BufferUnderrun,
}

/// What a receiver reports of its stream. `Started` carries the stream's audio format.
#[derive(Debug, Clone)]
pub enum RxStats {
    Started(AudioFormat),
    BufferUnderrun,
    InconsistentTimestamp,
    PacketReceived {
        seq: u16,
        payload_len: usize,
        ingress_time: Frames,
        media_time_at_reception: Frames,
    },
    OutOfOrderPacket {
        expected_timestamp: Frames,
        expected_sequence_number: u16,
        actual_sequence_number: u16,
    },
    MalformedRtpPacket(String),
    TimeTravellingPacket { sequence_number: u16, ingress_time: Frames, media_time_at_reception: Frames },
    Playout { ingress_time: Frames, latest_received_frame: Frames },
    Stopped,
    MediaClockOffsetChanged(Frames, u32),
    PacketFromWrongSender(IpAddress),
    Muted(bool),
}

/// A change in a receiver's statistics, published for the receiver `receiver`.
/// Durations in milliseconds are derived from the frame counts where they are shown.
#[derive(Debug, Clone, PartialEq, Eq)]
pub enum ReceiverStatsReport {
    MediaClockOffsetChanged { receiver: String, offset: u64 },
    NetworkDelay { receiver: String, delay_frames: i64 },
    MeasuredLinkOffset { receiver: String, link_offset_frames: Frames },
    LostPackets { receiver: String, lost_packets: usize },
    LatePackets { receiver: String, late_packets: usize },
    Muted { receiver: String, muted: bool },
}

/// A sender's life cycle.
#[derive(Debug, Clone, PartialEq, Eq)]
pub enum SenderState {
    Created { id: String, label: String },
    Renamed { id: String, label: String },
    Destroyed { id: String },
}

/// A receiver's life cycle.
#[derive(Debug, Clone, PartialEq, Eq)]
pub enum ReceiverState {
    Created { id: String, label: String },
    Renamed { id: String, label: String },
    Destroyed { id: String },
}

/// A change of state of the sound card, a sender or a receiver.
#[derive(Debug, Clone)]
pub enum StateEvent {
    Vsc(VscState),
    Sender(SenderState),
    Receiver(ReceiverState),
}

/// A change in the statistics of a receiver. The sound card and the senders report no
/// statistics changes, so they have no variant here.
#[derive(Debug, Clone)]
pub enum StatsReport {
    Receiver(ReceiverStatsReport),
}

/// What the monitoring publishes: state changes and statistics. Nothing reports on health
/// so far, so there is no variant for it.
#[derive(Debug, Clone)]
pub enum Report {
    State(StateEvent),
    Stats(StatsReport),
}

} // verus!
