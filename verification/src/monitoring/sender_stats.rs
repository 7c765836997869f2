//! The statistics a sender keeps of its stream: the packet time, the packet size and the
//! media time at which the next packet is expected.

use crate::formats::Frames;
use vstd::prelude::*;

verus! {

/// What changed with a sent packet, for the sender's log.
#[derive(Debug, Clone, Copy, PartialEq, Eq, Structural)]
pub struct PacketSentChanges {
    /// The packet time changed from this many frames.
    pub ptime_changed_from: Option<Frames>,
    /// The packet size changed from this many bytes.
    pub packet_size_changed_from: Option<usize>,
    /// The packet did not start at the expected media time, which was this one.
    pub ingress_time_expected: Option<Frames>,
}

/// The statistics of one sender.
#[derive(Debug, Clone, PartialEq, Eq)]
pub struct SenderStats {
    pub id: String,
    pub ptime_frames: Frames,
    pub packet_size: usize,
    pub expected_next_ingress_time: u64,
}

/// The statistics after a packet of `ptime_frames` frames and `packet_size` bytes starting
/// at media time `ingress_time` was sent, and what differed from before.
pub open spec fn packet_sent(
    s: SenderStats,
    ptime_frames: Frames,
    packet_size: usize,
    ingress_time: Frames,
) -> (SenderStats, PacketSentChanges) {
    (
        SenderStats {
            ptime_frames,
            packet_size,
            expected_next_ingress_time: (ingress_time + ptime_frames) as u64,
            ..s
        },
        PacketSentChanges {
            ptime_changed_from: if s.ptime_frames != ptime_frames {
                Some(s.ptime_frames)
            } else {
                None
            },
            packet_size_changed_from: if s.packet_size != packet_size {
                Some(s.packet_size)
            } else {
                None
            },
            ingress_time_expected: if ingress_time != s.expected_next_ingress_time {
                Some(s.expected_next_ingress_time)
            } else {
                None
            },
        },
    )
}

impl SenderStats {
    /// Fresh statistics for the sender `id`: nothing sent yet.
    pub fn new(id: String) -> (r: Self)
        ensures
            r == (SenderStats { id, ptime_frames: 0, packet_size: 0, expected_next_ingress_time: 0 }),
    {
        SenderStats { id, ptime_frames: 0, packet_size: 0, expected_next_ingress_time: 0 }
    }

    /// Takes note of a sent packet (see [`packet_sent`]): the packet time and size become
    /// those of the packet, the next packet is expected right after it, and what differed
    /// from before is returned.
    pub fn process_packet_sent(&mut self, ptime_frames: Frames, packet_size: usize, ingress_time: Frames) -> (r: PacketSentChanges)
        requires
            ingress_time + ptime_frames <= u64::MAX,
        ensures
            (*final(self), r) == packet_sent(*old(self), ptime_frames, packet_size, ingress_time),
    {
        let mut changes = PacketSentChanges {
            ptime_changed_from: None,
            packet_size_changed_from: None,
            ingress_time_expected: None,
        };
        if self.ptime_frames != ptime_frames {
            changes.ptime_changed_from = Some(self.ptime_frames);
            self.ptime_frames = ptime_frames;
        }
        if self.packet_size != packet_size {
            changes.packet_size_changed_from = Some(self.packet_size);
            self.packet_size = packet_size;
        }
        if ingress_time != self.expected_next_ingress_time {
            changes.ingress_time_expected = Some(self.expected_next_ingress_time);
        }
        self.expected_next_ingress_time = ingress_time + ptime_frames;
        changes
    }
}

/// A steady stream raises no complaint: after a packet, a packet of the same time and size
/// that starts where the first one ended changes nothing that is reported.
pub proof fn lemma_steady_stream_unremarkable(
    s: SenderStats,
    ptime_frames: Frames,
    packet_size: usize,
    ingress_time: Frames,
)
    requires
        ingress_time + 2 * ptime_frames <= u64::MAX,
    ensures
        ({
            let first = packet_sent(s, ptime_frames, packet_size, ingress_time).0;
            packet_sent(first, ptime_frames, packet_size, (ingress_time + ptime_frames) as u64).1
                == (PacketSentChanges {
                ptime_changed_from: None,
                packet_size_changed_from: None,
                ingress_time_expected: None,
            })
        }),
{
}

} // verus!
