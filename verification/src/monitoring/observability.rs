//! What is published of each receiver's statistics, and the keys it is published under.

use crate::formats::Frames;
use crate::monitoring::ReceiverStatsReport;
use crate::text::{push_char, push_str};
use vstd::prelude::*;

verus! {

/// The published statistics of a receiver. The durations in milliseconds and the times of
/// the last lost and late packets are kept beside these where they are published.
#[derive(Debug, Clone, Copy, PartialEq, Eq, Structural, Default)]
pub struct PublishedReceiverStats {
    pub clock_offset: u64,
    pub network_delay_frames: i64,
    pub measured_link_offset_frames: Frames,
    pub lost_packets: usize,
    pub late_packets: usize,
    pub muted: bool,
}

/// The receiver a report is about.
pub open spec fn report_receiver(r: ReceiverStatsReport) -> String {
    match r {
        ReceiverStatsReport::MediaClockOffsetChanged { receiver, .. } => receiver,
        ReceiverStatsReport::NetworkDelay { receiver, .. } => receiver,
        ReceiverStatsReport::MeasuredLinkOffset { receiver, .. } => receiver,
        ReceiverStatsReport::LostPackets { receiver, .. } => receiver,
        ReceiverStatsReport::LatePackets { receiver, .. } => receiver,
        ReceiverStatsReport::Muted { receiver, .. } => receiver,
    }
}

/// The published statistics after a report: the one figure the report carries replaces
/// the one before.
pub open spec fn stats_applied(s: PublishedReceiverStats, r: ReceiverStatsReport) -> PublishedReceiverStats {
    match r {
        ReceiverStatsReport::MediaClockOffsetChanged { offset, .. } => PublishedReceiverStats {
            clock_offset: offset,
            ..s
        },
        ReceiverStatsReport::NetworkDelay { delay_frames, .. } => PublishedReceiverStats {
            network_delay_frames: delay_frames,
            ..s
        },
        ReceiverStatsReport::MeasuredLinkOffset { link_offset_frames, .. } => PublishedReceiverStats {
            measured_link_offset_frames: link_offset_frames,
            ..s
        },
        ReceiverStatsReport::LostPackets { lost_packets, .. } => PublishedReceiverStats {
            lost_packets,
            ..s
        },
        ReceiverStatsReport::LatePackets { late_packets, .. } => PublishedReceiverStats {
            late_packets,
            ..s
        },
        ReceiverStatsReport::Muted { muted, .. } => PublishedReceiverStats { muted, ..s },
    }
}

impl PublishedReceiverStats {
    /// Takes in a report (see [`stats_applied`]).
    pub fn apply(&mut self, report: &ReceiverStatsReport)
        ensures
            *final(self) == stats_applied(*old(self), *report),
    {
        match report {
            ReceiverStatsReport::MediaClockOffsetChanged { offset, .. } => {
                self.clock_offset = *offset;
            },
            ReceiverStatsReport::NetworkDelay { delay_frames, .. } => {
                self.network_delay_frames = *delay_frames;
            },
            ReceiverStatsReport::MeasuredLinkOffset { link_offset_frames, .. } => {
                self.measured_link_offset_frames = *link_offset_frames;
            },
            ReceiverStatsReport::LostPackets { lost_packets, .. } => {
                self.lost_packets = *lost_packets;
            },
            ReceiverStatsReport::LatePackets { late_packets, .. } => {
                self.late_packets = *late_packets;
            },
            ReceiverStatsReport::Muted { muted, .. } => {
                self.muted = *muted;
            },
        }
    }
}

/// The receiver a report is about.
pub fn receiver_of(report: &ReceiverStatsReport) -> (r: &String)
    ensures
        *r == report_receiver(*report),
{
    match report {
        ReceiverStatsReport::MediaClockOffsetChanged { receiver, .. } => receiver,
        ReceiverStatsReport::NetworkDelay { receiver, .. } => receiver,
        ReceiverStatsReport::MeasuredLinkOffset { receiver, .. } => receiver,
        ReceiverStatsReport::LostPackets { receiver, .. } => receiver,
        ReceiverStatsReport::LatePackets { receiver, .. } => receiver,
        ReceiverStatsReport::Muted { receiver, .. } => receiver,
    }
}

/// The key made of `parts`, joined by `/`.
pub open spec fn joined(parts: Seq<Seq<char>>) -> Seq<char>
    decreases parts.len(),
{
    if parts.len() == 0 {
        Seq::empty()
    } else if parts.len() == 1 {
        parts[0]
    } else {
        joined(parts.drop_last()) + seq!['/'] + parts.last()
    }
}

/// The key made of `parts`, joined by `/` (as worterbuch's `topic!` joins them).
pub fn topic(parts: &[&str]) -> (r: String)
    ensures
        r@ == joined(parts@.map_values(|p: &str| p@)),
{
    let ghost views = parts@.map_values(|p: &str| p@);
    let mut key = String::new();
    let mut i: usize = 0;
    while i < parts.len()
        invariant
            i <= parts@.len(),
            views == parts@.map_values(|p: &str| p@),
            key@ == joined(views.subrange(0, i as int)),
        decreases parts@.len() - i,
    {
        let ghost before = key@;
        if i > 0 {
            push_char(&mut key, '/');
        }
        push_str(&mut key, parts[i]);
        proof {
            let next = views.subrange(0, i + 1);
            assert(next.drop_last() =~= views.subrange(0, i as int));
            if i == 0 {
                assert(before =~= Seq::<char>::empty());
                assert(key@ =~= joined(next));
            } else {
                assert(key@ =~= joined(next));
            }
        }
        i = i + 1;
    }
    assert(views.subrange(0, parts@.len() as int) =~= views);
    key
}

} // verus!
