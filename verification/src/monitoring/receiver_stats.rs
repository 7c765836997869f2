//! The statistics a receiver keeps of its stream: network delay and link offset averages,
//! skipped and lost packets, late packets, the media clock offset and muting. Each event
//! that the receiver reports moves the statistics to a new state and yields the reports
//! that are published.

use crate::formats::{AudioFormat, Frames};
use crate::monitoring::skipped::{
    has_entry, insert_skipped, keys_ascending, remove_skipped, take_after, upper_bound,
};
use crate::monitoring::{ReceiverStatsReport, RxStats};
use crate::rtp::{seq_diff, sequence_difference};
use crate::utils::{all_within, average, AverageCalculationBuffer};
use vstd::prelude::*;

verus! {

/// The number of values over which the delay and the link offset are averaged.
pub const AVERAGE_WINDOW: usize = 1000;

/// The window after adding `v`, and the average where `v` completed it.
pub open spec fn window_step(w: Seq<int>, v: int) -> (Seq<int>, Option<int>) {
    if w.len() + 1 == AVERAGE_WINDOW {
        (Seq::empty(), Some(average(w.push(v))))
    } else {
        (w.push(v), None)
    }
}

/// The number of skipped packets whose media time is after `t`.
pub open spec fn missed_count(s: Seq<(Frames, u16)>, t: Frames) -> nat {
    s.filter(|e: (Frames, u16)| e.0 > t).len()
}

/// The network delay of a packet: the media time at its reception, less its media time and
/// its length in frames, each taken as `i64` as the arithmetic does.
pub open spec fn packet_delay(payload_len: usize, ingress_time: Frames, media_time: Frames, bytes_per_frame: nat) -> int {
    (media_time as i64) - (ingress_time as i64) - ((payload_len as nat / bytes_per_frame) as i64)
}

/// What the statistics hold.
pub struct ReceiverStatsView {
    pub id: String,
    pub desc: Option<AudioFormat>,
    pub delay_window: Seq<int>,
    pub link_offset_window: Seq<int>,
    pub timestamp_offset: Option<u64>,
    pub skipped: Seq<(Frames, u16)>,
    pub lost_packets: nat,
    pub late_packets: nat,
    pub muted: bool,
}

/// The statistics of a receiver that has reported nothing yet.
pub open spec fn fresh_stats(id: String) -> ReceiverStatsView {
    ReceiverStatsView {
        id,
        desc: None,
        delay_window: Seq::empty(),
        link_offset_window: Seq::empty(),
        timestamp_offset: None,
        skipped: Seq::empty(),
        lost_packets: 0,
        late_packets: 0,
        muted: false,
    }
}

/// What one event yields: the reports to publish, the packets found lost (ascending by
/// media time) and the average network delay where a window of delays was completed.
pub struct ReceiverStatsOutput {
    pub reports: Vec<ReceiverStatsReport>,
    pub lost: Vec<(Frames, u16)>,
    pub delay_average: Option<i64>,
}

/// The statistics of one receiver.
pub struct ReceiverStats {
    id: String,
    desc: Option<AudioFormat>,
    delay_buffer: AverageCalculationBuffer,
    measured_link_offset: AverageCalculationBuffer,
    timestamp_offset: Option<u64>,
    skipped_packets: Vec<(Frames, u16)>,
    lost_packet_counter: usize,
    late_packet_counter: usize,
    muted: bool,
}

impl View for ReceiverStats {
    type V = ReceiverStatsView;

    closed spec fn view(&self) -> ReceiverStatsView {
        ReceiverStatsView {
            id: self.id,
            desc: self.desc,
            delay_window: self.delay_buffer.window(),
            link_offset_window: self.measured_link_offset.window(),
            timestamp_offset: self.timestamp_offset,
            skipped: self.skipped_packets@,
            lost_packets: self.lost_packet_counter as nat,
            late_packets: self.late_packet_counter as nat,
            muted: self.muted,
        }
    }
}

/// Whether an event can be processed without an arithmetic overflow (where the
/// statistics would panic): a packet's frames and delay are computed only with a frame
/// size, and the delay fits `i64`; the media times of the packets that an out-of-order
/// packet skipped fit `u64`; the lost-packet counter does not overflow.
pub open spec fn event_in_range(s: ReceiverStatsView, e: RxStats) -> bool {
    match e {
        RxStats::PacketReceived { payload_len, ingress_time, media_time_at_reception, .. } => {
            s.desc matches Some(d) ==> {
                &&& 0 < d.spec_bytes_per_frame() <= usize::MAX
                &&& i64::MIN <= (media_time_at_reception as i64) - (ingress_time as i64) <= i64::MAX
                &&& i64::MIN <= packet_delay(
                    payload_len,
                    ingress_time,
                    media_time_at_reception,
                    d.spec_bytes_per_frame(),
                ) <= i64::MAX
            }
        },
        RxStats::OutOfOrderPacket {
            expected_timestamp,
            expected_sequence_number,
            actual_sequence_number,
        } => seq_diff(actual_sequence_number, expected_sequence_number) > 0 ==> expected_timestamp
            + seq_diff(actual_sequence_number, expected_sequence_number) - 1 <= u64::MAX,
        RxStats::Playout { ingress_time, latest_received_frame } => (s.desc is Some
            && ingress_time <= latest_received_frame) ==> s.lost_packets + missed_count(
            s.skipped,
            ingress_time,
        ) <= usize::MAX,
        _ => true,
    }
}

/// The state after an out-of-order packet: where the packet came ahead of the expected one,
/// each packet in between is recorded as skipped at its media time (one frame apart,
/// starting at the expected timestamp) with its sequence number; nothing else changes.
pub open spec fn skips_recorded(
    s: ReceiverStatsView,
    t: ReceiverStatsView,
    expected_timestamp: Frames,
    expected_sequence_number: u16,
    actual_sequence_number: u16,
) -> bool {
    let d = seq_diff(actual_sequence_number, expected_sequence_number);
    &&& t == ReceiverStatsView { skipped: t.skipped, ..s }
    &&& keys_ascending(t.skipped)
    &&& if d > 0 {
        forall|k: Frames, v: u16|
            #![trigger has_entry(t.skipped, k, v)]
            has_entry(t.skipped, k, v) <==> if expected_timestamp <= k < expected_timestamp + d {
                v == (expected_sequence_number + (k - expected_timestamp)) % 0x1_0000
            } else {
                has_entry(s.skipped, k, v)
            }
    } else {
        t.skipped == s.skipped
    }
}

/// The state after an event and what it yields, as the receiver's statistics define them.
pub open spec fn processed(s: ReceiverStatsView, e: RxStats, t: ReceiverStatsView, out: ReceiverStatsOutput) -> bool {
    match e {
        RxStats::Started(d) => {
            &&& t == ReceiverStatsView { desc: Some(d), ..s }
            &&& out.reports@.len() == 0
            &&& out.lost@.len() == 0
            &&& out.delay_average is None
        },
        RxStats::PacketReceived { payload_len, ingress_time, media_time_at_reception, .. } => {
            &&& out.lost@.len() == 0
            &&& match s.desc {
                None => t == s && out.reports@.len() == 0 && out.delay_average is None,
                Some(d) => {
                    let delay = packet_delay(
                        payload_len,
                        ingress_time,
                        media_time_at_reception,
                        d.spec_bytes_per_frame(),
                    );
                    let (w, avg) = window_step(s.delay_window, delay);
                    &&& t == ReceiverStatsView { delay_window: w, skipped: t.skipped, ..s }
                    &&& keys_ascending(t.skipped)
                    &&& forall|k: Frames, v: u16|
                        #![trigger has_entry(t.skipped, k, v)]
                        has_entry(t.skipped, k, v) <==> (k != ingress_time && has_entry(
                            s.skipped,
                            k,
                            v,
                        ))
                    &&& match avg {
                        Some(a) => {
                            &&& out.delay_average == Some(a as i64)
                            &&& out.reports@ == seq![
                                ReceiverStatsReport::NetworkDelay {
                                    receiver: s.id,
                                    delay_frames: delay as i64,
                                },
                            ]
                        },
                        None => out.delay_average is None && out.reports@.len() == 0,
                    }
                },
            }
        },
        RxStats::OutOfOrderPacket {
            expected_timestamp,
            expected_sequence_number,
            actual_sequence_number,
        } => {
            &&& out.reports@.len() == 0
            &&& out.lost@.len() == 0
            &&& out.delay_average is None
            &&& skips_recorded(
                s,
                t,
                expected_timestamp,
                expected_sequence_number,
                actual_sequence_number,
            )
        },
        RxStats::Playout { ingress_time, latest_received_frame } => {
            &&& out.delay_average is None
            &&& if s.desc is None || ingress_time > latest_received_frame {
                t == s && out.reports@.len() == 0 && out.lost@.len() == 0
            } else {
                let (w, avg) = window_step(
                    s.link_offset_window,
                    latest_received_frame - ingress_time,
                );
                let link_reports = match avg {
                    Some(a) => seq![
                        ReceiverStatsReport::MeasuredLinkOffset {
                            receiver: s.id,
                            link_offset_frames: a as u64,
                        },
                    ],
                    None => Seq::empty(),
                };
                let lost = s.lost_packets + out.lost@.len();
                let lost_reports = if out.lost@.len() > 0 {
                    seq![
                        ReceiverStatsReport::LostPackets {
                            receiver: s.id,
                            lost_packets: lost as usize,
                        },
                    ]
                } else {
                    Seq::empty()
                };
                &&& s.skipped == t.skipped + out.lost@
                &&& forall|i: int| 0 <= i < t.skipped.len() ==> t.skipped[i].0 <= ingress_time
                &&& forall|i: int| 0 <= i < out.lost@.len() ==> out.lost@[i].0 > ingress_time
                &&& t == ReceiverStatsView {
                    link_offset_window: w,
                    skipped: t.skipped,
                    lost_packets: lost as nat,
                    ..s
                }
                &&& out.reports@ == link_reports + lost_reports
            }
        },
        RxStats::MediaClockOffsetChanged(offset, _) => {
            &&& out.lost@.len() == 0
            &&& out.delay_average is None
            &&& if s.timestamp_offset != Some(offset) {
                &&& t == ReceiverStatsView { timestamp_offset: Some(offset), ..s }
                &&& out.reports@ == seq![
                    ReceiverStatsReport::MediaClockOffsetChanged { receiver: s.id, offset },
                ]
            } else {
                t == s && out.reports@.len() == 0
            }
        },
        RxStats::Muted(m) => {
            &&& out.lost@.len() == 0
            &&& out.delay_average is None
            &&& if s.muted != m {
                &&& t == ReceiverStatsView { muted: m, ..s }
                &&& out.reports@ == seq![ReceiverStatsReport::Muted { receiver: s.id, muted: m }]
            } else {
                t == s && out.reports@.len() == 0
            }
        },
        _ => t == s && out.reports@.len() == 0 && out.lost@.len() == 0
            && out.delay_average is None,
    }
}

impl ReceiverStats {
    /// The averaging windows are partly filled and bounded as their values are, and the
    /// skipped packets are ordered by media time.
    pub closed spec fn wf(&self) -> bool {
        &&& self.delay_buffer.wf()
        &&& self.measured_link_offset.wf()
        &&& self.delay_buffer.capacity() == AVERAGE_WINDOW
        &&& self.measured_link_offset.capacity() == AVERAGE_WINDOW
        &&& all_within(self.delay_buffer.window(), i64::MIN as int, i64::MAX as int)
        &&& all_within(self.measured_link_offset.window(), 0, u64::MAX as int)
        &&& keys_ascending(self.skipped_packets@)
    }

    /// Fresh statistics for the receiver `id`: no stream format yet, empty windows, nothing
    /// skipped, lost or late, not muted.
    pub fn new(id: String) -> (r: Self)
        ensures
            r.wf(),
            r@ == fresh_stats(id),
    {
        ReceiverStats {
            id,
            desc: None,
            delay_buffer: AverageCalculationBuffer::new(AVERAGE_WINDOW),
            measured_link_offset: AverageCalculationBuffer::new(AVERAGE_WINDOW),
            timestamp_offset: None,
            skipped_packets: Vec::new(),
            lost_packet_counter: 0,
            late_packet_counter: 0,
            muted: false,
        }
    }

    /// The receiver the statistics are kept for.
    pub fn id(&self) -> (r: &String)
        ensures
            *r == self@.id,
    {
        &self.id
    }

    /// The format of the stream, once the receiver has started.
    pub fn stream_format(&self) -> (r: Option<AudioFormat>)
        ensures
            r == self@.desc,
    {
        self.desc
    }

    /// The number of packets counted as lost so far.
    pub fn lost_packets(&self) -> (r: usize)
        ensures
            r == self@.lost_packets,
    {
        self.lost_packet_counter
    }

    /// The number of packets counted as late so far.
    pub fn late_packets(&self) -> (r: usize)
        ensures
            r == self@.late_packets,
    {
        self.late_packet_counter
    }

    /// The number of skipped packets whose media time is after `t`: those a playout at `t`
    /// finds lost.
    pub fn missed_after(&self, t: Frames) -> (r: usize)
        requires
            self.wf(),
        ensures
            r == missed_count(self@.skipped, t),
    {
        let p = upper_bound(&self.skipped_packets, t);
        proof {
            let sk = self.skipped_packets@;
            assert(sk =~= sk.take(p as int) + sk.skip(p as int));
            lemma_missed_count_split(sk, sk.take(p as int), sk.skip(p as int), t);
        }
        self.skipped_packets.len() - p
    }

    /// Processes one event of the receiver: see [`processed`].
    pub fn process(&mut self, e: RxStats) -> (out: ReceiverStatsOutput)
        requires
            old(self).wf(),
            event_in_range(old(self)@, e),
        ensures
            final(self).wf(),
            processed(old(self)@, e, final(self)@, out),
    {
        let none = ReceiverStatsOutput { reports: Vec::new(), lost: Vec::new(), delay_average: None };
        match e {
            RxStats::Started(d) => {
                self.desc = Some(d);
                none
            },
            RxStats::PacketReceived { payload_len, ingress_time, media_time_at_reception, .. } => {
                self.process_packet_reception(payload_len, ingress_time, media_time_at_reception)
            },
            RxStats::OutOfOrderPacket {
                expected_timestamp,
                expected_sequence_number,
                actual_sequence_number,
            } => {
                self.process_out_of_order_packet(
                    expected_timestamp,
                    expected_sequence_number,
                    actual_sequence_number,
                );
                none
            },
            RxStats::Playout { ingress_time, latest_received_frame } => {
                self.process_playout(ingress_time, latest_received_frame)
            },
            RxStats::MediaClockOffsetChanged(offset, _) => self.process_media_clock_offset_change(offset),
            RxStats::Muted(m) => self.process_muted(m),
            _ => none,
        }
    }

    fn process_packet_reception(
        &mut self,
        payload_len: usize,
        ingress_time: Frames,
        media_time_at_reception: Frames,
    ) -> (out: ReceiverStatsOutput)
        requires
            old(self).wf(),
            event_in_range(
                old(self)@,
                RxStats::PacketReceived {
                    seq: 0,
                    payload_len,
                    ingress_time,
                    media_time_at_reception,
                },
            ),
        ensures
            final(self).wf(),
            processed(
                old(self)@,
                RxStats::PacketReceived {
                    seq: 0,
                    payload_len,
                    ingress_time,
                    media_time_at_reception,
                },
                final(self)@,
                out,
            ),
    {
        let d = match self.desc {
            Some(d) => d,
            None => {
                return ReceiverStatsOutput { reports: Vec::new(), lost: Vec::new(), delay_average: None };
            },
        };
        let bpf = d.bytes_per_frame();
        let frames_in_packet = (payload_len / bpf) as i64;
        let delay = media_time_at_reception as i64 - ingress_time as i64 - frames_in_packet;
        let ghost w = self.delay_buffer.window();
        let avg = self.delay_buffer.update(delay as i128);
        proof {
            assert(all_within(w.push(delay as int), i64::MIN as int, i64::MAX as int)) by {
                assert forall|i: int| 0 <= i < w.push(delay as int).len() implies i64::MIN
                    <= #[trigger] w.push(delay as int)[i] <= i64::MAX by {
                    if i < w.len() {
                        assert(w.push(delay as int)[i] == w[i]);
                    }
                }
            }
            if avg is Some {
                crate::utils::lemma_average_within(
                    w.push(delay as int),
                    i64::MIN as int,
                    i64::MAX as int,
                );
            }
        }
        let mut reports: Vec<ReceiverStatsReport> = Vec::new();
        let delay_average = match avg {
            Some(a) => {
                reports.push(
                    ReceiverStatsReport::NetworkDelay { receiver: self.id.clone(), delay_frames: delay },
                );
                Some(a as i64)
            },
            None => None,
        };
        remove_skipped(&mut self.skipped_packets, ingress_time);
        proof {
            if avg is Some {
                assert(reports@ =~= seq![
                    ReceiverStatsReport::NetworkDelay { receiver: old(self)@.id, delay_frames: delay },
                ]);
            }
        }
        ReceiverStatsOutput { reports, lost: Vec::new(), delay_average }
    }

    fn process_out_of_order_packet(
        &mut self,
        expected_timestamp: Frames,
        expected_sequence_number: u16,
        actual_sequence_number: u16,
    )
        requires
            old(self).wf(),
            seq_diff(actual_sequence_number, expected_sequence_number) > 0 ==> expected_timestamp
                + seq_diff(actual_sequence_number, expected_sequence_number) - 1 <= u64::MAX,
        ensures
            final(self).wf(),
            skips_recorded(
                old(self)@,
                final(self)@,
                expected_timestamp,
                expected_sequence_number,
                actual_sequence_number,
            ),
    {
        let diff = sequence_difference(actual_sequence_number, expected_sequence_number);
        if diff > 0 {
            let diff = diff as u32;
            let ghost s0 = self.skipped_packets@;
            let mut i: u32 = 0;
            while i < diff
                invariant
                    self.wf(),
                    0 <= i <= diff,
                    diff == seq_diff(actual_sequence_number, expected_sequence_number),
                    expected_timestamp + diff - 1 <= u64::MAX,
                    self@ == (ReceiverStatsView { skipped: self@.skipped, ..old(self)@ }),
                    s0 == old(self)@.skipped,
                    forall|k: Frames, v: u16|
                        #![trigger has_entry(self@.skipped, k, v)]
                        has_entry(self@.skipped, k, v) <==> if expected_timestamp <= k
                            < expected_timestamp + i {
                            v == (expected_sequence_number + (k - expected_timestamp)) % 0x1_0000
                        } else {
                            has_entry(s0, k, v)
                        },
                decreases diff - i,
            {
                let skipped_timestamp = expected_timestamp + i as u64;
                let skipped_seq = expected_sequence_number.wrapping_add(i as u16);
                proof {
                    assert(skipped_seq == (expected_sequence_number + i) % 0x1_0000) by (bit_vector)
                        requires
                            skipped_seq == expected_sequence_number.wrapping_add(i as u16),
                            i < 0x8000,
                    ;
                }
                let ghost before = self.skipped_packets@;
                insert_skipped(&mut self.skipped_packets, skipped_timestamp, skipped_seq);
                proof {
                    assert forall|k: Frames, v: u16|
                        #![trigger has_entry(self.skipped_packets@, k, v)]
                        has_entry(self.skipped_packets@, k, v) <==> if expected_timestamp <= k
                            < expected_timestamp + i + 1 {
                            v == (expected_sequence_number + (k - expected_timestamp)) % 0x1_0000
                        } else {
                            has_entry(s0, k, v)
                        } by {
                        assert(has_entry(self.skipped_packets@, k, v) <==> ((k == skipped_timestamp
                            && v == skipped_seq) || (k != skipped_timestamp && has_entry(
                            before,
                            k,
                            v,
                        ))));
                    }
                }
                i = i + 1;
            }
        }
    }

    fn process_playout(&mut self, ingress_time: Frames, latest_received_frame: Frames) -> (out:
        ReceiverStatsOutput)
        requires
            old(self).wf(),
            event_in_range(old(self)@, RxStats::Playout { ingress_time, latest_received_frame }),
        ensures
            final(self).wf(),
            processed(
                old(self)@,
                RxStats::Playout { ingress_time, latest_received_frame },
                final(self)@,
                out,
            ),
    {
        if self.desc.is_none() || ingress_time > latest_received_frame {
            return ReceiverStatsOutput { reports: Vec::new(), lost: Vec::new(), delay_average: None };
        }
        let data_ready_since = latest_received_frame - ingress_time;
        let ghost w = self.measured_link_offset.window();
        let avg = self.measured_link_offset.update(data_ready_since as i128);
        proof {
            assert(all_within(w.push(data_ready_since as int), 0, u64::MAX as int)) by {
                assert forall|i: int| 0 <= i < w.push(data_ready_since as int).len() implies 0
                    <= #[trigger] w.push(data_ready_since as int)[i] <= u64::MAX by {
                    if i < w.len() {
                        assert(w.push(data_ready_since as int)[i] == w[i]);
                    }
                }
            }
            if avg is Some {
                crate::utils::lemma_average_within(
                    w.push(data_ready_since as int),
                    0,
                    u64::MAX as int,
                );
            }
        }
        let mut reports: Vec<ReceiverStatsReport> = Vec::new();
        if let Some(a) = avg {
            reports.push(
                ReceiverStatsReport::MeasuredLinkOffset {
                    receiver: self.id.clone(),
                    link_offset_frames: a as u64,
                },
            );
        }
        let ghost link_reports = reports@;
        let ghost s0 = self.skipped_packets@;
        let lost = take_after(&mut self.skipped_packets, ingress_time);
        proof {
            lemma_missed_count_split(s0, self.skipped_packets@, lost@, ingress_time);
        }
        if lost.len() > 0 {
            self.lost_packet_counter = self.lost_packet_counter + lost.len();
            reports.push(
                ReceiverStatsReport::LostPackets {
                    receiver: self.id.clone(),
                    lost_packets: self.lost_packet_counter,
                },
            );
        }
        proof {
            let lost_reports = if lost@.len() > 0 {
                seq![
                    ReceiverStatsReport::LostPackets {
                        receiver: old(self)@.id,
                        lost_packets: (old(self)@.lost_packets + lost@.len()) as usize,
                    },
                ]
            } else {
                Seq::empty()
            };
            assert(reports@ =~= link_reports + lost_reports);
        }
        ReceiverStatsOutput { reports, lost, delay_average: None }
    }

    fn process_media_clock_offset_change(&mut self, offset: u64) -> (r: ReceiverStatsOutput)
        requires
            old(self).wf(),
        ensures
            final(self).wf(),
            processed(
                old(self)@,
                RxStats::MediaClockOffsetChanged(offset, 0),
                final(self)@,
                r,
            ),
    {
        let mut reports: Vec<ReceiverStatsReport> = Vec::new();
        let needs_update = match self.timestamp_offset {
            Some(previous) => previous != offset,
            None => true,
        };
        if needs_update {
            self.timestamp_offset = Some(offset);
            reports.push(
                ReceiverStatsReport::MediaClockOffsetChanged { receiver: self.id.clone(), offset },
            );
        }
        ReceiverStatsOutput { reports, lost: Vec::new(), delay_average: None }
    }

    fn process_muted(&mut self, muted: bool) -> (r: ReceiverStatsOutput)
        requires
            old(self).wf(),
        ensures
            final(self).wf(),
            processed(
                old(self)@,
                RxStats::Muted(muted),
                final(self)@,
                r,
            ),
    {
        let mut reports: Vec<ReceiverStatsReport> = Vec::new();
        if self.muted != muted {
            self.muted = muted;
            reports.push(ReceiverStatsReport::Muted { receiver: self.id.clone(), muted });
        }
        ReceiverStatsOutput { reports, lost: Vec::new(), delay_average: None }
    }

    /// Counts a packet that arrived after its playout time. Without a stream format nothing
    /// is counted.
    pub fn process_late_packet(&mut self) -> (r: Option<ReceiverStatsReport>)
        requires
            old(self).wf(),
            old(self)@.desc is Some ==> old(self)@.late_packets < usize::MAX,
        ensures
            final(self).wf(),
            match old(self)@.desc {
                None => *final(self) == *old(self) && r is None,
                Some(_) => {
                    &&& final(self)@ == (ReceiverStatsView {
                        late_packets: old(self)@.late_packets + 1,
                        ..old(self)@
                    })
                    &&& r == Some(
                        ReceiverStatsReport::LatePackets {
                            receiver: old(self)@.id,
                            late_packets: (old(self)@.late_packets + 1) as usize,
                        },
                    )
                },
            },
    {
        if self.desc.is_none() {
            return None;
        }
        self.late_packet_counter = self.late_packet_counter + 1;
        Some(
            ReceiverStatsReport::LatePackets {
                receiver: self.id.clone(),
                late_packets: self.late_packet_counter,
            },
        )
    }
}

/// An event never changes whose statistics they are.
pub proof fn lemma_processed_keeps_id(
    s: ReceiverStatsView,
    e: RxStats,
    t: ReceiverStatsView,
    out: ReceiverStatsOutput,
)
    requires
        processed(s, e, t, out),
    ensures
        t.id == s.id,
{
}

/// The counts of lost and late packets never go down: whatever a receiver reports, the
/// statistics after it count at least as many lost and late packets as before.
pub proof fn lemma_counters_never_decrease(
    s: ReceiverStatsView,
    e: RxStats,
    t: ReceiverStatsView,
    out: ReceiverStatsOutput,
)
    requires
        processed(s, e, t, out),
    ensures
        t.lost_packets >= s.lost_packets,
        t.late_packets == s.late_packets,
{
}

/// A playout leaves no packet skipped after its media time: every packet skipped after it
/// is reported lost, exactly once, and the lost-packet count grows by their number.
pub proof fn lemma_playout_settles_skipped(
    s: ReceiverStatsView,
    ingress_time: Frames,
    latest_received_frame: Frames,
    t: ReceiverStatsView,
    out: ReceiverStatsOutput,
)
    requires
        s.desc is Some,
        ingress_time <= latest_received_frame,
        keys_ascending(s.skipped),
        processed(s, RxStats::Playout { ingress_time, latest_received_frame }, t, out),
    ensures
        forall|i: int| 0 <= i < t.skipped.len() ==> t.skipped[i].0 <= ingress_time,
        out.lost@.len() == missed_count(s.skipped, ingress_time),
        t.lost_packets == s.lost_packets + missed_count(s.skipped, ingress_time),
{
    lemma_missed_count_split(s.skipped, t.skipped, out.lost@, ingress_time);
}

/// Where a list ordered by media time is split at `t`, the entries after `t` are those the
/// second part holds.
proof fn lemma_missed_count_split(
    s: Seq<(Frames, u16)>,
    kept: Seq<(Frames, u16)>,
    after: Seq<(Frames, u16)>,
    t: Frames,
)
    requires
        s == kept + after,
        forall|i: int| 0 <= i < kept.len() ==> kept[i].0 <= t,
        forall|i: int| 0 <= i < after.len() ==> after[i].0 > t,
    ensures
        missed_count(s, t) == after.len(),
{
    let p = |e: (Frames, u16)| e.0 > t;
    Seq::filter_distributes_over_add(kept, after, p);
    kept.lemma_all_neg_filter_empty(p);
    lemma_filter_keeps_all(after, p);
}

proof fn lemma_filter_keeps_all<A>(s: Seq<A>, p: spec_fn(A) -> bool)
    requires
        forall|i: int| 0 <= i < s.len() ==> p(s[i]),
    ensures
        s.filter(p) == s,
    decreases s.len(),
{
    reveal(Seq::filter);
    if s.len() > 0 {
        lemma_filter_keeps_all(s.drop_last(), p);
        assert(s.drop_last().push(s.last()) =~= s);
    } else {
        assert(s.filter(p) =~= s);
    }
}

} // verus!
