//! AES67 receiver logic: what the session description says of a stream and how received
//! RTP packets are placed on the media clock's timeline.

pub mod api;
pub mod config;

use crate::address::IpAddress;
use crate::formats::Frames;
use crate::monitoring::RxStats;
use crate::rtp::{read_rtp, seq_diff, sequence_difference, RtpError, RtpHeader};
use crate::utils::U32_WRAP;
use vstd::prelude::*;

verus! {

/// A packet that arrived out of order with a timestamp that fits its sequence number.
#[derive(Debug, Clone, Copy, PartialEq, Eq, Structural)]
pub struct OutOfOrderPacket {
    /// The media time of the packet that was expected instead.
    pub expected_timestamp: Frames,
    pub expected_sequence_number: u16,
    pub actual_sequence_number: u16,
}

/// A packet that the receiver takes, and what the caller does before it is placed.
#[derive(Debug, Clone, Copy, PartialEq, Eq, Structural)]
pub struct AcceptedPacket {
    pub header: RtpHeader,
    /// Present where the packet came out of order and the media clock offset is known.
    pub out_of_order: Option<OutOfOrderPacket>,
    /// The sequence number wrapped or no offset is known yet: calibrate the offset.
    pub calibrate: bool,
    /// The timestamp wrapped: calibrate the offset (again).
    pub calibrate_after_wrap: bool,
}

/// What becomes of a received datagram.
#[derive(Debug, Clone, Copy, PartialEq, Eq, Structural)]
pub enum PacketVerdict {
    /// It came from another address than the stream's origin.
    WrongSender,
    /// It is not a valid RTP packet.
    Malformed(RtpError),
    /// It came out of order with a timestamp that does not fit its sequence number.
    InconsistentTimestamp,
    Accepted(AcceptedPacket),
}

/// Where a receiver stands on the RTP timeline of its stream: the last sequence number and
/// timestamp it took, and the media time at which the sender's 32-bit timestamps last
/// wrapped (the offset that turns an RTP timestamp into a media time).
#[derive(Debug, Clone, Copy, PartialEq, Eq, Structural)]
pub struct RtpTimeline {
    pub origin_ip: IpAddress,
    pub rtp_offset: u32,
    pub bytes_per_frame: usize,
    pub last_timestamp: Option<u32>,
    pub last_sequence_number: Option<u16>,
    pub timestamp_offset: Option<u64>,
}

/// The number of whole frames in a payload of `len` bytes.
pub open spec fn frames_in(len: nat, bytes_per_frame: nat) -> nat {
    len / bytes_per_frame
}

impl RtpTimeline {
    /// Every offset is a whole number of timestamp wraps, and frames have a size.
    pub open spec fn wf(self) -> bool {
        &&& self.bytes_per_frame > 0
        &&& (self.timestamp_offset matches Some(o) ==> o % U32_WRAP == 0)
    }

    /// A timeline that has seen no packet yet.
    pub fn new(origin_ip: IpAddress, rtp_offset: u32, bytes_per_frame: usize) -> (r: Self)
        requires
            bytes_per_frame > 0,
        ensures
            r.wf(),
            r.origin_ip == origin_ip,
            r.rtp_offset == rtp_offset,
            r.bytes_per_frame == bytes_per_frame,
            r.last_timestamp is None,
            r.last_sequence_number is None,
            r.timestamp_offset is None,
    {
        RtpTimeline {
            origin_ip,
            rtp_offset,
            bytes_per_frame,
            last_timestamp: None,
            last_sequence_number: None,
            timestamp_offset: None,
        }
    }

    /// The verdict on a packet with this header and what it does to the timeline.
    pub open spec fn verdict_on_header(self, h: RtpHeader) -> (PacketVerdict, RtpTimeline) {
        let frames = frames_in(h.payload_len as nat, self.bytes_per_frame as nat);
        let accepted = RtpTimeline {
            last_timestamp: Some(h.timestamp),
            last_sequence_number: Some(h.sequence_number),
            ..self
        };
        match (self.last_timestamp, self.last_sequence_number) {
            (Some(last_ts), Some(last_seq)) => {
                let expected_seq = ((last_seq + 1) % 0x1_0000) as u16;
                let expected_ts = ((last_ts + frames) % 0x1_0000_0000) as u32;
                let ts_wrapped = h.timestamp < last_ts;
                let seq_wrapped = h.sequence_number < last_seq;
                if h.sequence_number != expected_seq {
                    let diff = seq_diff(h.sequence_number, expected_seq);
                    if expected_ts + frames * diff == h.timestamp {
                        (
                            PacketVerdict::Accepted(
                                AcceptedPacket {
                                    header: h,
                                    out_of_order: match self.timestamp_offset {
                                        Some(o) => Some(
                                            OutOfOrderPacket {
                                                expected_timestamp: (o + expected_ts) as u64,
                                                expected_sequence_number: expected_seq,
                                                actual_sequence_number: h.sequence_number,
                                            },
                                        ),
                                        None => None,
                                    },
                                    calibrate: seq_wrapped || self.timestamp_offset is None,
                                    calibrate_after_wrap: ts_wrapped,
                                },
                            ),
                            accepted,
                        )
                    } else {
                        (PacketVerdict::InconsistentTimestamp, self)
                    }
                } else {
                    (
                        PacketVerdict::Accepted(
                            AcceptedPacket {
                                header: h,
                                out_of_order: None,
                                calibrate: seq_wrapped || self.timestamp_offset is None,
                                calibrate_after_wrap: ts_wrapped,
                            },
                        ),
                        accepted,
                    )
                }
            },
            _ => (
                PacketVerdict::Accepted(
                    AcceptedPacket {
                        header: h,
                        out_of_order: None,
                        calibrate: self.timestamp_offset is None,
                        calibrate_after_wrap: false,
                    },
                ),
                accepted,
            ),
        }
    }

    /// The verdict on a datagram from `sender` and what it does to the timeline.
    pub open spec fn verdict(self, sender: IpAddress, data: Seq<u8>) -> (PacketVerdict, RtpTimeline) {
        if sender != self.origin_ip {
            (PacketVerdict::WrongSender, self)
        } else {
            match crate::rtp::rtp_read(data) {
                Err(e) => (PacketVerdict::Malformed(e), self),
                Ok(h) => self.verdict_on_header(h),
            }
        }
    }

    /// Judges a datagram of at most 65535 bytes (a UDP payload) from `sender`: packets from
    /// another address and malformed packets are refused; a packet whose sequence number is
    /// not the next one is taken only where its timestamp fits the sequence numbers it
    /// skipped. A packet that is taken becomes the last one, and the caller is told whether to
    /// calibrate the media clock offset first (see [`RtpTimeline::calibrate`]).
    pub fn on_packet(&mut self, sender: IpAddress, data: &[u8]) -> (r: PacketVerdict)
        requires
            old(self).wf(),
            data@.len() <= 65535,
        ensures
            final(self).wf(),
            (r, *final(self)) == old(self).verdict(sender, data@),
    {
        if sender != self.origin_ip {
            return PacketVerdict::WrongSender;
        }
        let h = match read_rtp(data) {
            Ok(h) => h,
            Err(e) => return PacketVerdict::Malformed(e),
        };
        let frames: u64 = h.payload_len as u64 / self.bytes_per_frame as u64;
        assert(frames <= 65535);
        let seq = h.sequence_number;
        let ts = h.timestamp;
        let mut out_of_order: Option<OutOfOrderPacket> = None;
        let mut ts_wrapped = false;
        let mut seq_wrapped = false;
        if let (Some(last_ts), Some(last_seq)) = (self.last_timestamp, self.last_sequence_number) {
            let expected_seq: u16 = ((last_seq as u32 + 1) % 0x1_0000) as u16;
            let expected_ts: u32 = ((last_ts as u64 + frames) % 0x1_0000_0000) as u32;
            if seq != expected_seq {
                let diff = sequence_difference(seq, expected_seq);
                proof {
                    assert(-65535 * 32768 <= frames * diff <= 65535 * 32768) by (nonlinear_arith)
                        requires
                            0 <= frames <= 65535,
                            -32768 <= diff <= 32767,
                    ;
                }
                let consistent_ts: i64 = expected_ts as i64 + frames as i64 * diff as i64;
                if consistent_ts == ts as i64 {
                    if let Some(o) = self.timestamp_offset {
                        proof {
                            assert(o + expected_ts <= u64::MAX) by (nonlinear_arith)
                                requires
                                    o % 0x1_0000_0000 == 0,
                                    o <= u64::MAX,
                                    expected_ts < 0x1_0000_0000,
                            ;
                        }
                        out_of_order = Some(
                            OutOfOrderPacket {
                                expected_timestamp: o + expected_ts as u64,
                                expected_sequence_number: expected_seq,
                                actual_sequence_number: seq,
                            },
                        );
                    }
                } else {
                    return PacketVerdict::InconsistentTimestamp;
                }
            }
            ts_wrapped = ts < last_ts;
            seq_wrapped = seq < last_seq;
        }
        let calibrate = seq_wrapped || self.timestamp_offset.is_none();
        self.last_sequence_number = Some(seq);
        self.last_timestamp = Some(ts);
        PacketVerdict::Accepted(
            AcceptedPacket { header: h, out_of_order, calibrate, calibrate_after_wrap: ts_wrapped },
        )
    }

    /// Calibrates the media clock offset against the current media time, as the packet with
    /// timestamp `rtp_timestamp` arrives: the offset becomes the media time of the last
    /// timestamp wrap, and is returned. Where the media time, taken modulo 2^32, is still
    /// below the timestamp, nothing changes and `None` is returned.
    pub fn calibrate(&mut self, media_time: Frames, rtp_timestamp: u32) -> (r: Option<u64>)
        requires
            old(self).wf(),
        ensures
            final(self).wf(),
            if ((media_time % U32_WRAP) as u32) < rtp_timestamp {
                r is None && *final(self) == *old(self)
            } else {
                r == Some((media_time / U32_WRAP * U32_WRAP) as u64) && *final(self) == (RtpTimeline {
                    timestamp_offset: r,
                    ..*old(self)
                })
            },
    {
        let local_wrapped_timestamp = (media_time % U32_WRAP) as u32;
        if local_wrapped_timestamp < rtp_timestamp {
            return None;
        }
        let timestamp_wraps = media_time / U32_WRAP;
        proof {
            assert(timestamp_wraps * U32_WRAP <= media_time) by (nonlinear_arith)
                requires
                    timestamp_wraps == media_time / U32_WRAP,
                    U32_WRAP > 0,
            ;
            assert((timestamp_wraps * 0x1_0000_0000int) % 0x1_0000_0000int == 0) by (nonlinear_arith);
        }
        let offset = timestamp_wraps * U32_WRAP;
        self.timestamp_offset = Some(offset);
        Some(offset)
    }

    /// The media time of a packet with timestamp `rtp_timestamp`:
    /// `offset + timestamp - rtp_offset`, where the offset is known.
    pub open spec fn spec_ingress_time(self, rtp_timestamp: u32) -> Option<int> {
        match self.timestamp_offset {
            Some(o) => Some(o + rtp_timestamp - self.rtp_offset),
            None => None,
        }
    }

    /// Whether the media time of a packet with this timestamp can be computed without the
    /// subtraction of the RTP offset going below zero.
    pub fn ingress_time_in_range(&self, rtp_timestamp: u32) -> (r: bool)
        requires
            self.wf(),
        ensures
            r == (self.timestamp_offset matches Some(o) ==> o + rtp_timestamp >= self.rtp_offset),
    {
        match self.timestamp_offset {
            Some(o) => {
                proof {
                    assert(o + rtp_timestamp <= u64::MAX) by (nonlinear_arith)
                        requires
                            o % 0x1_0000_0000 == 0,
                            o <= u64::MAX,
                            rtp_timestamp < 0x1_0000_0000,
                    ;
                }
                o + rtp_timestamp as u64 >= self.rtp_offset as u64
            },
            None => true,
        }
    }

    /// The media time of a packet with timestamp `rtp_timestamp`, where the offset is known.
    pub fn ingress_time(&self, rtp_timestamp: u32) -> (r: Option<Frames>)
        requires
            self.wf(),
            self.timestamp_offset matches Some(o) ==> o + rtp_timestamp >= self.rtp_offset,
        ensures
            match self.spec_ingress_time(rtp_timestamp) {
                Some(t) => r == Some(t as u64),
                None => r is None,
            },
    {
        match self.timestamp_offset {
            Some(o) => {
                proof {
                    assert(o + rtp_timestamp <= u64::MAX) by (nonlinear_arith)
                        requires
                            o % 0x1_0000_0000 == 0,
                            o <= u64::MAX,
                            rtp_timestamp < 0x1_0000_0000,
                    ;
                }
                Some(o + rtp_timestamp as u64 - self.rtp_offset as u64)
            },
            None => None,
        }
    }
}

/// A packet that follows the last one, with the next sequence number (round the 16-bit
/// circle), is taken as it is, not as out of order, and becomes the last one.
pub proof fn lemma_next_packet_taken(t: RtpTimeline, h: RtpHeader)
    requires
        t.last_timestamp is Some,
        t.last_sequence_number matches Some(s) && h.sequence_number == (s + 1) % 0x1_0000,
    ensures
        ({
            let (v, next) = t.verdict_on_header(h);
            &&& v matches PacketVerdict::Accepted(a) && a.out_of_order is None && a.header == h
            &&& next.last_sequence_number == Some(h.sequence_number)
            &&& next.last_timestamp == Some(h.timestamp)
            &&& next.timestamp_offset == t.timestamp_offset
        }),
{
}

/// A packet that comes `d` sequence numbers after the expected one, with a timestamp `d`
/// packets of its length after the expected timestamp, is taken; where the media clock
/// offset is known it is reported as out of order, naming the expected packet's media time.
pub proof fn lemma_gap_with_fitting_timestamp_taken(t: RtpTimeline, h: RtpHeader, d: int)
    requires
        t.wf(),
        t.last_timestamp is Some,
        t.last_sequence_number is Some,
        0 < d < 0x8000,
        h.sequence_number == (t.last_sequence_number.unwrap() + 1 + d) % 0x1_0000,
        ({
            let frames = frames_in(h.payload_len as nat, t.bytes_per_frame as nat);
            let expected_ts = (t.last_timestamp.unwrap() + frames) % 0x1_0000_0000;
            h.timestamp == expected_ts + frames * d
        }),
    ensures
        ({
            let (v, next) = t.verdict_on_header(h);
            let frames = frames_in(h.payload_len as nat, t.bytes_per_frame as nat);
            let expected_ts = (t.last_timestamp.unwrap() + frames) % 0x1_0000_0000;
            &&& v matches PacketVerdict::Accepted(a) && a.header == h && match t.timestamp_offset {
                Some(o) => a.out_of_order == Some(
                    OutOfOrderPacket {
                        expected_timestamp: (o + expected_ts) as u64,
                        expected_sequence_number: ((t.last_sequence_number.unwrap() + 1)
                            % 0x1_0000) as u16,
                        actual_sequence_number: h.sequence_number,
                    },
                ),
                None => a.out_of_order is None,
            }
            &&& next.last_sequence_number == Some(h.sequence_number)
        }),
{
    let expected_seq = ((t.last_sequence_number.unwrap() + 1) % 0x1_0000) as u16;
    assert(seq_diff(h.sequence_number, expected_seq) == d);
}

/// A late packet, reordered behind later ones, is taken too: one whose sequence number is
/// `d` before the expected one (round the 16-bit circle, `0 < d <= 32768`) and whose
/// timestamp is `d` packets of its length before the expected timestamp is accepted as it
/// is, and becomes the last packet of the timeline.
pub proof fn lemma_late_packet_with_fitting_timestamp_taken(t: RtpTimeline, h: RtpHeader, d: int)
    requires
        t.wf(),
        t.last_timestamp is Some,
        t.last_sequence_number is Some,
        0 < d <= 0x8000,
        h.sequence_number == (t.last_sequence_number.unwrap() + 1 + 0x1_0000 - d) % 0x1_0000,
        ({
            let frames = frames_in(h.payload_len as nat, t.bytes_per_frame as nat);
            let expected_ts = (t.last_timestamp.unwrap() + frames) % 0x1_0000_0000;
            h.timestamp == expected_ts - frames * d
        }),
    ensures
        ({
            let (v, next) = t.verdict_on_header(h);
            &&& v matches PacketVerdict::Accepted(a) && a.header == h
            &&& next.last_sequence_number == Some(h.sequence_number)
            &&& next.last_timestamp == Some(h.timestamp)
            &&& next.timestamp_offset == t.timestamp_offset
        }),
{
    let last = t.last_sequence_number.unwrap();
    let expected_seq = ((last + 1) % 0x1_0000) as u16;
    assert(h.sequence_number == (expected_seq + 0x1_0000 - d) % 0x1_0000);
    assert(h.sequence_number != expected_seq);
    assert(seq_diff(h.sequence_number, expected_seq) == -d);
    let frames = frames_in(h.payload_len as nat, t.bytes_per_frame as nat);
    assert(frames * (-d) == -(frames * d)) by (nonlinear_arith);
}

/// A packet out of order whose timestamp does not fit the sequence numbers between it and
/// the expected one is dropped, and the timeline stays where it was: with its sequence
/// number `d` after the expected one (`d` before, for negative `d`), its timestamp is not
/// the expected timestamp plus `d` packets of its length.
pub proof fn lemma_unfitting_timestamp_dropped(t: RtpTimeline, h: RtpHeader, d: int)
    requires
        t.last_timestamp is Some,
        t.last_sequence_number is Some,
        -0x8000 <= d < 0x8000,
        d != 0,
        h.sequence_number == (t.last_sequence_number.unwrap() + 1 + 0x1_0000 + d) % 0x1_0000,
        ({
            let frames = frames_in(h.payload_len as nat, t.bytes_per_frame as nat);
            let expected_ts = (t.last_timestamp.unwrap() + frames) % 0x1_0000_0000;
            h.timestamp != expected_ts + frames * d
        }),
    ensures
        t.verdict_on_header(h) == (PacketVerdict::InconsistentTimestamp, t),
{
    let last = t.last_sequence_number.unwrap();
    let expected_seq = ((last + 1) % 0x1_0000) as u16;
    assert(h.sequence_number == (expected_seq + 0x1_0000 + d) % 0x1_0000);
    assert(h.sequence_number != expected_seq);
    assert(seq_diff(h.sequence_number, expected_seq) == d);
}

/// The stream's RTP offset is taken off: once the media clock offset `o` is known, a packet
/// stamped `rtp_offset + x` is placed at media time `o + x`, and two packets lie as many
/// frames apart on the media timeline as their timestamps differ.
pub proof fn lemma_rtp_offset_taken_off(t: RtpTimeline, x: nat, ts1: u32, ts2: u32)
    requires
        t.timestamp_offset is Some,
        t.rtp_offset + x < 0x1_0000_0000,
    ensures
        t.spec_ingress_time((t.rtp_offset + x) as u32) == Some(t.timestamp_offset.unwrap() + x),
        t.spec_ingress_time(ts2).unwrap() - t.spec_ingress_time(ts1).unwrap() == ts2 - ts1,
{
}

/// After calibrating against a clock reading, a packet stamped `rtp_offset + x`, with `x`
/// the low 32 bits of a media time at most one wrap before the reading, is placed at that
/// media time: the receiver recovers what the stream's timestamps stand for, whatever its
/// RTP offset.
pub proof fn lemma_unwrap_with_rtp_offset(t: RtpTimeline, ingress_time: u64, media_time: u64)
    requires
        t.rtp_offset + ingress_time % U32_WRAP < 0x1_0000_0000,
        ingress_time <= media_time,
        media_time - ingress_time < U32_WRAP,
        (media_time % U32_WRAP) as u32 >= t.rtp_offset + ingress_time % U32_WRAP,
    ensures
        ({
            let ts = (t.rtp_offset + ingress_time % U32_WRAP) as u32;
            let calibrated = RtpTimeline {
                timestamp_offset: Some((media_time / U32_WRAP * U32_WRAP) as u64),
                ..t
            };
            calibrated.spec_ingress_time(ts) == Some(ingress_time as int)
        }),
{
    let w = U32_WRAP as int;
    vstd::arithmetic::div_mod::lemma_fundamental_div_mod(ingress_time as int, w);
    vstd::arithmetic::div_mod::lemma_fundamental_div_mod(media_time as int, w);
    vstd::arithmetic::div_mod::lemma_mod_bound(ingress_time as int, w);
    vstd::arithmetic::div_mod::lemma_mod_bound(media_time as int, w);
    let qi = ingress_time as int / w;
    let qm = media_time as int / w;
    assert(qm == qi) by (nonlinear_arith)
        requires
            ingress_time == w * qi + ingress_time as int % w,
            media_time == w * qm + media_time as int % w,
            0 <= ingress_time as int % w < w,
            0 <= media_time as int % w < w,
            media_time as int % w >= ingress_time as int % w,
            ingress_time <= media_time,
            media_time - ingress_time < w,
            w > 0,
    ;
    assert(qm * w == w * qm) by (nonlinear_arith);
    assert(media_time / U32_WRAP * U32_WRAP <= media_time) by (nonlinear_arith)
        requires
            media_time == w * qm + media_time as int % w,
            qm == media_time / U32_WRAP,
            media_time as int % w >= 0,
            w == U32_WRAP,
    ;
}

/// The offset found by calibration is the media time of the last timestamp wrap at or
/// before the clock's reading: the calibrated timestamp, unwrapped by it, lies at most one
/// wrap before the reading and has the timestamp's low 32 bits.
pub proof fn lemma_calibration_unwraps(media_time: u64, rtp_timestamp: u32)
    requires
        (media_time % U32_WRAP) as u32 >= rtp_timestamp,
    ensures
        ({
            let o = media_time / U32_WRAP * U32_WRAP;
            &&& o % (U32_WRAP as int) == 0
            &&& o + rtp_timestamp <= media_time
            &&& media_time < o + rtp_timestamp + U32_WRAP
            &&& (o + rtp_timestamp) % (U32_WRAP as int) == rtp_timestamp
        }),
{
    let o = media_time / U32_WRAP * U32_WRAP;
    vstd::arithmetic::div_mod::lemma_fundamental_div_mod(media_time as int, U32_WRAP as int);
    assert(o % (U32_WRAP as int) == 0) by (nonlinear_arith)
        requires
            o == media_time / U32_WRAP * U32_WRAP,
    ;
    vstd::arithmetic::div_mod::lemma_mod_multiples_vanish(
        (media_time / U32_WRAP) as int,
        rtp_timestamp as int,
        U32_WRAP as int,
    );
    vstd::arithmetic::div_mod::lemma_small_mod(rtp_timestamp as nat, U32_WRAP as nat);
    assert((media_time / U32_WRAP) * U32_WRAP == U32_WRAP * (media_time / U32_WRAP)) by (nonlinear_arith);
}

/// What a sender stamps, a calibrated receiver unwraps back: a packet for media time
/// `ingress_time` carries the timestamp `ingress_time % 2^32`; calibrated at a later reading
/// of the same clock less than one wrap on, whose low 32 bits have reached the timestamp,
/// the receiver places the packet at `ingress_time` again (with no RTP offset).
pub proof fn lemma_unwrap_recovers_ingress_time(ingress_time: u64, media_time: u64)
    requires
        ingress_time <= media_time,
        media_time - ingress_time < U32_WRAP,
        (media_time % U32_WRAP) as u32 >= crate::sender::rtp_timestamp(ingress_time),
    ensures
        media_time / U32_WRAP * U32_WRAP + crate::sender::rtp_timestamp(ingress_time)
            == ingress_time,
{
    let w = U32_WRAP as int;
    let ts = crate::sender::rtp_timestamp(ingress_time);
    vstd::arithmetic::div_mod::lemma_fundamental_div_mod(ingress_time as int, w);
    vstd::arithmetic::div_mod::lemma_fundamental_div_mod(media_time as int, w);
    vstd::arithmetic::div_mod::lemma_mod_bound(ingress_time as int, w);
    vstd::arithmetic::div_mod::lemma_mod_bound(media_time as int, w);
    assert(ts == ingress_time % U32_WRAP);
    let qi = ingress_time as int / w;
    let qm = media_time as int / w;
    assert(qm == qi) by (nonlinear_arith)
        requires
            ingress_time == w * qi + ingress_time as int % w,
            media_time == w * qm + media_time as int % w,
            0 <= ingress_time as int % w < w,
            0 <= media_time as int % w < w,
            media_time as int % w >= ingress_time as int % w,
            ingress_time <= media_time,
            media_time - ingress_time < w,
            w > 0,
    ;
    assert(qm * w == w * qm) by (nonlinear_arith);
}

/// The number of whole frames in a payload of `len` bytes.
pub fn frames_in_buffer(len: usize, bytes_per_frame: usize) -> (r: u64)
    requires
        bytes_per_frame > 0,
    ensures
        r == frames_in(len as nat, bytes_per_frame as nat),
{
    len as u64 / bytes_per_frame as u64
}

/// What a packet reports whose frames belong at `ingress_time` but that arrived at media
/// time `media_time_at_reception`: a packet from the future is reported, and the timeline is
/// then calibrated again; any other packet reports nothing of the kind.
pub fn time_travelling(sequence_number: u16, ingress_time: Frames, media_time_at_reception: Frames) -> (r:
    Option<RxStats>)
    ensures
        ingress_time > media_time_at_reception ==> r == Some(
            RxStats::TimeTravellingPacket { sequence_number, ingress_time, media_time_at_reception },
        ),
        ingress_time <= media_time_at_reception ==> r is None,
{
    if ingress_time > media_time_at_reception {
        Some(RxStats::TimeTravellingPacket { sequence_number, ingress_time, media_time_at_reception })
    } else {
        None
    }
}

} // verus!
