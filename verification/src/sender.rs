//! AES67 sender logic: turning slots of the send buffer into RTP packets, pacing them, and
//! the frame bookkeeping of a write from the audio side.

use crate::formats::{Frames, PayloadType};
use crate::rtp::{RtpError, RtpHeader};
use crate::utils::U32_WRAP;
use rtp_rs::{RtpPacketBuildError, RtpPacketBuilder};
use vstd::prelude::*;

verus! {

/// A request to a running sender.
#[derive(Debug, Clone, Copy, PartialEq, Eq, Structural)]
pub enum SenderApiMessage {
    Stop,
}

/// The largest RTP packet that is sent.
pub const MAX_MTU: usize = 1500;

/// The length of an RTP header without contributing sources or extension.
pub const RTP_HEADER_LEN: usize = 12;

/// Why `rtp_rs::RtpPacketBuilder::build_into` refused to build a packet (its
/// `RtpPacketBuildError`).
#[derive(Debug, Clone, Copy, PartialEq, Eq, Structural)]
pub enum RtpBuildError {
    BufferTooSmall,
    PayloadTypeInvalid,
    ExtensionTooLarge,
    ExtensionMissingPadding,
}

/// Why a packet was not sent.
#[derive(Debug, Clone, Copy, PartialEq, Eq, Structural)]
pub enum PacketError {
    Build(RtpBuildError),
    /// The packet would have had this many bytes, more than [`MAX_MTU`].
    MaxMtuExceeded(usize),
}

/// The bytes of an RTP packet of version 2 without padding, extension or contributing
/// sources and without the marker bit: the 12-byte header (big-endian sequence number,
/// timestamp and source), then the payload.
pub open spec fn rtp_packet_bytes(
    payload_type: u8,
    sequence_number: u16,
    timestamp: u32,
    ssrc: u32,
    payload: Seq<u8>,
) -> Seq<u8> {
    seq![
        0x80u8,
        payload_type,
        (sequence_number / 0x100) as u8,
        (sequence_number % 0x100) as u8,
        (timestamp / 0x100_0000) as u8,
        (timestamp / 0x1_0000 % 0x100) as u8,
        (timestamp / 0x100 % 0x100) as u8,
        (timestamp % 0x100) as u8,
        (ssrc / 0x100_0000) as u8,
        (ssrc / 0x1_0000 % 0x100) as u8,
        (ssrc / 0x100 % 0x100) as u8,
        (ssrc % 0x100) as u8,
    ] + payload
}

/// `rtp_rs::RtpPacketBuilder` with a payload type, sequence number, timestamp, payload and
/// source, built into `target` with `build_into`. Claimed, as the crate's source shows:
/// a target shorter than the packet is refused with `BufferTooSmall`; otherwise a payload
/// type above 127 is refused with `PayloadTypeInvalid`; otherwise the packet is written at
/// the target's start, the rest of the target is left as it was, and its length returned.
#[verifier::external_body]
fn build_rtp(
    payload_type: u8,
    sequence_number: u16,
    timestamp: u32,
    ssrc: u32,
    payload: &[u8],
    target: &mut [u8],
) -> (r: Result<usize, RtpBuildError>)
    requires
        payload@.len() + 12 <= usize::MAX,
    ensures
        r == (if old(target)@.len() < payload@.len() + 12 {
            Err::<usize, RtpBuildError>(RtpBuildError::BufferTooSmall)
        } else if payload_type >= 128 {
            Err::<usize, RtpBuildError>(RtpBuildError::PayloadTypeInvalid)
        } else {
            Ok::<usize, RtpBuildError>((payload@.len() + 12) as usize)
        }),
        final(target)@ == (if r is Ok {
            rtp_packet_bytes(payload_type, sequence_number, timestamp, ssrc, payload@) + old(
                target,
            )@.skip((payload@.len() + 12) as int)
        } else {
            old(target)@
        }),
{
    let b = RtpPacketBuilder::new().payload_type(payload_type).ssrc(ssrc).payload(payload);
    match b.sequence(rtp_rs::Seq::from(sequence_number)).timestamp(timestamp).build_into(target) {
        Ok(len) => Ok(len),
        Err(RtpPacketBuildError::BufferTooSmall) => Err(RtpBuildError::BufferTooSmall),
        Err(RtpPacketBuildError::PayloadTypeInvalid) => Err(RtpBuildError::PayloadTypeInvalid),
        Err(RtpPacketBuildError::ExtensionTooLarge) => Err(RtpBuildError::ExtensionTooLarge),
        Err(RtpPacketBuildError::ExtensionMissingPadding) => Err(RtpBuildError::ExtensionMissingPadding),
    }
}

/// The RTP timestamp of a media time: its low 32 bits.
pub open spec fn rtp_timestamp(ingress_time: Frames) -> u32 {
    (ingress_time % U32_WRAP) as u32
}

/// What a sender puts into its packets besides the audio: payload type, source and the
/// sequence number of the next packet.
#[derive(Debug, Clone, Copy, PartialEq, Eq, Structural)]
pub struct RtpPacketizer {
    pub payload_type: PayloadType,
    pub ssrc: u32,
    pub sequence_number: u16,
}

/// `rand::random::<u16>()`. Nothing is claimed of the number.
#[verifier::external_body]
fn random_u16() -> u16 {
    rand::random::<u16>()
}

/// `rand::random::<u32>()`. Nothing is claimed of the number.
#[verifier::external_body]
fn random_u32() -> u32 {
    rand::random::<u32>()
}

impl RtpPacketizer {
    /// A packetizer for packets of payload type `payload_type`, with a random source and a
    /// random first sequence number.
    pub fn new(payload_type: PayloadType) -> (r: Self)
        ensures
            r.payload_type == payload_type,
    {
        RtpPacketizer { payload_type, ssrc: random_u32(), sequence_number: random_u16() }
    }

    /// The outcome of packetizing slot `slot_index` (of `payload_len` bytes) of `buffer` for
    /// media time `ingress_time` into a target of `target` bytes.
    pub open spec fn packet(
        self,
        ingress_time: Frames,
        payload: Seq<u8>,
        target: Seq<u8>,
    ) -> (Result<usize, PacketError>, Seq<u8>) {
        let len = payload.len() + 12;
        if target.len() < len {
            (Err(PacketError::Build(RtpBuildError::BufferTooSmall)), target)
        } else if self.payload_type >= 128 {
            (Err(PacketError::Build(RtpBuildError::PayloadTypeInvalid)), target)
        } else {
            let written = rtp_packet_bytes(
                self.payload_type,
                self.sequence_number,
                rtp_timestamp(ingress_time),
                self.ssrc,
                payload,
            ) + target.skip(len as int);
            if len > MAX_MTU {
                (Err(PacketError::MaxMtuExceeded(len as usize)), written)
            } else {
                (Ok(len as usize), written)
            }
        }
    }

    /// Builds the RTP packet for slot `slot_index` of the send buffer, which starts media
    /// time `ingress_time`, into `target`. The sequence number advances (round the 16-bit
    /// circle) whether or not the packet can be built; a packet over [`MAX_MTU`] bytes is
    /// refused.
    pub fn packetize(
        &mut self,
        ingress_time: Frames,
        slot_index: usize,
        payload_len: usize,
        buffer: &[u8],
        target: &mut [u8],
    ) -> (r: Result<usize, PacketError>)
        requires
            slot_index * payload_len + payload_len <= buffer@.len(),
            payload_len + 12 <= usize::MAX,
        ensures
            final(self).sequence_number == (old(self).sequence_number + 1) % 0x1_0000,
            final(self).payload_type == old(self).payload_type,
            final(self).ssrc == old(self).ssrc,
            (r, final(target)@) == old(self).packet(
                ingress_time,
                buffer@.subrange(
                    slot_index * payload_len,
                    slot_index * payload_len + payload_len,
                ),
                old(target)@,
            ),
    {
        let seq = self.sequence_number;
        let next = seq.wrapping_add(1);
        proof {
            assert(next == (seq + 1) % 0x1_0000) by (bit_vector)
                requires
                    next == seq.wrapping_add(1),
            ;
        }
        self.sequence_number = next;
        let timestamp = (ingress_time % U32_WRAP) as u32;
        let n = buffer.len();
        proof {
            assert(slot_index * payload_len + payload_len <= n);
        }
        let start_index = slot_index * payload_len;
        let end_index = start_index + payload_len;
        let payload = vstd::slice::slice_subrange(buffer, start_index, end_index);
        match build_rtp(self.payload_type, seq, timestamp, self.ssrc, payload, target) {
            Ok(len) => {
                if len > MAX_MTU {
                    Err(PacketError::MaxMtuExceeded(len))
                } else {
                    Ok(len)
                }
            },
            Err(e) => Err(PacketError::Build(e)),
        }
    }
}

proof fn lemma_be_bytes_u32(t: u32)
    ensures
        ((t / 0x100_0000) as u8) * 0x100_0000int + ((t / 0x1_0000 % 0x100) as u8) * 0x1_0000int
            + ((t / 0x100 % 0x100) as u8) * 0x100int + ((t % 0x100) as u8) == t,
{
    assert(((t / 0x100_0000) as u8) * 0x100_0000int + ((t / 0x1_0000 % 0x100) as u8) * 0x1_0000int
        + ((t / 0x100 % 0x100) as u8) * 0x100int + ((t % 0x100) as u8) == t) by (bit_vector);
}

proof fn lemma_be_bytes_u16(s: u16)
    ensures
        ((s / 0x100) as u8) * 0x100int + ((s % 0x100) as u8) == s,
{
    assert(((s / 0x100) as u8) * 0x100int + ((s % 0x100) as u8) == s) by (bit_vector);
}

/// What the packetizer writes, the receiver's RTP reading gives back: on success the
/// target starts with a version-2 packet with the packetizer's payload type, its sequence
/// number, the media time's low 32 bits as timestamp and its source, all big-endian, and
/// it reads as a packet with that sequence number and timestamp and the slot's bytes as
/// its payload.
pub proof fn lemma_packet_reads_back(
    p: RtpPacketizer,
    ingress_time: Frames,
    payload: Seq<u8>,
    target: Seq<u8>,
)
    requires
        p.packet(ingress_time, payload, target).0 is Ok,
    ensures
        ({
            let (r, w) = p.packet(ingress_time, payload, target);
            let len = r->Ok_0;
            &&& len == payload.len() + 12
            &&& w[0] == 0x80 && w[1] == p.payload_type
            &&& w[2] * 0x100int + w[3] == p.sequence_number
            &&& w[8] * 0x100_0000int + w[9] * 0x1_0000int + w[10] * 0x100int + w[11] == p.ssrc
            &&& w[4] * 0x100_0000int + w[5] * 0x1_0000int + w[6] * 0x100int + w[7]
                == ingress_time % 0x1_0000_0000
            &&& crate::rtp::rtp_read(w.take(len as int)) == Ok::<RtpHeader, RtpError>(
                RtpHeader {
                    sequence_number: p.sequence_number,
                    timestamp: (ingress_time % 0x1_0000_0000) as u32,
                    payload_offset: 12,
                    payload_len: payload.len() as usize,
                },
            )
            &&& w.subrange(12, len as int) == payload
        }),
{
    let ts = rtp_timestamp(ingress_time);
    lemma_be_bytes_u32(ts);
    lemma_be_bytes_u32(p.ssrc);
    lemma_be_bytes_u16(p.sequence_number);
    let (r, w) = p.packet(ingress_time, payload, target);
    let len = r->Ok_0;
    let data = w.take(len as int);
    assert(w.subrange(12, len as int) =~= payload);
    assert(data[0] == 0x80u8);
    assert(0x80u8 / 64 == 2 && 0x80u8 % 16 == 0 && (0x80u8 / 16) % 2 == 0 && (0x80u8 / 32) % 2
        == 0) by (bit_vector);
}

/// How long the sender waits before sending a packet that starts at media time
/// `ingress_time`, when the clock reads `media_time`: where the packet lies more than ten
/// packet times ahead, it waits until one packet time before it is due; otherwise it sends
/// at once. Media times are taken as `i64`, as the arithmetic does.
pub open spec fn frames_to_wait(ingress_time: Frames, media_time: Frames, ptime_frames: Frames) -> Option<Frames> {
    let ahead = (ingress_time as i64) - (media_time as i64);
    if ahead > 10 * (ptime_frames as i64) {
        Some((ahead - ptime_frames) as u64)
    } else {
        None
    }
}

/// The frames to sleep before sending the packet at `ingress_time` (see [`frames_to_wait`]).
pub fn frames_to_sleep(ingress_time: Frames, media_time: Frames, ptime_frames: Frames) -> (r: Option<Frames>)
    requires
        i64::MIN <= (ingress_time as i64) - (media_time as i64) <= i64::MAX,
        10 * (ptime_frames as i64) <= i64::MAX,
        10 * (ptime_frames as i64) >= i64::MIN,
        (ingress_time as i64) - (media_time as i64) > 10 * (ptime_frames as i64) ==> (ingress_time
            as i64) - (media_time as i64) >= ptime_frames,
    ensures
        r == frames_to_wait(ingress_time, media_time, ptime_frames),
{
    let ahead = ingress_time as i64 - media_time as i64;
    let limit = 10 * ptime_frames as i64;
    if ahead > limit {
        Some(ahead as u64 - ptime_frames)
    } else {
        None
    }
}

/// How one channel's samples of a write go into the send buffer.
#[derive(Debug, Clone, Copy, PartialEq, Eq, Structural)]
pub enum ChannelWrite {
    /// The first sample is written `repeat` times at frames `0..repeat`, then all
    /// samples from frame `repeat` on: the write starts earlier than the audio did.
    Padded { repeat: usize },
    /// The first `skip` samples are dropped and the rest written from frame 0: the write
    /// starts later than the audio did.
    Skipped { skip: usize },
    /// All samples are written from frame 0.
    Plain,
}

/// The frame bookkeeping of one write from the audio side: where the written frames start
/// on the media timeline, how many frames the audio buffer has, how many frames the write
/// yields and by how many frames it is moved to compensate for clock drift.
#[derive(Debug, Clone, Copy, PartialEq, Eq, Structural)]
pub struct WriteState {
    pub ingress_time: Frames,
    pub buffer_len_frames: usize,
    pub new_frames: usize,
    pub compensation: i64,
}

impl WriteState {
    /// No write started yet.
    pub fn new() -> (r: Self)
        ensures
            r == (WriteState { ingress_time: 0, buffer_len_frames: 0, new_frames: 0, compensation: 0 }),
    {
        WriteState { ingress_time: 0, buffer_len_frames: 0, new_frames: 0, compensation: 0 }
    }

    /// Starts a write of `buffer_len` frames of audio that begins at media time
    /// `ingress_time`, moved by `compensation` frames: the written frames start
    /// `compensation` frames earlier and there are `compensation` frames more of them. The
    /// arithmetic is that of `i64`, the media time taken as one.
    pub fn start_write(&mut self, ingress_time: u64, buffer_len: usize, compensation: i64)
        requires
            i64::MIN <= (ingress_time as i64) - compensation <= i64::MAX,
            i64::MIN <= (buffer_len as i64) + compensation <= i64::MAX,
        ensures
            *final(self) == (WriteState {
                ingress_time: ((ingress_time as i64) - compensation) as u64,
                buffer_len_frames: buffer_len,
                new_frames: ((buffer_len as i64) + compensation) as usize,
                compensation,
            }),
    {
        self.ingress_time = (ingress_time as i64 - compensation) as u64;
        self.buffer_len_frames = buffer_len;
        self.new_frames = (buffer_len as i64 + compensation) as usize;
        self.compensation = compensation;
    }

    /// How a channel of `len` samples is written under the current compensation.
    pub fn channel_write(&self, len: usize) -> (r: ChannelWrite)
        requires
            self.compensation > 0 ==> len > 0,
            self.compensation < 0 ==> -self.compensation <= len,
            self.compensation != i64::MIN,
        ensures
            r == (if self.compensation > 0 {
                ChannelWrite::Padded { repeat: self.compensation as usize }
            } else if self.compensation < 0 {
                ChannelWrite::Skipped { skip: (-self.compensation) as usize }
            } else {
                ChannelWrite::Plain
            }),
    {
        if self.compensation > 0 {
            ChannelWrite::Padded { repeat: self.compensation as usize }
        } else if self.compensation < 0 {
            ChannelWrite::Skipped { skip: (0 - self.compensation) as usize }
        } else {
            ChannelWrite::Plain
        }
    }
}

/// The samples of a channel as they are written: under padding, the first sample
/// repeated, then all; under skipping, all but the skipped ones; otherwise all.
pub open spec fn written_samples<T>(plan: ChannelWrite, samples: Seq<T>) -> Seq<T> {
    match plan {
        ChannelWrite::Padded { repeat } => Seq::new(repeat as nat, |_i: int| samples[0]) + samples,
        ChannelWrite::Skipped { skip } => samples.skip(skip as int),
        ChannelWrite::Plain => samples,
    }
}

/// A write moved by `compensation` frames yields, per channel, as many samples as the
/// frames it announces: the buffer's length plus the compensation.
pub proof fn lemma_compensated_write_length<T>(s: WriteState, samples: Seq<T>)
    requires
        samples.len() == s.buffer_len_frames,
        s.compensation > 0 ==> samples.len() > 0,
        s.compensation < 0 ==> -s.compensation <= samples.len(),
        s.buffer_len_frames + s.compensation <= usize::MAX,
    ensures
        ({
            let plan = if s.compensation > 0 {
                ChannelWrite::Padded { repeat: s.compensation as usize }
            } else if s.compensation < 0 {
                ChannelWrite::Skipped { skip: (-s.compensation) as usize }
            } else {
                ChannelWrite::Plain
            };
            written_samples(plan, samples).len() == s.buffer_len_frames + s.compensation
        }),
{
}

/// One call of a channel write: the samples `start..end` of the channel's buffer go to the
/// frames from `offset_frames` on.
#[derive(Debug, Clone, Copy, PartialEq, Eq, Structural)]
pub struct SampleSpan {
    pub offset_frames: usize,
    pub start: usize,
    pub end: usize,
}

/// The calls that write a channel of `len` samples under a plan: under padding, the first
/// sample alone at each of the frames `0..repeat`, then all samples from frame `repeat` on;
/// under skipping, the samples from `skip` on at frame 0; otherwise all at frame 0.
pub open spec fn spans_of(plan: ChannelWrite, len: nat) -> Seq<SampleSpan> {
    match plan {
        ChannelWrite::Padded { repeat } => Seq::new(
            repeat as nat,
            |i: int| SampleSpan { offset_frames: i as usize, start: 0, end: 1 },
        ).push(SampleSpan { offset_frames: repeat, start: 0, end: len as usize }),
        ChannelWrite::Skipped { skip } => seq![
            SampleSpan { offset_frames: 0, start: skip, end: len as usize },
        ],
        ChannelWrite::Plain => seq![SampleSpan { offset_frames: 0, start: 0, end: len as usize }],
    }
}

/// The plan of a write moved by `compensation` frames.
pub open spec fn plan_of(compensation: i64) -> ChannelWrite {
    if compensation > 0 {
        ChannelWrite::Padded { repeat: compensation as usize }
    } else if compensation < 0 {
        ChannelWrite::Skipped { skip: (-compensation) as usize }
    } else {
        ChannelWrite::Plain
    }
}

impl WriteState {
    /// The calls that write a channel of `len` samples under the current compensation.
    pub fn channel_spans(&self, len: usize) -> (r: Vec<SampleSpan>)
        requires
            self.compensation > 0 ==> len > 0,
            self.compensation < 0 ==> -self.compensation <= len,
            self.compensation != i64::MIN,
        ensures
            r@ == spans_of(plan_of(self.compensation), len as nat),
    {
        let mut out: Vec<SampleSpan> = Vec::new();
        match self.channel_write(len) {
            ChannelWrite::Padded { repeat } => {
                let mut i: usize = 0;
                while i < repeat
                    invariant
                        i <= repeat,
                        out@ == Seq::new(
                            i as nat,
                            |k: int| SampleSpan { offset_frames: k as usize, start: 0, end: 1 },
                        ),
                    decreases repeat - i,
                {
                    out.push(SampleSpan { offset_frames: i, start: 0, end: 1 });
                    i = i + 1;
                    assert(out@ =~= Seq::new(
                        i as nat,
                        |k: int| SampleSpan { offset_frames: k as usize, start: 0, end: 1 },
                    ));
                }
                out.push(SampleSpan { offset_frames: repeat, start: 0, end: len });
            },
            ChannelWrite::Skipped { skip } => {
                out.push(SampleSpan { offset_frames: 0, start: skip, end: len });
            },
            ChannelWrite::Plain => {
                out.push(SampleSpan { offset_frames: 0, start: 0, end: len });
            },
        }
        assert(out@ =~= spans_of(plan_of(self.compensation), len as nat));
        out
    }
}

/// Sample `k` of call `i` lands at frame `o`.
pub open spec fn lands_at(spans: Seq<SampleSpan>, i: int, k: int, o: int) -> bool {
    &&& 0 <= i < spans.len()
    &&& 0 <= k < spans[i].end - spans[i].start
    &&& spans[i].offset_frames + k == o
}

/// The call and the sample in it that land at frame `o`.
pub open spec fn landing_at(plan: ChannelWrite, o: int) -> (int, int) {
    match plan {
        ChannelWrite::Padded { repeat } => if o < repeat {
            (o, 0)
        } else {
            (repeat as int, o - repeat)
        },
        _ => (0, o),
    }
}

/// The calls of a channel write fill each frame of the write, `0` up to the buffer's
/// length plus the compensation, exactly once and nothing beyond, and frame `o` gets
/// sample `o` of [`written_samples`]: under padding the first sample at the frames before
/// `compensation` and sample `o - compensation` after, under skipping sample
/// `o - compensation`, otherwise sample `o`.
pub proof fn lemma_compensated_write_contents<T>(s: WriteState, samples: Seq<T>)
    requires
        samples.len() == s.buffer_len_frames,
        s.compensation > 0 ==> samples.len() > 0,
        s.compensation < 0 ==> -s.compensation <= samples.len(),
        s.compensation != i64::MIN,
        s.buffer_len_frames + s.compensation <= usize::MAX,
    ensures
        ({
            let plan = plan_of(s.compensation);
            let spans = spans_of(plan, samples.len());
            let total = s.buffer_len_frames + s.compensation;
            &&& forall|o: int|
                0 <= o < total ==> {
                    let (i, k) = #[trigger] landing_at(plan, o);
                    &&& lands_at(spans, i, k, o)
                    &&& samples[spans[i].start + k] == written_samples(plan, samples)[o]
                }
            &&& forall|i: int, k: int, o: int|
                #[trigger] lands_at(spans, i, k, o) ==> 0 <= o < total && (i, k) == landing_at(
                    plan,
                    o,
                )
        }),
{
    let plan = plan_of(s.compensation);
    let spans = spans_of(plan, samples.len());
    let total = s.buffer_len_frames + s.compensation;
    assert forall|o: int| 0 <= o < total implies {
        let (i, k) = #[trigger] landing_at(plan, o);
        &&& lands_at(spans, i, k, o)
        &&& samples[spans[i].start + k] == written_samples(plan, samples)[o]
    } by {
        if s.compensation > 0 {
            let r = s.compensation as int;
            if o < r {
                assert(spans[o] == SampleSpan { offset_frames: o as usize, start: 0, end: 1 });
            } else {
                assert(spans[r] == SampleSpan {
                    offset_frames: r as usize,
                    start: 0,
                    end: samples.len() as usize,
                });
            }
        }
    }
    assert forall|i: int, k: int, o: int| #[trigger] lands_at(spans, i, k, o) implies 0 <= o
        < total && (i, k) == landing_at(plan, o) by {
        if s.compensation > 0 {
            let r = s.compensation as int;
            if i < r {
                assert(spans[i] == SampleSpan { offset_frames: i as usize, start: 0, end: 1 });
            } else {
                assert(spans[i] == SampleSpan {
                    offset_frames: r as usize,
                    start: 0,
                    end: samples.len() as usize,
                });
            }
        }
    }
}

} // verus!
