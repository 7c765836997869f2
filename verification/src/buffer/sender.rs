//! Cutting the frames an application writes into RTP packets.
//!
//! The sender's byte buffer is split into `phases` equal parts. Each write fills one part,
//! after the frames left over from the previous write; whole packets are sent from it, and
//! the frames that do not fill a packet are copied to the start of the next part.

use crate::formats::Frames;
use core::ops::Range;
use vstd::prelude::*;

verus! {

/// The sending end of a bounded channel of tokio.
#[verifier::external_type_specification]
#[verifier::external_body]
#[verifier::reject_recursive_types(T)]
pub struct ExTokioSender<T>(tokio::sync::mpsc::Sender<T>);

/// Where the payload of one outgoing packet lies in the sender's buffer.
#[derive(Debug)]
pub struct OutgoingPacketPointer {
    pub ingress_time: Frames,
    pub payload_range: Range<usize>,
}

/// The frames that did not fill a packet: copy the bytes of `from` to `to`.
#[derive(Debug)]
pub struct SpilloverCopy {
    pub from: Range<usize>,
    pub to: usize,
}

/// The packets to send after a write, and the leftover frames to carry over.
#[derive(Debug)]
pub struct SendPlan {
    pub packets: Vec<OutgoingPacketPointer>,
    pub spillover: Option<SpilloverCopy>,
}

/// The state of the sender's buffer between writes.
#[derive(Debug, Clone, Copy, PartialEq, Eq, Structural)]
pub struct PacketPhases {
    /// The buffer's length in bytes.
    pub buffer_len: usize,
    /// How many parts the buffer is split into.
    pub phases: usize,
    /// The part the next write goes to.
    pub phase: usize,
    /// Frames written before that did not fill a packet; they open the current part.
    pub unsent_frames: usize,
    pub bytes_per_sample: usize,
    pub channels: usize,
    /// Bytes of one packet's payload.
    pub payload_len: usize,
    /// Frames of one packet.
    pub ptime_frames: usize,
}

pub open spec fn phase_offset(buffer_len: nat, phases: nat, phase: nat) -> nat {
    phase * buffer_len / phases
}

impl PacketPhases {
    pub open spec fn wf(self) -> bool {
        &&& self.phases > 0
        &&& self.phase < self.phases
        &&& self.ptime_frames > 0
        &&& self.unsent_frames < self.ptime_frames
        &&& self.phases * self.buffer_len <= usize::MAX
        &&& self.bytes_per_sample * self.channels <= usize::MAX
    }

    pub open spec fn bytes_per_frame(self) -> nat {
        (self.bytes_per_sample * self.channels) as nat
    }

    pub open spec fn current_offset(self) -> nat {
        phase_offset(self.buffer_len as nat, self.phases as nat, self.phase as nat)
    }

    /// A buffer of `buffer_len` bytes in `phases` parts, at the first part, with nothing left over.
    pub fn new(
        buffer_len: usize,
        phases: usize,
        bytes_per_sample: usize,
        channels: usize,
        payload_len: usize,
        ptime_frames: usize,
    ) -> (r: Self)
        requires
            phases > 0,
            ptime_frames > 0,
            phases * buffer_len <= usize::MAX,
            bytes_per_sample * channels <= usize::MAX,
        ensures
            r.wf(),
            r == (PacketPhases {
                buffer_len,
                phases,
                phase: 0,
                unsent_frames: 0,
                bytes_per_sample,
                channels,
                payload_len,
                ptime_frames,
            }),
    {
        PacketPhases {
            buffer_len,
            phases,
            phase: 0,
            unsent_frames: 0,
            bytes_per_sample,
            channels,
            payload_len,
            ptime_frames,
        }
    }

    /// The bytes of the sample of `channel` in frame `frame_index` of a write placed
    /// `offset_frames` frames in: frames follow the left-over ones in the current part,
    /// channels are interleaved within a frame.
    pub open spec fn spec_sample_range(
        self,
        channel: nat,
        frame_index: nat,
        offset_frames: nat,
    ) -> (int, int) {
        let start = self.current_offset() + (frame_index + self.unsent_frames + offset_frames)
            * self.bytes_per_frame() + channel * self.bytes_per_sample;
        (start, start + self.bytes_per_sample)
    }

    /// Where the bytes of one sample go.
    pub fn sample_range(&self, channel: usize, frame_index: usize, offset_frames: usize) -> (r:
        Range<usize>)
        requires
            self.wf(),
            frame_index + self.unsent_frames + offset_frames <= usize::MAX,
            self.spec_sample_range(channel as nat, frame_index as nat, offset_frames as nat).1
                <= usize::MAX,
        ensures
            r.start == self.spec_sample_range(channel as nat, frame_index as nat, offset_frames as nat).0,
            r.end == self.spec_sample_range(channel as nat, frame_index as nat, offset_frames as nat).1,
    {
        let offset = self.offset();
        let bpf = self.bytes_per_sample * self.channels;
        let frames = frame_index + self.unsent_frames + offset_frames;
        proof {
            assert(frames * bpf + channel * self.bytes_per_sample >= 0) by (nonlinear_arith)
                requires
                    frames >= 0,
                    bpf >= 0,
                    channel >= 0,
                    self.bytes_per_sample >= 0,
            ;
            assert(frames * bpf <= usize::MAX) by (nonlinear_arith)
                requires
                    offset + frames * bpf + channel * self.bytes_per_sample + self.bytes_per_sample
                        <= usize::MAX,
                    offset >= 0,
                    channel * self.bytes_per_sample >= 0,
                    self.bytes_per_sample >= 0,
            ;
            assert(channel * self.bytes_per_sample <= usize::MAX) by (nonlinear_arith)
                requires
                    offset + frames * bpf + channel * self.bytes_per_sample + self.bytes_per_sample
                        <= usize::MAX,
                    offset >= 0,
                    frames * bpf >= 0,
                    self.bytes_per_sample >= 0,
            ;
        }
        let start = offset + frames * bpf + channel * self.bytes_per_sample;
        start..start + self.bytes_per_sample
    }

    fn offset(&self) -> (r: usize)
        requires
            self.wf(),
        ensures
            r == self.current_offset(),
            r <= self.buffer_len,
    {
        proof {
            assert(self.phase * self.buffer_len <= self.phases * self.buffer_len) by (nonlinear_arith)
                requires
                    self.phase < self.phases,
            ;
            assert(self.phase * self.buffer_len / (self.phases as int) <= self.buffer_len) by (nonlinear_arith)
                requires
                    self.phase < self.phases,
                    self.phases > 0,
            ;
        }
        self.phase * self.buffer_len / self.phases
    }

    /// The frames waiting to be sent after writing `written_frames`.
    pub open spec fn available(self, written_frames: nat) -> nat {
        written_frames + self.unsent_frames as nat
    }

    /// How many whole packets a write of `written_frames` frames completes.
    pub open spec fn packet_count(self, written_frames: nat) -> nat {
        self.available(written_frames) / (self.ptime_frames as nat)
    }

    /// The frames left over.
    pub open spec fn spillover(self, written_frames: nat) -> nat {
        self.available(written_frames) % (self.ptime_frames as nat)
    }

    pub open spec fn next_phase(self) -> nat {
        ((self.phase + 1) % (self.phases as int)) as nat
    }

    /// Whether the numbers of a plan fit their types.
    pub open spec fn plan_fits(self, ingress_time: Frames, written_frames: nat) -> bool {
        &&& written_frames + self.unsent_frames <= usize::MAX
        &&& ingress_time >= self.unsent_frames
        &&& ingress_time - self.unsent_frames + self.packet_count(written_frames)
            * self.ptime_frames <= u64::MAX
        &&& self.current_offset() + self.packet_count(written_frames) * self.payload_len
            + self.spillover(written_frames) * self.bytes_per_frame() <= usize::MAX
    }

    /// The state after a write of `written_frames` frames was sent: the next part is the
    /// current one, and the frames that did not fill a packet open it.
    pub open spec fn after_send(self, written_frames: nat) -> PacketPhases {
        PacketPhases {
            phase: self.next_phase() as usize,
            unsent_frames: self.spillover(written_frames) as usize,
            ..self
        }
    }

    /// Plans the packets of a write of `written_frames` frames whose first frame has media
    /// time `ingress_time`: packet `i` starts `i` packets into the current part and has
    /// media time `ingress_time - unsent_frames + i * ptime_frames`; the frames that do not
    /// fill a packet are to be copied to the start of the next part.
    pub fn plan(&self, ingress_time: Frames, written_frames: usize) -> (r: SendPlan)
        requires
            self.wf(),
            self.plan_fits(ingress_time, written_frames as nat),
        ensures
            ({
                let s = *self;
                let n = s.packet_count(written_frames as nat);
                let spill = s.spillover(written_frames as nat);
                &&& r.packets@.len() == n
                &&& forall|i: int|
                    0 <= i < n ==> {
                        &&& (#[trigger] r.packets@[i]).ingress_time == ingress_time
                            - s.unsent_frames + i * s.ptime_frames
                        &&& r.packets@[i].payload_range.start == s.current_offset() + i
                            * s.payload_len
                        &&& r.packets@[i].payload_range.end == s.current_offset() + (i + 1)
                            * s.payload_len
                    }
                &&& spill > 0 ==> (r.spillover matches Some(c) && c.from.start
                    == s.current_offset() + n * s.payload_len && c.from.end == s.current_offset()
                    + n * s.payload_len + spill * s.bytes_per_frame() && c.to == phase_offset(
                    s.buffer_len as nat,
                    s.phases as nat,
                    s.next_phase(),
                ))
                &&& spill == 0 ==> r.spillover is None
            }),
    {
        let offset = self.offset();
        let payload_len = self.payload_len;
        let ptime = self.ptime_frames;
        let available = written_frames + self.unsent_frames;
        let spillover = available % ptime;
        proof {
            assert(spillover <= available) by (nonlinear_arith)
                requires
                    spillover == (available as int) % (ptime as int),
                    ptime > 0,
            ;
        }
        let packets = (available - spillover) / ptime;
        proof {
            assert(packets == (available as int) / (ptime as int)) by (nonlinear_arith)
                requires
                    spillover == (available as int) % (ptime as int),
                    packets == (available - spillover) / (ptime as int),
                    ptime > 0,
            {
                vstd::arithmetic::div_mod::lemma_fundamental_div_mod(available as int, ptime as int);
                vstd::arithmetic::div_mod::lemma_div_multiples_vanish(
                    available as int / (ptime as int),
                    ptime as int,
                );
            }
        }
        let first_ingress = ingress_time - self.unsent_frames as u64;
        let mut out: Vec<OutgoingPacketPointer> = Vec::new();
        let mut i: usize = 0;
        while i < packets
            invariant
                i <= packets,
                out@.len() == i,
                packets * payload_len + offset <= usize::MAX,
                first_ingress + packets * ptime <= u64::MAX,
                forall|k: int|
                    0 <= k < i ==> {
                        &&& (#[trigger] out@[k]).ingress_time == first_ingress + k * ptime
                        &&& out@[k].payload_range.start == offset + k * payload_len
                        &&& out@[k].payload_range.end == offset + (k + 1) * payload_len
                    },
            decreases packets - i,
        {
            proof {
                assert(i * ptime <= packets * ptime) by (nonlinear_arith)
                    requires
                        i < packets,
                ;
                assert((i + 1) * payload_len <= packets * payload_len) by (nonlinear_arith)
                    requires
                        i < packets,
                ;
                assert((i + 1) * payload_len == i * payload_len + payload_len) by (nonlinear_arith);
            }
            let packet_ingress = first_ingress + (i as u64) * (ptime as u64);
            let start = offset + i * payload_len;
            let end = start + payload_len;
            out.push(OutgoingPacketPointer { ingress_time: packet_ingress, payload_range: start..end });
            i = i + 1;
        }
        let next_phase = (self.phase + 1) % self.phases;
        let spill = if spillover > 0 {
            let bpf = self.bytes_per_sample * self.channels;
            let start = offset + packets * payload_len;
            let end = start + spillover * bpf;
            proof {
                assert(next_phase * self.buffer_len <= self.phases * self.buffer_len) by (nonlinear_arith)
                    requires
                        next_phase < self.phases,
                ;
            }
            let next_offset = next_phase * self.buffer_len / self.phases;
            Some(SpilloverCopy { from: start..end, to: next_offset })
        } else {
            None
        };
        SendPlan { packets: out, spillover: spill }
    }
}

/// Why a packet could not be handed to the sending side.
#[derive(Debug, Clone, Copy, PartialEq, Eq, Structural)]
pub enum PacketSendError {
    /// The channel holds as many packets as it can.
    Full,
    /// The sending side is gone.
    Closed,
}

/// `tokio::sync::mpsc::Sender::try_send`: hands the packet to the channel at once, or
/// fails because the channel is full or closed. Nothing is claimed of which comes: that
/// depends on the consumer at the other end. The second part of the result is the media
/// time and payload range of the pointer that was handed to `try_send`.
#[verifier::external_body]
fn try_send_packet(
    tx: &tokio::sync::mpsc::Sender<OutgoingPacketPointer>,
    packet: OutgoingPacketPointer,
) -> (r: (Result<(), PacketSendError>, (Frames, usize, usize)))
    ensures
        r.1 == (packet.ingress_time, packet.payload_range.start, packet.payload_range.end),
{
    let handed = (packet.ingress_time, packet.payload_range.start, packet.payload_range.end);
    match tx.try_send(packet) {
        Ok(()) => (Ok(()), handed),
        Err(tokio::sync::mpsc::error::TrySendError::Full(_)) => (Err(PacketSendError::Full), handed),
        Err(tokio::sync::mpsc::error::TrySendError::Closed(_)) => (Err(PacketSendError::Closed), handed),
    }
}

/// The bytes after copying `from_start..from_end` to `to` (`copy_within` of std).
pub open spec fn copied_within(buf: Seq<u8>, from_start: int, from_end: int, to: int) -> Seq<u8> {
    Seq::new(
        buf.len(),
        |j: int|
            if to <= j < to + (from_end - from_start) {
                buf[from_start + (j - to)]
            } else {
                buf[j]
            },
    )
}

/// Copies the bytes of `from_start..from_end` to `to`, as `copy_within` does, the two
/// ranges possibly overlapping.
pub fn copy_within(buf: &mut [u8], from_start: usize, from_end: usize, to: usize)
    requires
        from_start <= from_end <= old(buf)@.len(),
        to + (from_end - from_start) <= old(buf)@.len(),
    ensures
        final(buf)@ == copied_within(old(buf)@, from_start as int, from_end as int, to as int),
{
    let len = from_end - from_start;
    let mut tmp: Vec<u8> = Vec::new();
    let mut i: usize = 0;
    while i < len
        invariant
            len == from_end - from_start,
            from_end <= buf@.len(),
            buf@ == old(buf)@,
            i <= len,
            tmp@ == old(buf)@.subrange(from_start as int, (from_start + i) as int),
        decreases len - i,
    {
        tmp.push(buf[from_start + i]);
        i = i + 1;
        assert(tmp@ =~= old(buf)@.subrange(from_start as int, (from_start + i) as int));
    }
    let blen = buf.len();
    let mut k: usize = 0;
    while k < len
        invariant
            blen == buf@.len(),
            len == from_end - from_start,
            from_start <= from_end <= old(buf)@.len(),
            to + len <= buf@.len(),
            buf@.len() == old(buf)@.len(),
            tmp@ == old(buf)@.subrange(from_start as int, from_end as int),
            k <= len,
            forall|j: int|
                0 <= j < buf@.len() ==> #[trigger] buf@[j] == (if to <= j < to + k {
                    old(buf)@[from_start + (j - to)]
                } else {
                    old(buf)@[j]
                }),
        decreases len - k,
    {
        buf[to + k] = tmp[k];
        k = k + 1;
    }
    assert(buf@ =~= copied_within(old(buf)@, from_start as int, from_end as int, to as int));
}

impl PacketPhases {
    /// Whether the bytes of the leftover frames, and the place they are copied to, lie in a
    /// buffer of `len` bytes.
    pub open spec fn spill_fits(self, written_frames: nat, len: nat) -> bool {
        let spill = self.spillover(written_frames) * self.bytes_per_frame();
        self.spillover(written_frames) > 0 ==> {
            &&& self.current_offset() + self.packet_count(written_frames) * self.payload_len
                + spill <= len
            &&& phase_offset(self.buffer_len as nat, self.phases as nat, self.next_phase())
                + spill <= len
        }
    }

    /// The buffer after a write was sent: the leftover frames are copied to the start of
    /// the next part.
    pub open spec fn buffer_after_send(self, written_frames: nat, buf: Seq<u8>) -> Seq<u8> {
        let start = self.current_offset() + self.packet_count(written_frames) * self.payload_len;
        if self.spillover(written_frames) > 0 {
            copied_within(
                buf,
                start as int,
                start + self.spillover(written_frames) * self.bytes_per_frame(),
                phase_offset(self.buffer_len as nat, self.phases as nat, self.next_phase()) as int,
            )
        } else {
            buf
        }
    }

    /// Packet `i` of a write whose first frame has media time `ingress_time`: its media
    /// time and the start and end of its payload in the buffer.
    pub open spec fn planned_packet(self, ingress_time: Frames, i: int) -> (int, int, int) {
        (
            ingress_time - self.unsent_frames + i * self.ptime_frames,
            self.current_offset() + i * self.payload_len,
            self.current_offset() + (i + 1) * self.payload_len,
        )
    }

    /// Hands the packets of a write of `written_frames` frames to `tx`, in order, then
    /// copies the leftover frames to the start of the next part and moves on to it. Where a
    /// packet cannot be handed over, the error comes back at once, and the state and the
    /// buffer are as they were: the write can be sent again.
    ///
    /// The second part of the result lists the media time and payload range of each pointer
    /// handed to `tx`, as `try_send` took it: packet `i` of the plan as the `i`-th. On
    /// success they are all the plan's packets; on an error the last one is the pointer the
    /// channel refused, and those before it went out.
    pub fn send_packets(
        &mut self,
        buffer: &mut [u8],
        tx: &tokio::sync::mpsc::Sender<OutgoingPacketPointer>,
        ingress_time: Frames,
        written_frames: usize,
    ) -> (r: (Result<(), PacketSendError>, Ghost<Seq<(Frames, usize, usize)>>))
        requires
            old(self).wf(),
            old(self).plan_fits(ingress_time, written_frames as nat),
            old(self).spill_fits(written_frames as nat, old(buffer)@.len()),
        ensures
            final(self).wf(),
            ({
                let handed = r.1@;
                let n = old(self).packet_count(written_frames as nat);
                &&& handed.len() <= n
                &&& forall|i: int|
                    0 <= i < handed.len() ==> {
                        let (t, start, end) = old(self).planned_packet(ingress_time, i);
                        &&& (#[trigger] handed[i]).0 == t
                        &&& handed[i].1 == start
                        &&& handed[i].2 == end
                    }
                &&& r.0 is Ok ==> handed.len() == n
                &&& r.0 is Err ==> handed.len() >= 1
                &&& n == 0 ==> r.0 is Ok
            }),
            r.0 is Err ==> *final(self) == *old(self) && final(buffer)@ == old(buffer)@,
            r.0 is Ok ==> *final(self) == old(self).after_send(written_frames as nat)
                && final(buffer)@ == old(self).buffer_after_send(
                written_frames as nat,
                old(buffer)@,
            ),
            r.0 is Ok ==> r.1@.len() * old(self).ptime_frames + final(self).unsent_frames
                == written_frames + old(self).unsent_frames,
    {
        let plan = self.plan(ingress_time, written_frames);
        let n = plan.packets.len();
        let ghost mut handed: Seq<(Frames, usize, usize)> = Seq::empty();
        let mut i: usize = 0;
        while i < n
            invariant
                n == plan.packets@.len(),
                n == old(self).packet_count(written_frames as nat),
                i <= n,
                *self == *old(self),
                self.wf(),
                buffer@ == old(buffer)@,
                handed.len() == i,
                forall|k: int|
                    0 <= k < n ==> {
                        let (t, start, end) = old(self).planned_packet(ingress_time, k);
                        &&& (#[trigger] plan.packets@[k]).ingress_time == t
                        &&& plan.packets@[k].payload_range.start == start
                        &&& plan.packets@[k].payload_range.end == end
                    },
                forall|k: int|
                    0 <= k < i ==> {
                        let (t, start, end) = old(self).planned_packet(ingress_time, k);
                        &&& (#[trigger] handed[k]).0 == t
                        &&& handed[k].1 == start
                        &&& handed[k].2 == end
                    },
            decreases n - i,
        {
            let p = &plan.packets[i];
            let packet = OutgoingPacketPointer {
                ingress_time: p.ingress_time,
                payload_range: p.payload_range.start..p.payload_range.end,
            };
            let (sent, taken) = try_send_packet(tx, packet);
            proof {
                handed = handed.push(taken);
            }
            match sent {
                Ok(()) => {},
                Err(e) => {
                    return (Err(e), Ghost(handed));
                },
            }
            i = i + 1;
        }
        if let Some(c) = &plan.spillover {
            copy_within(buffer, c.from.start, c.from.end, c.to);
        }
        proof {
            lemma_frames_conserved(*self, written_frames as nat);
        }
        let available = written_frames + self.unsent_frames;
        self.phase = (self.phase + 1) % self.phases;
        self.unsent_frames = available % self.ptime_frames;
        (Ok(()), Ghost(handed))
    }
}

/// No frame is lost or made up by a plan: the frames of the planned packets and the frames
/// carried over to the next part add up to the frames waiting to be sent, and fewer than a
/// packet's worth is carried over.
pub proof fn lemma_frames_conserved(s: PacketPhases, written_frames: nat)
    requires
        s.wf(),
    ensures
        s.packet_count(written_frames) * s.ptime_frames + s.spillover(written_frames) == s.available(
            written_frames,
        ),
        s.spillover(written_frames) < s.ptime_frames,
{
    vstd::arithmetic::div_mod::lemma_fundamental_div_mod(
        s.available(written_frames) as int,
        s.ptime_frames as int,
    );
    vstd::arithmetic::div_mod::lemma_mod_bound(
        s.available(written_frames) as int,
        s.ptime_frames as int,
    );
    assert(s.packet_count(written_frames) * s.ptime_frames == s.ptime_frames * s.packet_count(
        written_frames,
    )) by (nonlinear_arith);
}

} // verus!
