//! Audio buffers shared between the network side and the audio side.

pub mod receiver;
pub mod sender;

use crate::buffer::receiver::{
    channel_read, deinterleaved, read_channel, samples_for, strip_count, strip_len, strip_len_of,
    write_deinterleaved,
};
use crate::formats::AudioFormat;
use crate::receiver::api::DataState;
use vstd::prelude::*;

verus! {

/// The address and length of an audio buffer that another thread or process owns.
#[derive(Debug, Clone, Copy, PartialEq, Eq, Structural)]
pub struct AudioBufferPointer {
    ptr: usize,
    len: usize,
}

impl AudioBufferPointer {
    pub closed spec fn spec_ptr(self) -> usize {
        self.ptr
    }

    pub closed spec fn spec_len(self) -> usize {
        self.len
    }

    /// A pointer to `len` elements at address `ptr`.
    pub fn new(ptr: usize, len: usize) -> (r: Self)
        ensures
            r.spec_ptr() == ptr,
            r.spec_len() == len,
    {
        Self { ptr, len }
    }

    /// The address of the buffer.
    pub fn ptr(&self) -> (r: usize)
        ensures
            r == self.spec_ptr(),
    {
        self.ptr
    }

    /// The number of elements of the buffer.
    pub fn len(&self) -> (r: usize)
        ensures
            r == self.spec_len(),
    {
        self.len
    }

    /// Whether the buffer has no elements.
    pub fn is_empty(&self) -> (r: bool)
        ensures
            r == (self.spec_len() == 0),
    {
        self.len == 0
    }
}

/// A ring of whole frames in a byte buffer: frame `n` of the stream lives at frame slot
/// `n % slots`, where `slots` is the number of frames the buffer holds.
pub struct AudioBuffer<'a, 'b> {
    pub buf: &'a mut [u8],
    pub desc: &'b AudioFormat,
}

/// The buffer after writing `payload` at byte `start`: the bytes up to the buffer's end
/// go from `start` on, the rest wraps round to the buffer's beginning.
pub open spec fn ring_written(old: Seq<u8>, payload: Seq<u8>, start: int) -> Seq<u8> {
    let len = old.len() as int;
    let end = start + payload.len();
    Seq::new(
        old.len(),
        |j: int|
            if end > len && j < end - len {
                payload[len - start + j]
            } else if start <= j < end {
                payload[j - start]
            } else {
                old[j]
            },
    )
}

impl<'a, 'b> AudioBuffer<'a, 'b> {
    pub open spec fn bytes_per_frame(self) -> nat {
        self.desc.spec_bytes_per_frame()
    }

    /// The byte where frame `playout_time` starts.
    pub open spec fn slot_start(self, playout_time: u64) -> int {
        let bpf = self.bytes_per_frame();
        ((playout_time as int) % ((self.buf@.len() / bpf) as int)) * bpf
    }

    /// Whether a payload of `len` bytes can be placed at `playout_time`: where it runs past
    /// the buffer's end, the part that wraps round is whole frames and fits the buffer.
    pub open spec fn fits(self, len: nat, playout_time: u64) -> bool {
        let end = self.slot_start(playout_time) + len;
        end > self.buf@.len() ==> {
            &&& (end - self.buf@.len()) % self.bytes_per_frame() as int == 0
            &&& end - self.buf@.len() <= self.buf@.len()
        }
    }

    /// A ring over `buf` for frames of the format `desc`.
    pub fn new(buf: &'a mut [u8], desc: &'b AudioFormat) -> (r: Self)
        ensures
            r.buf@ == old(buf)@,
            final(buf)@ == final(r.buf)@,
            r.desc == desc,
    {
        Self { buf, desc }
    }

    /// Writes the frames of `payload` at the slot of frame `playout_time`, wrapping round
    /// the buffer's end.
    pub fn insert(&mut self, payload: &[u8], playout_time: u64)
        requires
            0 < old(self).bytes_per_frame() <= old(self).buf@.len(),
            old(self).fits(payload@.len(), playout_time),
        ensures
            final(self).desc == old(self).desc,
            final(self).buf@ == ring_written(
                old(self).buf@,
                payload@,
                old(self).slot_start(playout_time),
            ),
    {
        let len = self.buf.len();
        let bpf = self.desc.bytes_per_frame();
        proof {
            assert(len / bpf >= 1) by (nonlinear_arith)
                requires
                    0 < bpf <= len,
            ;
        }
        let frames_in_buffer = (len / bpf) as u64;
        let frame_index = playout_time % frames_in_buffer;
        proof {
            assert(frame_index * bpf <= (len / bpf) * bpf) by (nonlinear_arith)
                requires
                    frame_index < len / bpf,
                    bpf > 0,
            ;
            assert((len / bpf) * bpf <= len) by (nonlinear_arith)
                requires
                    bpf > 0,
            ;
        }
        let byte_index = frame_index as usize * bpf;
        let ghost old_buf = self.buf@;
        let ghost start = byte_index as int;
        let plen = payload.len();
        if plen <= len - byte_index {
            let mut k: usize = 0;
            while k < plen
                invariant
                    self.buf@.len() == len,
                    self.desc == old(self).desc,
                    len == old_buf.len(),
                    plen == payload@.len(),
                    byte_index + plen <= len,
                    k <= plen,
                    forall|j: int|
                        0 <= j < len ==> self.buf@[j] == (if byte_index <= j < byte_index + k {
                            payload@[j - byte_index]
                        } else {
                            old_buf[j]
                        }),
                decreases plen - k,
            {
                self.buf[byte_index + k] = payload[k];
                k = k + 1;
            }
            assert(self.buf@ =~= ring_written(old_buf, payload@, start));
        } else {
            let modulo = plen - (len - byte_index);
            let pivot = plen - modulo;
            let mut k: usize = 0;
            while k < pivot
                invariant
                    self.buf@.len() == len,
                    self.desc == old(self).desc,
                    len == old_buf.len(),
                    plen == payload@.len(),
                    pivot == len - byte_index,
                    pivot < plen,
                    k <= pivot,
                    forall|j: int|
                        0 <= j < len ==> self.buf@[j] == (if byte_index <= j < byte_index + k {
                            payload@[j - byte_index]
                        } else {
                            old_buf[j]
                        }),
                decreases pivot - k,
            {
                self.buf[byte_index + k] = payload[k];
                k = k + 1;
            }
            let mut m: usize = 0;
            while m < modulo
                invariant
                    self.buf@.len() == len,
                    self.desc == old(self).desc,
                    len == old_buf.len(),
                    plen == payload@.len(),
                    pivot == len - byte_index,
                    modulo == byte_index + plen - len,
                    modulo <= len,
                    m <= modulo,
                    forall|j: int|
                        0 <= j < len ==> self.buf@[j] == (if j < m {
                            payload@[pivot + j]
                        } else if byte_index <= j {
                            payload@[j - byte_index]
                        } else {
                            old_buf[j]
                        }),
                decreases modulo - m,
            {
                self.buf[m] = payload[pivot + m];
                m = m + 1;
            }
            assert(self.buf@ =~= ring_written(old_buf, payload@, start));
        }
    }
}

/// A buffer of decoded samples of a stream with `channels` channels, kept either
/// interleaved (frame `n` at samples `n * channels ..`, round the buffer) or split into one
/// strip per channel.
pub struct FloatingPointAudioBuffer<T> {
    buf: Vec<T>,
    channels: usize,
}

impl<T: Copy> FloatingPointAudioBuffer<T> {
    pub closed spec fn samples(&self) -> Seq<T> {
        self.buf@
    }

    pub closed spec fn channel_count(&self) -> nat {
        self.channels as nat
    }

    /// The buffer holds whole frames of at least one channel.
    pub open spec fn wf(&self) -> bool {
        &&& self.channel_count() > 0
        &&& self.samples().len() % self.channel_count() == 0
    }

    /// A buffer over `buf` for `channels` channels; the buffer's length must be a multiple
    /// of the number of channels.
    pub fn new(buf: Vec<T>, channels: usize) -> (r: Self)
        requires
            channels > 0,
            buf@.len() % (channels as nat) == 0,
        ensures
            r.wf(),
            r.samples() == buf@,
            r.channel_count() == channels,
    {
        FloatingPointAudioBuffer { buf, channels }
    }

    /// The number of frames the buffer holds.
    pub fn frames(&self) -> (r: usize)
        requires
            self.wf(),
        ensures
            r == self.samples().len() / self.channel_count(),
    {
        self.buf.len() / self.channels
    }

    /// Writes interleaved samples: sample `o` goes to position
    /// `(playout_time * channels + o) % length`.
    pub fn insert(&mut self, samples: &[T], playout_time: u64)
        requires
            old(self).wf(),
            old(self).samples().len() > 0,
            playout_time * old(self).channel_count() + samples@.len() <= u64::MAX,
        ensures
            final(self).wf(),
            final(self).channel_count() == old(self).channel_count(),
            final(self).samples() == deinterleaved(
                old(self).samples(),
                samples@,
                1,
                (playout_time * old(self).channel_count()) as nat,
            ),
    {
        let t = playout_time * self.channels as u64;
        write_deinterleaved(self.buf.as_mut_slice(), 1, samples, t);
    }

    /// Writes interleaved samples into one strip per channel (see [`write_deinterleaved`]).
    pub fn insert_deinterlaced(&mut self, samples: &[T], playout_time: u64)
        requires
            old(self).wf(),
            old(self).samples().len() >= old(self).channel_count(),
            playout_time + samples@.len() <= u64::MAX,
        ensures
            final(self).wf(),
            final(self).channel_count() == old(self).channel_count(),
            final(self).samples() == deinterleaved(
                old(self).samples(),
                samples@,
                old(self).channel_count(),
                playout_time as nat,
            ),
    {
        write_deinterleaved(self.buf.as_mut_slice(), self.channels, samples, playout_time);
    }

    /// Reads `out.len()` interleaved samples from position
    /// `(playout_time * channels) % length` on, wrapping round the end once at most.
    pub fn read(&self, out: &mut [T], playout_time: u64) -> (r: DataState)
        requires
            self.wf(),
            self.samples().len() > 0,
            playout_time * self.channel_count() <= u64::MAX,
            ({
                let start = (playout_time * self.channel_count()) % (self.samples().len() as int);
                start + old(out)@.len() < 2 * self.samples().len()
            }),
        ensures
            r == DataState::Ready,
            final(out)@ == channel_read(
                self.samples(),
                1,
                0,
                old(out)@.len(),
                (playout_time * self.channel_count()) as nat,
            ),
    {
        let t = playout_time * self.channels as u64;
        proof {
            assert(strip_len_of(self.buf@.len(), 1, 0) == self.buf@.len());
        }
        read_channel(self.buf.as_slice(), 1, 0, out, t);
        DataState::Ready
    }

    /// Reads `out.len()` samples of channel `channel`'s strip from position
    /// `playout_time % strip length` on (see [`read_channel`]); a channel without a strip is
    /// refused.
    pub fn read_deinterlaced(&self, out: &mut [T], playout_time: u64, channel: usize) -> (r: DataState)
        requires
            self.wf(),
            self.samples().len() >= self.channel_count(),
            channel < strip_count(self.samples().len(), self.channel_count()) ==> (playout_time
                as int) % (strip_len_of(self.samples().len(), self.channel_count(), channel as nat)
                as int) + old(out)@.len() <= 2 * strip_len_of(
                self.samples().len(),
                self.channel_count(),
                channel as nat,
            ),
        ensures
            channel >= strip_count(self.samples().len(), self.channel_count()) ==> r
                == DataState::InvalidChannelNumber && final(out)@ == old(out)@,
            channel < strip_count(self.samples().len(), self.channel_count()) ==> r
                == DataState::Ready && final(out)@ == channel_read(
                self.samples(),
                self.channel_count(),
                channel as nat,
                old(out)@.len(),
                playout_time as nat,
            ),
    {
        let len = self.buf.len();
        let chunk = len / self.channels;
        proof {
            crate::buffer::receiver::lemma_strip_len_positive(len as nat, self.channels as nat);
        }
        let parts = (len - 1) / chunk + 1;
        if channel >= parts {
            return DataState::InvalidChannelNumber;
        }
        read_channel(self.buf.as_slice(), self.channels, channel, out, playout_time);
        DataState::Ready
    }
}

/// A read of the interleaved buffer gives back what an insert wrote: after inserting `m`
/// samples for `playout_time`, with `m` no more than the buffer holds, reading `m` samples
/// for the same time gives those samples.
pub proof fn lemma_interleaved_round_trip<T>(
    buf: Seq<T>,
    payload: Seq<T>,
    channels: nat,
    playout_time: nat,
)
    requires
        channels > 0,
        buf.len() > 0,
        1 <= payload.len() <= buf.len(),
    ensures
        channel_read(
            deinterleaved(buf, payload, 1, playout_time * channels),
            1,
            0,
            payload.len(),
            playout_time * channels,
        ) == payload,
{
    let t = playout_time * channels;
    assert(samples_for(payload.len(), 1, 0) == payload.len());
    assert(strip_len(buf.len(), 1) == buf.len());
    crate::buffer::receiver::lemma_read_after_write(buf, payload, 1, 0, t);
    let read = channel_read(deinterleaved(buf, payload, 1, t), 1, 0, payload.len(), t);
    assert forall|o: int| 0 <= o < payload.len() implies read[o] == payload[o] by {
        assert(payload[0 + o * 1] == payload[o]);
    }
    assert(read =~= payload);
}

} // verus!
