//! The receiver's sample buffer: the buffer is split into equal strips, one ring per
//! channel, so that the audio side can read each channel on its own.

use crate::formats::Frames;
use crate::monitoring::RxStats;
use vstd::arithmetic::div_mod::{lemma_add_mod_noop, lemma_mod_bound, lemma_small_mod};
use vstd::prelude::*;

verus! {

/// The length of one channel's strip in a buffer of `len` samples for `channels` channels.
pub open spec fn strip_len(len: nat, channels: nat) -> nat {
    len / channels
}

/// The number of strips: the buffer cut into pieces of [`strip_len`], the last one
/// possibly shorter (`chunks` of std).
pub open spec fn strip_count(len: nat, channels: nat) -> nat {
    let c = strip_len(len, channels);
    if len == 0 {
        0
    } else {
        ((len - 1) / (c as int) + 1) as nat
    }
}

/// The length of strip `p`.
pub open spec fn strip_len_of(len: nat, channels: nat, p: nat) -> nat {
    let c = strip_len(len, channels);
    if len - p * c < c {
        (len - p * c) as nat
    } else {
        c
    }
}

/// How many of `n` interleaved samples belong to strip `p`: those at `p`, `p + channels`, ...
pub open spec fn samples_for(n: nat, channels: nat, p: nat) -> nat {
    if p < n {
        ((n - p - 1) / (channels as int) + 1) as nat
    } else {
        0
    }
}

/// A strip after its first `count` samples were written in order, sample `o` at position
/// `(t + o) % strip length`.
pub open spec fn strip_written<T>(
    strip: Seq<T>,
    samples: Seq<T>,
    p: nat,
    channels: nat,
    t: nat,
    count: nat,
) -> Seq<T>
    decreases count,
{
    if count == 0 {
        strip
    } else {
        strip_written(strip, samples, p, channels, t, (count - 1) as nat).update(
            ((t + count - 1) % (strip.len() as int)) as int,
            samples[(p + (count - 1) * channels) as int],
        )
    }
}

/// The buffer after [`write_deinterleaved`].
pub open spec fn deinterleaved<T>(buf: Seq<T>, samples: Seq<T>, channels: nat, t: nat) -> Seq<
    T,
> {
    let c = strip_len(buf.len(), channels);
    Seq::new(
        buf.len(),
        |j: int|
            {
                let p = (j / c as int) as nat;
                let start = p * c;
                let l = strip_len_of(buf.len(), channels, p);
                strip_written(
                    buf.subrange(start as int, (start + l) as int),
                    samples,
                    p,
                    channels,
                    t,
                    samples_for(samples.len(), channels, p),
                )[j - start]
            },
    )
}

/// What [`read_channel`] reads: `len` samples of strip `channel`, from position
/// `t % strip length` on, wrapping round the strip's end.
pub open spec fn channel_read<T>(buf: Seq<T>, channels: nat, channel: nat, len: nat, t: nat) -> Seq<
    T,
> {
    let c = strip_len(buf.len(), channels);
    let start = channel * c;
    let l = strip_len_of(buf.len(), channels, channel);
    Seq::new(len, |i: int| buf[start + ((t % l) + i) % (l as int)])
}

pub(crate) proof fn lemma_strip_len_positive(len: nat, channels: nat)
    requires
        channels > 0,
        len >= channels,
    ensures
        strip_len(len, channels) > 0,
        strip_count(len, channels) >= 1,
{
    let c = strip_len(len, channels);
    assert(c > 0) by (nonlinear_arith)
        requires
            c == len / channels,
            len >= channels,
            channels > 0,
    ;
    assert((len - 1) / (c as int) >= 0) by (nonlinear_arith)
        requires
            len >= 1,
            c > 0,
    ;
}

proof fn lemma_strip_bounds(len: nat, channels: nat, p: nat)
    requires
        channels > 0,
        len >= channels,
        p < strip_count(len, channels),
    ensures
        strip_len(len, channels) > 0,
        p * strip_len(len, channels) < len,
        0 < strip_len_of(len, channels, p) <= strip_len(len, channels),
        p * strip_len(len, channels) + strip_len_of(len, channels, p) <= len,
{
    lemma_strip_len_positive(len, channels);
    let c = strip_len(len, channels);
    let x = (len - 1) as int;
    let q = x / (c as int);
    vstd::arithmetic::div_mod::lemma_fundamental_div_mod(x, c as int);
    assert(p * c <= q * c) by (nonlinear_arith)
        requires
            p <= q,
            c > 0,
    ;
    assert(c * q == q * c) by (nonlinear_arith);
    assert(x % (c as int) >= 0) by (nonlinear_arith)
        requires
            c > 0,
    ;
}

proof fn lemma_full_strip(len: nat, channels: nat, p: nat)
    requires
        channels > 0,
        len >= channels,
        p < channels,
    ensures
        p < strip_count(len, channels),
        strip_len_of(len, channels, p) == strip_len(len, channels),
{
    lemma_strip_len_positive(len, channels);
    let c = strip_len(len, channels);
    assert((p + 1) * c <= len) by (nonlinear_arith)
        requires
            c == len / channels,
            p + 1 <= channels,
            channels > 0,
    ;
    assert((p + 1) * c == p * c + c) by (nonlinear_arith);
    let x = (len - 1) as int;
    vstd::arithmetic::div_mod::lemma_fundamental_div_mod(x, c as int);
    assert(p <= x / (c as int)) by (nonlinear_arith)
        requires
            p * c + c <= len,
            x == len - 1,
            x == c * (x / (c as int)) + x % (c as int),
            x % (c as int) < c,
            c > 0,
    ;
}

/// Writes interleaved samples into the strips: sample `p + o * channels` goes to strip `p`
/// at position `(ingress_time + o) % strip length`.
pub fn write_deinterleaved<T: Copy>(
    buf: &mut [T],
    channels: usize,
    samples: &[T],
    ingress_time: Frames,
)
    requires
        channels > 0,
        old(buf)@.len() >= channels,
        samples@.len() > 0 ==> ingress_time + samples_for(samples@.len(), channels as nat, 0) - 1
            <= u64::MAX,
    ensures
        final(buf)@ == deinterleaved(old(buf)@, samples@, channels as nat, ingress_time as nat),
{
    let len = buf.len();
    let n = samples.len();
    let chunk = len / channels;
    let ghost old_buf = buf@;
    proof {
        lemma_strip_len_positive(len as nat, channels as nat);
    }
    let parts = (len - 1) / chunk + 1;
    let mut p: usize = 0;
    while p < parts
        invariant
            len == buf@.len(),
            len == old_buf.len(),
            n == samples@.len(),
            channels > 0,
            len >= channels,
            chunk == strip_len(len as nat, channels as nat),
            chunk > 0,
            parts == strip_count(len as nat, channels as nat),
            p <= parts,
            n > 0 ==> ingress_time + samples_for(n as nat, channels as nat, 0) - 1 <= u64::MAX,
            forall|j: int|
                0 <= j < len ==> #[trigger] buf@[j] == (if j < p * chunk {
                    deinterleaved(old_buf, samples@, channels as nat, ingress_time as nat)[j]
                } else {
                    old_buf[j]
                }),
        decreases parts - p,
    {
        proof {
            lemma_strip_bounds(len as nat, channels as nat, p as nat);
        }
        let start = p * chunk;
        let l = if len - start < chunk {
            len - start
        } else {
            chunk
        };
        let count: usize = if p < n {
            (n - p - 1) / channels + 1
        } else {
            0
        };
        let ghost strip = old_buf.subrange(start as int, start + l);
        proof {
            if p < n {
                vstd::arithmetic::div_mod::lemma_div_is_ordered(
                    (n - p - 1) as int,
                    (n - 1) as int,
                    channels as int,
                );
            }
        }
        let mut o: usize = 0;
        while o < count
            invariant
                len == buf@.len(),
                len == old_buf.len(),
                n == samples@.len(),
                channels > 0,
                start + l <= len,
                0 < l,
                strip == old_buf.subrange(start as int, start + l),
                count == samples_for(n as nat, channels as nat, p as nat),
                o <= count,
                count > 0 ==> ingress_time + count - 1 <= u64::MAX,
                buf@.subrange(start as int, start + l) == strip_written(
                    strip,
                    samples@,
                    p as nat,
                    channels as nat,
                    ingress_time as nat,
                    o as nat,
                ),
                forall|j: int|
                    0 <= j < start ==> #[trigger] buf@[j] == deinterleaved(
                        old_buf,
                        samples@,
                        channels as nat,
                        ingress_time as nat,
                    )[j],
                forall|j: int| start + l <= j < len ==> #[trigger] buf@[j] == old_buf[j],
            decreases count - o,
        {
            proof {
                assert(p + o * channels < n) by (nonlinear_arith)
                    requires
                        o < count,
                        count == (n - p - 1) / (channels as int) + 1,
                        p < n,
                        channels > 0,
                ;
            }
            let k = p + o * channels;
            let pos = ((ingress_time + o as u64) % l as u64) as usize;
            let ghost before = buf@;
            buf[start + pos] = samples[k];
            proof {
                assert(buf@.subrange(start as int, start + l) =~= before.subrange(
                    start as int,
                    start + l,
                ).update(pos as int, samples@[k as int]));
            }
            o = o + 1;
        }
        proof {
            assert forall|j: int| 0 <= j < len implies #[trigger] buf@[j] == (if j < (p + 1)
                * chunk {
                deinterleaved(old_buf, samples@, channels as nat, ingress_time as nat)[j]
            } else {
                old_buf[j]
            }) by {
                assert((p + 1) * chunk == start + chunk) by (nonlinear_arith)
                    requires
                        start == p * chunk,
                ;
                if start <= j < start + l {
                    assert(j / (chunk as int) == p) by (nonlinear_arith)
                        requires
                            start == p * chunk,
                            start <= j < start + l,
                            l <= chunk,
                            chunk > 0,
                    ;
                    assert(l == strip_len_of(len as nat, channels as nat, p as nat));
                    assert(count == samples_for(n as nat, channels as nat, p as nat));
                    assert(deinterleaved(old_buf, samples@, channels as nat, ingress_time as nat)[j]
                        == strip_written(
                        old_buf.subrange(start as int, start + l),
                        samples@,
                        p as nat,
                        channels as nat,
                        ingress_time as nat,
                        count as nat,
                    )[j - start]);
                    assert(buf@[j] == buf@.subrange(start as int, start + l)[j - start]);
                }
                if j >= start + l && j < (p + 1) * chunk {
                    assert(false) by (nonlinear_arith)
                        requires
                            start == p * chunk,
                            j >= start + l,
                            j < (p + 1) * chunk,
                            j < len,
                            l == (if len - start < chunk {
                                (len - start) as int
                            } else {
                                chunk as int
                            }),
                    ;
                }
            }
        }
        p = p + 1;
    }
    proof {
        let x = (len - 1) as int;
        vstd::arithmetic::div_mod::lemma_fundamental_div_mod(x, chunk as int);
        assert(len <= parts * chunk) by (nonlinear_arith)
            requires
                parts == x / (chunk as int) + 1,
                x == chunk * (x / (chunk as int)) + x % (chunk as int),
                x % (chunk as int) < chunk,
                x == len - 1,
                chunk > 0,
        ;
    }
    assert(buf@ =~= deinterleaved(old_buf, samples@, channels as nat, ingress_time as nat));
}

/// Reads `out.len()` samples of channel `channel`'s strip, starting at position
/// `ingress_time % strip length` and wrapping round the strip's end once at most.
pub fn read_channel<T: Copy>(
    buf: &[T],
    channels: usize,
    channel: usize,
    out: &mut [T],
    ingress_time: Frames,
)
    requires
        channels > 0,
        buf@.len() >= channels,
        channel < strip_count(buf@.len(), channels as nat),
        ((ingress_time as int) % (strip_len_of(buf@.len(), channels as nat, channel as nat) as int))
            + old(out)@.len() <= 2 * strip_len_of(buf@.len(), channels as nat, channel as nat),
    ensures
        final(out)@ == channel_read(
            buf@,
            channels as nat,
            channel as nat,
            old(out)@.len(),
            ingress_time as nat,
        ),
{
    let len = buf.len();
    let chunk = len / channels;
    proof {
        lemma_strip_bounds(len as nat, channels as nat, channel as nat);
    }
    let start = channel * chunk;
    let l = if len - start < chunk {
        len - start
    } else {
        chunk
    };
    let first = (ingress_time % l as u64) as usize;
    let n = out.len();
    let mut i: usize = 0;
    while i < n
        invariant
            n == out@.len(),
            len == buf@.len(),
            start + l <= len,
            0 < l,
            l == strip_len_of(len as nat, channels as nat, channel as nat),
            start == channel * strip_len(len as nat, channels as nat),
            first == (ingress_time as int) % (l as int),
            first + n <= 2 * l,
            i <= n,
            forall|k: int|
                0 <= k < i ==> #[trigger] out@[k] == channel_read(
                    buf@,
                    channels as nat,
                    channel as nat,
                    n as nat,
                    ingress_time as nat,
                )[k],
        decreases n - i,
    {
        let pos = if i < l - first {
            first + i
        } else {
            i - (l - first)
        };
        proof {
            if first + i < l {
                lemma_small_mod((first + i) as nat, l as nat);
            } else {
                lemma_small_mod((first + i - l) as nat, l as nat);
                assert((first + i) % (l as int) == (first + i - l) % (l as int)) by (nonlinear_arith)
                    requires
                        l > 0,
                        first + i >= l,
                ;
            }
        }
        out[i] = buf[start + pos];
        i = i + 1;
    }
    assert(out@ =~= channel_read(buf@, channels as nat, channel as nat, n as nat, ingress_time as nat));
}

proof fn lemma_strip_written_len<T>(
    strip: Seq<T>,
    samples: Seq<T>,
    p: nat,
    channels: nat,
    t: nat,
    count: nat,
)
    requires
        strip.len() > 0,
    ensures
        strip_written(strip, samples, p, channels, t, count).len() == strip.len(),
    decreases count,
{
    if count > 0 {
        lemma_strip_written_len(strip, samples, p, channels, t, (count - 1) as nat);
        lemma_mod_bound((t + count - 1) as int, strip.len() as int);
    }
}

proof fn lemma_strip_written_at<T>(
    strip: Seq<T>,
    samples: Seq<T>,
    p: nat,
    channels: nat,
    t: nat,
    count: nat,
    o: nat,
)
    requires
        0 < count <= strip.len(),
        o < count,
    ensures
        strip_written(strip, samples, p, channels, t, count)[((t + o) % strip.len()) as int]
            == samples[(p + o * channels) as int],
    decreases count,
{
    let l = strip.len();
    lemma_strip_written_len(strip, samples, p, channels, t, (count - 1) as nat);
    lemma_mod_bound((t + o) as int, l as int);
    lemma_mod_bound((t + count - 1) as int, l as int);
    if o + 1 < count {
        lemma_strip_written_at(strip, samples, p, channels, t, (count - 1) as nat, o);
        assert(((t + o) as int) % (l as int) != ((t + count - 1) as int) % (l as int)) by (nonlinear_arith)
            requires
                l > 0,
                o < count - 1,
                count <= l,
        {
            let a: int = (t + o) as int;
            let d: int = (count - 1 - o) as int;
            assert(0 < d < l);
            assert((a + d) % (l as int) != a % (l as int)) by (nonlinear_arith)
                requires
                    0 < d < l,
                    a >= 0,
                    l > 0,
            {
                let q = a / (l as int);
                let r = a % (l as int);
                assert(a == q * l + r);
                assert(0 <= r < l);
                if r + d < l {
                    assert((a + d) == q * l + (r + d));
                    assert((a + d) % (l as int) == r + d);
                } else {
                    assert((a + d) == (q + 1) * l + (r + d - l));
                    assert((a + d) % (l as int) == r + d - l);
                }
            }
        }
    }
}

/// The position in a ring of `l` cells that the `o`-th sample of a write at `t` goes to.
pub open spec fn ring_slot(t: int, o: int, l: int) -> int {
    (t + o) % l
}

proof fn lemma_strip_written_untouched<T>(
    strip: Seq<T>,
    samples: Seq<T>,
    p: nat,
    channels: nat,
    t: nat,
    count: nat,
    q: int,
)
    requires
        strip.len() > 0,
        0 <= q < strip.len(),
        forall|o: int| 0 <= o < count ==> #[trigger] ring_slot(t as int, o, strip.len() as int) != q,
    ensures
        strip_written(strip, samples, p, channels, t, count)[q] == strip[q],
    decreases count,
{
    if count > 0 {
        lemma_strip_written_untouched(strip, samples, p, channels, t, (count - 1) as nat, q);
        lemma_strip_written_len(strip, samples, p, channels, t, (count - 1) as nat);
        assert(ring_slot(t as int, count - 1, strip.len() as int) != q);
    }
}

/// What a write leaves in a channel's strip, stated directly: with `c` the strip length,
/// sample `j` of channel `ch` (sample `ch + j * channels` of the interleaved input) lands
/// at `ch * c + (t + j) % c`, and every other cell of the strip keeps its value, where the
/// channel's samples fit its strip.
pub proof fn lemma_deinterleaved_cells<T>(
    buf: Seq<T>,
    samples: Seq<T>,
    channels: nat,
    ch: nat,
    t: nat,
)
    requires
        channels > 0,
        buf.len() >= channels,
        ch < channels,
        samples_for(samples.len(), channels, ch) <= strip_len(buf.len(), channels),
    ensures
        ({
            let c = strip_len(buf.len(), channels);
            let count = samples_for(samples.len(), channels, ch);
            let w = deinterleaved(buf, samples, channels, t);
            &&& w.len() == buf.len()
            &&& forall|j: int|
                0 <= j < count ==> #[trigger] w[ch * c + (t + j) % (c as int)] == samples[ch + j
                    * channels]
            &&& forall|q: int|
                0 <= q < c && (forall|j: int|
                    0 <= j < count ==> #[trigger] ring_slot(t as int, j, c as int) != q) ==> #[trigger] w[ch
                    * c + q] == buf[ch * c + q]
        }),
{
    let c = strip_len(buf.len(), channels);
    let count = samples_for(samples.len(), channels, ch);
    lemma_full_strip(buf.len(), channels, ch);
    lemma_strip_bounds(buf.len(), channels, ch);
    let start = ch * c;
    let strip = buf.subrange(start as int, (start + c) as int);
    let w = deinterleaved(buf, samples, channels, t);
    assert forall|q: int| 0 <= q < c implies (#[trigger] w[start + q]) == strip_written(
        strip,
        samples,
        ch,
        channels,
        t,
        count,
    )[q] by {
        assert((start + q) / (c as int) == ch) by (nonlinear_arith)
            requires
                start == ch * c,
                0 <= q < c,
                c > 0,
        ;
    }
    assert forall|j: int| 0 <= j < count implies #[trigger] w[ch * c + (t + j) % (c as int)]
        == samples[ch + j * channels] by {
        lemma_mod_bound(t + j, c as int);
        if count > 0 {
            lemma_strip_written_at(strip, samples, ch, channels, t, count, j as nat);
        }
        assert(w[start + (t + j) % (c as int)] == strip_written(strip, samples, ch, channels, t, count)[(t + j) % (c as int)]);
    }
    assert forall|q: int|
        0 <= q < c && (forall|j: int|
            0 <= j < count ==> #[trigger] ring_slot(t as int, j, c as int) != q) implies #[trigger] w[ch
            * c + q] == buf[ch * c + q] by {
        lemma_strip_written_untouched(strip, samples, ch, channels, t, count, q);
        assert(w[start + q] == strip_written(strip, samples, ch, channels, t, count)[q]);
    }
}

/// A read gives back what a write wrote: after writing interleaved samples at
/// `ingress_time`, reading channel `channel` at `ingress_time` gives that channel's samples,
/// where the channel's samples fit its strip.
pub proof fn lemma_read_after_write<T>(
    buf: Seq<T>,
    samples: Seq<T>,
    channels: nat,
    channel: nat,
    ingress_time: nat,
)
    requires
        channels > 0,
        buf.len() >= channels,
        channel < channels,
        samples_for(samples.len(), channels, channel) <= strip_len(buf.len(), channels),
    ensures
        ({
            let count = samples_for(samples.len(), channels, channel);
            let read = channel_read(
                deinterleaved(buf, samples, channels, ingress_time),
                channels,
                channel,
                count,
                ingress_time,
            );
            &&& read.len() == count
            &&& forall|o: int| 0 <= o < count ==> #[trigger] read[o] == samples[channel + o * channels]
        }),
{
    let count = samples_for(samples.len(), channels, channel);
    let c = strip_len(buf.len(), channels);
    lemma_full_strip(buf.len(), channels, channel);
    lemma_strip_bounds(buf.len(), channels, channel);
    let written = deinterleaved(buf, samples, channels, ingress_time);
    let start = channel * c;
    let strip = buf.subrange(start as int, (start + c) as int);
    let read = channel_read(written, channels, channel, count, ingress_time);
    assert forall|o: int| 0 <= o < count implies #[trigger] read[o] == samples[channel + o
        * channels] by {
        let pos = ((ingress_time % c) + o) % (c as int);
        lemma_add_mod_noop(ingress_time as int, o, c as int);
        lemma_small_mod(o as nat, c as nat);
        assert(pos == (ingress_time + o) % (c as int));
        lemma_mod_bound(ingress_time + o, c as int);
        let j = start + pos;
        assert(j / (c as int) == channel) by (nonlinear_arith)
            requires
                j == channel * c + pos,
                0 <= pos < c,
                c > 0,
        ;
        lemma_strip_written_at(strip, samples, channel, channels, ingress_time, count, o as nat);
    }
}

/// The last frame a write of `frames` frames at `ingress_time` covers.
pub fn last_frame_written(ingress_time: Frames, frames: u64) -> (r: Frames)
    requires
        ingress_time + frames >= 1,
        ingress_time + frames <= u64::MAX + 1,
    ensures
        r == ingress_time + frames - 1,
{
    if frames == 0 {
        ingress_time - 1
    } else {
        ingress_time + (frames - 1)
    }
}

/// Whether frames from `ingress_time` on are gone from a ring of `frames_in_buffer` frames
/// once `latest_received_frame` has arrived: the oldest frame still held is
/// `latest_received_frame - frames_in_buffer + 1`.
pub fn data_is_late(latest_received_frame: Frames, frames_in_buffer: u64, ingress_time: Frames) -> (r:
    bool)
    requires
        latest_received_frame + 1 >= frames_in_buffer,
    ensures
        r == (latest_received_frame - frames_in_buffer + 1 > ingress_time),
{
    let oldest = if frames_in_buffer == 0 {
        latest_received_frame as u128 + 1
    } else {
        (latest_received_frame - (frames_in_buffer - 1)) as u128
    };
    oldest > ingress_time as u128
}


/// What a read of `out_len` frames from `ingress_time` on has to do, given the latest
/// frame that has arrived.
#[derive(Debug, Clone, Copy, PartialEq, Eq, Structural)]
pub enum ReadStep {
    /// The last requested frame has not arrived: wait until frame `until` has.
    Wait { until: Frames },
    /// The requested frames are no longer in the ring.
    Late,
    /// The requested frames can be read.
    Read,
}

/// The step a read takes: it waits while the last requested frame,
/// `ingress_time + out_len - 1`, has not arrived; then the read is late where the oldest
/// frame still held, `latest_received_frame - frames_in_buffer + 1`, is past
/// `ingress_time`, and reads otherwise.
pub fn read_step(latest_received_frame: Frames, frames_in_buffer: u64, ingress_time: Frames, out_len: usize) -> (r:
    ReadStep)
    requires
        out_len >= 1,
        ingress_time + out_len - 1 <= u64::MAX,
        latest_received_frame >= ingress_time + out_len - 1 ==> latest_received_frame + 1
            >= frames_in_buffer,
    ensures
        latest_received_frame < ingress_time + out_len - 1 ==> r == (ReadStep::Wait {
            until: (ingress_time + out_len - 1) as u64,
        }),
        latest_received_frame >= ingress_time + out_len - 1 ==> (r == ReadStep::Late <==> (
        latest_received_frame - frames_in_buffer + 1 > ingress_time)),
        latest_received_frame >= ingress_time + out_len - 1 ==> (r == ReadStep::Read <==> !(
        latest_received_frame - frames_in_buffer + 1 > ingress_time)),
{
    let last_requested = ingress_time + (out_len as u64 - 1);
    if latest_received_frame < last_requested {
        ReadStep::Wait { until: last_requested }
    } else if data_is_late(latest_received_frame, frames_in_buffer, ingress_time) {
        ReadStep::Late
    } else {
        ReadStep::Read
    }
}

/// Whether some channel is asked for.
pub open spec fn any_wanted(wanted: Seq<bool>) -> bool {
    exists|i: int| 0 <= i < wanted.len() && wanted[i]
}

/// The samples that [`read_channel`] reads, in a new vector of `len` samples.
fn channel_samples<T: Copy>(buf: &[T], channels: usize, channel: usize, len: usize, ingress_time: Frames) -> (r:
    Vec<T>)
    requires
        channels > 0,
        buf@.len() >= channels,
        channel < strip_count(buf@.len(), channels as nat),
        ((ingress_time as int) % (strip_len_of(buf@.len(), channels as nat, channel as nat) as int))
            + len <= 2 * strip_len_of(buf@.len(), channels as nat, channel as nat),
    ensures
        r@ == channel_read(buf@, channels as nat, channel as nat, len as nat, ingress_time as nat),
{
    let n = buf.len();
    let chunk = n / channels;
    proof {
        lemma_strip_bounds(n as nat, channels as nat, channel as nat);
    }
    let start = channel * chunk;
    let l = if n - start < chunk {
        n - start
    } else {
        chunk
    };
    let first = (ingress_time % l as u64) as usize;
    let mut out: Vec<T> = Vec::new();
    let mut i: usize = 0;
    while i < len
        invariant
            n == buf@.len(),
            start + l <= n,
            0 < l,
            l == strip_len_of(n as nat, channels as nat, channel as nat),
            start == channel * strip_len(n as nat, channels as nat),
            first == (ingress_time as int) % (l as int),
            first + len <= 2 * l,
            i <= len,
            out@.len() == i,
            forall|k: int|
                0 <= k < i ==> #[trigger] out@[k] == channel_read(
                    buf@,
                    channels as nat,
                    channel as nat,
                    len as nat,
                    ingress_time as nat,
                )[k],
        decreases len - i,
    {
        let pos = if i < l - first {
            first + i
        } else {
            i - (l - first)
        };
        proof {
            if first + i < l {
                lemma_small_mod((first + i) as nat, l as nat);
            } else {
                lemma_small_mod((first + i - l) as nat, l as nat);
                assert((first + i) % (l as int) == (first + i - l) % (l as int)) by (nonlinear_arith)
                    requires
                        l > 0,
                        first + i >= l,
                ;
            }
        }
        out.push(buf[start + pos]);
        i = i + 1;
    }
    assert(out@ =~= channel_read(buf@, channels as nat, channel as nat, len as nat, ingress_time as nat));
    out
}

/// Reads every channel asked for into its output, all at `ingress_time`, once the frames
/// have arrived up to `latest_received_frame`. Where some channel is asked for and the
/// frames are no longer in the ring, nothing is written and the answer is `false`; where
/// none is asked for, nothing is read and the answer is `true`.
pub fn read_channels<T: Copy>(
    buf: &[T],
    channels: usize,
    outs: &mut Vec<Vec<T>>,
    wanted: &[bool],
    ingress_time: Frames,
    latest_received_frame: Frames,
    frames_in_buffer: u64,
) -> (r: bool)
    requires
        channels > 0,
        buf@.len() >= channels,
        old(outs)@.len() == wanted@.len(),
        forall|i: int|
            0 <= i < wanted@.len() && #[trigger] wanted@[i] ==> i < strip_count(
                buf@.len(),
                channels as nat,
            ) && ((ingress_time as int) % (strip_len_of(buf@.len(), channels as nat, i as nat) as int))
                + old(outs)@[i]@.len() <= 2 * strip_len_of(buf@.len(), channels as nat, i as nat),
        any_wanted(wanted@) ==> latest_received_frame + 1 >= frames_in_buffer,
    ensures
        r == (!any_wanted(wanted@) || !(latest_received_frame - frames_in_buffer + 1
            > ingress_time)),
        final(outs)@.len() == old(outs)@.len(),
        forall|i: int|
            0 <= i < wanted@.len() ==> #[trigger] final(outs)@[i]@ == (if r && wanted@[i] {
                channel_read(
                    buf@,
                    channels as nat,
                    i as nat,
                    old(outs)@[i]@.len(),
                    ingress_time as nat,
                )
            } else {
                old(outs)@[i]@
            }),
{
    let n = wanted.len();
    let mut any = false;
    let mut k: usize = 0;
    while k < n
        invariant
            n == wanted@.len(),
            k <= n,
            any == (exists|j: int| 0 <= j < k && wanted@[j]),
        decreases n - k,
    {
        if wanted[k] {
            any = true;
        }
        k = k + 1;
    }
    if !any {
        assert(forall|i: int| 0 <= i < wanted@.len() ==> #[trigger] outs@[i]@ == old(outs)@[i]@);
        return true;
    }
    if data_is_late(latest_received_frame, frames_in_buffer, ingress_time) {
        return false;
    }
    let ghost before = outs@;
    let mut i: usize = 0;
    while i < n
        invariant
            n == wanted@.len(),
            before == old(outs)@,
            outs@.len() == n,
            i <= n,
            channels > 0,
            buf@.len() >= channels,
            forall|j: int|
                0 <= j < wanted@.len() && #[trigger] wanted@[j] ==> j < strip_count(
                    buf@.len(),
                    channels as nat,
                ) && ((ingress_time as int) % (strip_len_of(buf@.len(), channels as nat, j as nat) as int))
                    + before[j]@.len() <= 2 * strip_len_of(buf@.len(), channels as nat, j as nat),
            forall|j: int|
                0 <= j < n ==> #[trigger] outs@[j]@ == (if j < i && wanted@[j] {
                    channel_read(
                        buf@,
                        channels as nat,
                        j as nat,
                        before[j]@.len(),
                        ingress_time as nat,
                    )
                } else {
                    before[j]@
                }),
        decreases n - i,
    {
        if wanted[i] {
            let len = outs[i].len();
            let samples = channel_samples(buf, channels, i, len, ingress_time);
            outs.set(i, samples);
        }
        i = i + 1;
    }
    true
}

/// What a read reports to the receiver's statistics: the playout, once some frame has
/// arrived.
pub fn report_playout(ingress_time: Frames, latest_received_frame: Frames) -> (r: Option<RxStats>)
    ensures
        latest_received_frame > 0 ==> r == Some(
            RxStats::Playout { ingress_time, latest_received_frame },
        ),
        latest_received_frame == 0 ==> r is None,
{
    if latest_received_frame > 0 {
        Some(RxStats::Playout { ingress_time, latest_received_frame })
    } else {
        None
    }
}

} // verus!
