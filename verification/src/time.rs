//! Clock readings and the conversion of PTP time to media time.

use crate::formats::{Frames, FramesPerSecond};
use vstd::prelude::*;

verus! {

pub const NANOS_PER_SEC: u128 = 1_000_000_000;

pub const NANOS_PER_MILLI: u64 = 1_000_000;

pub const MICROS_PER_MILLI: u64 = 1_000;

pub const NANOS_PER_MICRO: u64 = 1_000;

pub const MILLIS_PER_SEC: u64 = 1_000;

pub const MICROS_PER_SEC: u64 = 1_000_000;

/// A point in time: whole seconds and nanoseconds since the clock's epoch.
#[derive(Debug, Clone, Copy, PartialEq, Eq, Structural, Hash, Default)]
pub struct Timestamp {
    pub seconds: u64,
    pub nanos: u32,
}

/// A reading of the system clock.
pub type SystemTimestamp = Timestamp;

/// A reading of the PTP clock.
pub type PtpTimestamp = Timestamp;

/// A clock reading: media time in frames, PTP time and system time.
#[derive(Debug, Clone, Copy, PartialEq, Eq, Structural)]
pub struct Time {
    pub media_time: Frames,
    pub ptp_time: Timestamp,
    pub system_time: Timestamp,
}

/// The time between two clock readings: in frames of media time, and as a duration of PTP
/// time (whole seconds and nanoseconds below a second).
#[derive(Debug, Clone, Copy, PartialEq, Eq, Structural)]
pub struct ClockDuration {
    pub media_duration: Frames,
    pub ptp_duration: Timestamp,
}

/// The network interfaces whose hardware clocks are used.
#[derive(Debug, Clone)]
pub enum ClockNic {
    NonRedundant(String),
    Redundant { primary: String, secondary: String },
}

/// The nanoseconds since the epoch that a timestamp stands for.
pub open spec fn timestamp_nanos(ts: Timestamp) -> nat {
    (ts.seconds * 1_000_000_000 + ts.nanos) as nat
}

/// Whether a timestamp is a valid duration: std's `Duration::new` panics where the
/// nanoseconds carry the seconds past `u64::MAX`.
pub open spec fn timestamp_in_range(ts: Timestamp) -> bool {
    ts.seconds + ts.nanos / 1_000_000_000 <= u64::MAX
}

/// The media time of a PTP time at a sample rate: the whole frames since the epoch,
/// truncated to 64 bits.
pub open spec fn media_time(ptp_time: Timestamp, sample_rate: FramesPerSecond) -> Frames {
    ((timestamp_nanos(ptp_time) * sample_rate / 1_000_000_000) % 0x1_0000_0000_0000_0000) as u64
}

fn total_nanos(ts: Timestamp) -> (r: u128)
    ensures
        r == timestamp_nanos(ts),
{
    ts.seconds as u128 * 1_000_000_000 + ts.nanos as u128
}

/// The media time of a PTP time: frames since the epoch at the given sample rate.
pub fn to_media_time(ptp_time: Timestamp, sample_rate: FramesPerSecond) -> (r: Frames)
    requires
        timestamp_in_range(ptp_time),
    ensures
        r == media_time(ptp_time, sample_rate),
{
    let ptp_nanos = total_nanos(ptp_time);
    proof {
        assert(ptp_nanos * sample_rate <= u128::MAX) by (nonlinear_arith)
            requires
                ptp_nanos <= u64::MAX * 1_000_000_000 + u32::MAX,
                sample_rate <= u32::MAX,
        ;
    }
    let total_frames = (ptp_nanos * sample_rate as u128) / NANOS_PER_SEC;
    (total_frames % 0x1_0000_0000_0000_0000) as u64
}

impl Time {
    /// The time from `earlier` to this reading, each part saturating at zero where
    /// `earlier` is later.
    pub fn elapsed_since(&self, earlier: &Time) -> (r: ClockDuration)
        requires
            timestamp_in_range(self.ptp_time),
            timestamp_in_range(earlier.ptp_time),
        ensures
            r.media_duration == (if self.media_time >= earlier.media_time {
                self.media_time - earlier.media_time
            } else {
                0
            }),
            ({
                let d = if timestamp_nanos(self.ptp_time) >= timestamp_nanos(earlier.ptp_time) {
                    timestamp_nanos(self.ptp_time) - timestamp_nanos(earlier.ptp_time)
                } else {
                    0
                };
                r.ptp_duration == Timestamp {
                    seconds: (d / 1_000_000_000) as u64,
                    nanos: (d % 1_000_000_000) as u32,
                }
            }),
    {
        let media_duration = self.media_time.saturating_sub(earlier.media_time);
        let a = total_nanos(self.ptp_time);
        let b = total_nanos(earlier.ptp_time);
        let d = a.saturating_sub(b);
        proof {
            assert(d <= u64::MAX * 1_000_000_000 + u32::MAX);
        }
        ClockDuration {
            media_duration,
            ptp_duration: Timestamp {
                seconds: (d / 1_000_000_000) as u64,
                nanos: (d % 1_000_000_000) as u32,
            },
        }
    }

    /// The PTP time in whole milliseconds since the epoch, truncated to 64 bits.
    pub fn ptp_time_millis(&self) -> (r: u64)
        requires
            timestamp_in_range(self.ptp_time),
        ensures
            r == ((timestamp_nanos(self.ptp_time) / 1_000_000) % 0x1_0000_0000_0000_0000) as u64,
    {
        ((total_nanos(self.ptp_time) / 1_000_000) % 0x1_0000_0000_0000_0000) as u64
    }
}

/// A later time does not come before an earlier one on the media timeline.
pub proof fn lemma_media_time_monotonic(a: Timestamp, b: Timestamp, sample_rate: FramesPerSecond)
    requires
        timestamp_nanos(a) <= timestamp_nanos(b),
        timestamp_nanos(b) * sample_rate / 1_000_000_000 < 0x1_0000_0000_0000_0000,
    ensures
        media_time(a, sample_rate) <= media_time(b, sample_rate),
{
    let na = timestamp_nanos(a);
    let nb = timestamp_nanos(b);
    assert(na * sample_rate <= nb * sample_rate) by (nonlinear_arith)
        requires
            na <= nb,
    ;
    assert(na * sample_rate / 1_000_000_000 <= nb * sample_rate / 1_000_000_000) by (nonlinear_arith)
        requires
            na * sample_rate <= nb * sample_rate,
    ;
    vstd::arithmetic::div_mod::lemma_small_mod(
        (na * sample_rate / 1_000_000_000) as nat,
        0x1_0000_0000_0000_0000,
    );
    vstd::arithmetic::div_mod::lemma_small_mod(
        (nb * sample_rate / 1_000_000_000) as nat,
        0x1_0000_0000_0000_0000,
    );
}

/// The nanoseconds a `timespec` stands for: `tv_sec` seconds and `tv_nsec` nanoseconds.
pub open spec fn timespec_nanos(tv_sec: i64, tv_nsec: i64) -> int {
    tv_sec * 1_000_000_000 + tv_nsec
}

/// The nanoseconds a `timespec` stands for.
pub fn to_nanos(tv_sec: i64, tv_nsec: i64) -> (r: i128)
    ensures
        r == timespec_nanos(tv_sec, tv_nsec),
{
    tv_sec as i128 * 1_000_000_000 + tv_nsec as i128
}

/// The offset of a PTP hardware clock from the TAI clock: the hardware clock's reading less
/// the mean of two TAI readings taken before and after it (the mean truncated toward zero),
/// cut to 64 bits.
pub open spec fn phc_offset_of(tai_before: i128, phc: i128, tai_after: i128) -> i64 {
    (phc - crate::utils::trunc_div(tai_before + tai_after, 2)) as i64
}

/// The offset of a PTP hardware clock from the TAI clock, in nanoseconds, from readings of
/// TAI, the hardware clock and TAI again (see [`phc_offset_of`]).
pub fn phc_offset(tai_before: i128, phc: i128, tai_after: i128) -> (r: i64)
    requires
        i128::MIN <= tai_before + tai_after <= i128::MAX,
        i128::MIN <= phc - crate::utils::trunc_div(tai_before + tai_after, 2) <= i128::MAX,
    ensures
        r == phc_offset_of(tai_before, phc, tai_after),
{
    let sum = tai_before + tai_after;
    let mean = if sum >= 0 {
        sum / 2
    } else if sum == i128::MIN {
        i128::MIN / 2
    } else {
        -((-sum) / 2)
    };
    (phc - mean) as i64
}

/// The PTP time of a TAI reading of `tai_nanos` nanoseconds corrected by `offset`
/// nanoseconds: the sum, cut to 64 bits, in seconds and nanoseconds.
pub open spec fn ptp_timestamp_of(tai_nanos: i128, offset: i64) -> Timestamp {
    let n = (tai_nanos + offset) as u64;
    Timestamp { seconds: n / 1_000_000_000, nanos: (n % 1_000_000_000) as u32 }
}

/// The PTP time of a TAI reading corrected by the hardware clock's offset.
pub fn ptp_timestamp(tai_nanos: i128, offset: i64) -> (r: Timestamp)
    requires
        i128::MIN <= tai_nanos + offset <= i128::MAX,
    ensures
        r == ptp_timestamp_of(tai_nanos, offset),
{
    let n = (tai_nanos + offset as i128) as u64;
    Timestamp { seconds: n / 1_000_000_000, nanos: (n % 1_000_000_000) as u32 }
}

} // verus!
