use aes67_rs::error::ClockError;
use aes67_rs::time::{phc_offset, ClockDuration, ptp_timestamp, to_media_time, to_nanos, Time, Timestamp};

#[test]
fn media_time_counts_frames_since_epoch() {
    assert_eq!(to_media_time(Timestamp { seconds: 1, nanos: 0 }, 48_000), 48_000);
    assert_eq!(to_media_time(Timestamp { seconds: 2, nanos: 500_000_000 }, 48_000), 120_000);
    // partial frames are cut off
    assert_eq!(to_media_time(Timestamp { seconds: 0, nanos: 20_833 }, 48_000), 0);
    assert_eq!(to_media_time(Timestamp { seconds: 0, nanos: 20_834 }, 48_000), 1);
    assert_eq!(to_media_time(Timestamp { seconds: 1_700_000_000, nanos: 0 }, 96_000), 163_200_000_000_000);
}

#[test]
fn nanoseconds_beyond_a_second_carry() {
    assert_eq!(
        to_media_time(Timestamp { seconds: 1, nanos: 1_500_000_000 }, 1_000),
        to_media_time(Timestamp { seconds: 2, nanos: 500_000_000 }, 1_000)
    );
}

#[test]
fn media_time_never_runs_backwards() {
    let times = [(0u64, 0u32), (0, 1), (0, 999_999_999), (1, 0), (1, 1), (2, 0), (10, 5), (1000, 0)];
    let media: Vec<u64> = times
        .iter()
        .map(|&(seconds, nanos)| to_media_time(Timestamp { seconds, nanos }, 44_100))
        .collect();
    assert!(media.windows(2).all(|w| w[0] <= w[1]));
    assert_eq!(media[3], 44_100);
}

#[test]
fn ptp_time_in_milliseconds() {
    let time = Time {
        media_time: 0,
        ptp_time: Timestamp { seconds: 12, nanos: 345_678_901 },
        system_time: Timestamp::default(),
    };
    assert_eq!(time.ptp_time_millis(), 12_345);
}

#[test]
fn timespec_in_nanoseconds() {
    assert_eq!(to_nanos(1, 5), 1_000_000_005);
    assert_eq!(to_nanos(-1, 0), -1_000_000_000);
}

#[test]
fn phc_offset_against_mean_tai() {
    assert_eq!(phc_offset(1_000, 1_537, 1_010), 532);
    // the mean is truncated toward zero
    assert_eq!(phc_offset(1_000, 1_000, 1_001), 0);
    assert_eq!(phc_offset(-3, 0, 0), 1);
}

#[test]
fn ptp_time_from_corrected_tai() {
    assert_eq!(ptp_timestamp(5_999_999_990, 37), Timestamp { seconds: 6, nanos: 27 });
    assert_eq!(ptp_timestamp(2_000_000_000, -1), Timestamp { seconds: 1, nanos: 999_999_999 });
}

#[test]
fn time_between_readings() {
    let earlier = Time {
        media_time: 48_000,
        ptp_time: Timestamp { seconds: 1, nanos: 900_000_000 },
        system_time: Timestamp::default(),
    };
    let later = Time {
        media_time: 48_480,
        ptp_time: Timestamp { seconds: 2, nanos: 100_000_000 },
        system_time: Timestamp::default(),
    };
    assert_eq!(
        later.elapsed_since(&earlier),
        ClockDuration { media_duration: 480, ptp_duration: Timestamp { seconds: 0, nanos: 200_000_000 } }
    );
    // backwards saturates at zero
    assert_eq!(
        earlier.elapsed_since(&later),
        ClockDuration { media_duration: 0, ptp_duration: Timestamp { seconds: 0, nanos: 0 } }
    );
}

#[test]
fn clock_error_carries_message() {
    assert_eq!(ClockError::other("no clock".to_owned()), ClockError::ClockError("no clock".to_owned()));
}
