use aes67_rs::formats::{AudioFormat, FrameFormat, SampleFormat};
use aes67_rs::monitoring::receiver_stats::{ReceiverStats, AVERAGE_WINDOW};
use aes67_rs::monitoring::{ReceiverStatsReport, RxStats};

fn stereo_l24() -> AudioFormat {
    AudioFormat {
        sample_rate: 48_000,
        frame_format: FrameFormat { channels: 2, sample_format: SampleFormat::L24 },
    }
}

fn started() -> ReceiverStats {
    let mut stats = ReceiverStats::new("vsc/rx/1".to_owned());
    let out = stats.process(RxStats::Started(stereo_l24()));
    assert!(out.reports.is_empty());
    stats
}

#[test]
fn fresh_statistics_count_nothing() {
    let stats = ReceiverStats::new("r".to_owned());
    assert_eq!(stats.lost_packets(), 0);
    assert_eq!(stats.late_packets(), 0);
    assert_eq!(stats.missed_after(0), 0);
}

#[test]
fn packets_without_stream_format_are_ignored() {
    let mut stats = ReceiverStats::new("r".to_owned());
    let out = stats.process(RxStats::PacketReceived {
        seq: 1,
        payload_len: 288,
        ingress_time: 100,
        media_time_at_reception: 400,
    });
    assert!(out.reports.is_empty());
    assert_eq!(out.delay_average, None);
    let out = stats.process(RxStats::Playout { ingress_time: 10, latest_received_frame: 20 });
    assert!(out.reports.is_empty());
    assert_eq!(stats.process_late_packet(), None);
    assert_eq!(stats.late_packets(), 0);
}

#[test]
fn network_delay_reported_once_per_window() {
    let mut stats = started();
    // 288 bytes of stereo L24 are 48 frames; the delay is 400 - 100 - 48 frames.
    for i in 0..AVERAGE_WINDOW - 1 {
        let out = stats.process(RxStats::PacketReceived {
            seq: i as u16,
            payload_len: 288,
            ingress_time: 100,
            media_time_at_reception: 400,
        });
        assert!(out.reports.is_empty());
        assert_eq!(out.delay_average, None);
    }
    let out = stats.process(RxStats::PacketReceived {
        seq: 999,
        payload_len: 288,
        ingress_time: 100,
        media_time_at_reception: 400,
    });
    assert_eq!(out.delay_average, Some(252));
    assert_eq!(
        out.reports,
        vec![ReceiverStatsReport::NetworkDelay { receiver: "vsc/rx/1".to_owned(), delay_frames: 252 }]
    );
}

#[test]
fn negative_delay_average_truncates_toward_zero() {
    let mut stats = started();
    // one packet one frame late, the rest three frames early: the average is -2.996, truncated to -2
    let out = stats.process(RxStats::PacketReceived {
        seq: 0,
        payload_len: 0,
        ingress_time: 10,
        media_time_at_reception: 11,
    });
    assert_eq!(out.delay_average, None);
    let mut last = None;
    for _ in 1..AVERAGE_WINDOW {
        last = stats
            .process(RxStats::PacketReceived {
                seq: 0,
                payload_len: 0,
                ingress_time: 10,
                media_time_at_reception: 7,
            })
            .delay_average;
    }
    assert_eq!(last, Some(-2));
}

#[test]
fn skipped_packets_become_lost_at_playout() {
    let mut stats = started();
    stats.process(RxStats::OutOfOrderPacket {
        expected_timestamp: 1000,
        expected_sequence_number: 10,
        actual_sequence_number: 13,
    });
    assert_eq!(stats.missed_after(999), 3);
    // the packet skipped at 1001 arrives late after all
    stats.process(RxStats::PacketReceived {
        seq: 11,
        payload_len: 288,
        ingress_time: 1001,
        media_time_at_reception: 1300,
    });
    assert_eq!(stats.missed_after(999), 2);
    let out = stats.process(RxStats::Playout { ingress_time: 999, latest_received_frame: 2000 });
    assert_eq!(out.lost, vec![(1000, 10), (1002, 12)]);
    assert_eq!(
        out.reports,
        vec![ReceiverStatsReport::LostPackets { receiver: "vsc/rx/1".to_owned(), lost_packets: 2 }]
    );
    assert_eq!(stats.lost_packets(), 2);
    assert_eq!(stats.missed_after(0), 0);
    // nothing is reported lost twice
    let out = stats.process(RxStats::Playout { ingress_time: 999, latest_received_frame: 2000 });
    assert!(out.lost.is_empty());
    assert!(out.reports.is_empty());
}

#[test]
fn skipped_sequence_numbers_wrap() {
    let mut stats = started();
    stats.process(RxStats::OutOfOrderPacket {
        expected_timestamp: 50,
        expected_sequence_number: 65535,
        actual_sequence_number: 1,
    });
    let out = stats.process(RxStats::Playout { ingress_time: 0, latest_received_frame: 0 });
    assert_eq!(out.lost, vec![(50, 65535), (51, 0)]);
}

#[test]
fn earlier_sequence_number_skips_nothing() {
    let mut stats = started();
    stats.process(RxStats::OutOfOrderPacket {
        expected_timestamp: 50,
        expected_sequence_number: 20,
        actual_sequence_number: 18,
    });
    assert_eq!(stats.missed_after(0), 0);
}

#[test]
fn playout_ahead_of_data_is_ignored() {
    let mut stats = started();
    stats.process(RxStats::OutOfOrderPacket {
        expected_timestamp: 1000,
        expected_sequence_number: 1,
        actual_sequence_number: 2,
    });
    let out = stats.process(RxStats::Playout { ingress_time: 500, latest_received_frame: 400 });
    assert!(out.lost.is_empty());
    assert_eq!(stats.missed_after(0), 1);
}

#[test]
fn link_offset_reported_once_per_window() {
    let mut stats = started();
    let mut reports = vec![];
    for i in 0..AVERAGE_WINDOW as u64 {
        let out = stats.process(RxStats::Playout {
            ingress_time: 1000 + i,
            latest_received_frame: 1192 + i + (i % 2),
        });
        reports.extend(out.reports);
    }
    assert_eq!(
        reports,
        vec![ReceiverStatsReport::MeasuredLinkOffset {
            receiver: "vsc/rx/1".to_owned(),
            link_offset_frames: 192
        }]
    );
}

#[test]
fn media_clock_offset_reported_when_it_changes() {
    let mut stats = ReceiverStats::new("r".to_owned());
    let out = stats.process(RxStats::MediaClockOffsetChanged(1 << 32, 7));
    assert_eq!(
        out.reports,
        vec![ReceiverStatsReport::MediaClockOffsetChanged { receiver: "r".to_owned(), offset: 1 << 32 }]
    );
    let out = stats.process(RxStats::MediaClockOffsetChanged(1 << 32, 9));
    assert!(out.reports.is_empty());
    let out = stats.process(RxStats::MediaClockOffsetChanged(2 << 32, 9));
    assert_eq!(out.reports.len(), 1);
}

#[test]
fn muting_reported_when_it_changes() {
    let mut stats = ReceiverStats::new("r".to_owned());
    assert!(stats.process(RxStats::Muted(false)).reports.is_empty());
    assert_eq!(
        stats.process(RxStats::Muted(true)).reports,
        vec![ReceiverStatsReport::Muted { receiver: "r".to_owned(), muted: true }]
    );
    assert!(stats.process(RxStats::Muted(true)).reports.is_empty());
}

#[test]
fn late_packets_counted() {
    let mut stats = started();
    assert_eq!(
        stats.process_late_packet(),
        Some(ReceiverStatsReport::LatePackets { receiver: "vsc/rx/1".to_owned(), late_packets: 1 })
    );
    assert_eq!(
        stats.process_late_packet(),
        Some(ReceiverStatsReport::LatePackets { receiver: "vsc/rx/1".to_owned(), late_packets: 2 })
    );
    assert_eq!(stats.late_packets(), 2);
}

#[test]
fn other_events_change_nothing() {
    let mut stats = started();
    for e in [
        RxStats::BufferUnderrun,
        RxStats::InconsistentTimestamp,
        RxStats::MalformedRtpPacket("bad".to_owned()),
        RxStats::TimeTravellingPacket { sequence_number: 1, ingress_time: 10, media_time_at_reception: 5 },
        RxStats::Stopped,
        RxStats::PacketFromWrongSender(aes67_rs::address::IpAddress::V4(0x0a00_0001)),
    ] {
        let out = stats.process(e);
        assert!(out.reports.is_empty());
        assert!(out.lost.is_empty());
    }
    assert_eq!(stats.lost_packets(), 0);
}
