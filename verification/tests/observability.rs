use aes67_rs::monitoring::observability::{receiver_of, topic, PublishedReceiverStats};
use aes67_rs::monitoring::ReceiverStatsReport;

#[test]
fn topics_join_with_slashes() {
    assert_eq!(topic(&["vsc", "running"]), "vsc/running");
    assert_eq!(topic(&["vsc/rx/1", "stats"]), "vsc/rx/1/stats");
    assert_eq!(topic(&["single"]), "single");
    assert_eq!(topic(&[]), "");
    assert_eq!(topic(&["a", "", "b"]), "a//b");
}

#[test]
fn reports_replace_their_figure() {
    let mut stats = PublishedReceiverStats::default();
    let r = "rx".to_owned();
    stats.apply(&ReceiverStatsReport::MediaClockOffsetChanged { receiver: r.clone(), offset: 1 << 32 });
    stats.apply(&ReceiverStatsReport::NetworkDelay { receiver: r.clone(), delay_frames: -12 });
    stats.apply(&ReceiverStatsReport::MeasuredLinkOffset { receiver: r.clone(), link_offset_frames: 192 });
    stats.apply(&ReceiverStatsReport::LostPackets { receiver: r.clone(), lost_packets: 3 });
    stats.apply(&ReceiverStatsReport::LatePackets { receiver: r.clone(), late_packets: 4 });
    stats.apply(&ReceiverStatsReport::Muted { receiver: r.clone(), muted: true });
    assert_eq!(
        stats,
        PublishedReceiverStats {
            clock_offset: 1 << 32,
            network_delay_frames: -12,
            measured_link_offset_frames: 192,
            lost_packets: 3,
            late_packets: 4,
            muted: true,
        }
    );
    stats.apply(&ReceiverStatsReport::LostPackets { receiver: r.clone(), lost_packets: 5 });
    assert_eq!(stats.lost_packets, 5);
    assert_eq!(stats.late_packets, 4);
}

#[test]
fn report_names_its_receiver() {
    let report = ReceiverStatsReport::Muted { receiver: "vsc/rx/7".to_owned(), muted: false };
    assert_eq!(receiver_of(&report), "vsc/rx/7");
}
