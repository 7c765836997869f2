use aes67_rs::monitoring::health::{PlayoutHealth, ReceiverHealth, SenderHealth};
use aes67_rs::monitoring::sender_stats::{PacketSentChanges, SenderStats};

#[test]
fn first_packet_reports_every_change() {
    let mut stats = SenderStats::new("tx".to_owned());
    let changes = stats.process_packet_sent(48, 300, 1000);
    assert_eq!(
        changes,
        PacketSentChanges {
            ptime_changed_from: Some(0),
            packet_size_changed_from: Some(0),
            ingress_time_expected: Some(0),
        }
    );
    assert_eq!(stats.ptime_frames, 48);
    assert_eq!(stats.packet_size, 300);
    assert_eq!(stats.expected_next_ingress_time, 1048);
}

#[test]
fn steady_stream_reports_nothing() {
    let mut stats = SenderStats::new("tx".to_owned());
    stats.process_packet_sent(48, 300, 1000);
    let changes = stats.process_packet_sent(48, 300, 1048);
    assert_eq!(
        changes,
        PacketSentChanges { ptime_changed_from: None, packet_size_changed_from: None, ingress_time_expected: None }
    );
}

#[test]
fn gap_in_stream_reports_expected_time() {
    let mut stats = SenderStats::new("tx".to_owned());
    stats.process_packet_sent(48, 300, 1000);
    let changes = stats.process_packet_sent(6, 48, 2000);
    assert_eq!(changes.ingress_time_expected, Some(1048));
    assert_eq!(changes.ptime_changed_from, Some(48));
    assert_eq!(changes.packet_size_changed_from, Some(300));
    assert_eq!(stats.expected_next_ingress_time, 2006);
}

#[test]
fn health_records_are_empty() {
    assert_eq!(SenderHealth::new("a".to_owned()), SenderHealth {});
    assert_eq!(ReceiverHealth::new("b".to_owned()), ReceiverHealth {});
    assert_eq!(PlayoutHealth::new("c".to_owned()), PlayoutHealth {});
}
