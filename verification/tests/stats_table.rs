use aes67_rs::formats::{AudioFormat, FrameFormat, SampleFormat};
use aes67_rs::monitoring::stats::StatsTable;
use aes67_rs::monitoring::{ReceiverStatsReport, RxStats};

fn mono_l16() -> AudioFormat {
    AudioFormat { sample_rate: 48_000, frame_format: FrameFormat { channels: 1, sample_format: SampleFormat::L16 } }
}

#[test]
fn each_receiver_keeps_its_own_statistics() {
    let mut table = StatsTable::new();
    assert!(table.receiver(&"a".to_owned()).is_none());
    table.process_rx("a".to_owned(), RxStats::Started(mono_l16()));
    table.process_rx("b".to_owned(), RxStats::Started(mono_l16()));
    table.process_rx(
        "a".to_owned(),
        RxStats::OutOfOrderPacket { expected_timestamp: 100, expected_sequence_number: 1, actual_sequence_number: 3 },
    );
    let out = table.process_rx("b".to_owned(), RxStats::Playout { ingress_time: 0, latest_received_frame: 10 });
    assert!(out.lost.is_empty());
    let out = table.process_rx("a".to_owned(), RxStats::Playout { ingress_time: 0, latest_received_frame: 10 });
    assert_eq!(out.lost, vec![(100, 1), (101, 2)]);
    assert_eq!(
        out.reports,
        vec![ReceiverStatsReport::LostPackets { receiver: "a".to_owned(), lost_packets: 2 }]
    );
    assert_eq!(table.receiver(&"a".to_owned()).unwrap().lost_packets(), 2);
    assert_eq!(table.receiver(&"b".to_owned()).unwrap().lost_packets(), 0);
}

#[test]
fn first_event_creates_fresh_statistics() {
    let mut table = StatsTable::new();
    let out = table.process_rx("c".to_owned(), RxStats::Muted(true));
    assert_eq!(out.reports, vec![ReceiverStatsReport::Muted { receiver: "c".to_owned(), muted: true }]);
    let stats = table.receiver(&"c".to_owned()).unwrap();
    assert_eq!(stats.id(), "c");
    assert_eq!(stats.stream_format(), None);
}
