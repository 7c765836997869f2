use aes67_rs::address::IpAddress;
use aes67_rs::error::ConfigError;
use aes67_rs::formats::SampleFormat;
use aes67_rs::receiver::config::{destination_ip_text, ptime_text, SessionId, SessionInfo};
use aes67_rs::monitoring::RxStats;
use aes67_rs::receiver::{frames_in_buffer, time_travelling, OutOfOrderPacket, PacketVerdict, RtpTimeline};
use aes67_rs::rtp::{sequence_difference, RtpError};
use aes67_rs::sdp::{
    parse_session_description, Address, Attribute, ConnectionInformation, MediaDescription, MediaName, Origin,
    RangedPort, SessionDescription,
};
use aes67_rs::sender::RtpPacketizer;
use aes67_rs::socket::{rx_socket_plan, RxSocketPlan};

const ORIGIN: IpAddress = IpAddress::V4(0xC0A8_010A);

fn packet(seq: u16, ts: u32, payload_len: usize) -> Vec<u8> {
    let mut p = vec![0x80, 98];
    p.extend_from_slice(&seq.to_be_bytes());
    p.extend_from_slice(&ts.to_be_bytes());
    p.extend_from_slice(&[0, 0, 0, 1]);
    p.extend(std::iter::repeat(0u8).take(payload_len));
    p
}

#[test]
fn rtp_header_fields_read() {
    let mut tl = RtpTimeline::new(ORIGIN, 0, 6);
    let v = tl.on_packet(ORIGIN, &packet(0xBEEF, 0x0102_0304, 6));
    let PacketVerdict::Accepted(a) = v else { panic!("refused: {v:?}") };
    assert_eq!(a.header.sequence_number, 0xBEEF);
    assert_eq!(a.header.timestamp, 0x0102_0304);
    assert_eq!(a.header.payload_offset, 12);
    assert_eq!(a.header.payload_len, 6);
    assert_eq!(tl.on_packet(ORIGIN, &[0x80, 0, 0]), PacketVerdict::Malformed(RtpError::BufferTooShort(3)));
    let mut v1 = packet(1, 1, 0);
    v1[0] = 0x40;
    assert_eq!(tl.on_packet(ORIGIN, &v1), PacketVerdict::Malformed(RtpError::UnsupportedVersion(1)));
}

#[test]
fn sequence_differences_go_the_short_way_round() {
    assert_eq!(sequence_difference(5, 3), 2);
    assert_eq!(sequence_difference(3, 5), -2);
    assert_eq!(sequence_difference(0, 0xFFFF), 1);
    assert_eq!(sequence_difference(0xFFFF, 0), -1);
    assert_eq!(sequence_difference(0x8000, 0), -32768);
}

#[test]
fn timeline_takes_packets_in_order() {
    let mut tl = RtpTimeline::new(ORIGIN, 0, 6);
    let v = tl.on_packet(ORIGIN, &packet(100, 1000, 288));
    let PacketVerdict::Accepted(a) = v else { panic!("first packet refused: {v:?}") };
    assert!(a.calibrate);
    assert!(!a.calibrate_after_wrap);
    assert_eq!(a.out_of_order, None);
    // the clock is 5 timestamp wraps and 2000 frames on
    let offset = tl.calibrate((5u64 << 32) + 2000, 1000);
    assert_eq!(offset, Some(5u64 << 32));
    assert_eq!(tl.ingress_time(1000), Some((5u64 << 32) + 1000));
    let v = tl.on_packet(ORIGIN, &packet(101, 1048, 288));
    let PacketVerdict::Accepted(a) = v else { panic!("second packet refused: {v:?}") };
    assert!(!a.calibrate);
    assert_eq!(tl.last_sequence_number, Some(101));
    assert_eq!(tl.last_timestamp, Some(1048));
}

#[test]
fn timeline_reports_skipped_packets() {
    let mut tl = RtpTimeline::new(ORIGIN, 0, 6);
    tl.on_packet(ORIGIN, &packet(100, 1000, 288));
    tl.calibrate((5u64 << 32) + 2000, 1000);
    // packet 101 is missing; 102 comes with a fitting timestamp
    let v = tl.on_packet(ORIGIN, &packet(102, 1096, 288));
    let PacketVerdict::Accepted(a) = v else { panic!("refused: {v:?}") };
    assert_eq!(
        a.out_of_order,
        Some(OutOfOrderPacket {
            expected_timestamp: (5u64 << 32) + 1048,
            expected_sequence_number: 101,
            actual_sequence_number: 102,
        })
    );
    // 104 with a timestamp that does not fit is dropped, the timeline stays
    assert_eq!(tl.on_packet(ORIGIN, &packet(104, 9999, 288)), PacketVerdict::InconsistentTimestamp);
    assert_eq!(tl.last_sequence_number, Some(102));
}

#[test]
fn timeline_refuses_foreign_and_malformed_packets() {
    let mut tl = RtpTimeline::new(ORIGIN, 0, 6);
    assert_eq!(tl.on_packet(IpAddress::V4(1), &packet(1, 1, 6)), PacketVerdict::WrongSender);
    assert_eq!(
        tl.on_packet(ORIGIN, &[0x80, 1, 2, 3, 4]),
        PacketVerdict::Malformed(RtpError::BufferTooShort(5))
    );
    assert_eq!(tl.last_sequence_number, None);
}

#[test]
fn timestamp_wrap_asks_for_calibration() {
    let mut tl = RtpTimeline::new(ORIGIN, 0, 6);
    tl.on_packet(ORIGIN, &packet(65535, 0xFFFF_FFD0, 288));
    tl.calibrate(0x1_FFFF_FFF0, 0xFFFF_FFD0);
    let v = tl.on_packet(ORIGIN, &packet(0, 0, 288));
    let PacketVerdict::Accepted(a) = v else { panic!("refused: {v:?}") };
    assert!(a.calibrate);
    assert!(a.calibrate_after_wrap);
    // the clock has wrapped too
    assert_eq!(tl.calibrate(0x2_0000_0010, 0), Some(0x2_0000_0000));
}

#[test]
fn calibration_waits_for_the_clock() {
    let mut tl = RtpTimeline::new(ORIGIN, 0, 6);
    assert_eq!(tl.calibrate(500, 1000), None);
    assert_eq!(tl.timestamp_offset, None);
    assert_eq!(tl.ingress_time(1000), None);
}

#[test]
fn frames_of_a_payload() {
    assert_eq!(frames_in_buffer(288, 6), 48);
    assert_eq!(frames_in_buffer(290, 6), 48);
}

fn attr(key: &str, value: &str) -> Attribute {
    Attribute { key: key.to_owned(), value: Some(value.to_owned()) }
}

fn stream_sdp(info: Option<&str>, attributes: Vec<Attribute>) -> SessionDescription {
    SessionDescription {
        origin: Origin {
            session_id: 1311738121,
            session_version: 1311738122,
            unicast_address: "192.168.1.10".to_owned(),
        },
        session_name: "Stage box 1".to_owned(),
        session_information: info.map(|s| s.to_owned()),
        connection_information: Some(ConnectionInformation {
            network_type: "IN".to_owned(),
            address_type: "IP4".to_owned(),
            address: Some(Address { address: "239.69.1.2/32".to_owned() }),
        }),
        media_descriptions: vec![MediaDescription {
            media_name: MediaName {
                media: "audio".to_owned(),
                port: RangedPort { value: 5004, range: None },
                protos: vec!["RTP".to_owned(), "AVP".to_owned()],
                formats: vec!["98".to_owned()],
            },
            connection_information: None,
            attributes,
        }],
    }
}

fn aes67_attributes() -> Vec<Attribute> {
    vec![attr("rtpmap", "98 L24/48000/2"), attr("ptime", "1"), attr("mediaclk", "direct=1234")]
}

const GROUP: IpAddress = IpAddress::V4(0xEF45_0102);

#[test]
fn session_info_read_from_sdp() {
    let sd = stream_sdp(Some("2 channels: Left, Right"), aes67_attributes());
    assert_eq!(destination_ip_text(&sd), Some("239.69.1.2".to_owned()));
    assert_eq!(ptime_text(&sd), Some("1".to_owned()));
    let info = SessionInfo::from_session_description(&sd, Some(ORIGIN), Some(GROUP), Some(1.0f32)).unwrap();
    assert_eq!(info.id, SessionId { id: 1311738121, version: 1311738122 });
    assert_eq!(info.name, "Stage box 1");
    assert_eq!(info.destination_ip, GROUP);
    assert_eq!(info.destination_port, 5004);
    assert_eq!(info.channels, 2);
    assert_eq!(info.sample_format, SampleFormat::L24);
    assert_eq!(info.sample_rate, 48_000);
    assert_eq!(info.packet_time, 1.0);
    assert_eq!(info.origin_ip, ORIGIN);
    assert_eq!(info.channel_labels, vec!["Left".to_owned(), "Right".to_owned()]);
    assert_eq!(info.rtp_offset, 1234);
}

#[test]
fn missing_labels_are_numbered() {
    let attributes = vec![attr("rtpmap", "98 L16/44100/4"), attr("ptime", "0.125")];
    let sd = stream_sdp(Some("4 channels: Kick, , Snare"), attributes);
    let info = SessionInfo::from_session_description(&sd, Some(ORIGIN), Some(GROUP), Some(0.125f32)).unwrap();
    assert_eq!(info.channel_labels, vec!["Kick", "Snare", "3", "4"]);
    assert_eq!(info.sample_format, SampleFormat::L16);
    assert_eq!(info.sample_rate, 44_100);
    assert_eq!(info.rtp_offset, 0);
}

#[test]
fn sdp_errors() {
    let sd = stream_sdp(None, aes67_attributes());
    assert_eq!(
        SessionInfo::from_session_description(&sd, None, Some(GROUP), Some(1.0f32)).unwrap_err(),
        ConfigError::InvalidIp("192.168.1.10".to_owned())
    );
    let mut no_media = sd.clone();
    no_media.media_descriptions.clear();
    assert_eq!(
        SessionInfo::from_session_description(&no_media, Some(ORIGIN), Some(GROUP), Some(1.0f32)).unwrap_err(),
        ConfigError::InvalidSdp("no media description found".to_owned())
    );
    let sd = stream_sdp(None, vec![attr("ptime", "1")]);
    assert_eq!(
        SessionInfo::from_session_description(&sd, Some(ORIGIN), Some(GROUP), Some(1.0f32)).unwrap_err(),
        ConfigError::InvalidSdp("no rtpmap found".to_owned())
    );
    let sd = stream_sdp(None, vec![attr("rtpmap", "98 L32/48000/2"), attr("ptime", "1")]);
    assert_eq!(
        SessionInfo::from_session_description(&sd, Some(ORIGIN), Some(GROUP), Some(1.0f32)).unwrap_err(),
        ConfigError::UnsupportedSampleFormat("L32".to_owned())
    );
    let sd = stream_sdp(None, vec![attr("rtpmap", "97 L24/48000/2"), attr("ptime", "1")]);
    assert_eq!(
        SessionInfo::from_session_description(&sd, Some(ORIGIN), Some(GROUP), Some(1.0f32)).unwrap_err(),
        ConfigError::InvalidSdp("rtpmap and media description payload types do not match".to_owned())
    );
    let sd = stream_sdp(None, vec![attr("rtpmap", "98 L24/48000/2")]);
    assert_eq!(
        SessionInfo::from_session_description(&sd, Some(ORIGIN), Some(GROUP), None::<f32>).unwrap_err(),
        ConfigError::InvalidSdp("no ptime".to_owned())
    );
    let sd = stream_sdp(None, aes67_attributes());
    assert_eq!(
        SessionInfo::from_session_description(&sd, Some(ORIGIN), None, Some(1.0f32)).unwrap_err(),
        ConfigError::InvalidIp("239.69.1.2".to_owned())
    );
}

#[test]
fn multicast_stream_socket() {
    let sd = stream_sdp(None, aes67_attributes());
    let local = IpAddress::V4(0xC0A8_0114);
    assert_eq!(
        rx_socket_plan(&sd, local, Some(GROUP)),
        Ok(RxSocketPlan { stream_ip: GROUP, local_ip: local, port: 5004, join_multicast: true, bind_ip: GROUP })
    );
    assert_eq!(
        rx_socket_plan(&sd, IpAddress::V6(1), Some(GROUP)),
        Err(ConfigError::InvalidLocalIP("Cannot receive IPv4 stream when bound to local IPv6 address".to_owned()))
    );
    let mut video = sd.clone();
    video.media_descriptions[0].media_name.media = "video".to_owned();
    assert_eq!(
        rx_socket_plan(&video, local, Some(GROUP)),
        Err(ConfigError::InvalidSdp("unsupported media type: video".to_owned()))
    );
}

#[test]
fn unicast_stream_socket() {
    let mut sd = stream_sdp(None, aes67_attributes());
    let local = IpAddress::V4(0xC0A8_0114);
    sd.connection_information.as_mut().unwrap().address.as_mut().unwrap().address = "192.168.1.20/32".to_owned();
    assert_eq!(
        rx_socket_plan(&sd, local, Some(local)),
        Ok(RxSocketPlan { stream_ip: local, local_ip: local, port: 5004, join_multicast: false, bind_ip: local })
    );
}

#[test]
fn what_the_sender_stamps_the_receiver_unwraps() {
    let ingress_time: u64 = (7u64 << 32) + 123_456;
    let mut packetizer = RtpPacketizer { payload_type: 98, ssrc: 9, sequence_number: 500 };
    let buffer = [0u8; 288];
    let mut packet = [0u8; 400];
    let len = packetizer.packetize(ingress_time, 0, 288, &buffer, &mut packet).unwrap();
    let mut tl = RtpTimeline::new(ORIGIN, 0, 6);
    let v = tl.on_packet(ORIGIN, &packet[..len]);
    let PacketVerdict::Accepted(a) = v else { panic!("refused: {v:?}") };
    assert_eq!(a.header.sequence_number, 500);
    assert!(a.calibrate);
    // the receiver's clock reads a little later
    tl.calibrate(ingress_time + 4_800, a.header.timestamp);
    assert_eq!(tl.ingress_time(a.header.timestamp), Some(ingress_time));
}

#[test]
fn media_line_rendered_as_in_the_sdp() {
    let sd = stream_sdp(None, aes67_attributes());
    assert_eq!(sd.media_descriptions[0].media_name.to_string(), "audio 5004 RTP/AVP 98");
    let ranged = MediaName {
        media: "audio".to_owned(),
        port: RangedPort { value: -5, range: Some(2) },
        protos: vec!["UDP".to_owned()],
        formats: vec!["96".to_owned(), "97".to_owned()],
    };
    assert_eq!(ranged.to_string(), "audio -5/2 UDP 96 97");
}

#[test]
fn media_without_connection_is_refused() {
    let mut sd = stream_sdp(None, aes67_attributes());
    sd.connection_information = None;
    assert_eq!(
        SessionInfo::from_session_description(&sd, Some(ORIGIN), Some(GROUP), Some(1.0f32)).unwrap_err(),
        ConfigError::InvalidSdp("no connection information for media audio 5004 RTP/AVP 98".to_owned())
    );
}

#[test]
fn packets_from_the_future_are_reported() {
    assert!(time_travelling(7, 100, 100).is_none());
    match time_travelling(7, 101, 100) {
        Some(RxStats::TimeTravellingPacket { sequence_number, ingress_time, media_time_at_reception }) => {
            assert_eq!((sequence_number, ingress_time, media_time_at_reception), (7, 101, 100));
        }
        other => panic!("unexpected {other:?}"),
    }
}

const SDP_TEXT: &str = "v=0\r\n\
o=- 1311738121 1311738122 IN IP4 192.168.1.10\r\n\
s=Stage box 1\r\n\
i=2 channels: Left, Right\r\n\
c=IN IP4 239.69.1.2/32\r\n\
t=0 0\r\n\
m=audio 5004 RTP/AVP 98\r\n\
a=rtpmap:98 L24/48000/2\r\n\
a=ptime:1\r\n\
a=mediaclk:direct=1234\r\n";

#[test]
fn session_description_read_from_text() {
    let sd = parse_session_description(SDP_TEXT).expect("a valid session description");
    assert_eq!(sd.origin.session_id, 1311738121);
    assert_eq!(sd.origin.session_version, 1311738122);
    assert_eq!(sd.origin.unicast_address, "192.168.1.10");
    assert_eq!(sd.session_name, "Stage box 1");
    assert_eq!(sd.session_information.as_deref(), Some("2 channels: Left, Right"));
    let c = sd.connection_information.as_ref().unwrap();
    assert_eq!((c.network_type.as_str(), c.address_type.as_str()), ("IN", "IP4"));
    assert_eq!(c.address.as_ref().unwrap().address, "239.69.1.2/32");
    assert_eq!(sd.media_descriptions.len(), 1);
    let m = &sd.media_descriptions[0];
    assert_eq!(m.media_name.to_string(), "audio 5004 RTP/AVP 98");
    assert_eq!(m.attributes.len(), 3);
    assert_eq!(m.attributes[0].key, "rtpmap");
    assert_eq!(m.attributes[0].value.as_deref(), Some("98 L24/48000/2"));
    let info = SessionInfo::from_session_description(&sd, Some(ORIGIN), Some(GROUP), Some(1.0f32)).unwrap();
    assert_eq!(info.channel_labels, vec!["Left".to_owned(), "Right".to_owned()]);
    assert_eq!(info.rtp_offset, 1234);
}

#[test]
fn malformed_session_description_refused() {
    assert!(parse_session_description("").is_none());
    assert!(parse_session_description("v=0\r\no=broken\r\n").is_none());
}

#[test]
fn rtp_header_lengths_follow_sources_extension_and_padding() {
    // one contributing source, an extension of one word, two bytes of padding
    let mut p = packet(7, 70, 0);
    p[0] = 0x80 | 0x20 | 0x10 | 0x01;
    p.extend_from_slice(&[0, 0, 0, 5]); // the contributing source
    p.extend_from_slice(&[0xBE, 0xDE, 0, 1, 9, 9, 9, 9]); // extension header and one word
    p.extend_from_slice(&[1, 2, 3, 4, 5, 6, 0, 2]); // payload, then two bytes of padding
    let mut tl = RtpTimeline::new(ORIGIN, 0, 6);
    let v = tl.on_packet(ORIGIN, &p);
    let PacketVerdict::Accepted(a) = v else { panic!("refused: {v:?}") };
    assert_eq!(a.header.payload_offset, 24);
    assert_eq!(a.header.payload_len, 6);
    // padding that does not fit, and padding of length 0
    let mut q = packet(8, 76, 2);
    q[0] |= 0x20;
    let n = q.len();
    q[n - 1] = 9;
    assert_eq!(tl.on_packet(ORIGIN, &q), PacketVerdict::Malformed(RtpError::PaddingLengthInvalid(9)));
    q[n - 1] = 0;
    assert_eq!(tl.on_packet(ORIGIN, &q), PacketVerdict::Malformed(RtpError::PaddingLengthInvalid(0)));
    // an extension that runs past the packet
    let mut e = packet(9, 82, 0);
    e[0] |= 0x10;
    e.extend_from_slice(&[0, 0, 0, 3]);
    assert_eq!(
        tl.on_packet(ORIGIN, &e),
        PacketVerdict::Malformed(RtpError::HeadersTruncated { header_len: 28, buffer_len: 16 })
    );
}
