use aes67_rs::sender::{
    frames_to_sleep, ChannelWrite, PacketError, RtpBuildError, RtpPacketizer, SampleSpan, WriteState, MAX_MTU,
};

#[test]
fn packet_carries_header_and_slot_payload() {
    let mut p = RtpPacketizer { payload_type: 98, ssrc: 0x0102_0304, sequence_number: 0x1234 };
    let buffer: Vec<u8> = (0..30u8).collect();
    let mut target = [0xAAu8; 40];
    // slot 2 of 10-byte payloads; the media time wraps to the 32-bit timestamp 5
    let r = p.packetize((1u64 << 32) + 5, 2, 10, &buffer, &mut target);
    assert_eq!(r, Ok(22));
    assert_eq!(
        &target[..22],
        &[0x80, 98, 0x12, 0x34, 0, 0, 0, 5, 1, 2, 3, 4, 20, 21, 22, 23, 24, 25, 26, 27, 28, 29]
    );
    assert!(target[22..].iter().all(|b| *b == 0xAA));
    assert_eq!(p.sequence_number, 0x1235);
}

#[test]
fn sequence_number_wraps() {
    let mut p = RtpPacketizer { payload_type: 96, ssrc: 1, sequence_number: 0xFFFF };
    let buffer = [0u8; 4];
    let mut target = [0u8; 16];
    assert_eq!(p.packetize(0, 0, 4, &buffer, &mut target), Ok(16));
    assert_eq!(p.sequence_number, 0);
}

#[test]
fn target_too_small_is_refused() {
    let mut p = RtpPacketizer { payload_type: 96, ssrc: 1, sequence_number: 7 };
    let buffer = [0u8; 8];
    let mut target = [9u8; 19];
    assert_eq!(
        p.packetize(0, 0, 8, &buffer, &mut target),
        Err(PacketError::Build(RtpBuildError::BufferTooSmall))
    );
    assert_eq!(target, [9u8; 19]);
    // the sequence number advances all the same
    assert_eq!(p.sequence_number, 8);
}

#[test]
fn invalid_payload_type_is_refused() {
    let mut p = RtpPacketizer { payload_type: 200, ssrc: 1, sequence_number: 7 };
    let buffer = [0u8; 8];
    let mut target = [0u8; 64];
    assert_eq!(
        p.packetize(0, 0, 8, &buffer, &mut target),
        Err(PacketError::Build(RtpBuildError::PayloadTypeInvalid))
    );
}

#[test]
fn packet_over_mtu_is_refused() {
    let mut p = RtpPacketizer { payload_type: 97, ssrc: 1, sequence_number: 0 };
    let buffer = vec![0u8; 1489];
    let mut target = vec![0u8; 2000];
    assert_eq!(p.packetize(0, 0, 1489, &buffer, &mut target), Err(PacketError::MaxMtuExceeded(1501)));
    assert_eq!(p.packetize(0, 0, 1488, &buffer, &mut target), Ok(MAX_MTU));
}

#[test]
fn sender_waits_only_for_packets_far_ahead() {
    assert_eq!(frames_to_sleep(1000, 500, 48), Some(452));
    assert_eq!(frames_to_sleep(1000, 520, 48), None);
    assert_eq!(frames_to_sleep(1000, 519, 48), Some(433));
    assert_eq!(frames_to_sleep(100, 500, 48), None);
}

#[test]
fn write_with_positive_compensation_pads() {
    let mut w = WriteState::new();
    w.start_write(1000, 64, 3);
    assert_eq!(w, WriteState { ingress_time: 997, buffer_len_frames: 64, new_frames: 67, compensation: 3 });
    assert_eq!(w.channel_write(64), ChannelWrite::Padded { repeat: 3 });
}

#[test]
fn write_with_negative_compensation_skips() {
    let mut w = WriteState::new();
    w.start_write(1000, 64, -2);
    assert_eq!(w.ingress_time, 1002);
    assert_eq!(w.new_frames, 62);
    assert_eq!(w.channel_write(64), ChannelWrite::Skipped { skip: 2 });
    w.start_write(5, 64, 0);
    assert_eq!(w.channel_write(64), ChannelWrite::Plain);
}

#[test]
fn new_packetizer_keeps_payload_type() {
    let p = RtpPacketizer::new(98);
    assert_eq!(p.payload_type, 98);
    let mut q = p;
    let buffer = [1u8; 4];
    let mut target = [0u8; 16];
    assert_eq!(q.packetize(0, 0, 4, &buffer, &mut target), Ok(16));
    assert_eq!(u16::from_be_bytes([target[2], target[3]]), p.sequence_number);
    assert_eq!(u32::from_be_bytes([target[8], target[9], target[10], target[11]]), p.ssrc);
    assert_eq!(q.sequence_number, p.sequence_number.wrapping_add(1));
}

fn span(offset_frames: usize, start: usize, end: usize) -> SampleSpan {
    SampleSpan { offset_frames, start, end }
}

#[test]
fn channel_write_calls_fill_each_frame_once() {
    let mut w = WriteState::new();
    w.start_write(1000, 4, 2);
    // the first sample at frames 0 and 1, then all four from frame 2: frames 0..6
    assert_eq!(w.channel_spans(4), vec![span(0, 0, 1), span(1, 0, 1), span(2, 0, 4)]);
    w.start_write(1000, 4, -1);
    // samples 1..4 at frames 0..3
    assert_eq!(w.channel_spans(4), vec![span(0, 1, 4)]);
    w.start_write(1000, 4, 0);
    assert_eq!(w.channel_spans(4), vec![span(0, 0, 4)]);
}
