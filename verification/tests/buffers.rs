use aes67_rs::buffer::receiver::{
    data_is_late, last_frame_written, read_channel, read_channels, read_step, report_playout, write_deinterleaved,
    ReadStep,
};
use aes67_rs::buffer::sender::{copy_within, PacketPhases, PacketSendError, OutgoingPacketPointer};
use aes67_rs::monitoring::RxStats;
use aes67_rs::buffer::{AudioBuffer, AudioBufferPointer, FloatingPointAudioBuffer};
use aes67_rs::receiver::api::DataState;
use aes67_rs::formats::{AudioFormat, FrameFormat, SampleFormat};

#[test]
fn deinterleaved_write_then_read_back() {
    let mut buf = [0i32; 8];
    write_deinterleaved(&mut buf, 2, &[1, 2, 3, 4, 5, 6], 3);
    // two strips of four; each channel's samples start at position 3 and wrap round
    assert_eq!(buf, [3, 5, 0, 1, 4, 6, 0, 2]);
    let mut left = [0i32; 3];
    read_channel(&buf, 2, 0, &mut left, 3);
    assert_eq!(left, [1, 3, 5]);
    let mut right = [0i32; 3];
    read_channel(&buf, 2, 1, &mut right, 3);
    assert_eq!(right, [2, 4, 6]);
}

#[test]
fn write_wraps_round_the_strip() {
    let mut buf = [0u8; 6];
    write_deinterleaved(&mut buf, 3, &[7, 8, 9, 10, 11, 12], 5);
    // three strips of two; position (5 + k) % 2
    assert_eq!(buf, [10, 7, 11, 8, 12, 9]);
}

#[test]
fn frame_bookkeeping() {
    assert_eq!(last_frame_written(100, 48), 147);
    assert_eq!(last_frame_written(100, 0), 99);
    assert!(data_is_late(1000, 100, 900));
    assert!(!data_is_late(1000, 100, 901));
    assert!(!data_is_late(99, 100, 0));
}

#[test]
fn buffer_pointer_keeps_address_and_length() {
    let p = AudioBufferPointer::new(0x1000, 64);
    assert_eq!(p.ptr(), 0x1000);
    assert_eq!(p.len(), 64);
    assert!(!p.is_empty());
    assert!(AudioBufferPointer::new(0x1000, 0).is_empty());
}

#[test]
fn ring_insert_places_frames_and_wraps() {
    let desc = AudioFormat {
        sample_rate: 48_000,
        frame_format: FrameFormat { channels: 2, sample_format: SampleFormat::L24 },
    };
    let mut bytes = [0u8; 18];
    {
        let mut ring = AudioBuffer::new(&mut bytes, &desc);
        // three frames of six bytes; frame 4 goes to slot 1
        ring.insert(&[1, 1, 1, 1, 1, 1], 4);
    }
    assert_eq!(bytes, [0, 0, 0, 0, 0, 0, 1, 1, 1, 1, 1, 1, 0, 0, 0, 0, 0, 0]);
    {
        let mut ring = AudioBuffer::new(&mut bytes, &desc);
        // two frames from slot 2 on: the second wraps to slot 0
        ring.insert(&[2, 2, 2, 2, 2, 2, 3, 3, 3, 3, 3, 3], 5);
    }
    assert_eq!(bytes, [3, 3, 3, 3, 3, 3, 1, 1, 1, 1, 1, 1, 2, 2, 2, 2, 2, 2]);
}

#[test]
fn packets_planned_and_leftover_carried() {
    // 2 parts of 120 bytes, stereo 16 bit (4 bytes a frame), packets of 6 frames (24 bytes)
    let phases = PacketPhases::new(240, 2, 2, 2, 24, 6);
    let plan = phases.plan(1000, 14);
    let starts: Vec<(u64, usize, usize)> = plan
        .packets
        .iter()
        .map(|p| (p.ingress_time, p.payload_range.start, p.payload_range.end))
        .collect();
    assert_eq!(starts, vec![(1000, 0, 24), (1006, 24, 48)]);
    let spill = plan.spillover.expect("two frames are left over");
    assert_eq!((spill.from.start, spill.from.end, spill.to), (48, 56, 120));
    // planning changes nothing
    assert_eq!(phases.phase, 0);
    assert_eq!(phases.unsent_frames, 0);
}

#[test]
fn sent_packets_move_on_to_the_next_part() {
    let mut phases = PacketPhases::new(240, 2, 2, 2, 24, 6);
    let mut buffer: Vec<u8> = (0..240).map(|b| b as u8).collect();
    let (tx, mut rx) = tokio::sync::mpsc::channel::<OutgoingPacketPointer>(8);
    assert_eq!(phases.send_packets(&mut buffer, &tx, 1000, 14).0, Ok(()));
    let first = rx.try_recv().unwrap();
    assert_eq!((first.ingress_time, first.payload_range), (1000, 0..24));
    let second = rx.try_recv().unwrap();
    assert_eq!((second.ingress_time, second.payload_range), (1006, 24..48));
    assert!(rx.try_recv().is_err());
    assert_eq!(phases.phase, 1);
    assert_eq!(phases.unsent_frames, 2);
    // the two leftover frames (bytes 48..56) open the next part
    assert_eq!(&buffer[120..128], &[48, 49, 50, 51, 52, 53, 54, 55]);
    assert_eq!(buffer[128], 128);
    // the next write starts after the two carried frames, two frames earlier on the timeline
    assert_eq!(phases.send_packets(&mut buffer, &tx, 1014, 4).0, Ok(()));
    let third = rx.try_recv().unwrap();
    assert_eq!((third.ingress_time, third.payload_range), (1012, 120..144));
    assert_eq!(phases.phase, 0);
    assert_eq!(phases.unsent_frames, 0);
}

#[test]
fn failed_send_keeps_state_and_buffer() {
    let mut phases = PacketPhases::new(240, 2, 2, 2, 24, 6);
    let mut buffer: Vec<u8> = (0..240).map(|b| b as u8).collect();
    let before = buffer.clone();
    let (tx, mut rx) = tokio::sync::mpsc::channel::<OutgoingPacketPointer>(1);
    // room for one packet only: the second is refused
    assert_eq!(phases.send_packets(&mut buffer, &tx, 1000, 14).0, Err(PacketSendError::Full));
    assert_eq!(phases, PacketPhases::new(240, 2, 2, 2, 24, 6));
    assert_eq!(buffer, before);
    assert_eq!(rx.try_recv().unwrap().ingress_time, 1000);
    drop(rx);
    assert_eq!(phases.send_packets(&mut buffer, &tx, 1000, 14).0, Err(PacketSendError::Closed));
    assert_eq!(buffer, before);
    // a write that fills no packet needs nothing of the channel
    assert_eq!(phases.send_packets(&mut buffer, &tx, 1000, 3).0, Ok(()));
    assert_eq!((phases.phase, phases.unsent_frames), (1, 3));
    assert_eq!(&buffer[120..132], &before[0..12]);
}

#[test]
fn copy_within_handles_overlap() {
    let mut b = [1u8, 2, 3, 4, 5, 6];
    copy_within(&mut b, 0, 4, 2);
    assert_eq!(b, [1, 2, 1, 2, 3, 4]);
    let mut c = [1u8, 2, 3, 4, 5, 6];
    copy_within(&mut c, 2, 6, 0);
    assert_eq!(c, [3, 4, 5, 6, 5, 6]);
}

#[test]
fn read_steps() {
    // frames 100..=103 requested
    assert_eq!(read_step(102, 50, 100, 4), ReadStep::Wait { until: 103 });
    assert_eq!(read_step(103, 50, 100, 4), ReadStep::Read);
    assert_eq!(read_step(149, 50, 100, 4), ReadStep::Read);
    assert_eq!(read_step(150, 50, 100, 4), ReadStep::Late);
}

#[test]
fn channels_read_when_not_late() {
    let mut buf = [0i32; 8];
    write_deinterleaved(&mut buf, 2, &[1, 2, 3, 4, 5, 6], 3);
    let mut outs = vec![vec![0i32; 3], vec![9i32; 3]];
    assert!(read_channels(&buf, 2, &mut outs, &[true, false], 3, 5, 4));
    assert_eq!(outs, vec![vec![1, 3, 5], vec![9, 9, 9]]);
    let mut outs = vec![vec![0i32; 3], vec![0i32; 3]];
    assert!(read_channels(&buf, 2, &mut outs, &[true, true], 3, 5, 4));
    assert_eq!(outs, vec![vec![1, 3, 5], vec![2, 4, 6]]);
}

#[test]
fn late_read_writes_nothing() {
    let buf = [5i32; 8];
    let mut outs = vec![vec![0i32; 3], vec![0i32; 3]];
    // oldest frame held is 10 - 4 + 1 = 7, past 3
    assert!(!read_channels(&buf, 2, &mut outs, &[true, true], 3, 10, 4));
    assert_eq!(outs, vec![vec![0, 0, 0], vec![0, 0, 0]]);
    // nothing asked for: nothing read, and the answer is yes
    assert!(read_channels(&buf, 2, &mut outs, &[false, false], 3, 10, 4));
    assert_eq!(outs, vec![vec![0, 0, 0], vec![0, 0, 0]]);
}

#[test]
fn playout_reported_once_frames_arrived() {
    assert!(report_playout(10, 0).is_none());
    match report_playout(10, 20) {
        Some(RxStats::Playout { ingress_time, latest_received_frame }) => {
            assert_eq!((ingress_time, latest_received_frame), (10, 20));
        }
        other => panic!("unexpected {other:?}"),
    }
}

#[test]
fn sample_bytes_interleave_channels() {
    let phases = PacketPhases::new(240, 2, 3, 2, 36, 6);
    assert_eq!(phases.sample_range(0, 0, 0), 0..3);
    assert_eq!(phases.sample_range(1, 0, 0), 3..6);
    assert_eq!(phases.sample_range(1, 2, 1), 21..24);
}

#[test]
fn interleaved_sample_ring() {
    let mut ring = FloatingPointAudioBuffer::new(vec![0.0f32; 8], 2);
    assert_eq!(ring.frames(), 4);
    // frame 3 starts at sample 6; the second frame wraps to the start
    ring.insert(&[0.1, 0.2, 0.3, 0.4], 3);
    let mut out = [0.0f32; 4];
    assert_eq!(ring.read(&mut out, 3), DataState::Ready);
    assert_eq!(out, [0.1, 0.2, 0.3, 0.4]);
    let mut all = [0.0f32; 8];
    ring.read(&mut all, 0);
    assert_eq!(all, [0.3, 0.4, 0.0, 0.0, 0.0, 0.0, 0.1, 0.2]);
}

#[test]
fn deinterlaced_sample_ring() {
    let mut ring = FloatingPointAudioBuffer::new(vec![0i16; 6], 2);
    ring.insert_deinterlaced(&[1, -1, 2, -2], 2);
    let mut right = [0i16; 2];
    assert_eq!(ring.read_deinterlaced(&mut right, 2, 1), DataState::Ready);
    assert_eq!(right, [-1, -2]);
    let mut none = [7i16; 2];
    assert_eq!(ring.read_deinterlaced(&mut none, 2, 2), DataState::InvalidChannelNumber);
    assert_eq!(none, [7, 7]);
}

#[test]
fn write_at_the_end_of_the_timeline() {
    let mut buf = [0u8; 4];
    // two frames of two channels; the last frame is the last of the timeline
    write_deinterleaved(&mut buf, 2, &[1, 2, 3, 4], u64::MAX - 1);
    // strips of two; u64::MAX - 1 is even, so frame 0 goes to slot 0
    assert_eq!(buf, [1, 3, 2, 4]);
}
