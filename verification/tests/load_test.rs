use teamview::load_test::{
    first_sequence_number, run_sample_forward, run_synthetic_fanout, sample_h264_frame,
    saturating_times_ten, synthetic_packet, LoadTestArgs, LoadTestError,
};
use teamview::protocol::frame::FramePacketizeError;
use teamview::protocol::packet::{PacketFlags, DEFAULT_DATAGRAM_PAYLOAD_TARGET};

fn load_args(viewers: u16, packets: u32, max_payload: usize, include_slow_viewer: bool) -> LoadTestArgs {
    LoadTestArgs {
        publishers: 1,
        viewers,
        packets,
        media_duration_ms: 20,
        max_payload,
        include_slow_viewer,
    }
}

#[test]
fn synthetic_fanout_without_slow_viewer_has_no_drops() {
    let args = load_args(4, 10, DEFAULT_DATAGRAM_PAYLOAD_TARGET, false);

    let result = run_synthetic_fanout(&args);

    assert_eq!(result.total_dropped, 0);
    assert_eq!(result.total_delivered, 40);
}

#[test]
fn synthetic_fanout_isolates_slow_viewer() {
    let args = load_args(4, 10, DEFAULT_DATAGRAM_PAYLOAD_TARGET, true);

    let result = run_synthetic_fanout(&args);

    assert_eq!(result.slow_viewer_dropped, 9);
    assert_eq!(result.total_dropped, 9);
    assert_eq!(result.total_delivered, 31);
}

#[test]
fn sample_forward_reassembles_h264_like_frame() {
    let args = load_args(2, 3, 700, false);

    let result = run_sample_forward(&args).unwrap();

    assert_eq!(result.frames, 3);
    assert_eq!(result.reassembled_frames, 3);
    assert!(result.fragments > result.frames as u64);
    assert_eq!(result.total_dropped, 0);
}

#[test]
fn sample_forward_needs_a_payload_size() {
    let args = load_args(2, 3, 0, false);

    assert_eq!(
        run_sample_forward(&args),
        Err(LoadTestError::Packetize(FramePacketizeError::ZeroMaxPayload))
    );
}

#[test]
fn sample_forward_with_tiny_payloads_overflows_the_first_viewer() {
    let args = load_args(1, 1, 100, false);

    assert!(matches!(run_sample_forward(&args), Err(LoadTestError::Reassemble(_))));
}

#[test]
fn sample_frame_has_h264_start_codes() {
    let frame = sample_h264_frame(2);

    assert_eq!(&frame.bytes[..5], &[0, 0, 0, 1, 0x67]);
    assert_eq!(frame.bytes.len(), 21 + 4096);
    assert_eq!(frame.bytes[21], 2);
    assert_eq!(frame.media_timestamp, 6_000);
    assert!(!frame.is_keyframe);
    assert!(sample_h264_frame(1).is_keyframe);
}

#[test]
fn synthetic_packet_ends_its_frame() {
    let packet = synthetic_packet(3, 4, 5);

    assert_eq!(packet.payload, b"synthetic-stage2-payload".to_vec());
    assert_eq!(packet.header.payload_length, 24);
    assert_eq!(packet.header.frame_id, 5);
    assert!(packet.header.flags.contains(PacketFlags::END_OF_FRAME));
}

#[test]
fn budgets_and_sequence_numbers_saturate() {
    assert_eq!(saturating_times_ten(20), 200);
    assert_eq!(saturating_times_ten(7_000), u16::MAX);
    assert_eq!(first_sequence_number(3), 300);
    assert_eq!(first_sequence_number(u32::MAX), u32::MAX);
}
