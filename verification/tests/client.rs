use std::time::Duration;

use teamview::client::audio::{
    synthetic_audio_payload_bytes, AudioError, DecodedAudioFrame, LatestAudioPlayback,
    SyntheticOpusDecoder, SyntheticOpusEncoder,
};
use teamview::client::audio_capture::{
    wide_device_name, AudioCaptureConfig, CapturedAudioFrame, LatestAudioCaptureQueue,
    MicrophoneSource, WindowsMicrophoneCapture,
};
use teamview::client::capture::windows::WindowsGraphicsCapture;
use teamview::client::capture::ScreenCapture;
use teamview::client::audio_capture::MicrophoneCapture;
use teamview::client::capture::{
    validate_capture_dimensions, CaptureConfig, CaptureError, CaptureFrame, CaptureSource,
    LatestFrameQueue,
};
use teamview::client::decode::h264::H264Decoder;
use teamview::client::decode::{
    DecodedFrame, DecodedPixelFormat, FrameReassemblyBuffer, ReassemblyError, ReassemblyOutcome,
    MAX_PENDING_FRAMES,
};
use teamview::client::encode::h264::H264Encoder;
use teamview::client::playback::{LatestFramePlayback, PlaybackError};
use teamview::client::remote_input::{
    absolute_axis, inputs_for_kind, pointer_button_flags, LoggingRemoteInputApplier, NativeInput,
    RemoteInputApplier, RemoteInputError, KEYEVENTF_KEYUP, KEYEVENTF_UNICODE,
};
use teamview::client::stats::{BroadcasterTimingSnapshot, ClientBroadcasterStats, ClientMediaStats};
use teamview::protocol::codec::CodecId;
use teamview::protocol::control::{PointerButton, RemoteInputEvent, RemoteInputKind};
use teamview::protocol::frame::{packetize_frame, EncodedFrame};
use teamview::protocol::packet::{MediaPacket, MediaPacketHeader, PacketType};
use teamview::samples::LatencySamples;

fn ms(millis: u64) -> u128 {
    Duration::from_millis(millis).as_millis()
}

fn packet_with_sequence(sequence_number: u32) -> MediaPacket {
    let payload = b"packet".to_vec();
    MediaPacket {
        header: MediaPacketHeader::new(
            PacketType::Video,
            CodecId::H264,
            9,
            sequence_number,
            payload.len() as u16,
        ),
        payload,
    }
}

#[test]
fn media_stats_detects_sequence_gaps() {
    let mut stats = ClientMediaStats::default();

    stats.record_packet(&packet_with_sequence(10));
    stats.record_packet(&packet_with_sequence(11));
    stats.record_packet(&packet_with_sequence(14));

    assert_eq!(stats.received_packets, 3);
    assert_eq!(stats.lost_packets, 2);
}

#[test]
fn media_stats_builds_viewer_report() {
    let mut stats = ClientMediaStats::default();
    stats.record_packet(&packet_with_sequence(1));
    stats.record_decoded_frame();
    stats.record_decode_duration(ms(4));
    stats.record_decode_duration(ms(8));
    stats.record_render_duration(ms(3), 1_000_000);
    stats.record_render_duration(ms(5), 1_050_000);
    stats.record_dropped_frame();
    stats.jitter_buffer_ms = 42;
    stats.estimated_latency_ms = 88;

    let report = stats.to_viewer_report(7, 9);

    assert_eq!(report.room_id, 7);
    assert_eq!(report.stream_id, 9);
    assert_eq!(report.received_packets, 1);
    assert_eq!(report.decoded_frames, 1);
    assert_eq!(report.decode_ms_p50, 8);
    assert_eq!(report.decode_ms_p95, 8);
    assert_eq!(report.render_ms_p50, 5);
    assert_eq!(report.render_ms_p95, 5);
    assert_eq!(report.render_fps, 20);
    assert_eq!(report.dropped_frames, 1);
    assert_eq!(report.jitter_buffer_ms, 42);
    assert_eq!(report.estimated_latency_ms, 88);
}

#[test]
fn media_stats_estimates_latency_from_capture_timestamp() {
    let mut stats = ClientMediaStats::default();

    stats.record_estimated_latency(1_000_000, 1_123_456);

    assert_eq!(stats.estimated_latency_ms, 123);
}

#[test]
fn media_stats_ignores_missing_or_future_capture_timestamp() {
    let mut stats = ClientMediaStats {
        estimated_latency_ms: 42,
        ..Default::default()
    };

    stats.record_estimated_latency(0, 1_123_456);
    stats.record_estimated_latency(2_000_000, 1_123_456);

    assert_eq!(stats.estimated_latency_ms, 42);
}

#[test]
fn broadcaster_stats_builds_timing_snapshot() {
    let mut stats = ClientBroadcasterStats::default();
    stats.record_capture_duration(ms(2));
    stats.record_capture_duration(ms(6));
    stats.record_encode_duration(ms(3));
    stats.record_encode_duration(ms(9));
    stats.record_packetize_duration(ms(1));
    stats.record_send_duration(ms(4));
    stats.record_send_duration(ms(5));

    let snapshot = stats.timing_snapshot();

    assert_eq!(snapshot.capture_ms_p50, 6);
    assert_eq!(snapshot.capture_ms_p95, 6);
    assert_eq!(snapshot.encode_ms_p50, 9);
    assert_eq!(snapshot.encode_ms_p95, 9);
    assert_eq!(snapshot.packetize_ms_p50, 1);
    assert_eq!(snapshot.packetize_ms_p95, 1);
    assert_eq!(snapshot.send_ms_p50, 5);
    assert_eq!(snapshot.send_ms_p95, 5);
}

#[test]
fn broadcaster_stats_empty_snapshot_is_zero() {
    let snapshot = ClientBroadcasterStats::default().timing_snapshot();

    assert_eq!(snapshot, BroadcasterTimingSnapshot::default());
}

#[test]
fn latency_samples_keep_recent_percentiles() {
    let mut samples = LatencySamples::default();
    samples.push(2);
    samples.push(10);
    samples.push(6);

    assert_eq!(samples.percentile(50), 6);
    assert_eq!(samples.percentile(95), 10);
}

#[test]
fn latency_samples_of_nothing_read_zero() {
    let samples = LatencySamples::default();

    assert_eq!(samples.percentile(50), 0);
    assert_eq!(samples.len(), 0);
}

#[test]
fn render_fps_requires_two_rendered_frames() {
    let mut stats = ClientMediaStats::default();

    stats.record_render_duration(ms(1), 1_000_000);
    assert_eq!(stats.render_fps(), 0);

    stats.record_render_duration(ms(1), 1_100_000);
    assert_eq!(stats.render_fps(), 10);
}

#[test]
fn long_durations_are_held_at_u16_max() {
    let mut stats = ClientMediaStats::default();
    stats.record_decode_duration(ms(70_000));

    assert_eq!(stats.to_viewer_report(1, 2).decode_ms_p95, u16::MAX);
}

#[test]
fn synthetic_opus_round_trips_to_decoded_audio() {
    let encoder = SyntheticOpusEncoder::default();
    let encoded = encoder.encode(7, 123_456, 9).unwrap();
    let mut decoder = SyntheticOpusDecoder;

    let decoded = decoder.decode(&encoded.bytes).unwrap().unwrap();

    assert_eq!(encoded.codec, CodecId::Opus);
    assert_eq!(decoded.frame_id, 7);
    assert_eq!(decoded.sample_rate_hz, 48_000);
    assert_eq!(decoded.channel_count, 1);
    assert_eq!(decoded.sample_count, 960);
    assert_eq!(decoded.capture_time_micros, 123_456);
    assert_eq!(decoded.pcm.len(), 960);
}

#[test]
fn synthetic_opus_embeds_pcm_payload_when_available() {
    let encoder = SyntheticOpusEncoder::default();
    let pcm = vec![-100, 0, 100, 200];
    let encoded = encoder.encode_pcm_i16(3, 42, 48_000, 2, &pcm, 7).unwrap();
    let mut decoder = SyntheticOpusDecoder;

    let decoded = decoder.decode(&encoded.bytes).unwrap().unwrap();

    assert_eq!(decoded.frame_id, 3);
    assert_eq!(decoded.channel_count, 2);
    assert_eq!(decoded.sample_count, 2);
    assert_eq!(decoded.capture_time_micros, 42);
    assert_eq!(decoded.pcm, pcm);
}

#[test]
fn pcm_encoding_refuses_bad_layouts() {
    let encoder = SyntheticOpusEncoder::default();

    assert_eq!(
        encoder.encode_pcm_i16(1, 1, 0, 1, &[1], 1),
        Err(AudioError::ZeroSampleRate)
    );
    assert_eq!(
        encoder.encode_pcm_i16(1, 1, 48_000, 0, &[1], 1),
        Err(AudioError::ZeroChannelCount)
    );
    assert_eq!(
        encoder.encode_pcm_i16(1, 1, 48_000, 2, &[1, 2, 3], 1),
        Err(AudioError::SamplesNotDivisible {
            sample_len: 3,
            channel_count: 2
        })
    );
    assert_eq!(encoder.encode_pcm_i16(1, 1, 48_000, 2, &[], 1), Err(AudioError::NoSamples));
}

#[test]
fn decoder_ignores_foreign_payloads() {
    let mut decoder = SyntheticOpusDecoder;

    assert_eq!(decoder.decode(b"short"), Ok(None));
    assert_eq!(decoder.decode(&[0u8; 32]), Ok(None));
}

#[test]
fn audio_payload_size_follows_bitrate_and_has_a_floor() {
    assert_eq!(synthetic_audio_payload_bytes(32_000, 50), 80);
    assert_eq!(synthetic_audio_payload_bytes(1_000, 50), 16);
    assert_eq!(synthetic_audio_payload_bytes(32_000, 0), 4_000);

    let mut encoder = SyntheticOpusEncoder::default();
    assert_eq!(encoder.frames_per_second(), 50);
    encoder.set_frames_per_second(100);
    assert_eq!(encoder.config.frame_duration_ms, 10);
    encoder.update_bitrate(64_000);
    assert_eq!(encoder.config.synthetic_payload_bytes, 80);
}

#[test]
fn latest_audio_playback_keeps_latest_frame() {
    let mut playback = LatestAudioPlayback::default();

    playback
        .play(DecodedAudioFrame {
            frame_id: 1,
            sample_rate_hz: 48_000,
            channel_count: 2,
            sample_count: 2,
            capture_time_micros: 1,
            pcm: vec![0, 1, 2, 3],
        })
        .unwrap();

    assert_eq!(playback.played_frames(), 1);
    assert_eq!(playback.latest().unwrap().frame_id, 1);
}

#[test]
fn audio_playback_refuses_short_buffers() {
    let mut playback = LatestAudioPlayback::default();

    let result = playback.play(DecodedAudioFrame {
        frame_id: 1,
        sample_rate_hz: 48_000,
        channel_count: 2,
        sample_count: 2,
        capture_time_micros: 1,
        pcm: vec![0, 1, 2],
    });

    assert_eq!(
        result,
        Err(AudioError::DecodedSampleLengthMismatch {
            expected: 4,
            actual: 3
        })
    );
    assert_eq!(playback.played_frames(), 0);
}

#[test]
fn latest_audio_capture_queue_keeps_only_latest_frame() {
    let mut queue = LatestAudioCaptureQueue::new(1);

    queue.push(CapturedAudioFrame::pcm_i16(1, 10, 48_000, 1, vec![1, 2]).unwrap());
    queue.push(CapturedAudioFrame::pcm_i16(2, 20, 48_000, 1, vec![3, 4]).unwrap());

    assert_eq!(queue.len(), 1);
    assert_eq!(queue.dropped_frames(), 1);
    assert_eq!(queue.pop_latest().unwrap().frame_id, 2);
}

#[test]
fn captured_audio_frame_validates_channel_layout() {
    let frame = CapturedAudioFrame::pcm_i16(1, 10, 48_000, 2, vec![1, 2, 3, 4]).unwrap();
    assert_eq!(frame.sample_count_per_channel(), 2);

    let error = CapturedAudioFrame::pcm_i16(1, 10, 48_000, 2, vec![1, 2, 3]).unwrap_err();
    assert!(error.message().contains("not divisible"));
}

#[test]
fn microphone_capture_uses_test_silence_queue() {
    let mut capture =
        WindowsMicrophoneCapture::new(MicrophoneSource::Default, AudioCaptureConfig::default(), true)
            .unwrap();

    capture.push_silence_frame(123).unwrap();
    let frame = capture.next_frame().unwrap().unwrap();

    assert_eq!(frame.frame_id, 1);
    assert_eq!(frame.capture_time_micros, 123);
    assert_eq!(frame.sample_rate_hz, 48_000);
    assert_eq!(frame.channel_count, 1);
    assert_eq!(frame.sample_count_per_channel(), 960);
}

#[test]
fn wide_device_name_trims_at_nul() {
    let mut name = [0_u16; 32];
    name[0] = 'M' as u16;
    name[1] = 'i' as u16;
    name[2] = 'c' as u16;

    assert_eq!(wide_device_name(&name), "Mic");
}

#[test]
fn wide_device_name_without_nul_keeps_everything() {
    let name = ['a' as u16, 'b' as u16];

    assert_eq!(wide_device_name(&name), "ab");
}

#[test]
fn latest_frame_queue_keeps_only_latest_frame_by_default() {
    let mut queue = LatestFrameQueue::new(1);

    queue.push(CaptureFrame::metadata_only(1, 1280, 720, 10));
    queue.push(CaptureFrame::metadata_only(2, 1280, 720, 20));
    queue.push(CaptureFrame::metadata_only(3, 1280, 720, 30));

    assert_eq!(queue.len(), 1);
    assert_eq!(queue.dropped_frames(), 2);
    assert_eq!(queue.pop_latest().unwrap().frame_id, 3);
    assert_eq!(queue.len(), 0);
}

#[test]
fn latest_frame_queue_capacity_is_never_zero() {
    let mut queue = LatestFrameQueue::new(0);

    queue.push(CaptureFrame::metadata_only(1, 1, 1, 1));
    queue.push(CaptureFrame::metadata_only(2, 1, 1, 2));

    assert_eq!(queue.len(), 1);
    assert_eq!(queue.pop_latest().unwrap().frame_id, 2);
}

#[test]
fn capture_returns_latest_queued_frame() {
    let mut capture = WindowsGraphicsCapture::new(
        CaptureSource::PrimaryMonitor,
        CaptureConfig {
            queue_capacity: 1,
            cursor_visible: true,
        },
        true,
    )
    .unwrap();

    capture.push_test_frame(1280, 720, 10);
    capture.push_test_frame(1280, 720, 20);

    let frame = capture.next_frame().unwrap().unwrap();
    assert_eq!(frame.frame_id, 2);
    assert_eq!(frame.capture_time_micros, 20);
    assert_eq!(capture.queue_dropped_frames(), 1);
}

#[test]
fn capture_dimensions_must_be_positive_and_fit() {
    assert_eq!(validate_capture_dimensions(1920, 1080), Ok((1920, 1080)));
    assert_eq!(
        validate_capture_dimensions(0, 1080),
        Err(CaptureError::InvalidSize {
            width: 0,
            height: 1080
        })
    );
    assert_eq!(CaptureFrame::bgra_byte_len(2, 3), Ok(24));
}

#[test]
fn synthetic_decoder_outputs_frame_for_non_empty_input() {
    let mut decoder = H264Decoder;

    let decoded = decoder.decode(b"synthetic-h264");

    assert_eq!(
        decoded,
        Some(DecodedFrame {
            frame_id: 0,
            width: 1280,
            height: 720,
            pixel_format: DecodedPixelFormat::Bgra8,
            pixels: Vec::new(),
        })
    );
}

#[test]
fn synthetic_decoder_waits_on_empty_input() {
    let mut decoder = H264Decoder;

    assert_eq!(decoder.decode(b""), None);
}

fn buffered_frame(frame_id: u32) -> EncodedFrame {
    EncodedFrame {
        room_stream_id: 9,
        frame_id,
        media_timestamp: 21_000,
        sender_capture_time_micros: 1_234,
        sender_encode_done_time_micros: 0,
        sender_send_time_micros: 0,
        server_receive_time_micros: 0,
        server_send_time_micros: 0,
        codec: CodecId::H264,
        is_keyframe: true,
        bytes: b"synthetic-frame-payload".to_vec(),
    }
}

#[test]
fn reassembly_buffer_outputs_complete_frame() {
    let frame = buffered_frame(7);
    let packets = packetize_frame(&frame, 1, 8).unwrap();
    let mut buffer = FrameReassemblyBuffer::new();
    let mut reassembled = None;

    for packet in packets {
        reassembled = buffer.push(packet).unwrap();
    }

    assert_eq!(reassembled, Some(frame));
    assert_eq!(buffer.pending_frames(), 0);
}

#[test]
fn reassembly_buffer_waits_for_missing_fragment() {
    let frame = buffered_frame(7);
    let mut packets = packetize_frame(&frame, 1, 8).unwrap();
    packets.pop();
    let mut buffer = FrameReassemblyBuffer::new();

    for packet in packets {
        assert_eq!(buffer.push(packet).unwrap(), None);
    }

    assert_eq!(buffer.pending_frames(), 1);
}

#[test]
fn reassembly_buffer_rejects_duplicate_fragment() {
    let frame = buffered_frame(7);
    let packets = packetize_frame(&frame, 1, 8).unwrap();
    let mut buffer = FrameReassemblyBuffer::new();

    buffer.push(packets[0].clone()).unwrap();

    assert!(buffer.push(packets[0].clone()).is_err());
    assert_eq!(
        buffer.push(packets[0].clone()),
        Err(ReassemblyError::DuplicateFragment {
            fragment_index: 0,
            frame_id: 7
        })
    );
}

#[test]
fn reassembly_buffer_evicts_old_pending_frames() {
    let mut buffer = FrameReassemblyBuffer::new();

    for frame_id in 1..=MAX_PENDING_FRAMES as u32 + 1 {
        let mut packets = packetize_frame(&buffered_frame(frame_id), 1, 8).unwrap();
        packets.pop();
        buffer.push(packets.remove(0)).unwrap();
    }

    assert_eq!(buffer.pending_frames(), MAX_PENDING_FRAMES);
}

#[test]
fn reassembly_buffer_reports_capacity_drops() {
    let mut buffer = FrameReassemblyBuffer::with_limits(1, 64);
    let mut first_packets = packetize_frame(&buffered_frame(1), 1, 8).unwrap();
    first_packets.pop();

    assert_eq!(
        buffer.push_with_stats(first_packets.remove(0)).unwrap(),
        ReassemblyOutcome {
            frame: None,
            dropped_frames: 0,
        }
    );

    let mut second_packets = packetize_frame(&buffered_frame(2), 10, 8).unwrap();
    second_packets.pop();

    assert_eq!(
        buffer.push_with_stats(second_packets.remove(0)).unwrap(),
        ReassemblyOutcome {
            frame: None,
            dropped_frames: 1,
        }
    );
}

#[test]
fn reassembly_buffer_drops_stale_incomplete_frames() {
    let mut buffer = FrameReassemblyBuffer::with_limits(64, 2);
    let mut old_packets = packetize_frame(&buffered_frame(1), 1, 8).unwrap();
    old_packets.pop();
    buffer.push_with_stats(old_packets.remove(0)).unwrap();

    let mut new_packets = packetize_frame(&buffered_frame(4), 20, 8).unwrap();
    new_packets.pop();
    let outcome = buffer.push_with_stats(new_packets.remove(0)).unwrap();

    assert_eq!(outcome.dropped_frames, 1);
    assert_eq!(buffer.pending_frames(), 1);
}

#[test]
fn jitter_estimate_scales_with_pending_frames() {
    let mut buffer = FrameReassemblyBuffer::new();
    let mut packets = packetize_frame(&buffered_frame(1), 1, 8).unwrap();
    packets.pop();

    buffer.push(packets.remove(0)).unwrap();

    assert_eq!(buffer.estimated_jitter_ms(33), 33);
}

#[test]
fn synthetic_encoder_outputs_protocol_frame() {
    let mut encoder = H264Encoder::default();
    let frame = CaptureFrame::metadata_only(7, 1280, 720, 123_456);

    let encoded = encoder.encode(frame, 9).unwrap();

    assert_eq!(encoded.room_stream_id, 9);
    assert_eq!(encoded.frame_id, 7);
    assert_eq!(encoded.sender_capture_time_micros, 123_456);
    assert_eq!(encoded.codec, CodecId::H264);
    assert!(!encoded.bytes.is_empty());
}

#[test]
fn synthetic_encoder_uses_configured_payload_size() {
    let mut encoder = H264Encoder::default();
    encoder.config.synthetic_payload_bytes = 2048;

    let encoded = encoder
        .encode(CaptureFrame::metadata_only(7, 1280, 720, 123_456), 9)
        .unwrap();

    assert_eq!(encoded.bytes.len(), 2048);
}

#[test]
fn keyframe_request_affects_next_frame_only() {
    let mut encoder = H264Encoder::default();
    encoder.request_keyframe();

    let first = encoder
        .encode(CaptureFrame::metadata_only(2, 1280, 720, 1), 9)
        .unwrap();
    let second = encoder
        .encode(CaptureFrame::metadata_only(3, 1280, 720, 2), 9)
        .unwrap();

    assert!(first.is_keyframe);
    assert!(!second.is_keyframe);
}

#[test]
fn latest_playback_keeps_rendered_frame_summary() {
    let mut playback = LatestFramePlayback::new();

    playback
        .render(DecodedFrame {
            frame_id: 7,
            width: 2,
            height: 1,
            pixel_format: DecodedPixelFormat::Bgra8,
            pixels: vec![0, 0, 0, 255, 1, 1, 1, 255],
        })
        .unwrap();

    assert_eq!(playback.rendered_frames(), 1);
    let latest = playback.latest().unwrap();
    assert_eq!(latest.frame_id, 7);
    assert_eq!(latest.pixel_bytes, 8);
    assert!(latest.render_time_micros > 0);
}

#[test]
fn latest_playback_rejects_bad_pixel_buffer_length() {
    let mut playback = LatestFramePlayback::new();

    let result = playback.render(DecodedFrame {
        frame_id: 7,
        width: 2,
        height: 1,
        pixel_format: DecodedPixelFormat::Bgra8,
        pixels: vec![0, 0, 0, 255],
    });

    assert!(result.is_err());
    assert_eq!(
        result,
        Err(PlaybackError::PixelLengthMismatch {
            expected: 8,
            actual: 4
        })
    );
}

#[test]
fn playback_at_a_given_time_records_it() {
    let mut playback = LatestFramePlayback::new();

    playback
        .render_at(
            DecodedFrame {
                frame_id: 3,
                width: 1,
                height: 1,
                pixel_format: DecodedPixelFormat::Bgra8,
                pixels: vec![1, 2, 3, 4],
            },
            77,
        )
        .unwrap();

    assert_eq!(playback.latest().unwrap().render_time_micros, 77);
}

#[test]
fn logging_remote_input_applier_counts_events() {
    let event = RemoteInputEvent {
        sender_user_id: 7,
        sequence_number: 1,
        event_time_micros: 2,
        kind: RemoteInputKind::Key {
            key_code: 13,
            pressed: true,
        },
    };
    let mut applier = LoggingRemoteInputApplier::default();

    applier.apply(&event).unwrap();
    applier.apply(&event).unwrap();

    assert_eq!(applier.output_mode(), "log");
    assert_eq!(applier.applied_events(), 2);
}

#[test]
fn windows_absolute_axis_uses_protocol_coordinate_space() {
    assert_eq!(absolute_axis(0), 0);
    assert_eq!(absolute_axis(32_768), 32_768);
    assert_eq!(absolute_axis(u16::MAX), 65_535);
}

#[test]
fn windows_pointer_button_flags_map_x_buttons() {
    let (down_flags, down_data) = pointer_button_flags(PointerButton::X1, true);
    let (up_flags, up_data) = pointer_button_flags(PointerButton::X2, false);

    assert_ne!(down_flags, up_flags);
    assert_eq!(down_data, 1);
    assert_eq!(up_data, 2);
}

#[test]
fn windows_text_input_expands_to_key_down_and_up() {
    let inputs = inputs_for_kind(&RemoteInputKind::Text {
        text: "hi".to_owned(),
    })
    .unwrap();

    assert_eq!(inputs.len(), 4);
}

#[test]
fn text_outside_the_basic_plane_types_surrogate_pairs() {
    let inputs = inputs_for_kind(&RemoteInputKind::Text {
        text: "\u{1F600}".to_owned(),
    })
    .unwrap();

    assert_eq!(
        inputs,
        vec![
            NativeInput::Keyboard { virtual_key: 0, scan_code: 0xD83D, flags: KEYEVENTF_UNICODE },
            NativeInput::Keyboard {
                virtual_key: 0,
                scan_code: 0xD83D,
                flags: KEYEVENTF_UNICODE | KEYEVENTF_KEYUP
            },
            NativeInput::Keyboard { virtual_key: 0, scan_code: 0xDE00, flags: KEYEVENTF_UNICODE },
            NativeInput::Keyboard {
                virtual_key: 0,
                scan_code: 0xDE00,
                flags: KEYEVENTF_UNICODE | KEYEVENTF_KEYUP
            },
        ]
    );
}

#[test]
fn zero_key_code_is_refused() {
    assert_eq!(
        inputs_for_kind(&RemoteInputKind::Key {
            key_code: 0,
            pressed: true
        }),
        Err(RemoteInputError::ZeroKeyCode)
    );
}

#[test]
fn wheel_without_delta_only_moves() {
    let inputs = inputs_for_kind(&RemoteInputKind::PointerWheel {
        delta_x: 0,
        delta_y: -120,
        normalized_x: 10,
        normalized_y: 20,
    })
    .unwrap();

    assert_eq!(inputs.len(), 2);
    match inputs[1] {
        NativeInput::Mouse { mouse_data, .. } => assert_eq!(mouse_data, (-120i32) as u32),
        other => panic!("unexpected input: {other:?}"),
    }
}

#[test]
fn wide_device_name_replaces_unpaired_surrogates() {
    let name = [0xD800, 'a' as u16, 0xD83D, 0xDE00, 0];

    assert_eq!(wide_device_name(&name), "\u{FFFD}a\u{1F600}");
}

#[test]
fn synthetic_waveform_uses_wrapping_32_bit_phase() {
    let frame_id: u32 = 3_000_000_000;
    let mut bytes = b"TVO1".to_vec();
    bytes.extend_from_slice(&frame_id.to_le_bytes());
    bytes.extend_from_slice(&48_000u32.to_le_bytes());
    bytes.extend_from_slice(&1u16.to_le_bytes());
    bytes.extend_from_slice(&4u16.to_le_bytes());
    bytes.extend_from_slice(&7u64.to_le_bytes());
    let mut decoder = SyntheticOpusDecoder;

    let decoded = decoder.decode(&bytes).unwrap().unwrap();

    let expected: Vec<i16> = (0..4i32)
        .map(|k| (((frame_id as i32).wrapping_mul(97).wrapping_add(k * 13) % 1024) - 512) as i16)
        .collect();
    assert_eq!(decoded.pcm, expected);
}

#[test]
fn audio_error_messages_name_the_numbers() {
    let error = AudioError::SamplesNotDivisible { sample_len: 7, channel_count: 2 };
    assert_eq!(
        error.message(),
        "audio sample buffer length 7 is not divisible by channel count 2"
    );
    let error = AudioError::EmbeddedPcmLengthMismatch { expected: 40, actual: 12 };
    assert_eq!(error.message(), "embedded PCM length mismatch: expected 40, got 12");
    assert_eq!(AudioError::NoSamples.message(), "audio sample count must be non-zero");
}

#[test]
fn captures_are_refused_where_the_platform_has_none() {
    let screen = WindowsGraphicsCapture::new(
        CaptureSource::PrimaryMonitor,
        CaptureConfig {
            queue_capacity: 1,
            cursor_visible: true,
        },
        false,
    );
    assert!(matches!(screen, Err(CaptureError::Unsupported)));
    let microphone =
        WindowsMicrophoneCapture::new(MicrophoneSource::Default, AudioCaptureConfig::default(), false);
    match microphone {
        Err(error) => {
            assert_eq!(error, AudioError::Unsupported);
            assert_eq!(error.message(), "microphone capture is only available on Windows");
        }
        Ok(_) => panic!("expected a refusal"),
    }
}

#[test]
fn windows_support_detection_matches_target_os() {
    assert!(teamview::client::capture::windows::is_supported("windows"));
    assert!(!teamview::client::capture::windows::is_supported("linux"));
    assert_eq!(teamview::client::capture::windows::ensure_supported(true), Ok(()));
    assert_eq!(
        teamview::client::capture::windows::ensure_supported(false),
        Err(CaptureError::Unsupported)
    );
}

#[test]
fn audio_capture_support_detection_matches_target_os() {
    assert!(teamview::client::audio_capture::is_supported("windows"));
    assert!(!teamview::client::audio_capture::is_supported("macos"));
    assert_eq!(teamview::client::audio_capture::ensure_supported(true), Ok(()));
    assert_eq!(
        teamview::client::audio_capture::ensure_supported(false),
        Err(AudioError::Unsupported)
    );
}

fn encode_through<E: teamview::client::encode::VideoEncoder>(
    encoder: &mut E,
    frame: CaptureFrame,
) -> Option<EncodedFrame> {
    encoder.update_bitrate(2_000_000);
    encoder.request_keyframe();
    encoder.encode(frame, 9)
}

fn decode_through<D: teamview::client::decode::VideoDecoder>(
    decoder: &mut D,
    bytes: &[u8],
) -> Option<DecodedFrame> {
    decoder.decode(bytes)
}

fn render_through<P: teamview::client::playback::VideoPlayback>(
    playback: &mut P,
    frame: DecodedFrame,
) -> Result<(), PlaybackError> {
    playback.render(frame)
}

#[test]
fn media_traits_drive_the_library_codecs_and_sinks() {
    let mut encoder = H264Encoder::default();
    let encoded = encode_through(&mut encoder, CaptureFrame::metadata_only(5, 640, 360, 77)).unwrap();
    assert!(encoded.is_keyframe);
    assert_eq!(encoded.frame_id, 5);
    assert_eq!(encoded.room_stream_id, 9);
    assert_eq!(encoder.config.bitrate_bps, 2_000_000);

    let mut decoder = H264Decoder;
    let decoded = decode_through(&mut decoder, &encoded.bytes).unwrap();
    assert_eq!((decoded.width, decoded.height), (1280, 720));
    assert!(decode_through(&mut decoder, &[]).is_none());

    let mut playback = LatestFramePlayback::new();
    let picture = DecodedFrame {
        frame_id: 1,
        width: 1,
        height: 1,
        pixel_format: DecodedPixelFormat::Bgra8,
        pixels: vec![0, 0, 0, 255],
    };
    assert_eq!(render_through(&mut playback, picture), Ok(()));
    assert_eq!(playback.rendered_frames(), 1);
}
