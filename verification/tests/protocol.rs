use teamview::protocol::codec::CodecId;
use teamview::protocol::control::{
    check_envelope_version, frame_control_line, trim_ascii_bounds, ClientControl,
    EnvelopeVersionError, Hello, MediaKind, PublishStream,
};
use teamview::protocol::frame::{
    packetize_frame, packetize_frame_for_datagram_target, packetize_frame_with_type,
    reassemble_frame, EncodedFrame, FramePacketizeError, FrameReassemblyError,
};
use teamview::protocol::packet::{
    MediaPacket, MediaPacketHeader, PacketDecodeError, PacketEncodeError, PacketFlags, PacketType,
    MEDIA_PACKET_HEADER_LEN,
};
use teamview::protocol::stats::{PipelineLatencyStats, QueueStats};
use teamview::protocol::PROTOCOL_VERSION;

#[test]
fn queue_budget_detects_slow_viewers() {
    let stats = QueueStats {
        queued_packets: 12,
        queued_media_ms: 151,
        dropped_packets: 3,
        dropped_frames: 1,
    };

    assert!(stats.is_over_budget(150));
}

#[test]
fn queue_exactly_at_budget_is_not_over_it() {
    let stats = QueueStats {
        queued_packets: 1,
        queued_media_ms: 150,
        dropped_packets: 0,
        dropped_frames: 0,
    };

    assert!(!stats.is_over_budget(150));
}

#[test]
fn latency_total_saturates() {
    let stats = PipelineLatencyStats {
        capture_ms: 10,
        encode_ms: 12,
        server_route_ms: 3,
        jitter_buffer_ms: 60,
        decode_ms: 8,
        render_ms: 10,
    };

    assert_eq!(stats.estimated_total_ms(), 103);
}

#[test]
fn latency_total_stops_at_u16_max() {
    let stats = PipelineLatencyStats {
        capture_ms: u16::MAX,
        encode_ms: 12,
        server_route_ms: 3,
        jitter_buffer_ms: 60,
        decode_ms: 8,
        render_ms: 10,
    };

    assert_eq!(stats.estimated_total_ms(), u16::MAX);
}

#[test]
fn media_header_round_trips() {
    let header = MediaPacketHeader {
        version: PROTOCOL_VERSION,
        packet_type: PacketType::Video,
        flags: PacketFlags::empty()
            .with(PacketFlags::KEYFRAME)
            .with(PacketFlags::END_OF_FRAME),
        room_stream_id: 42,
        sequence_number: 7,
        frame_id: 3,
        fragment_index: 1,
        fragment_count: 2,
        media_timestamp: 123_456,
        sender_capture_time_micros: 654_321,
        sender_clock_offset_micros: -123,
        sender_encode_done_time_micros: 655_000,
        sender_send_time_micros: 656_000,
        server_receive_time_micros: 777_000,
        server_send_time_micros: 778_000,
        codec: CodecId::H264,
        layer: 0,
        payload_length: 4,
    };

    let mut encoded = Vec::new();
    header.encode(&mut encoded);

    assert_eq!(encoded.len(), MEDIA_PACKET_HEADER_LEN);
    assert_eq!(MediaPacketHeader::decode(&encoded).unwrap().header, header);
}

#[test]
fn media_header_is_big_endian_on_the_wire() {
    let mut header = MediaPacketHeader::new(PacketType::Audio, CodecId::Opus, 0x0102_0304, 5, 0);
    header.frame_id = 0x0a0b_0c0d;
    let mut encoded = Vec::new();
    header.encode(&mut encoded);

    assert_eq!(encoded[0], PROTOCOL_VERSION);
    assert_eq!(encoded[1], 2);
    assert_eq!(encoded[4], MEDIA_PACKET_HEADER_LEN as u8);
    assert_eq!(&encoded[5..9], &[1, 2, 3, 4]);
    assert_eq!(&encoded[9..13], &[0, 0, 0, 5]);
    assert_eq!(&encoded[13..17], &[0x0a, 0x0b, 0x0c, 0x0d]);
}

#[test]
fn media_packet_round_trips() {
    let payload = b"data".to_vec();
    let packet = MediaPacket {
        header: MediaPacketHeader::new(PacketType::Video, CodecId::H264, 1, 9, payload.len() as u16),
        payload,
    };

    let encoded = packet.encode().unwrap();
    let decoded = MediaPacket::decode(&encoded).unwrap();

    assert_eq!(decoded, packet);
}

#[test]
fn rejects_unknown_version() {
    let mut encoded = Vec::new();
    MediaPacketHeader::new(PacketType::Video, CodecId::H264, 1, 1, 0).encode(&mut encoded);
    encoded[0] = PROTOCOL_VERSION + 1;

    assert_eq!(
        MediaPacketHeader::decode(&encoded),
        Err(PacketDecodeError::UnsupportedVersion(PROTOCOL_VERSION + 1))
    );
}

#[test]
fn rejects_short_header() {
    let encoded = vec![PROTOCOL_VERSION; 10];

    assert_eq!(
        MediaPacketHeader::decode(&encoded),
        Err(PacketDecodeError::TooShort {
            expected: MEDIA_PACKET_HEADER_LEN,
            actual: 10
        })
    );
}

#[test]
fn rejects_unknown_packet_type_and_codec() {
    let mut encoded = Vec::new();
    MediaPacketHeader::new(PacketType::Video, CodecId::H264, 1, 1, 0).encode(&mut encoded);
    let mut bad_type = encoded.clone();
    bad_type[1] = 9;
    assert_eq!(
        MediaPacketHeader::decode(&bad_type),
        Err(PacketDecodeError::UnknownPacketType(9))
    );
}

#[test]
fn skips_forward_compatible_header_extensions() {
    let payload = b"data".to_vec();
    let packet = MediaPacket {
        header: MediaPacketHeader::new(PacketType::Video, CodecId::H264, 1, 9, payload.len() as u16),
        payload,
    };
    let mut encoded = packet.encode().unwrap()[..MEDIA_PACKET_HEADER_LEN].to_vec();
    encoded[3] = 0;
    encoded[4] = (MEDIA_PACKET_HEADER_LEN + 2) as u8;
    encoded.extend_from_slice(&[0xaa, 0xbb]);
    encoded.extend_from_slice(&packet.payload);

    let decoded = MediaPacket::decode(&encoded).unwrap();

    assert_eq!(decoded.header, packet.header);
    assert_eq!(decoded.payload, packet.payload);
}

#[test]
fn rejects_invalid_fragment_count() {
    let mut header = MediaPacketHeader::new(PacketType::Video, CodecId::H264, 1, 1, 0);
    header.fragment_count = 0;

    assert_eq!(
        header.validate(),
        Err(PacketDecodeError::InvalidFragment {
            fragment_index: 0,
            fragment_count: 0
        })
    );
}

#[test]
fn rejects_payload_length_mismatch_on_encode() {
    let packet = MediaPacket {
        header: MediaPacketHeader::new(PacketType::Video, CodecId::H264, 1, 1, 99),
        payload: b"data".to_vec(),
    };

    assert_eq!(
        packet.encode(),
        Err(PacketEncodeError::PayloadLengthMismatch {
            header: 99,
            actual: 4
        })
    );
}

#[test]
fn duplicate_packet_keeps_header_and_payload() {
    let packet = MediaPacket {
        header: MediaPacketHeader::new(PacketType::Video, CodecId::H264, 3, 4, 2),
        payload: vec![7, 8],
    };

    assert_eq!(packet.duplicate(), packet);
}

fn sample_frame(len: usize) -> EncodedFrame {
    let bytes = (0..len).map(|idx| idx as u8).collect::<Vec<_>>();
    EncodedFrame {
        room_stream_id: 9,
        frame_id: 7,
        media_timestamp: 90_000,
        sender_capture_time_micros: 1_234_567,
        sender_encode_done_time_micros: 0,
        sender_send_time_micros: 0,
        server_receive_time_micros: 0,
        server_send_time_micros: 0,
        codec: CodecId::H264,
        is_keyframe: true,
        bytes,
    }
}

#[test]
fn packetizes_and_reassembles_multifragment_frame() {
    let frame = sample_frame(64);
    let packets = packetize_frame(&frame, 100, 17).unwrap();

    assert_eq!(packets.len(), 4);
    assert_eq!(packets[0].header.sequence_number, 100);
    assert_eq!(packets[3].header.sequence_number, 103);
    assert!(packets[0].header.flags.contains(PacketFlags::KEYFRAME));
    assert!(!packets[0].header.flags.contains(PacketFlags::END_OF_FRAME));
    assert!(packets[3].header.flags.contains(PacketFlags::END_OF_FRAME));

    let reassembled = reassemble_frame(packets).unwrap();
    assert_eq!(reassembled, frame);
}

#[test]
fn packetizes_for_datagram_target() {
    let frame = sample_frame(64);
    let packets =
        packetize_frame_for_datagram_target(&frame, 1, MEDIA_PACKET_HEADER_LEN + 10).unwrap();

    assert_eq!(packets.len(), 7);
    for packet in packets {
        assert!(packet.encode().unwrap().len() <= MEDIA_PACKET_HEADER_LEN + 10);
    }
}

#[test]
fn datagram_target_must_leave_room_for_payload() {
    let frame = sample_frame(64);

    assert_eq!(
        packetize_frame_for_datagram_target(&frame, 1, MEDIA_PACKET_HEADER_LEN),
        Err(FramePacketizeError::DatagramTooSmall)
    );
}

#[test]
fn packetizing_needs_a_positive_payload_size() {
    let frame = sample_frame(8);

    assert_eq!(packetize_frame(&frame, 1, 0), Err(FramePacketizeError::ZeroMaxPayload));
}

#[test]
fn packetizes_audio_frame_with_audio_packet_type() {
    let frame = EncodedFrame {
        room_stream_id: 9,
        frame_id: 7,
        media_timestamp: 960,
        sender_capture_time_micros: 1_234_567,
        sender_encode_done_time_micros: 0,
        sender_send_time_micros: 0,
        server_receive_time_micros: 0,
        server_send_time_micros: 0,
        codec: CodecId::Opus,
        is_keyframe: false,
        bytes: b"synthetic-opus".to_vec(),
    };

    let packets = packetize_frame_with_type(&frame, PacketType::Audio, 1, 8).unwrap();

    assert_eq!(packets[0].header.packet_type, PacketType::Audio);
    let reassembled = reassemble_frame(packets).unwrap();
    assert_eq!(reassembled, frame);
}

#[test]
fn packetizes_zero_length_frame() {
    let frame = sample_frame(0);
    let packets = packetize_frame(&frame, 1, 10).unwrap();

    assert_eq!(packets.len(), 1);
    assert_eq!(packets[0].payload.len(), 0);
    assert!(packets[0].header.flags.contains(PacketFlags::END_OF_FRAME));
}

#[test]
fn sequence_numbers_wrap() {
    let frame = sample_frame(30);
    let packets = packetize_frame(&frame, u32::MAX - 1, 10).unwrap();

    assert_eq!(packets[0].header.sequence_number, u32::MAX - 1);
    assert_eq!(packets[1].header.sequence_number, u32::MAX);
    assert_eq!(packets[2].header.sequence_number, 0);
}

#[test]
fn reassembly_rejects_empty_input() {
    assert_eq!(reassemble_frame(Vec::new()), Err(FrameReassemblyError::Empty));
}

#[test]
fn reassembly_rejects_missing_fragment() {
    let frame = sample_frame(64);
    let mut packets = packetize_frame(&frame, 1, 17).unwrap();
    packets.remove(1);

    assert_eq!(
        reassemble_frame(packets),
        Err(FrameReassemblyError::FragmentCountMismatch)
    );
}

#[test]
fn reassembly_rejects_duplicate_fragment() {
    let frame = sample_frame(64);
    let mut packets = packetize_frame(&frame, 1, 17).unwrap();
    packets[1] = packets[0].clone();

    assert_eq!(
        reassemble_frame(packets),
        Err(FrameReassemblyError::DuplicateFragment(0))
    );
}

#[test]
fn reassembly_rejects_mixed_timestamp() {
    let frame = sample_frame(64);
    let mut packets = packetize_frame(&frame, 1, 17).unwrap();
    packets[1].header.media_timestamp += 1;

    assert_eq!(
        reassemble_frame(packets),
        Err(FrameReassemblyError::FragmentMetadataMismatch)
    );
}

#[test]
fn reassembly_preserves_relay_timestamp_span() {
    let frame = sample_frame(64);
    let mut packets = packetize_frame(&frame, 1, 17).unwrap();
    packets[0].header.sender_encode_done_time_micros = 800;
    packets[0].header.sender_send_time_micros = 850;
    packets[1].header.sender_encode_done_time_micros = 800;
    packets[1].header.sender_send_time_micros = 875;
    packets[0].header.server_receive_time_micros = 1_000;
    packets[0].header.server_send_time_micros = 1_500;
    packets[1].header.server_receive_time_micros = 900;
    packets[1].header.server_send_time_micros = 1_700;

    let reassembled = reassemble_frame(packets).unwrap();

    assert_eq!(reassembled.sender_encode_done_time_micros, 800);
    assert_eq!(reassembled.sender_send_time_micros, 875);
    assert_eq!(reassembled.server_receive_time_micros, 900);
    assert_eq!(reassembled.server_send_time_micros, 1_700);
}

#[test]
fn reassembly_rejects_bad_end_of_frame_flag() {
    let frame = sample_frame(64);
    let mut packets = packetize_frame(&frame, 1, 17).unwrap();
    packets[0].header.flags = packets[0].header.flags.with(PacketFlags::END_OF_FRAME);

    assert_eq!(
        reassemble_frame(packets),
        Err(FrameReassemblyError::InvalidEndOfFrameFlag(0))
    );
}

#[test]
fn hello_carries_protocol_version() {
    let hello = ClientControl::Hello(Hello {
        protocol_version: PROTOCOL_VERSION,
        client_name: "desktop-client".to_owned(),
    });

    assert!(matches!(
        hello,
        ClientControl::Hello(Hello {
            protocol_version: PROTOCOL_VERSION,
            ..
        })
    ));
}

#[test]
fn publish_stream_identifies_media_kind_and_codec() {
    let publish = PublishStream {
        room_id: 1,
        stream_id: 9,
        codec: CodecId::H264,
        media_kind: MediaKind::Screen,
    };

    assert_eq!(publish.codec, CodecId::H264);
    assert_eq!(publish.media_kind, MediaKind::Screen);
}

#[test]
fn envelope_version_must_match() {
    assert_eq!(check_envelope_version(PROTOCOL_VERSION), Ok(()));
    assert_eq!(
        check_envelope_version(99),
        Err(EnvelopeVersionError::UnsupportedVersion(99))
    );
}

#[test]
fn control_line_ends_with_one_newline_and_trims_whitespace() {
    let line = frame_control_line(b"{}".to_vec());
    assert_eq!(line, b"{}\n".to_vec());

    let bounds = trim_ascii_bounds(b"  {}\r\n");
    assert_eq!(bounds, (2, 4));
}

#[test]
fn codec_wire_values_round_trip() {
    for codec in [CodecId::H264, CodecId::Av1, CodecId::Hevc, CodecId::Opus] {
        assert_eq!(CodecId::try_from_wire(codec.to_wire()), Ok(codec));
    }
    assert_eq!(CodecId::Opus.to_wire(), 16);
}

#[test]
fn reassembles_fragments_in_any_arrival_order() {
    let frame = sample_frame(64);
    let packets = packetize_frame(&frame, 100, 17).unwrap();
    let mut reversed = packets.clone();
    reversed.reverse();
    assert_eq!(reassemble_frame(reversed).unwrap(), frame);
    let mut shuffled = packets.clone();
    shuffled.swap(0, 2);
    shuffled.swap(1, 3);
    assert_eq!(reassemble_frame(shuffled).unwrap(), frame);
    let missing = packets[1..].to_vec();
    assert_eq!(
        reassemble_frame(missing),
        Err(FrameReassemblyError::FragmentCountMismatch)
    );
}
