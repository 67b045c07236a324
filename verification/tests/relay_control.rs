use teamview::protocol::codec::CodecId;
use teamview::protocol::control::{
    Authenticate, ClientControl, ClientEnvelope, CreateRoom, Hello, JoinRoom, KeyframeReason,
    LeaveRoom, ListRooms, ListStreams, MediaKind, Ping, PollPublisherFeedback, PollStreamConfig,
    PollStreamMetrics, Pong, PublishStream, RequestKeyframe, RoomId, RoomLeft, ServerControl,
    SetTargetBitrate, SetTargetFramerate, SetVoiceState, StreamConfig, StreamId, SubscribeStream,
    TimeSyncRequest, UnpublishStream, ViewerStatsReport, VoiceState,
};
use teamview::protocol::packet::{MediaPacket, MediaPacketHeader, PacketFlags, PacketType};
use teamview::protocol::PROTOCOL_VERSION;
use teamview::relay::control::feedback::viewer_is_degraded;
use teamview::relay::control::{
    ControlState, DEFAULT_TARGET_BITRATE_BPS, DEFAULT_TARGET_FRAMES_PER_SECOND,
    MIN_TARGET_BITRATE_BPS, MIN_TARGET_FRAMES_PER_SECOND,
};
use teamview::relay::media::MediaForwardSummary;
use teamview::relay::session::Session;

fn say_hello(state: &mut ControlState, session: &mut Session, client_name: &str) {
    let response = state.handle_client_envelope(
        session,
        ClientEnvelope::new(
            1,
            ClientControl::Hello(Hello {
                protocol_version: PROTOCOL_VERSION,
                client_name: client_name.to_owned(),
            }),
        ),
    );
    assert!(matches!(response.message, ServerControl::HelloAccepted(_)));
}

fn open_room(state: &mut ControlState, session: &mut Session, name: &str) -> RoomId {
    let response = state.handle_client_envelope(
        session,
        ClientEnvelope::new(
            2,
            ClientControl::CreateRoom(CreateRoom {
                name: name.to_owned(),
            }),
        ),
    );
    match response.message {
        ServerControl::RoomCreated(room) => room.room_id,
        other => panic!("unexpected create room response: {other:?}"),
    }
}

fn enter_room(state: &mut ControlState, session: &mut Session, room_id: RoomId) {
    let response = state.handle_client_envelope(
        session,
        ClientEnvelope::new(3, ClientControl::JoinRoom(JoinRoom { room_id })),
    );
    assert!(matches!(response.message, ServerControl::RoomJoined(_)));
}

fn publish_screen(state: &mut ControlState, session: &mut Session, room_id: RoomId, stream_id: StreamId) {
    let response = state.handle_client_envelope(
        session,
        ClientEnvelope::new(
            4,
            ClientControl::PublishStream(PublishStream {
                room_id,
                stream_id,
                codec: CodecId::H264,
                media_kind: MediaKind::Screen,
            }),
        ),
    );
    assert!(matches!(response.message, ServerControl::StreamPublished(_)));
}

fn publish_voice(state: &mut ControlState, session: &mut Session, room_id: RoomId, stream_id: StreamId) {
    let response = state.handle_client_envelope(
        session,
        ClientEnvelope::new(
            4,
            ClientControl::PublishStream(PublishStream {
                room_id,
                stream_id,
                codec: CodecId::Opus,
                media_kind: MediaKind::Voice,
            }),
        ),
    );
    assert!(matches!(response.message, ServerControl::StreamPublished(_)));
}

fn watch_stream(state: &mut ControlState, session: &mut Session, room_id: RoomId, stream_id: StreamId) {
    let response = state.handle_client_envelope(
        session,
        ClientEnvelope::new(
            5,
            ClientControl::SubscribeStream(SubscribeStream { room_id, stream_id }),
        ),
    );
    assert!(matches!(response.message, ServerControl::StreamSubscribed(_)));
}

fn blank_report(room_id: RoomId, stream_id: StreamId) -> ViewerStatsReport {
    ViewerStatsReport {
        room_id,
        stream_id,
        received_packets: 0,
        lost_packets: 0,
        decoded_frames: 0,
        dropped_frames: 0,
        jitter_buffer_ms: 0,
        estimated_latency_ms: 0,
        calibrated_latency_ms: 0,
        reassembly_ms_p50: 0,
        reassembly_ms_p95: 0,
        decode_ms_p50: 0,
        decode_ms_p95: 0,
        render_ms_p50: 0,
        render_ms_p95: 0,
        render_fps: 0,
    }
}

fn screen_config(room_id: RoomId, stream_id: StreamId) -> StreamConfig {
    StreamConfig {
        room_id,
        stream_id,
        codec: CodecId::H264,
        width: 1280,
        height: 720,
        frames_per_second: 30,
        timebase_hz: 90_000,
    }
}

fn video_packet(stream_id: StreamId) -> MediaPacket {
    let payload = b"synthetic".to_vec();
    let mut header = MediaPacketHeader::new(
        PacketType::Video,
        CodecId::H264,
        stream_id,
        1,
        payload.len() as u16,
    );
    header.frame_id = 1;
    header.flags = PacketFlags::empty().with(PacketFlags::END_OF_FRAME);
    MediaPacket { header, payload }
}

#[test]
fn create_room_requires_hello() {
    let mut state = ControlState::new();
    let mut session = Session::anonymous(1);

    let response = state.handle_client_envelope(
        &mut session,
        ClientEnvelope::new(
            1,
            ClientControl::CreateRoom(CreateRoom {
                name: "stage1".to_owned(),
            }),
        ),
    );

    match response.message {
        ServerControl::Error(error) => assert_eq!(error.code, "unauthenticated"),
        other => panic!("unexpected response: {other:?}"),
    }
    assert!(state.room(1).is_none());
}

#[test]
fn ping_requires_hello() {
    let mut state = ControlState::new();
    let mut session = Session::anonymous(1);

    let response = state.handle_client_envelope(
        &mut session,
        ClientEnvelope::new(1, ClientControl::Ping(Ping { nonce: 7 })),
    );

    match response.message {
        ServerControl::Error(error) => assert_eq!(error.code, "unauthenticated"),
        other => panic!("unexpected ping response: {other:?}"),
    }
}

#[test]
fn ping_returns_pong_after_hello() {
    let mut state = ControlState::new();
    let mut session = Session::anonymous(1);
    say_hello(&mut state, &mut session, "client");

    let response = state.handle_client_envelope(
        &mut session,
        ClientEnvelope::new(2, ClientControl::Ping(Ping { nonce: 99 })),
    );

    assert_eq!(response.message, ServerControl::Pong(Pong { nonce: 99 }));
}

#[test]
fn time_sync_requires_hello() {
    let mut state = ControlState::new();
    let mut session = Session::anonymous(1);

    let response = state.handle_client_envelope(
        &mut session,
        ClientEnvelope::new(
            1,
            ClientControl::TimeSync(TimeSyncRequest {
                client_send_time_micros: 123,
            }),
        ),
    );

    match response.message {
        ServerControl::Error(error) => assert_eq!(error.code, "unauthenticated"),
        other => panic!("unexpected time sync response: {other:?}"),
    }
}

#[test]
fn time_sync_echoes_client_time_after_hello() {
    let mut state = ControlState::new();
    let mut session = Session::anonymous(1);
    say_hello(&mut state, &mut session, "client");

    let response = state.handle_client_envelope(
        &mut session,
        ClientEnvelope::new(
            2,
            ClientControl::TimeSync(TimeSyncRequest {
                client_send_time_micros: 1_234_567,
            }),
        ),
    );

    match response.message {
        ServerControl::TimeSync(sync) => {
            assert_eq!(sync.client_send_time_micros, 1_234_567);
            assert!(sync.server_receive_time_micros > 0);
            assert!(sync.server_send_time_micros >= sync.server_receive_time_micros);
        }
        other => panic!("unexpected time sync response: {other:?}"),
    }
}

#[test]
fn access_token_blocks_controls_until_authenticate_succeeds() {
    let mut state = ControlState::with_access_token("secret");
    let mut session = Session::anonymous(1);
    say_hello(&mut state, &mut session, "client");

    let blocked = state.handle_client_envelope(
        &mut session,
        ClientEnvelope::new(
            2,
            ClientControl::CreateRoom(CreateRoom {
                name: "stage1".to_owned(),
            }),
        ),
    );
    match blocked.message {
        ServerControl::Error(error) => assert_eq!(error.code, "not_authenticated"),
        other => panic!("unexpected unauthenticated response: {other:?}"),
    }

    let invalid = state.handle_client_envelope(
        &mut session,
        ClientEnvelope::new(
            3,
            ClientControl::Authenticate(Authenticate {
                token: "wrong".to_owned(),
            }),
        ),
    );
    match invalid.message {
        ServerControl::Error(error) => assert_eq!(error.code, "invalid_token"),
        other => panic!("unexpected invalid token response: {other:?}"),
    }

    let authenticated = state.handle_client_envelope(
        &mut session,
        ClientEnvelope::new(
            4,
            ClientControl::Authenticate(Authenticate {
                token: "secret".to_owned(),
            }),
        ),
    );
    assert!(matches!(
        authenticated.message,
        ServerControl::Authenticated(_)
    ));

    let room_id = open_room(&mut state, &mut session, "stage1");
    assert_eq!(room_id, 1);
}

#[test]
fn duplicate_stream_id_is_rejected_across_rooms() {
    let mut state = ControlState::new();
    let mut first = Session::anonymous(1);
    let mut second = Session::anonymous(2);
    say_hello(&mut state, &mut first, "first");
    say_hello(&mut state, &mut second, "second");
    let first_room = open_room(&mut state, &mut first, "first-room");
    let second_room = open_room(&mut state, &mut second, "second-room");
    enter_room(&mut state, &mut first, first_room);
    enter_room(&mut state, &mut second, second_room);
    publish_screen(&mut state, &mut first, first_room, 9);

    let duplicate = state.handle_client_envelope(
        &mut second,
        ClientEnvelope::new(
            7,
            ClientControl::PublishStream(PublishStream {
                room_id: second_room,
                stream_id: 9,
                codec: CodecId::H264,
                media_kind: MediaKind::Screen,
            }),
        ),
    );

    match duplicate.message {
        ServerControl::Error(error) => assert_eq!(error.code, "stream_id_conflict"),
        other => panic!("unexpected duplicate stream response: {other:?}"),
    }
}

#[test]
fn create_room_adds_creator_as_participant() {
    let mut state = ControlState::new();
    let mut session = Session::anonymous(1);
    say_hello(&mut state, &mut session, "creator");

    let room_id = open_room(&mut state, &mut session, "stage1");

    let room = state.room(room_id).unwrap();
    assert!(room.participants.contains(&session.user_id.unwrap()));
    assert_eq!(room.participants.len(), 1);
}

#[test]
fn list_rooms_returns_room_summaries() {
    let mut state = ControlState::new();
    let mut publisher = Session::anonymous(1);
    let mut viewer = Session::anonymous(2);
    say_hello(&mut state, &mut publisher, "publisher");
    say_hello(&mut state, &mut viewer, "viewer");
    let room_id = open_room(&mut state, &mut publisher, "stage1");
    open_room(&mut state, &mut publisher, "empty");
    enter_room(&mut state, &mut publisher, room_id);
    enter_room(&mut state, &mut viewer, room_id);
    publish_screen(&mut state, &mut publisher, room_id, 9);

    let response = state.handle_client_envelope(
        &mut viewer,
        ClientEnvelope::new(6, ClientControl::ListRooms(ListRooms)),
    );

    match response.message {
        ServerControl::RoomList(list) => {
            assert_eq!(list.rooms.len(), 2);
            assert_eq!(list.rooms[0].room_id, room_id);
            assert_eq!(list.rooms[0].name, "stage1");
            assert_eq!(list.rooms[0].participant_count, 2);
            assert_eq!(list.rooms[0].published_stream_count, 1);
            assert_eq!(list.rooms[1].name, "empty");
            assert_eq!(list.rooms[1].participant_count, 1);
            assert_eq!(list.rooms[1].published_stream_count, 0);
        }
        other => panic!("unexpected room list response: {other:?}"),
    }
}

#[test]
fn room_participant_can_list_streams() {
    let mut state = ControlState::new();
    let mut publisher = Session::anonymous(1);
    let mut viewer = Session::anonymous(2);
    say_hello(&mut state, &mut publisher, "publisher");
    say_hello(&mut state, &mut viewer, "viewer");
    let room_id = open_room(&mut state, &mut publisher, "stage1");
    enter_room(&mut state, &mut publisher, room_id);
    enter_room(&mut state, &mut viewer, room_id);
    publish_screen(&mut state, &mut publisher, room_id, 9);
    watch_stream(&mut state, &mut viewer, room_id, 9);
    let config = screen_config(room_id, 9);
    state.handle_client_envelope(
        &mut publisher,
        ClientEnvelope::new(6, ClientControl::SetStreamConfig(config)),
    );

    let response = state.handle_client_envelope(
        &mut viewer,
        ClientEnvelope::new(7, ClientControl::ListStreams(ListStreams { room_id })),
    );

    match response.message {
        ServerControl::StreamList(list) => {
            assert_eq!(list.room_id, room_id);
            assert_eq!(list.streams.len(), 1);
            let stream = &list.streams[0];
            assert_eq!(stream.room_id, room_id);
            assert_eq!(stream.stream_id, 9);
            assert_eq!(stream.publisher_id, publisher.user_id.unwrap());
            assert_eq!(stream.codec, CodecId::H264);
            assert_eq!(stream.media_kind, MediaKind::Screen);
            assert_eq!(stream.subscriber_count, 1);
            assert!(stream.has_config);
            assert_eq!(stream.target_bitrate_bps, DEFAULT_TARGET_BITRATE_BPS);
            assert_eq!(
                stream.target_frames_per_second,
                DEFAULT_TARGET_FRAMES_PER_SECOND
            );
            let published = state.published_stream(9).unwrap();
            assert_eq!(published.target_width, 1280);
            assert_eq!(published.target_height, 720);
        }
        other => panic!("unexpected stream list response: {other:?}"),
    }
}

#[test]
fn non_participant_cannot_list_streams() {
    let mut state = ControlState::new();
    let mut publisher = Session::anonymous(1);
    let mut outsider = Session::anonymous(2);
    say_hello(&mut state, &mut publisher, "publisher");
    say_hello(&mut state, &mut outsider, "outsider");
    let room_id = open_room(&mut state, &mut publisher, "stage1");
    enter_room(&mut state, &mut publisher, room_id);
    publish_screen(&mut state, &mut publisher, room_id, 9);

    let response = state.handle_client_envelope(
        &mut outsider,
        ClientEnvelope::new(6, ClientControl::ListStreams(ListStreams { room_id })),
    );

    match response.message {
        ServerControl::Error(error) => assert_eq!(error.code, "not_in_room"),
        other => panic!("unexpected stream list response: {other:?}"),
    }
}

#[test]
fn disconnect_user_removes_participation_subscriptions_and_streams() {
    let mut state = ControlState::new();
    let mut publisher = Session::anonymous(1);
    let mut viewer = Session::anonymous(2);
    say_hello(&mut state, &mut publisher, "publisher");
    say_hello(&mut state, &mut viewer, "viewer");
    let room_id = open_room(&mut state, &mut publisher, "stage1");
    enter_room(&mut state, &mut publisher, room_id);
    enter_room(&mut state, &mut viewer, room_id);
    publish_screen(&mut state, &mut publisher, room_id, 9);
    watch_stream(&mut state, &mut viewer, room_id, 9);

    state.disconnect_user(publisher.user_id.unwrap());

    let room = state.room(room_id).unwrap();
    assert!(!room.participants.contains(&publisher.user_id.unwrap()));
    assert!(!room.published_streams.contains_key(&9));
    assert!(!room.subscriptions.contains_key(&9));
}

#[test]
fn disconnect_user_removes_empty_rooms_from_discovery() {
    let mut state = ControlState::new();
    let mut publisher = Session::anonymous(1);
    let mut viewer = Session::anonymous(2);
    say_hello(&mut state, &mut publisher, "publisher");
    say_hello(&mut state, &mut viewer, "viewer");
    let room_id = open_room(&mut state, &mut publisher, "stage1");
    enter_room(&mut state, &mut publisher, room_id);
    publish_screen(&mut state, &mut publisher, room_id, 9);

    state.disconnect_user(publisher.user_id.unwrap());

    assert!(state.room(room_id).is_none());
    let response = state.handle_client_envelope(
        &mut viewer,
        ClientEnvelope::new(6, ClientControl::ListRooms(ListRooms)),
    );
    match response.message {
        ServerControl::RoomList(list) => assert!(list.rooms.is_empty()),
        other => panic!("unexpected room list response: {other:?}"),
    }
}

#[test]
fn publisher_leave_removes_owned_streams_and_empty_room() {
    let mut state = ControlState::new();
    let mut publisher = Session::anonymous(1);
    say_hello(&mut state, &mut publisher, "publisher");
    let room_id = open_room(&mut state, &mut publisher, "stage1");
    enter_room(&mut state, &mut publisher, room_id);
    publish_screen(&mut state, &mut publisher, room_id, 9);

    let response = state.handle_client_envelope(
        &mut publisher,
        ClientEnvelope::new(6, ClientControl::LeaveRoom(LeaveRoom { room_id })),
    );

    assert_eq!(
        response.message,
        ServerControl::RoomLeft(RoomLeft { room_id })
    );
    assert!(state.room(room_id).is_none());
    assert!(state.published_stream(9).is_none());
}

#[test]
fn viewer_leave_keeps_published_room_and_removes_subscription_stats() {
    let mut state = ControlState::new();
    let mut publisher = Session::anonymous(1);
    let mut viewer = Session::anonymous(2);
    say_hello(&mut state, &mut publisher, "publisher");
    say_hello(&mut state, &mut viewer, "viewer");
    let room_id = open_room(&mut state, &mut publisher, "stage1");
    enter_room(&mut state, &mut publisher, room_id);
    enter_room(&mut state, &mut viewer, room_id);
    publish_screen(&mut state, &mut publisher, room_id, 9);
    watch_stream(&mut state, &mut viewer, room_id, 9);
    state.handle_client_envelope(
        &mut viewer,
        ClientEnvelope::new(
            6,
            ClientControl::ViewerStats(ViewerStatsReport {
                room_id,
                stream_id: 9,
                received_packets: 10,
                lost_packets: 0,
                decoded_frames: 2,
                dropped_frames: 0,
                jitter_buffer_ms: 40,
                estimated_latency_ms: 90,
                ..blank_report(room_id, 9)
            }),
        ),
    );

    let response = state.handle_client_envelope(
        &mut viewer,
        ClientEnvelope::new(7, ClientControl::LeaveRoom(LeaveRoom { room_id })),
    );

    assert_eq!(
        response.message,
        ServerControl::RoomLeft(RoomLeft { room_id })
    );
    let room = state.room(room_id).unwrap();
    assert!(room.published_streams.contains_key(&9));
    assert!(!room.participants.contains(&viewer.user_id.unwrap()));
    assert!(!room.subscriptions.contains_key(&9));
    assert!(state.viewer_stats_report(9, viewer.user_id.unwrap()).is_none());
}

#[test]
fn publisher_can_poll_recorded_stream_metrics() {
    let mut state = ControlState::new();
    let mut publisher = Session::anonymous(1);
    let mut viewer = Session::anonymous(2);
    say_hello(&mut state, &mut publisher, "publisher");
    say_hello(&mut state, &mut viewer, "viewer");
    let room_id = open_room(&mut state, &mut publisher, "stage1");
    enter_room(&mut state, &mut publisher, room_id);
    enter_room(&mut state, &mut viewer, room_id);
    publish_screen(&mut state, &mut publisher, room_id, 9);
    watch_stream(&mut state, &mut viewer, room_id, 9);

    let packet = video_packet(9);
    let ingress_bytes = packet.encode().unwrap().len();
    state.record_media_forward_summary(
        &packet,
        MediaForwardSummary {
            stream_id: 9,
            delivered: 1,
            dropped: 1,
        },
        ingress_bytes,
        1_700_000,
        4,
    );

    let response = state.handle_client_envelope(
        &mut publisher,
        ClientEnvelope::new(
            6,
            ClientControl::PollStreamMetrics(PollStreamMetrics {
                room_id,
                stream_id: 9,
            }),
        ),
    );

    match response.message {
        ServerControl::StreamMetrics(metrics) => {
            assert_eq!(metrics.room_id, room_id);
            assert_eq!(metrics.stream_id, 9);
            assert_eq!(metrics.ingress_packets, 1);
            assert_eq!(metrics.ingress_bytes, ingress_bytes as u64);
            assert_eq!(metrics.egress_queued_packets, 1);
            assert_eq!(metrics.egress_dropped_packets, 1);
            assert_eq!(metrics.egress_queue_packets, 0);
            assert_eq!(metrics.egress_queue_media_ms, 0);
            assert_eq!(metrics.subscriber_count, 1);
            assert_eq!(metrics.last_ingress_time_micros, 1_700_000);
            assert_eq!(metrics.server_route_ms_p50, 4);
            assert_eq!(metrics.server_route_ms_p95, 4);
        }
        other => panic!("unexpected stream metrics response: {other:?}"),
    }
}

#[test]
fn non_participant_cannot_poll_stream_metrics() {
    let mut state = ControlState::new();
    let mut publisher = Session::anonymous(1);
    let mut outsider = Session::anonymous(2);
    say_hello(&mut state, &mut publisher, "publisher");
    say_hello(&mut state, &mut outsider, "outsider");
    let room_id = open_room(&mut state, &mut publisher, "stage1");
    enter_room(&mut state, &mut publisher, room_id);
    publish_screen(&mut state, &mut publisher, room_id, 9);

    let response = state.handle_client_envelope(
        &mut outsider,
        ClientEnvelope::new(
            6,
            ClientControl::PollStreamMetrics(PollStreamMetrics {
                room_id,
                stream_id: 9,
            }),
        ),
    );

    match response.message {
        ServerControl::Error(error) => assert_eq!(error.code, "not_in_room"),
        other => panic!("unexpected stream metrics response: {other:?}"),
    }
}

#[test]
fn viewer_stats_returns_degraded_publisher_feedback() {
    let mut state = ControlState::new();
    let mut publisher = Session::anonymous(1);
    let mut viewer = Session::anonymous(2);
    say_hello(&mut state, &mut publisher, "publisher");
    say_hello(&mut state, &mut viewer, "viewer");
    let room_id = open_room(&mut state, &mut publisher, "stage1");
    enter_room(&mut state, &mut publisher, room_id);
    enter_room(&mut state, &mut viewer, room_id);
    publish_screen(&mut state, &mut publisher, room_id, 9);
    watch_stream(&mut state, &mut viewer, room_id, 9);

    let feedback = state.handle_client_envelope(
        &mut viewer,
        ClientEnvelope::new(
            6,
            ClientControl::ViewerStats(ViewerStatsReport {
                room_id,
                stream_id: 9,
                received_packets: 10,
                lost_packets: 1,
                decoded_frames: 2,
                dropped_frames: 0,
                jitter_buffer_ms: 40,
                estimated_latency_ms: 90,
                ..blank_report(room_id, 9)
            }),
        ),
    );

    match feedback.message {
        ServerControl::PublisherFeedback(feedback) => {
            assert_eq!(feedback.room_id, room_id);
            assert_eq!(feedback.stream_id, 9);
            assert_eq!(feedback.total_viewer_count, 1);
            assert_eq!(feedback.degraded_viewer_count, 1);
            assert!(feedback.keyframe_requested);
        }
        other => panic!("unexpected viewer stats response: {other:?}"),
    }
}

#[test]
fn slow_decode_or_render_marks_viewer_degraded() {
    let mut report = blank_report(1, 9);
    report.decode_ms_p95 = 45;
    assert!(viewer_is_degraded(&report));

    let mut report = blank_report(1, 9);
    report.reassembly_ms_p95 = 90;
    assert!(viewer_is_degraded(&report));

    let mut report = blank_report(1, 9);
    report.render_ms_p95 = 45;
    assert!(viewer_is_degraded(&report));

    let mut report = blank_report(1, 9);
    report.render_fps = 12;
    assert!(viewer_is_degraded(&report));

    let mut report = blank_report(1, 9);
    report.render_fps = 30;
    assert!(!viewer_is_degraded(&report));
}

#[test]
fn calibrated_latency_is_used_for_viewer_degradation() {
    let mut report = blank_report(1, 9);
    report.estimated_latency_ms = 0;
    report.calibrated_latency_ms = 220;
    assert!(viewer_is_degraded(&report));

    let mut report = blank_report(1, 9);
    report.estimated_latency_ms = 220;
    report.calibrated_latency_ms = 90;
    assert!(!viewer_is_degraded(&report));

    let mut report = blank_report(1, 9);
    report.estimated_latency_ms = 220;
    report.calibrated_latency_ms = 0;
    assert!(viewer_is_degraded(&report));
}

#[test]
fn publisher_can_poll_aggregated_viewer_feedback() {
    let mut state = ControlState::new();
    let mut publisher = Session::anonymous(1);
    let mut first_viewer = Session::anonymous(2);
    let mut second_viewer = Session::anonymous(3);
    say_hello(&mut state, &mut publisher, "publisher");
    say_hello(&mut state, &mut first_viewer, "first-viewer");
    say_hello(&mut state, &mut second_viewer, "second-viewer");
    let room_id = open_room(&mut state, &mut publisher, "stage1");
    enter_room(&mut state, &mut publisher, room_id);
    enter_room(&mut state, &mut first_viewer, room_id);
    enter_room(&mut state, &mut second_viewer, room_id);
    publish_screen(&mut state, &mut publisher, room_id, 9);
    watch_stream(&mut state, &mut first_viewer, room_id, 9);
    watch_stream(&mut state, &mut second_viewer, room_id, 9);

    state.handle_client_envelope(
        &mut first_viewer,
        ClientEnvelope::new(
            6,
            ClientControl::ViewerStats(ViewerStatsReport {
                room_id,
                stream_id: 9,
                received_packets: 10,
                lost_packets: 0,
                decoded_frames: 5,
                dropped_frames: 0,
                jitter_buffer_ms: 40,
                estimated_latency_ms: 90,
                ..blank_report(room_id, 9)
            }),
        ),
    );
    state.handle_client_envelope(
        &mut second_viewer,
        ClientEnvelope::new(
            7,
            ClientControl::ViewerStats(ViewerStatsReport {
                room_id,
                stream_id: 9,
                received_packets: 9,
                lost_packets: 1,
                decoded_frames: 4,
                dropped_frames: 1,
                jitter_buffer_ms: 130,
                estimated_latency_ms: 220,
                ..blank_report(room_id, 9)
            }),
        ),
    );

    let feedback = state.handle_client_envelope(
        &mut publisher,
        ClientEnvelope::new(
            8,
            ClientControl::PollPublisherFeedback(PollPublisherFeedback {
                room_id,
                stream_id: 9,
            }),
        ),
    );

    match feedback.message {
        ServerControl::PublisherFeedback(feedback) => {
            assert_eq!(feedback.total_viewer_count, 2);
            assert_eq!(feedback.degraded_viewer_count, 1);
            assert!(feedback.keyframe_requested);
        }
        other => panic!("unexpected poll feedback response: {other:?}"),
    }
}

#[test]
fn publisher_sets_target_media_settings() {
    let mut state = ControlState::new();
    let mut publisher = Session::anonymous(1);
    say_hello(&mut state, &mut publisher, "publisher");
    let room_id = open_room(&mut state, &mut publisher, "stage1");
    enter_room(&mut state, &mut publisher, room_id);
    publish_screen(&mut state, &mut publisher, room_id, 9);

    let bitrate = state.handle_client_envelope(
        &mut publisher,
        ClientEnvelope::new(
            6,
            ClientControl::SetTargetBitrate(SetTargetBitrate {
                room_id,
                stream_id: 9,
                bitrate_bps: 96_000,
            }),
        ),
    );
    match bitrate.message {
        ServerControl::PublisherFeedback(feedback) => {
            assert_eq!(feedback.aggregate_available_bitrate_bps, 96_000);
            assert_eq!(feedback.target_frames_per_second, 30);
            assert_eq!(feedback.target_width, 0);
            assert_eq!(feedback.target_height, 0);
        }
        other => panic!("unexpected target bitrate response: {other:?}"),
    }

    let framerate = state.handle_client_envelope(
        &mut publisher,
        ClientEnvelope::new(
            7,
            ClientControl::SetTargetFramerate(SetTargetFramerate {
                room_id,
                stream_id: 9,
                frames_per_second: 12,
            }),
        ),
    );
    match framerate.message {
        ServerControl::PublisherFeedback(feedback) => {
            assert_eq!(feedback.aggregate_available_bitrate_bps, 96_000);
            assert_eq!(feedback.target_frames_per_second, 12);
            assert_eq!(feedback.target_width, 0);
            assert_eq!(feedback.target_height, 0);
        }
        other => panic!("unexpected target framerate response: {other:?}"),
    }
}

#[test]
fn non_publisher_cannot_set_target_media_settings() {
    let mut state = ControlState::new();
    let mut publisher = Session::anonymous(1);
    let mut viewer = Session::anonymous(2);
    say_hello(&mut state, &mut publisher, "publisher");
    say_hello(&mut state, &mut viewer, "viewer");
    let room_id = open_room(&mut state, &mut publisher, "stage1");
    enter_room(&mut state, &mut publisher, room_id);
    enter_room(&mut state, &mut viewer, room_id);
    publish_screen(&mut state, &mut publisher, room_id, 9);

    let response = state.handle_client_envelope(
        &mut viewer,
        ClientEnvelope::new(
            6,
            ClientControl::SetTargetBitrate(SetTargetBitrate {
                room_id,
                stream_id: 9,
                bitrate_bps: 96_000,
            }),
        ),
    );

    match response.message {
        ServerControl::Error(error) => assert_eq!(error.code, "not_publisher"),
        other => panic!("unexpected set target response: {other:?}"),
    }
}

#[test]
fn degraded_majority_reduces_target_bitrate() {
    let mut state = ControlState::new();
    let mut publisher = Session::anonymous(1);
    let mut viewer = Session::anonymous(2);
    say_hello(&mut state, &mut publisher, "publisher");
    say_hello(&mut state, &mut viewer, "viewer");
    let room_id = open_room(&mut state, &mut publisher, "stage1");
    enter_room(&mut state, &mut publisher, room_id);
    enter_room(&mut state, &mut viewer, room_id);
    publish_screen(&mut state, &mut publisher, room_id, 9);
    watch_stream(&mut state, &mut viewer, room_id, 9);
    state.handle_client_envelope(
        &mut publisher,
        ClientEnvelope::new(
            6,
            ClientControl::SetTargetBitrate(SetTargetBitrate {
                room_id,
                stream_id: 9,
                bitrate_bps: 100_000,
            }),
        ),
    );
    state.handle_client_envelope(
        &mut viewer,
        ClientEnvelope::new(
            7,
            ClientControl::ViewerStats(ViewerStatsReport {
                room_id,
                stream_id: 9,
                received_packets: 10,
                lost_packets: 2,
                decoded_frames: 4,
                dropped_frames: 1,
                jitter_buffer_ms: 160,
                estimated_latency_ms: 240,
                ..blank_report(room_id, 9)
            }),
        ),
    );

    let feedback = state.handle_client_envelope(
        &mut publisher,
        ClientEnvelope::new(
            8,
            ClientControl::PollPublisherFeedback(PollPublisherFeedback {
                room_id,
                stream_id: 9,
            }),
        ),
    );

    match feedback.message {
        ServerControl::PublisherFeedback(feedback) => {
            assert_eq!(feedback.aggregate_available_bitrate_bps, 80_000);
            assert_eq!(feedback.degraded_viewer_count, 1);
            assert!(feedback.keyframe_requested);
        }
        other => panic!("unexpected degraded feedback response: {other:?}"),
    }
}

#[test]
fn degraded_majority_reduces_resolution_after_bitrate_and_fps_floor() {
    let mut state = ControlState::new();
    let mut publisher = Session::anonymous(1);
    let mut viewer = Session::anonymous(2);
    say_hello(&mut state, &mut publisher, "publisher");
    say_hello(&mut state, &mut viewer, "viewer");
    let room_id = open_room(&mut state, &mut publisher, "stage1");
    enter_room(&mut state, &mut publisher, room_id);
    enter_room(&mut state, &mut viewer, room_id);
    publish_screen(&mut state, &mut publisher, room_id, 9);
    state.handle_client_envelope(
        &mut publisher,
        ClientEnvelope::new(
            6,
            ClientControl::SetStreamConfig(screen_config(room_id, 9)),
        ),
    );
    watch_stream(&mut state, &mut viewer, room_id, 9);
    state.handle_client_envelope(
        &mut publisher,
        ClientEnvelope::new(
            7,
            ClientControl::SetTargetBitrate(SetTargetBitrate {
                room_id,
                stream_id: 9,
                bitrate_bps: MIN_TARGET_BITRATE_BPS,
            }),
        ),
    );
    state.handle_client_envelope(
        &mut publisher,
        ClientEnvelope::new(
            8,
            ClientControl::SetTargetFramerate(SetTargetFramerate {
                room_id,
                stream_id: 9,
                frames_per_second: MIN_TARGET_FRAMES_PER_SECOND,
            }),
        ),
    );
    state.handle_client_envelope(
        &mut viewer,
        ClientEnvelope::new(
            9,
            ClientControl::ViewerStats(ViewerStatsReport {
                room_id,
                stream_id: 9,
                received_packets: 10,
                lost_packets: 0,
                decoded_frames: 4,
                dropped_frames: 0,
                jitter_buffer_ms: 160,
                estimated_latency_ms: 240,
                ..blank_report(room_id, 9)
            }),
        ),
    );

    let feedback = state.handle_client_envelope(
        &mut publisher,
        ClientEnvelope::new(
            10,
            ClientControl::PollPublisherFeedback(PollPublisherFeedback {
                room_id,
                stream_id: 9,
            }),
        ),
    );

    match feedback.message {
        ServerControl::PublisherFeedback(feedback) => {
            assert_eq!(
                feedback.aggregate_available_bitrate_bps,
                MIN_TARGET_BITRATE_BPS
            );
            assert_eq!(
                feedback.target_frames_per_second,
                MIN_TARGET_FRAMES_PER_SECOND
            );
            assert_eq!(feedback.target_width, 1024);
            assert_eq!(feedback.target_height, 576);
            assert!(feedback.keyframe_requested);
            let config = state.published_stream(9).unwrap().config.as_ref().unwrap();
            assert_eq!(config.width, 1024);
            assert_eq!(config.height, 576);
        }
        other => panic!("unexpected degraded feedback response: {other:?}"),
    }
}

#[test]
fn new_subscriber_requests_keyframe_until_publisher_polls_feedback() {
    let mut state = ControlState::new();
    let mut publisher = Session::anonymous(1);
    let mut viewer = Session::anonymous(2);
    say_hello(&mut state, &mut publisher, "publisher");
    say_hello(&mut state, &mut viewer, "viewer");
    let room_id = open_room(&mut state, &mut publisher, "stage1");
    enter_room(&mut state, &mut publisher, room_id);
    enter_room(&mut state, &mut viewer, room_id);
    publish_screen(&mut state, &mut publisher, room_id, 9);
    watch_stream(&mut state, &mut viewer, room_id, 9);

    let first = state.handle_client_envelope(
        &mut publisher,
        ClientEnvelope::new(
            6,
            ClientControl::PollPublisherFeedback(PollPublisherFeedback {
                room_id,
                stream_id: 9,
            }),
        ),
    );
    match first.message {
        ServerControl::PublisherFeedback(feedback) => {
            assert_eq!(feedback.total_viewer_count, 1);
            assert!(feedback.keyframe_requested);
        }
        other => panic!("unexpected first feedback response: {other:?}"),
    }

    let second = state.handle_client_envelope(
        &mut publisher,
        ClientEnvelope::new(
            7,
            ClientControl::PollPublisherFeedback(PollPublisherFeedback {
                room_id,
                stream_id: 9,
            }),
        ),
    );
    match second.message {
        ServerControl::PublisherFeedback(feedback) => {
            assert_eq!(feedback.total_viewer_count, 1);
            assert!(!feedback.keyframe_requested);
        }
        other => panic!("unexpected second feedback response: {other:?}"),
    }
}

#[test]
fn voice_subscriber_does_not_request_keyframe() {
    let mut state = ControlState::new();
    let mut publisher = Session::anonymous(1);
    let mut viewer = Session::anonymous(2);
    say_hello(&mut state, &mut publisher, "publisher");
    say_hello(&mut state, &mut viewer, "viewer");
    let room_id = open_room(&mut state, &mut publisher, "stage1");
    enter_room(&mut state, &mut publisher, room_id);
    enter_room(&mut state, &mut viewer, room_id);
    publish_voice(&mut state, &mut publisher, room_id, 9);
    watch_stream(&mut state, &mut viewer, room_id, 9);

    let response = state.handle_client_envelope(
        &mut publisher,
        ClientEnvelope::new(
            6,
            ClientControl::PollPublisherFeedback(PollPublisherFeedback {
                room_id,
                stream_id: 9,
            }),
        ),
    );

    match response.message {
        ServerControl::PublisherFeedback(feedback) => {
            assert_eq!(feedback.total_viewer_count, 1);
            assert!(!feedback.keyframe_requested);
        }
        other => panic!("unexpected voice feedback response: {other:?}"),
    }
}

#[test]
fn subscribed_viewer_can_request_decoder_recovery_keyframe() {
    let mut state = ControlState::new();
    let mut publisher = Session::anonymous(1);
    let mut viewer = Session::anonymous(2);
    say_hello(&mut state, &mut publisher, "publisher");
    say_hello(&mut state, &mut viewer, "viewer");
    let room_id = open_room(&mut state, &mut publisher, "stage1");
    enter_room(&mut state, &mut publisher, room_id);
    enter_room(&mut state, &mut viewer, room_id);
    publish_screen(&mut state, &mut publisher, room_id, 9);
    watch_stream(&mut state, &mut viewer, room_id, 9);
    state.handle_client_envelope(
        &mut publisher,
        ClientEnvelope::new(
            6,
            ClientControl::PollPublisherFeedback(PollPublisherFeedback {
                room_id,
                stream_id: 9,
            }),
        ),
    );

    let request = RequestKeyframe {
        room_id,
        stream_id: 9,
        reason: KeyframeReason::DecoderRecovery,
    };
    let acknowledged = state.handle_client_envelope(
        &mut viewer,
        ClientEnvelope::new(7, ClientControl::RequestKeyframe(request.clone())),
    );
    assert_eq!(
        acknowledged.message,
        ServerControl::RequestKeyframe(request)
    );

    let feedback = state.handle_client_envelope(
        &mut publisher,
        ClientEnvelope::new(
            8,
            ClientControl::PollPublisherFeedback(PollPublisherFeedback {
                room_id,
                stream_id: 9,
            }),
        ),
    );
    match feedback.message {
        ServerControl::PublisherFeedback(feedback) => assert!(feedback.keyframe_requested),
        other => panic!("unexpected feedback response: {other:?}"),
    }
}

#[test]
fn non_subscriber_cannot_request_keyframe() {
    let mut state = ControlState::new();
    let mut publisher = Session::anonymous(1);
    let mut viewer = Session::anonymous(2);
    say_hello(&mut state, &mut publisher, "publisher");
    say_hello(&mut state, &mut viewer, "viewer");
    let room_id = open_room(&mut state, &mut publisher, "stage1");
    enter_room(&mut state, &mut publisher, room_id);
    enter_room(&mut state, &mut viewer, room_id);
    publish_screen(&mut state, &mut publisher, room_id, 9);

    let response = state.handle_client_envelope(
        &mut viewer,
        ClientEnvelope::new(
            6,
            ClientControl::RequestKeyframe(RequestKeyframe {
                room_id,
                stream_id: 9,
                reason: KeyframeReason::DecoderRecovery,
            }),
        ),
    );

    match response.message {
        ServerControl::Error(error) => assert_eq!(error.code, "not_subscribed"),
        other => panic!("unexpected request-keyframe response: {other:?}"),
    }
}

#[test]
fn non_publisher_cannot_poll_publisher_feedback() {
    let mut state = ControlState::new();
    let mut publisher = Session::anonymous(1);
    let mut viewer = Session::anonymous(2);
    say_hello(&mut state, &mut publisher, "publisher");
    say_hello(&mut state, &mut viewer, "viewer");
    let room_id = open_room(&mut state, &mut publisher, "stage1");
    enter_room(&mut state, &mut publisher, room_id);
    enter_room(&mut state, &mut viewer, room_id);
    publish_screen(&mut state, &mut publisher, room_id, 9);

    let response = state.handle_client_envelope(
        &mut viewer,
        ClientEnvelope::new(
            6,
            ClientControl::PollPublisherFeedback(PollPublisherFeedback {
                room_id,
                stream_id: 9,
            }),
        ),
    );

    match response.message {
        ServerControl::Error(error) => assert_eq!(error.code, "not_publisher"),
        other => panic!("unexpected non-publisher poll response: {other:?}"),
    }
}

#[test]
fn publisher_sets_and_viewer_polls_stream_config() {
    let mut state = ControlState::new();
    let mut publisher = Session::anonymous(1);
    let mut viewer = Session::anonymous(2);
    say_hello(&mut state, &mut publisher, "publisher");
    say_hello(&mut state, &mut viewer, "viewer");
    let room_id = open_room(&mut state, &mut publisher, "stage1");
    enter_room(&mut state, &mut publisher, room_id);
    enter_room(&mut state, &mut viewer, room_id);
    publish_screen(&mut state, &mut publisher, room_id, 9);
    watch_stream(&mut state, &mut viewer, room_id, 9);

    let config = screen_config(room_id, 9);
    let set = state.handle_client_envelope(
        &mut publisher,
        ClientEnvelope::new(6, ClientControl::SetStreamConfig(config.clone())),
    );
    assert_eq!(set.message, ServerControl::StreamConfig(config.clone()));

    let polled = state.handle_client_envelope(
        &mut viewer,
        ClientEnvelope::new(
            7,
            ClientControl::PollStreamConfig(PollStreamConfig {
                room_id,
                stream_id: 9,
            }),
        ),
    );
    assert_eq!(polled.message, ServerControl::StreamConfig(config));
}

#[test]
fn stream_config_poll_reports_unavailable_until_publisher_sets_it() {
    let mut state = ControlState::new();
    let mut publisher = Session::anonymous(1);
    let mut viewer = Session::anonymous(2);
    say_hello(&mut state, &mut publisher, "publisher");
    say_hello(&mut state, &mut viewer, "viewer");
    let room_id = open_room(&mut state, &mut publisher, "stage1");
    enter_room(&mut state, &mut publisher, room_id);
    enter_room(&mut state, &mut viewer, room_id);
    publish_screen(&mut state, &mut publisher, room_id, 9);
    watch_stream(&mut state, &mut viewer, room_id, 9);

    let response = state.handle_client_envelope(
        &mut viewer,
        ClientEnvelope::new(
            6,
            ClientControl::PollStreamConfig(PollStreamConfig {
                room_id,
                stream_id: 9,
            }),
        ),
    );

    match response.message {
        ServerControl::Error(error) => assert_eq!(error.code, "stream_config_unavailable"),
        other => panic!("unexpected config response: {other:?}"),
    }
}

#[test]
fn non_publisher_cannot_set_stream_config() {
    let mut state = ControlState::new();
    let mut publisher = Session::anonymous(1);
    let mut viewer = Session::anonymous(2);
    say_hello(&mut state, &mut publisher, "publisher");
    say_hello(&mut state, &mut viewer, "viewer");
    let room_id = open_room(&mut state, &mut publisher, "stage1");
    enter_room(&mut state, &mut publisher, room_id);
    enter_room(&mut state, &mut viewer, room_id);
    publish_screen(&mut state, &mut publisher, room_id, 9);

    let response = state.handle_client_envelope(
        &mut viewer,
        ClientEnvelope::new(
            6,
            ClientControl::SetStreamConfig(screen_config(room_id, 9)),
        ),
    );

    match response.message {
        ServerControl::Error(error) => assert_eq!(error.code, "not_publisher"),
        other => panic!("unexpected set config response: {other:?}"),
    }
}

#[test]
fn create_join_publish_subscribe_flow_updates_state() {
    let mut state = ControlState::new();
    let mut publisher = Session::anonymous(1);
    let mut viewer = Session::anonymous(2);

    let accepted = state.handle_client_envelope(
        &mut publisher,
        ClientEnvelope::new(
            1,
            ClientControl::Hello(Hello {
                protocol_version: PROTOCOL_VERSION,
                client_name: "publisher".to_owned(),
            }),
        ),
    );
    assert!(matches!(accepted.message, ServerControl::HelloAccepted(_)));

    state.handle_client_envelope(
        &mut viewer,
        ClientEnvelope::new(
            1,
            ClientControl::Hello(Hello {
                protocol_version: PROTOCOL_VERSION,
                client_name: "viewer".to_owned(),
            }),
        ),
    );

    let created = state.handle_client_envelope(
        &mut publisher,
        ClientEnvelope::new(
            2,
            ClientControl::CreateRoom(CreateRoom {
                name: "stage1".to_owned(),
            }),
        ),
    );
    let room_id = match created.message {
        ServerControl::RoomCreated(room) => room.room_id,
        other => panic!("unexpected response: {other:?}"),
    };

    state.handle_client_envelope(
        &mut publisher,
        ClientEnvelope::new(3, ClientControl::JoinRoom(JoinRoom { room_id })),
    );
    state.handle_client_envelope(
        &mut viewer,
        ClientEnvelope::new(3, ClientControl::JoinRoom(JoinRoom { room_id })),
    );
    state.handle_client_envelope(
        &mut publisher,
        ClientEnvelope::new(
            4,
            ClientControl::PublishStream(PublishStream {
                room_id,
                stream_id: 9,
                codec: CodecId::H264,
                media_kind: MediaKind::Screen,
            }),
        ),
    );
    let subscribed = state.handle_client_envelope(
        &mut viewer,
        ClientEnvelope::new(
            5,
            ClientControl::SubscribeStream(SubscribeStream {
                room_id,
                stream_id: 9,
            }),
        ),
    );

    assert!(matches!(
        subscribed.message,
        ServerControl::StreamSubscribed(_)
    ));
    let room = state.room(room_id).unwrap();
    assert_eq!(room.participants.len(), 2);
    assert_eq!(room.published_streams.len(), 1);
    assert_eq!(room.subscriptions.get(&9).unwrap().len(), 1);
}

#[test]
fn voice_state_update_requires_room_participant() {
    let mut state = ControlState::new();
    let mut publisher = Session::anonymous(1);
    let mut viewer = Session::anonymous(2);
    say_hello(&mut state, &mut publisher, "publisher");
    say_hello(&mut state, &mut viewer, "viewer");
    let room_id = open_room(&mut state, &mut publisher, "stage1");

    let response = state.handle_client_envelope(
        &mut viewer,
        ClientEnvelope::new(
            4,
            ClientControl::SetVoiceState(SetVoiceState {
                room_id,
                muted: true,
                deafened: false,
                push_to_talk: false,
                speaking: false,
            }),
        ),
    );

    match response.message {
        ServerControl::Error(error) => assert_eq!(error.code, "not_in_room"),
        other => panic!("unexpected voice state response: {other:?}"),
    }
}

#[test]
fn voice_state_update_is_stored() {
    let mut state = ControlState::new();
    let mut publisher = Session::anonymous(1);
    say_hello(&mut state, &mut publisher, "publisher");
    let room_id = open_room(&mut state, &mut publisher, "stage1");
    enter_room(&mut state, &mut publisher, room_id);
    let user_id = publisher.user_id.unwrap();

    let response = state.handle_client_envelope(
        &mut publisher,
        ClientEnvelope::new(
            4,
            ClientControl::SetVoiceState(SetVoiceState {
                room_id,
                muted: true,
                deafened: true,
                push_to_talk: true,
                speaking: false,
            }),
        ),
    );

    assert_eq!(
        response.message,
        ServerControl::VoiceStateUpdated(VoiceState {
            room_id,
            user_id,
            muted: true,
            deafened: true,
            push_to_talk: true,
            speaking: false,
        })
    );
    assert_eq!(
        state.voice_state(room_id, user_id),
        Some(&VoiceState {
            room_id,
            user_id,
            muted: true,
            deafened: true,
            push_to_talk: true,
            speaking: false,
        })
    );
}

#[test]
fn muted_voice_state_clears_speaking() {
    let mut state = ControlState::new();
    let mut publisher = Session::anonymous(1);
    say_hello(&mut state, &mut publisher, "publisher");
    let room_id = open_room(&mut state, &mut publisher, "stage1");
    enter_room(&mut state, &mut publisher, room_id);
    let user_id = publisher.user_id.unwrap();

    let response = state.handle_client_envelope(
        &mut publisher,
        ClientEnvelope::new(
            4,
            ClientControl::SetVoiceState(SetVoiceState {
                room_id,
                muted: true,
                deafened: false,
                push_to_talk: true,
                speaking: true,
            }),
        ),
    );

    assert_eq!(
        response.message,
        ServerControl::VoiceStateUpdated(VoiceState {
            room_id,
            user_id,
            muted: true,
            deafened: false,
            push_to_talk: true,
            speaking: false,
        })
    );
}

#[test]
fn leaving_room_removes_voice_state() {
    let mut state = ControlState::new();
    let mut publisher = Session::anonymous(1);
    say_hello(&mut state, &mut publisher, "publisher");
    let room_id = open_room(&mut state, &mut publisher, "stage1");
    enter_room(&mut state, &mut publisher, room_id);
    let user_id = publisher.user_id.unwrap();

    state.handle_client_envelope(
        &mut publisher,
        ClientEnvelope::new(
            4,
            ClientControl::SetVoiceState(SetVoiceState {
                room_id,
                muted: true,
                deafened: false,
                push_to_talk: false,
                speaking: false,
            }),
        ),
    );
    assert!(state.voice_state(room_id, user_id).is_some());

    state.handle_client_envelope(
        &mut publisher,
        ClientEnvelope::new(5, ClientControl::LeaveRoom(LeaveRoom { room_id })),
    );

    assert!(state.voice_state(room_id, user_id).is_none());
}
