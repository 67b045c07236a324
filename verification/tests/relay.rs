use teamview::protocol::codec::CodecId;
use teamview::protocol::control::{
    Authenticate, ClientControl, ClientEnvelope, CreateRoom, Hello, JoinRoom, ListParticipants,
    MediaKind, PollRemoteInput, PublishStream, RemoteInputKind, SendRemoteInput, ServerControl,
    SetVoiceState, StreamId, StreamUnpublished, SubscribeStream, UnpublishStream,
};
use teamview::protocol::packet::{MediaPacket, MediaPacketHeader, PacketFlags, PacketType};
use teamview::protocol::stats::QueueStats;
use teamview::protocol::PROTOCOL_VERSION;
use teamview::relay::control::{ControlLimits, ControlState};
use teamview::relay::egress::{packet_media_ms, MediaEgress};
use teamview::relay::media::{media_kind_packet_type, ForwardPlan};
use teamview::relay::metrics::{clamp_clock_micros, micros_delta_to_millis};
use teamview::relay::room::{PublishedStream, Room};
use teamview::relay::router::{decide_enqueue, EnqueueDecision, StreamFanout, ViewerQueue};
use teamview::relay::session::Session;

fn relay_packet(stream_id: StreamId, sequence_number: u32, frame_id: u32) -> MediaPacket {
    let payload = b"synthetic".to_vec();
    let mut header = MediaPacketHeader::new(
        PacketType::Video,
        CodecId::H264,
        stream_id,
        sequence_number,
        payload.len() as u16,
    );
    header.frame_id = frame_id;
    header.flags = PacketFlags::empty().with(PacketFlags::END_OF_FRAME);
    MediaPacket { header, payload }
}

fn screen_stream(stream_id: StreamId, publisher_id: u64) -> PublishedStream {
    PublishedStream {
        stream_id,
        publisher_id,
        codec: CodecId::H264,
        media_kind: MediaKind::Screen,
        config: None,
        target_bitrate_bps: 4_000_000,
        target_frames_per_second: 30,
        target_width: 1280,
        target_height: 720,
    }
}

fn request(
    state: &mut ControlState,
    session: &mut Session,
    request_id: u64,
    message: ClientControl,
) -> ServerControl {
    state.handle_client_envelope(session, ClientEnvelope::new(request_id, message)).message
}

fn setup_published_stream(
    state: &mut ControlState,
    publisher: &mut Session,
    viewer: &mut Session,
) -> u64 {
    for (session, name) in [(&mut *publisher, "publisher"), (&mut *viewer, "viewer")] {
        request(
            state,
            session,
            1,
            ClientControl::Hello(Hello {
                protocol_version: PROTOCOL_VERSION,
                client_name: name.to_owned(),
            }),
        );
    }
    let room_id = match request(
        state,
        publisher,
        2,
        ClientControl::CreateRoom(CreateRoom {
            name: "stage1".to_owned(),
        }),
    ) {
        ServerControl::RoomCreated(room) => room.room_id,
        other => panic!("unexpected create response: {other:?}"),
    };
    request(state, publisher, 3, ClientControl::JoinRoom(JoinRoom { room_id }));
    request(state, viewer, 3, ClientControl::JoinRoom(JoinRoom { room_id }));
    request(
        state,
        publisher,
        4,
        ClientControl::PublishStream(PublishStream {
            room_id,
            stream_id: 9,
            codec: CodecId::H264,
            media_kind: MediaKind::Screen,
        }),
    );
    request(
        state,
        viewer,
        5,
        ClientControl::SubscribeStream(SubscribeStream {
            room_id,
            stream_id: 9,
        }),
    );
    room_id
}

fn error_code(reply: &ServerControl) -> String {
    match reply {
        ServerControl::Error(error) => error.code.clone(),
        other => panic!("expected an error, got {other:?}"),
    }
}

#[test]
fn rejects_media_from_non_publisher() {
    let mut state = ControlState::new();
    let mut publisher = Session::anonymous(1);
    let mut viewer = Session::anonymous(2);
    let room_id = setup_published_stream(&mut state, &mut publisher, &mut viewer);
    let packet = relay_packet(9, 1, 0);
    assert_eq!(room_id, 1);

    match state.plan_media_forward(viewer.user_id.unwrap(), &packet) {
        ForwardPlan::Reject(summary) => {
            assert_eq!(summary.delivered, 0);
            assert_eq!(summary.dropped, 1);
        }
        other => panic!("unexpected plan: {other:?}"),
    }
}

#[test]
fn rejects_media_with_mismatched_packet_type() {
    let mut state = ControlState::new();
    let mut publisher = Session::anonymous(1);
    let mut viewer = Session::anonymous(2);
    setup_published_stream(&mut state, &mut publisher, &mut viewer);
    let mut packet = relay_packet(9, 1, 0);
    packet.header.packet_type = PacketType::Audio;

    match state.plan_media_forward(publisher.user_id.unwrap(), &packet) {
        ForwardPlan::Reject(summary) => {
            assert_eq!(summary.delivered, 0);
            assert_eq!(summary.dropped, 1);
        }
        other => panic!("unexpected plan: {other:?}"),
    }
}

#[test]
fn publisher_media_goes_to_each_subscriber() {
    let mut state = ControlState::new();
    let mut publisher = Session::anonymous(1);
    let mut viewer = Session::anonymous(2);
    setup_published_stream(&mut state, &mut publisher, &mut viewer);
    let packet = relay_packet(9, 1, 0);

    match state.plan_media_forward(publisher.user_id.unwrap(), &packet) {
        ForwardPlan::Send { stream_id, bytes, targets, media_duration_ms } => {
            assert_eq!(media_duration_ms, 33);
            assert_eq!(stream_id, 9);
            assert_eq!(bytes, packet.encode().unwrap());
            assert_eq!(targets, vec![viewer.user_id.unwrap()]);
        }
        other => panic!("unexpected plan: {other:?}"),
    }
}

#[test]
fn media_for_unknown_stream_is_rejected() {
    let state = ControlState::new();
    let packet = relay_packet(42, 1, 0);

    match state.plan_media_forward(1, &packet) {
        ForwardPlan::Reject(summary) => {
            assert_eq!(summary.stream_id, 42);
            assert_eq!(summary.dropped, 1);
        }
        other => panic!("unexpected plan: {other:?}"),
    }
}

#[test]
fn media_kinds_map_to_packet_types() {
    assert_eq!(media_kind_packet_type(MediaKind::Screen), PacketType::Video);
    assert_eq!(media_kind_packet_type(MediaKind::Voice), PacketType::Audio);
    assert_eq!(media_kind_packet_type(MediaKind::Probe), PacketType::Probe);
}

#[test]
fn room_deduplicates_streams() {
    let mut room = Room::new(1, "general");
    room.publish_stream(screen_stream(7, 1));
    room.publish_stream(screen_stream(7, 1));

    assert_eq!(room.published_streams.len(), 1);
}

#[test]
fn subscriptions_require_published_stream() {
    let mut room = Room::new(1, "general");
    assert!(!room.subscribe(9, 2));

    room.publish_stream(screen_stream(9, 1));
    assert!(room.subscribe(9, 2));
}

#[test]
fn leave_and_unsubscribe_prune_empty_subscription_sets() {
    let mut room = Room::new(1, "general");
    room.join(2);
    room.publish_stream(screen_stream(9, 1));
    assert!(room.subscribe(9, 2));

    room.unsubscribe(9, 2);

    assert!(!room.subscriptions.contains_key(&9));

    assert!(room.subscribe(9, 2));
    room.leave(2);

    assert!(!room.subscriptions.contains_key(&9));
}

#[test]
fn room_reports_empty_after_last_participant_and_stream_leave() {
    let mut room = Room::new(1, "general");
    room.join(1);
    room.publish_stream(screen_stream(9, 1));

    assert!(!room.is_empty());
    room.leave(1);
    room.remove_published_stream(9);

    assert!(room.is_empty());
}

#[test]
fn streams_published_by_lists_a_users_streams_in_order() {
    let mut room = Room::new(1, "general");
    room.publish_stream(screen_stream(12, 1));
    room.publish_stream(screen_stream(3, 1));
    room.publish_stream(screen_stream(7, 2));

    assert_eq!(room.streams_published_by(1), vec![3, 12]);
    assert_eq!(room.join(5), 1);
}

#[test]
fn slow_viewer_queue_drops_without_blocking_router() {
    let queue = QueueStats {
        queued_packets: 30,
        queued_media_ms: 120,
        dropped_packets: 0,
        dropped_frames: 0,
    };

    assert_eq!(decide_enqueue(queue, 100), EnqueueDecision::DropForViewer);
}

#[test]
fn slow_viewer_does_not_block_fast_viewer() {
    let mut fanout = StreamFanout::new(9);
    fanout.add_viewer(1, 100);
    fanout.add_viewer(2, 20);

    let packet = relay_packet(9, 1, 1);
    assert_eq!(fanout.fanout(packet.clone(), 20).delivered_to.len(), 2);

    let summary = fanout.fanout(packet, 20);
    assert!(summary.delivered_to.contains(&1));
    assert!(summary.dropped_for.contains(&2));
    assert_eq!(fanout.viewer_queue(1).unwrap().received_packets(), 2);
    assert_eq!(fanout.viewer_queue(2).unwrap().received_packets(), 1);
    assert_eq!(fanout.viewer_queue(2).unwrap().stats().dropped_packets, 1);
}

#[test]
fn draining_viewer_queue_releases_only_that_viewer_budget() {
    let mut fanout = StreamFanout::new(9);
    fanout.add_viewer(1, 20);
    fanout.add_viewer(2, 20);

    let packet = relay_packet(9, 1, 1);
    fanout.fanout(packet.clone(), 20);
    fanout.viewer_queue_mut(1).unwrap().drain_one();
    let summary = fanout.fanout(packet, 20);

    assert!(summary.delivered_to.contains(&1));
    assert!(summary.dropped_for.contains(&2));
}

#[test]
fn viewer_queue_drains_in_arrival_order_and_counts_dropped_frames() {
    let mut queue = ViewerQueue::new(4, 30);
    assert_eq!(queue.enqueue(relay_packet(9, 1, 1), 10), EnqueueDecision::Enqueue);
    assert_eq!(queue.enqueue(relay_packet(9, 2, 2), 10), EnqueueDecision::Enqueue);
    assert_eq!(queue.enqueue(relay_packet(9, 3, 3), 20), EnqueueDecision::DropForViewer);

    let stats = queue.stats();
    assert_eq!(stats.queued_packets, 2);
    assert_eq!(stats.queued_media_ms, 20);
    assert_eq!(stats.dropped_packets, 1);
    assert_eq!(stats.dropped_frames, 1);

    assert_eq!(queue.drain_one().unwrap().header.sequence_number, 1);
    assert_eq!(queue.stats().queued_media_ms, 10);
    assert_eq!(queue.drain_one().unwrap().header.sequence_number, 2);
    assert!(queue.drain_one().is_none());
    assert_eq!(queue.viewer_id(), 4);
}

#[test]
fn removed_viewer_gets_nothing_more() {
    let mut fanout = StreamFanout::new(9);
    fanout.add_viewer(1, 100);
    fanout.add_viewer(2, 100);
    fanout.remove_viewer(2);

    let summary = fanout.fanout(relay_packet(9, 1, 1), 10);
    assert_eq!(summary.stream_id, 9);
    assert!(summary.delivered_to.contains(&1));
    assert!(!summary.delivered_to.contains(&2));
    assert!(fanout.viewer_queue(2).is_none());
}

#[test]
fn hello_with_wrong_version_is_refused() {
    let mut state = ControlState::new();
    let mut session = Session::anonymous(1);

    let reply = request(
        &mut state,
        &mut session,
        1,
        ClientControl::Hello(Hello {
            protocol_version: PROTOCOL_VERSION + 1,
            client_name: "old".to_owned(),
        }),
    );

    match reply {
        ServerControl::Error(error) => {
            assert_eq!(error.code, "unsupported_version");
            assert_eq!(error.message, "unsupported client protocol version 2");
        }
        other => panic!("unexpected hello response: {other:?}"),
    }
    assert!(session.user_id.is_none());
}

#[test]
fn hello_numbers_users_and_names_them_after_the_client() {
    let mut state = ControlState::new();
    let mut first = Session::anonymous(1);
    let mut second = Session::anonymous(2);
    let hello = |name: &str| {
        ClientControl::Hello(Hello {
            protocol_version: PROTOCOL_VERSION,
            client_name: name.to_owned(),
        })
    };

    match request(&mut state, &mut first, 1, hello("alpha")) {
        ServerControl::HelloAccepted(accepted) => {
            assert_eq!(accepted.user_id, 1);
            assert_eq!(accepted.display_name, "alpha");
            assert_eq!(accepted.server_name, "teamview-relay");
        }
        other => panic!("unexpected hello response: {other:?}"),
    }
    match request(&mut state, &mut second, 1, hello("beta")) {
        ServerControl::HelloAccepted(accepted) => assert_eq!(accepted.user_id, 2),
        other => panic!("unexpected hello response: {other:?}"),
    }
    assert!(first.access_granted);
}

#[test]
fn authenticate_names_the_user() {
    let mut state = ControlState::with_access_token("secret");
    let mut session = Session::anonymous(1);
    request(
        &mut state,
        &mut session,
        1,
        ClientControl::Hello(Hello {
            protocol_version: PROTOCOL_VERSION,
            client_name: "client".to_owned(),
        }),
    );
    assert!(!session.access_granted);
    assert!(state.requires_access_token());

    match request(
        &mut state,
        &mut session,
        2,
        ClientControl::Authenticate(Authenticate {
            token: "secret".to_owned(),
        }),
    ) {
        ServerControl::Authenticated(authenticated) => {
            assert_eq!(authenticated.user_id, 1);
            assert_eq!(authenticated.display_name, "user-1");
        }
        other => panic!("unexpected authenticate response: {other:?}"),
    }
    assert!(session.access_granted);
}

#[test]
fn publisher_unpublishes_and_others_cannot() {
    let mut state = ControlState::new();
    let mut publisher = Session::anonymous(1);
    let mut viewer = Session::anonymous(2);
    let room_id = setup_published_stream(&mut state, &mut publisher, &mut viewer);

    let refused = request(
        &mut state,
        &mut viewer,
        6,
        ClientControl::UnpublishStream(UnpublishStream {
            room_id,
            stream_id: 9,
        }),
    );
    assert_eq!(error_code(&refused), "not_publisher");
    assert!(state.published_stream(9).is_some());

    let done = request(
        &mut state,
        &mut publisher,
        7,
        ClientControl::UnpublishStream(UnpublishStream {
            room_id,
            stream_id: 9,
        }),
    );
    assert_eq!(
        done,
        ServerControl::StreamUnpublished(StreamUnpublished {
            room_id,
            stream_id: 9
        })
    );
    assert!(state.published_stream(9).is_none());
    assert!(state.subscribers_for_stream(9).is_empty());
}

#[test]
fn unknown_room_requests_are_errors() {
    let mut state = ControlState::new();
    let mut session = Session::anonymous(1);
    request(
        &mut state,
        &mut session,
        1,
        ClientControl::Hello(Hello {
            protocol_version: PROTOCOL_VERSION,
            client_name: "client".to_owned(),
        }),
    );

    let missing = request(&mut state, &mut session, 2, ClientControl::JoinRoom(JoinRoom { room_id: 77 }));
    assert_eq!(error_code(&missing), "room_not_found");

    let unknown = request(
        &mut state,
        &mut session,
        3,
        ClientControl::ListParticipants(ListParticipants { room_id: 77 }),
    );
    assert_eq!(error_code(&unknown), "room_not_found");
}

#[test]
fn refused_request_leaves_rooms_unchanged() {
    let mut state = ControlState::new();
    let mut publisher = Session::anonymous(1);
    let mut viewer = Session::anonymous(2);
    let room_id = setup_published_stream(&mut state, &mut publisher, &mut viewer);
    let before = state.room(room_id).unwrap().clone();

    let refused = request(
        &mut state,
        &mut viewer,
        6,
        ClientControl::PublishStream(PublishStream {
            room_id,
            stream_id: 9,
            codec: CodecId::H264,
            media_kind: MediaKind::Screen,
        }),
    );

    assert_eq!(error_code(&refused), "stream_id_conflict");
    assert_eq!(state.room(room_id).unwrap(), &before);
    assert_eq!(state.publisher_for_stream(9), publisher.user_id);
    assert_eq!(state.subscribers_for_stream(9), vec![viewer.user_id.unwrap()]);
}

#[test]
fn media_datagrams_need_access_and_a_valid_packet() {
    let mut state = ControlState::new();
    let mut publisher = Session::anonymous(1);
    let mut viewer = Session::anonymous(2);
    setup_published_stream(&mut state, &mut publisher, &mut viewer);
    let bytes = relay_packet(9, 1, 0).encode().unwrap();

    assert!(state.plan_media_datagram(&Session::anonymous(5), &bytes, 1200).is_none());
    assert!(state.plan_media_datagram(&publisher, &bytes[..10], 1200).is_none());
    assert!(state.plan_media_datagram(&publisher, &bytes, bytes.len() - 1).is_none());
    match state.plan_media_datagram(&publisher, &bytes, bytes.len()) {
        Some((packet, ForwardPlan::Send { targets, .. })) => {
            assert_eq!(packet.header.room_stream_id, 9);
            assert_eq!(targets, vec![viewer.user_id.unwrap()]);
        }
        other => panic!("unexpected datagram plan: {other:?}"),
    }
}

#[test]
fn route_time_is_whole_milliseconds_and_never_negative() {
    assert_eq!(micros_delta_to_millis(1_000, 5_999), 4);
    assert_eq!(micros_delta_to_millis(5_000, 1_000), 0);
    assert_eq!(micros_delta_to_millis(0, u64::MAX), u16::MAX);
}

fn voice_packet(stream_id: StreamId) -> MediaPacket {
    let payload = b"voice".to_vec();
    let mut header = MediaPacketHeader::new(
        PacketType::Audio,
        CodecId::Opus,
        stream_id,
        1,
        payload.len() as u16,
    );
    header.flags = PacketFlags::empty().with(PacketFlags::END_OF_FRAME);
    MediaPacket { header, payload }
}

fn set_voice(
    state: &mut ControlState,
    session: &mut Session,
    room_id: u64,
    muted: bool,
    deafened: bool,
    push_to_talk: bool,
    speaking: bool,
) {
    let reply = request(
        state,
        session,
        20,
        ClientControl::SetVoiceState(SetVoiceState {
            room_id,
            muted,
            deafened,
            push_to_talk,
            speaking,
        }),
    );
    assert!(matches!(reply, ServerControl::VoiceStateUpdated(_)), "{reply:?}");
}

/// A room with a screen stream 9 and a voice stream 10 of the publisher,
/// both watched by two viewers.
fn setup_voice_room(
    state: &mut ControlState,
    publisher: &mut Session,
    first: &mut Session,
    second: &mut Session,
) -> u64 {
    let room_id = setup_published_stream(state, publisher, first);
    request(
        state,
        second,
        1,
        ClientControl::Hello(Hello {
            protocol_version: PROTOCOL_VERSION,
            client_name: "second".to_owned(),
        }),
    );
    request(state, second, 2, ClientControl::JoinRoom(JoinRoom { room_id }));
    request(
        state,
        publisher,
        6,
        ClientControl::PublishStream(PublishStream {
            room_id,
            stream_id: 10,
            codec: CodecId::Opus,
            media_kind: MediaKind::Voice,
        }),
    );
    for viewer in [&mut *first, &mut *second] {
        request(
            state,
            viewer,
            7,
            ClientControl::SubscribeStream(SubscribeStream { room_id, stream_id: 10 }),
        );
    }
    room_id
}

#[test]
fn muted_publisher_voice_is_not_forwarded() {
    let mut state = ControlState::new();
    let (mut publisher, mut first, mut second) =
        (Session::anonymous(1), Session::anonymous(2), Session::anonymous(3));
    let room_id = setup_voice_room(&mut state, &mut publisher, &mut first, &mut second);
    let publisher_id = publisher.user_id.unwrap();

    match state.plan_media_forward(publisher_id, &voice_packet(10)) {
        ForwardPlan::Send { targets, .. } => {
            assert_eq!(targets, vec![first.user_id.unwrap(), second.user_id.unwrap()])
        }
        other => panic!("unexpected plan: {other:?}"),
    }

    set_voice(&mut state, &mut publisher, room_id, true, false, false, false);
    match state.plan_media_forward(publisher_id, &voice_packet(10)) {
        ForwardPlan::Reject(summary) => {
            assert_eq!((summary.stream_id, summary.delivered, summary.dropped), (10, 0, 1))
        }
        other => panic!("unexpected plan: {other:?}"),
    }

    set_voice(&mut state, &mut publisher, room_id, false, false, true, false);
    assert!(matches!(
        state.plan_media_forward(publisher_id, &voice_packet(10)),
        ForwardPlan::Reject(_)
    ));

    set_voice(&mut state, &mut publisher, room_id, false, false, true, true);
    assert!(matches!(
        state.plan_media_forward(publisher_id, &voice_packet(10)),
        ForwardPlan::Send { .. }
    ));
}

#[test]
fn deafened_viewer_gets_no_voice_but_still_gets_screen() {
    let mut state = ControlState::new();
    let (mut publisher, mut first, mut second) =
        (Session::anonymous(1), Session::anonymous(2), Session::anonymous(3));
    let room_id = setup_voice_room(&mut state, &mut publisher, &mut first, &mut second);
    set_voice(&mut state, &mut first, room_id, false, true, false, false);
    let publisher_id = publisher.user_id.unwrap();

    match state.plan_media_forward(publisher_id, &voice_packet(10)) {
        ForwardPlan::Send { targets, .. } => assert_eq!(targets, vec![second.user_id.unwrap()]),
        other => panic!("unexpected plan: {other:?}"),
    }
    match state.plan_media_forward(publisher_id, &relay_packet(9, 1, 0)) {
        ForwardPlan::Send { targets, .. } => assert_eq!(targets, vec![first.user_id.unwrap()]),
        other => panic!("unexpected plan: {other:?}"),
    }
}

#[test]
fn participants_are_listed_with_voice_state_and_stream_counts() {
    let mut state = ControlState::new();
    let (mut publisher, mut first, mut second) =
        (Session::anonymous(1), Session::anonymous(2), Session::anonymous(3));
    let room_id = setup_voice_room(&mut state, &mut publisher, &mut first, &mut second);
    set_voice(&mut state, &mut first, room_id, true, false, true, false);

    let reply = request(
        &mut state,
        &mut second,
        30,
        ClientControl::ListParticipants(ListParticipants { room_id }),
    );
    let list = match reply {
        ServerControl::ParticipantList(list) => list,
        other => panic!("unexpected reply: {other:?}"),
    };
    assert_eq!(list.room_id, room_id);
    let ids: Vec<u64> = list.participants.iter().map(|p| p.user_id).collect();
    assert_eq!(ids, vec![1, 2, 3]);
    let publisher_summary = &list.participants[0];
    assert_eq!(publisher_summary.display_name, "user-1");
    assert_eq!(publisher_summary.published_stream_count, 2);
    assert_eq!(publisher_summary.subscribed_stream_count, 0);
    assert!(publisher_summary.speaking && !publisher_summary.muted);
    let first_summary = &list.participants[1];
    assert!(first_summary.muted && first_summary.push_to_talk && !first_summary.speaking);
    assert_eq!(first_summary.published_stream_count, 0);
    assert_eq!(first_summary.subscribed_stream_count, 2);
    assert_eq!(list.participants[2].subscribed_stream_count, 1);

    let mut stranger = Session::anonymous(4);
    request(
        &mut state,
        &mut stranger,
        1,
        ClientControl::Hello(Hello {
            protocol_version: PROTOCOL_VERSION,
            client_name: "stranger".to_owned(),
        }),
    );
    let refused = request(
        &mut state,
        &mut stranger,
        2,
        ClientControl::ListParticipants(ListParticipants { room_id }),
    );
    assert_eq!(error_code(&refused), "not_in_room");
}

fn key_press(room_id: u64, stream_id: StreamId, sequence_number: u64) -> ClientControl {
    ClientControl::SendRemoteInput(SendRemoteInput {
        room_id,
        stream_id,
        sequence_number,
        event_time_micros: 1_000 + sequence_number,
        kind: RemoteInputKind::Key { key_code: 13, pressed: true },
    })
}

#[test]
fn remote_input_queues_for_the_publisher_and_is_polled_in_order() {
    let mut state = ControlState::new();
    let (mut publisher, mut first, mut second) =
        (Session::anonymous(1), Session::anonymous(2), Session::anonymous(3));
    let room_id = setup_voice_room(&mut state, &mut publisher, &mut first, &mut second);

    for sequence_number in 1..=3 {
        match request(&mut state, &mut first, 40, key_press(room_id, 9, sequence_number)) {
            ServerControl::RemoteInputQueued(queued) => {
                assert_eq!(queued.publisher_id, publisher.user_id.unwrap());
                assert_eq!(queued.queued_events, sequence_number as u16);
                assert_eq!(queued.dropped_events, 0);
            }
            other => panic!("unexpected reply: {other:?}"),
        }
    }
    assert_eq!(
        error_code(&request(&mut state, &mut second, 41, key_press(room_id, 9, 1))),
        "not_subscribed"
    );
    assert_eq!(
        error_code(&request(&mut state, &mut first, 42, key_press(room_id, 10, 1))),
        "not_screen_stream"
    );

    let poll = |max_events| {
        ClientControl::PollRemoteInput(PollRemoteInput { room_id, stream_id: 9, max_events })
    };
    assert_eq!(error_code(&request(&mut state, &mut first, 43, poll(16))), "not_publisher");
    match request(&mut state, &mut publisher, 44, poll(2)) {
        ServerControl::RemoteInputBatch(batch) => {
            let sequence: Vec<u64> = batch.events.iter().map(|e| e.sequence_number).collect();
            assert_eq!(sequence, vec![1, 2]);
            assert_eq!(batch.events[0].sender_user_id, first.user_id.unwrap());
        }
        other => panic!("unexpected reply: {other:?}"),
    }
    match request(&mut state, &mut publisher, 45, poll(16)) {
        ServerControl::RemoteInputBatch(batch) => {
            assert_eq!(batch.events.len(), 1);
            assert_eq!(batch.events[0].sequence_number, 3);
        }
        other => panic!("unexpected reply: {other:?}"),
    }
}

#[test]
fn remote_input_queue_drops_the_oldest_when_full() {
    let mut state = ControlState::new();
    let mut publisher = Session::anonymous(1);
    let mut viewer = Session::anonymous(2);
    let room_id = setup_published_stream(&mut state, &mut publisher, &mut viewer);
    for sequence_number in 1..=64 {
        request(&mut state, &mut viewer, 50, key_press(room_id, 9, sequence_number));
    }
    match request(&mut state, &mut viewer, 51, key_press(room_id, 9, 65)) {
        ServerControl::RemoteInputQueued(queued) => {
            assert_eq!((queued.queued_events, queued.dropped_events), (64, 1))
        }
        other => panic!("unexpected reply: {other:?}"),
    }
    let poll = ClientControl::PollRemoteInput(PollRemoteInput {
        room_id,
        stream_id: 9,
        max_events: 100,
    });
    match request(&mut state, &mut publisher, 52, poll) {
        ServerControl::RemoteInputBatch(batch) => {
            assert_eq!(batch.events.len(), 64);
            assert_eq!(batch.events[0].sequence_number, 2);
            assert_eq!(batch.events[63].sequence_number, 65);
        }
        other => panic!("unexpected reply: {other:?}"),
    }
}

#[test]
fn clock_readings_clamp_to_u64() {
    assert_eq!(clamp_clock_micros(None), 0);
    assert_eq!(clamp_clock_micros(Some(1_700_000_000_000_000)), 1_700_000_000_000_000);
    assert_eq!(clamp_clock_micros(Some(u64::MAX as u128 + 5)), u64::MAX);
}

#[test]
fn capacity_limits_refuse_excess_rooms_participants_and_streams() {
    let mut state = ControlState::new();
    state.set_limits(ControlLimits {
        max_rooms: 1,
        max_participants_per_room: 2,
        max_streams_per_room: 1,
    });
    let mut publisher = Session::anonymous(1);
    let mut viewer = Session::anonymous(2);
    let room_id = setup_published_stream(&mut state, &mut publisher, &mut viewer);

    let second_room = request(
        &mut state,
        &mut publisher,
        10,
        ClientControl::CreateRoom(CreateRoom { name: "stage2".to_owned() }),
    );
    assert_eq!(error_code(&second_room), "room_limit_reached");

    let mut third = Session::anonymous(3);
    request(
        &mut state,
        &mut third,
        1,
        ClientControl::Hello(Hello {
            protocol_version: PROTOCOL_VERSION,
            client_name: "third".to_owned(),
        }),
    );
    let full = request(&mut state, &mut third, 2, ClientControl::JoinRoom(JoinRoom { room_id }));
    assert_eq!(error_code(&full), "room_full");
    let rejoin = request(&mut state, &mut viewer, 11, ClientControl::JoinRoom(JoinRoom { room_id }));
    assert!(matches!(rejoin, ServerControl::RoomJoined(_)), "{rejoin:?}");

    let second_stream = request(
        &mut state,
        &mut viewer,
        12,
        ClientControl::PublishStream(PublishStream {
            room_id,
            stream_id: 11,
            codec: CodecId::H264,
            media_kind: MediaKind::Screen,
        }),
    );
    assert_eq!(error_code(&second_stream), "stream_limit_reached");
    assert!(state.published_stream(11).is_none());
}

#[test]
fn egress_queues_hold_each_viewer_stream_to_its_budget() {
    let mut egress = MediaEgress::new(100);
    let packet = relay_packet(9, 1, 1);
    for round in 0..3 {
        let queued = egress.enqueue(9, &vec![2, 3], &packet, 33);
        assert_eq!(queued, vec![true, true], "round {round}");
    }
    // viewer 2 drains, viewer 3 does not: only viewer 3 runs out of budget
    assert!(egress.next_packet(9, 2).is_some());
    let queued = egress.enqueue(9, &vec![2, 3], &packet, 33);
    assert_eq!(queued, vec![true, false]);
    let mut drained = 0;
    while let Some(next) = egress.next_packet(9, 3) {
        assert_eq!(next, packet);
        drained += 1;
    }
    assert_eq!(drained, 3);
    assert!(egress.next_packet(9, 3).is_none());
    assert!(egress.next_packet(10, 2).is_none());
    egress.remove_viewer(2);
    assert!(egress.next_packet(9, 2).is_none());
}

#[test]
fn frame_ending_packets_stand_for_a_frame_of_media_time() {
    let end = PacketFlags::empty().with(PacketFlags::END_OF_FRAME);
    assert_eq!(packet_media_ms(30, end), 33);
    assert_eq!(packet_media_ms(50, end), 20);
    assert_eq!(packet_media_ms(30, PacketFlags::empty()), 0);
    assert_eq!(packet_media_ms(0, end), 0);
}
