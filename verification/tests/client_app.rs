use teamview::client::app::{
    ChannelView, ClientApp, ClientAppDiscovery, ClientRole, ConnectionStatus, ParticipantView,
    ScreenShareControlState, VoiceControlState,
};
use teamview::protocol::codec::CodecId;
use teamview::protocol::control::{
    MediaKind, ParticipantSummary, RoomSummary, StreamConfig, StreamSummary,
};

#[test]
fn client_app_selects_first_channel_when_channels_load() {
    let mut app = ClientApp::new(ClientRole::Viewer);

    app.set_channels(vec![ChannelView::new(7, "General")]);

    assert_eq!(app.selected_channel_id, Some(7));
    assert_eq!(app.selected_channel().unwrap().name, "General");
}

#[test]
fn client_app_clears_missing_selected_channel() {
    let mut app = ClientApp::new(ClientRole::Viewer);
    app.set_channels(vec![ChannelView::new(1, "General")]);
    assert!(app.select_channel(1));

    app.set_channels(vec![ChannelView::new(2, "Streaming")]);

    assert_eq!(app.selected_channel_id, Some(2));
}

#[test]
fn voice_controls_apply_deafen_and_push_to_talk_rules() {
    let mut app = ClientApp::new(ClientRole::Broadcaster);

    assert!(app.local_speaking());
    app.set_push_to_talk(true);
    assert!(!app.local_speaking());
    app.set_ptt_active(true);
    assert!(app.local_speaking());
    app.set_deafened(true);

    assert!(app.local_voice.deafened);
    assert!(app.local_voice.muted);
    assert!(!app.local_speaking());
}

#[test]
fn channel_reports_active_screen_share_and_speakers() {
    let mut channel = ChannelView::new(3, "Live Review");
    channel.participants.push(ParticipantView {
        user_id: 9,
        display_name: "Alice".to_owned(),
        muted: false,
        deafened: false,
        push_to_talk: true,
        speaking: true,
        sharing_screen: true,
    });

    assert_eq!(channel.active_speaker_count(), 1);
    assert!(channel.screen_share_active());
}

fn review_room() -> RoomSummary {
    RoomSummary {
        room_id: 3,
        name: "Live Review".to_owned(),
        participant_count: 2,
        published_stream_count: 2,
    }
}

fn review_streams() -> Vec<StreamSummary> {
    vec![
        StreamSummary {
            room_id: 3,
            stream_id: 8,
            publisher_id: 9,
            codec: CodecId::H264,
            media_kind: MediaKind::Screen,
            subscriber_count: 1,
            has_config: true,
            target_bitrate_bps: 192_000,
            target_frames_per_second: 30,
        },
        StreamSummary {
            room_id: 3,
            stream_id: 9,
            publisher_id: 9,
            codec: CodecId::Opus,
            media_kind: MediaKind::Voice,
            subscriber_count: 1,
            has_config: true,
            target_bitrate_bps: 38_400,
            target_frames_per_second: 50,
        },
    ]
}

fn review_configs() -> Vec<StreamConfig> {
    vec![
        StreamConfig {
            room_id: 3,
            stream_id: 8,
            codec: CodecId::H264,
            width: 1280,
            height: 720,
            frames_per_second: 30,
            timebase_hz: 90_000,
        },
        StreamConfig {
            room_id: 3,
            stream_id: 9,
            codec: CodecId::Opus,
            width: 0,
            height: 0,
            frames_per_second: 50,
            timebase_hz: 48_000,
        },
    ]
}

fn review_participants() -> Vec<ParticipantSummary> {
    vec![ParticipantSummary {
        room_id: 3,
        user_id: 9,
        display_name: "Alice".to_owned(),
        muted: false,
        deafened: false,
        push_to_talk: false,
        speaking: true,
        published_stream_count: 2,
        subscribed_stream_count: 0,
    }]
}

#[test]
fn channel_view_builds_selected_media_from_discovery() {
    let room = review_room();
    let streams = review_streams();
    let stream_configs = review_configs();
    let participants = review_participants();

    let channel = ChannelView::from_discovery(&room, &streams, &stream_configs, &participants);

    assert_eq!(channel.participant_count, 1);
    assert_eq!(channel.screen_stream.as_ref().unwrap().width, 1280);
    assert_eq!(channel.voice_stream.as_ref().unwrap().frames_per_second, 50);
    assert!(channel.participants[0].sharing_screen);
}

#[test]
fn screen_stream_without_config_uses_target_rate_and_titles_by_id() {
    let room = review_room();
    let streams = review_streams();

    let channel = ChannelView::from_discovery(&room, &streams, &[], &[]);

    let screen = channel.screen_stream.unwrap();
    assert_eq!(screen.title, "Screen stream 8");
    assert_eq!(screen.width, 0);
    assert_eq!(screen.frames_per_second, 30);
    assert_eq!(channel.participant_count, 2);
}

#[test]
fn lowest_numbered_screen_stream_is_shown() {
    let room = review_room();
    let mut streams = review_streams();
    let mut later = streams[0];
    later.stream_id = 4;
    later.publisher_id = 11;
    streams.push(later);

    let channel = ChannelView::from_discovery(&room, &streams, &[], &[]);

    assert_eq!(channel.screen_stream.unwrap().publisher_id, 11);
}

#[test]
fn discovery_builds_connected_app_with_selected_channel_media() {
    let local_voice = VoiceControlState::default();
    let local_screen_share = ScreenShareControlState::default();
    let rooms = vec![
        RoomSummary {
            room_id: 1,
            name: "General".to_owned(),
            participant_count: 0,
            published_stream_count: 0,
        },
        review_room(),
    ];
    let streams = review_streams();
    let stream_configs = review_configs();
    let participants = review_participants();

    let app = ClientApp::from_discovery(ClientAppDiscovery {
        role: ClientRole::Viewer,
        relay_addr: "10.0.0.2:4433",
        selected_channel_id: Some(3),
        rooms: &rooms,
        streams: &streams,
        stream_configs: &stream_configs,
        participants: &participants,
        local_voice: &local_voice,
        local_screen_share: &local_screen_share,
    });

    assert_eq!(app.connection, ConnectionStatus::Connected);
    assert_eq!(app.status_line, "Connected to 10.0.0.2:4433");
    assert_eq!(app.selected_channel_id, Some(3));
    assert_eq!(app.channels.len(), 2);
    assert!(app.channels[0].screen_stream.is_none());
    assert_eq!(app.selected_channel().unwrap().screen_stream.as_ref().unwrap().stream_id, 8);
    assert_eq!(app.local_voice, local_voice);
}

#[test]
fn discovery_falls_back_to_first_room() {
    let local_voice = VoiceControlState::default();
    let local_screen_share = ScreenShareControlState::default();
    let rooms = vec![RoomSummary {
        room_id: 1,
        name: "General".to_owned(),
        participant_count: 0,
        published_stream_count: 0,
    }];

    let app = ClientApp::from_discovery(ClientAppDiscovery {
        role: ClientRole::Broadcaster,
        relay_addr: "127.0.0.1:4433",
        selected_channel_id: None,
        rooms: &rooms,
        streams: &[],
        stream_configs: &[],
        participants: &[],
        local_voice: &local_voice,
        local_screen_share: &local_screen_share,
    });

    assert_eq!(app.selected_channel_id, Some(1));
    assert!(app.channels[0].screen_stream.is_none());
}

#[test]
fn connection_lifecycle_updates_status_line() {
    let mut app = ClientApp::new(ClientRole::Viewer);
    assert_eq!(app.status_line, "Disconnected");

    app.connecting("relay:1");
    assert_eq!(app.connection, ConnectionStatus::Connecting);
    assert_eq!(app.status_line, "Connecting to relay:1");

    app.connected();
    assert_eq!(app.status_line, "Connected to relay:1");

    app.set_channels(vec![ChannelView::new(5, "Five")]);
    app.disconnected();
    assert_eq!(app.selected_channel_id, None);
    assert_eq!(app.status_line, "Disconnected");
}

#[test]
fn screen_share_controls_toggle_sharing() {
    let mut app = ClientApp::new(ClientRole::Broadcaster);
    assert!(!app.local_screen_share.sharing);

    app.start_screen_share("Monitor 2");
    assert!(app.local_screen_share.sharing);
    assert_eq!(app.local_screen_share.source_label, "Monitor 2");

    app.stop_screen_share();
    assert!(!app.local_screen_share.sharing);
    assert!(!app.select_channel(42));
}
