//! Control-plane messages: requests from clients and answers from the relay,
//! carried in versioned envelopes over reliable streams.

use vstd::prelude::*;

use crate::protocol::codec::CodecId;
use crate::protocol::PROTOCOL_VERSION;

verus! {

pub type RoomId = u64;

pub type UserId = u64;

pub type StreamId = u32;

pub type RequestId = u64;

/// A control message with the protocol version and the id that ties an
/// answer to its request.
#[derive(Debug, Clone, PartialEq, Eq)]
pub struct ControlEnvelope<T> {
    pub protocol_version: u8,
    pub request_id: RequestId,
    pub message: T,
}

impl<T> ControlEnvelope<T> {
    pub fn new(request_id: RequestId, message: T) -> (envelope: Self)
        ensures
            envelope.protocol_version == PROTOCOL_VERSION,
            envelope.request_id == request_id,
            envelope.message == message,
    {
        ControlEnvelope { protocol_version: PROTOCOL_VERSION, request_id, message }
    }
}

#[derive(Debug, Clone, PartialEq, Eq)]
pub enum ClientControl {
    Hello(Hello),
    Ping(Ping),
    TimeSync(TimeSyncRequest),
    Authenticate(Authenticate),
    CreateRoom(CreateRoom),
    ListRooms(ListRooms),
    JoinRoom(JoinRoom),
    ListParticipants(ListParticipants),
    PublishStream(PublishStream),
    UnpublishStream(UnpublishStream),
    ListStreams(ListStreams),
    SubscribeStream(SubscribeStream),
    UnsubscribeStream(UnsubscribeStream),
    LeaveRoom(LeaveRoom),
    SetVoiceState(SetVoiceState),
    SetStreamConfig(StreamConfig),
    PollStreamConfig(PollStreamConfig),
    PollStreamMetrics(PollStreamMetrics),
    RequestKeyframe(RequestKeyframe),
    SendRemoteInput(SendRemoteInput),
    PollRemoteInput(PollRemoteInput),
    ViewerStats(ViewerStatsReport),
    PollPublisherFeedback(PollPublisherFeedback),
    SetTargetBitrate(SetTargetBitrate),
    SetTargetFramerate(SetTargetFramerate),
}

#[derive(Debug, Clone, PartialEq, Eq)]
pub enum ServerControl {
    HelloAccepted(HelloAccepted),
    Pong(Pong),
    TimeSync(TimeSyncResponse),
    Authenticated(Authenticated),
    RoomCreated(RoomCreated),
    RoomList(RoomList),
    RoomJoined(RoomJoined),
    ParticipantList(ParticipantList),
    StreamPublished(StreamPublished),
    StreamUnpublished(StreamUnpublished),
    StreamList(StreamList),
    StreamSubscribed(StreamSubscribed),
    StreamUnsubscribed(StreamUnsubscribed),
    RoomLeft(RoomLeft),
    VoiceStateUpdated(VoiceState),
    RequestKeyframe(RequestKeyframe),
    StreamConfig(StreamConfig),
    StreamMetrics(StreamMetricsSnapshot),
    RemoteInputQueued(RemoteInputQueued),
    RemoteInputBatch(RemoteInputBatch),
    PublisherFeedback(PublisherFeedback),
    Error(ControlError),
}

pub type ClientEnvelope = ControlEnvelope<ClientControl>;

pub type ServerEnvelope = ControlEnvelope<ServerControl>;

#[derive(Debug, Clone, Copy, PartialEq, Eq, Structural)]
pub struct ListRooms;

#[derive(Debug, Clone, Copy, PartialEq, Eq, Structural)]
pub enum MediaKind {
    Screen,
    Voice,
    Probe,
}

#[derive(Debug, Clone, Copy, PartialEq, Eq, Structural)]
pub enum KeyframeReason {
    NewSubscriber,
    PacketLoss,
    DecoderRecovery,
    StreamConfigChanged,
}

#[derive(Debug, Clone, Copy, PartialEq, Eq, Structural)]
pub enum PointerButton {
    Left,
    Right,
    Middle,
    X1,
    X2,
}

#[derive(Debug, Clone, PartialEq, Eq)]
pub enum RemoteInputKind {
    PointerMove { normalized_x: u16, normalized_y: u16 },
    PointerButton { button: PointerButton, pressed: bool, normalized_x: u16, normalized_y: u16 },
    PointerWheel { delta_x: i16, delta_y: i16, normalized_x: u16, normalized_y: u16 },
    Key { key_code: u16, pressed: bool },
    Text { text: String },
}

#[derive(Debug, Clone, PartialEq, Eq)]
pub struct Hello {
    pub protocol_version: u8,
    pub client_name: String,
}

#[derive(Debug, Clone, PartialEq, Eq)]
pub struct HelloAccepted {
    pub protocol_version: u8,
    pub server_name: String,
    pub user_id: UserId,
    pub display_name: String,
}

#[derive(Debug, Clone, Copy, PartialEq, Eq, Structural)]
pub struct Ping {
    pub nonce: u64,
}

#[derive(Debug, Clone, Copy, PartialEq, Eq, Structural)]
pub struct Pong {
    pub nonce: u64,
}

#[derive(Debug, Clone, Copy, PartialEq, Eq, Structural)]
pub struct TimeSyncRequest {
    pub client_send_time_micros: u64,
}

#[derive(Debug, Clone, Copy, PartialEq, Eq, Structural)]
pub struct TimeSyncResponse {
    pub client_send_time_micros: u64,
    pub server_receive_time_micros: u64,
    pub server_send_time_micros: u64,
}

#[derive(Debug, Clone, PartialEq, Eq)]
pub struct Authenticate {
    pub token: String,
}

#[derive(Debug, Clone, PartialEq, Eq)]
pub struct Authenticated {
    pub user_id: UserId,
    pub display_name: String,
}

#[derive(Debug, Clone, PartialEq, Eq)]
pub struct CreateRoom {
    pub name: String,
}

#[derive(Debug, Clone, PartialEq, Eq)]
pub struct RoomCreated {
    pub room_id: RoomId,
    pub name: String,
}

#[derive(Debug, Clone, PartialEq, Eq)]
pub struct RoomSummary {
    pub room_id: RoomId,
    pub name: String,
    pub participant_count: u32,
    pub published_stream_count: u32,
}

#[derive(Debug, Clone, PartialEq, Eq)]
pub struct RoomList {
    pub rooms: Vec<RoomSummary>,
}

#[derive(Debug, Clone, Copy, PartialEq, Eq, Structural)]
pub struct JoinRoom {
    pub room_id: RoomId,
}

#[derive(Debug, Clone, Copy, PartialEq, Eq, Structural)]
pub struct RoomJoined {
    pub room_id: RoomId,
    pub participant_count: u32,
}

#[derive(Debug, Clone, Copy, PartialEq, Eq, Structural)]
pub struct ListParticipants {
    pub room_id: RoomId,
}

#[derive(Debug, Clone, PartialEq, Eq)]
pub struct ParticipantSummary {
    pub room_id: RoomId,
    pub user_id: UserId,
    pub display_name: String,
    pub muted: bool,
    pub deafened: bool,
    pub push_to_talk: bool,
    pub speaking: bool,
    pub published_stream_count: u32,
    pub subscribed_stream_count: u32,
}

#[derive(Debug, Clone, PartialEq, Eq)]
pub struct ParticipantList {
    pub room_id: RoomId,
    pub participants: Vec<ParticipantSummary>,
}

#[derive(Debug, Clone, Copy, PartialEq, Eq, Structural)]
pub struct PublishStream {
    pub room_id: RoomId,
    pub stream_id: StreamId,
    pub codec: CodecId,
    pub media_kind: MediaKind,
}

#[derive(Debug, Clone, Copy, PartialEq, Eq, Structural)]
pub struct StreamPublished {
    pub room_id: RoomId,
    pub stream_id: StreamId,
}

#[derive(Debug, Clone, Copy, PartialEq, Eq, Structural)]
pub struct UnpublishStream {
    pub room_id: RoomId,
    pub stream_id: StreamId,
}

#[derive(Debug, Clone, Copy, PartialEq, Eq, Structural)]
pub struct StreamUnpublished {
    pub room_id: RoomId,
    pub stream_id: StreamId,
}

#[derive(Debug, Clone, Copy, PartialEq, Eq, Structural)]
pub struct ListStreams {
    pub room_id: RoomId,
}

#[derive(Debug, Clone, Copy, PartialEq, Eq, Structural)]
pub struct StreamSummary {
    pub room_id: RoomId,
    pub stream_id: StreamId,
    pub publisher_id: UserId,
    pub codec: CodecId,
    pub media_kind: MediaKind,
    pub subscriber_count: u32,
    pub has_config: bool,
    pub target_bitrate_bps: u32,
    pub target_frames_per_second: u16,
}

#[derive(Debug, Clone, PartialEq, Eq)]
pub struct StreamList {
    pub room_id: RoomId,
    pub streams: Vec<StreamSummary>,
}

#[derive(Debug, Clone, Copy, PartialEq, Eq, Structural)]
pub struct SubscribeStream {
    pub room_id: RoomId,
    pub stream_id: StreamId,
}

#[derive(Debug, Clone, Copy, PartialEq, Eq, Structural)]
pub struct StreamSubscribed {
    pub room_id: RoomId,
    pub stream_id: StreamId,
}

#[derive(Debug, Clone, Copy, PartialEq, Eq, Structural)]
pub struct UnsubscribeStream {
    pub room_id: RoomId,
    pub stream_id: StreamId,
}

#[derive(Debug, Clone, Copy, PartialEq, Eq, Structural)]
pub struct StreamUnsubscribed {
    pub room_id: RoomId,
    pub stream_id: StreamId,
}

#[derive(Debug, Clone, Copy, PartialEq, Eq, Structural)]
pub struct LeaveRoom {
    pub room_id: RoomId,
}

#[derive(Debug, Clone, Copy, PartialEq, Eq, Structural)]
pub struct RoomLeft {
    pub room_id: RoomId,
}

#[derive(Debug, Clone, Copy, PartialEq, Eq, Structural)]
pub struct SetVoiceState {
    pub room_id: RoomId,
    pub muted: bool,
    pub deafened: bool,
    pub push_to_talk: bool,
    pub speaking: bool,
}

#[derive(Debug, Clone, Copy, PartialEq, Eq, Structural)]
pub struct VoiceState {
    pub room_id: RoomId,
    pub user_id: UserId,
    pub muted: bool,
    pub deafened: bool,
    pub push_to_talk: bool,
    pub speaking: bool,
}

#[derive(Debug, Clone, Copy, PartialEq, Eq, Structural)]
pub struct RequestKeyframe {
    pub room_id: RoomId,
    pub stream_id: StreamId,
    pub reason: KeyframeReason,
}

#[derive(Debug, Clone, PartialEq, Eq)]
pub struct SendRemoteInput {
    pub room_id: RoomId,
    pub stream_id: StreamId,
    pub sequence_number: u64,
    pub event_time_micros: u64,
    pub kind: RemoteInputKind,
}

#[derive(Debug, Clone, Copy, PartialEq, Eq, Structural)]
pub struct PollRemoteInput {
    pub room_id: RoomId,
    pub stream_id: StreamId,
    pub max_events: u16,
}

#[derive(Debug, Clone, Copy, PartialEq, Eq, Structural)]
pub struct RemoteInputQueued {
    pub room_id: RoomId,
    pub stream_id: StreamId,
    pub publisher_id: UserId,
    pub queued_events: u16,
    pub dropped_events: u16,
}

#[derive(Debug, Clone, PartialEq, Eq)]
pub struct RemoteInputBatch {
    pub room_id: RoomId,
    pub stream_id: StreamId,
    pub events: Vec<RemoteInputEvent>,
}

#[derive(Debug, Clone, PartialEq, Eq)]
pub struct RemoteInputEvent {
    pub sender_user_id: UserId,
    pub sequence_number: u64,
    pub event_time_micros: u64,
    pub kind: RemoteInputKind,
}

#[derive(Debug, Clone, Copy, PartialEq, Eq, Structural)]
pub struct StreamConfig {
    pub room_id: RoomId,
    pub stream_id: StreamId,
    pub codec: CodecId,
    pub width: u32,
    pub height: u32,
    pub frames_per_second: u16,
    pub timebase_hz: u32,
}

#[derive(Debug, Clone, Copy, PartialEq, Eq, Structural)]
pub struct PollStreamConfig {
    pub room_id: RoomId,
    pub stream_id: StreamId,
}

#[derive(Debug, Clone, Copy, PartialEq, Eq, Structural)]
pub struct PollStreamMetrics {
    pub room_id: RoomId,
    pub stream_id: StreamId,
}

#[derive(Debug, Clone, Copy, PartialEq, Eq, Structural)]
pub struct StreamMetricsSnapshot {
    pub room_id: RoomId,
    pub stream_id: StreamId,
    pub ingress_packets: u64,
    pub ingress_bytes: u64,
    pub egress_queued_packets: u64,
    pub egress_dropped_packets: u64,
    pub egress_queue_packets: u32,
    pub egress_queue_media_ms: u16,
    pub subscriber_count: u32,
    pub last_ingress_time_micros: u64,
    pub server_route_ms_p50: u16,
    pub server_route_ms_p95: u16,
}

#[derive(Debug, Clone, Copy, PartialEq, Eq, Structural)]
pub struct PublisherFeedback {
    pub room_id: RoomId,
    pub stream_id: StreamId,
    pub aggregate_available_bitrate_bps: u32,
    pub target_frames_per_second: u16,
    pub target_width: u32,
    pub target_height: u32,
    pub degraded_viewer_count: u32,
    pub total_viewer_count: u32,
    pub keyframe_requested: bool,
}

#[derive(Debug, Clone, Copy, PartialEq, Eq, Structural)]
pub struct ViewerStatsReport {
    pub room_id: RoomId,
    pub stream_id: StreamId,
    pub received_packets: u64,
    pub lost_packets: u64,
    pub decoded_frames: u64,
    pub dropped_frames: u64,
    pub jitter_buffer_ms: u16,
    pub estimated_latency_ms: u16,
    pub calibrated_latency_ms: u16,
    pub reassembly_ms_p50: u16,
    pub reassembly_ms_p95: u16,
    pub decode_ms_p50: u16,
    pub decode_ms_p95: u16,
    pub render_ms_p50: u16,
    pub render_ms_p95: u16,
    pub render_fps: u16,
}

#[derive(Debug, Clone, Copy, PartialEq, Eq, Structural)]
pub struct PollPublisherFeedback {
    pub room_id: RoomId,
    pub stream_id: StreamId,
}

#[derive(Debug, Clone, Copy, PartialEq, Eq, Structural)]
pub struct SetTargetBitrate {
    pub room_id: RoomId,
    pub stream_id: StreamId,
    pub bitrate_bps: u32,
}

#[derive(Debug, Clone, Copy, PartialEq, Eq, Structural)]
pub struct SetTargetFramerate {
    pub room_id: RoomId,
    pub stream_id: StreamId,
    pub frames_per_second: u16,
}

#[derive(Debug, Clone, PartialEq, Eq)]
pub struct ControlError {
    pub code: String,
    pub message: String,
}

impl ControlError {
    pub fn new(code: &str, message: &str) -> (error: ControlError)
        ensures
            error.code@ == code@,
            error.message@ == message@,
    {
        ControlError { code: code.to_owned(), message: message.to_owned() }
    }
}

/// Appends the line terminator that ends every control message on the wire.
pub fn frame_control_line(mut json: Vec<u8>) -> (line: Vec<u8>)
    ensures
        line@ == json@.push(10u8),
{
    json.push(10u8);
    json
}

/// ASCII whitespace as `u8::is_ascii_whitespace` counts it.
pub open spec fn is_ascii_whitespace(b: u8) -> bool {
    b == 32 || b == 9 || b == 10 || b == 12 || b == 13
}

/// The bounds of `bytes` with leading and trailing ASCII whitespace cut off:
/// the first byte kept and one past the last.
pub fn trim_ascii_bounds(bytes: &[u8]) -> (bounds: (usize, usize))
    ensures
        bounds.0 <= bounds.1 <= bytes@.len(),
        forall|i: int| 0 <= i < bounds.0 ==> is_ascii_whitespace(#[trigger] bytes@[i]),
        forall|i: int| bounds.1 <= i < bytes@.len() ==> is_ascii_whitespace(#[trigger] bytes@[i]),
        bounds.0 < bounds.1 ==> !is_ascii_whitespace(bytes@[bounds.0 as int]) && !is_ascii_whitespace(
            bytes@[bounds.1 - 1],
        ),
        bounds.0 == bounds.1 ==> bounds.0 == 0 && bounds.1 == 0,
{
    let mut start: usize = 0;
    while start < bytes.len() && (bytes[start] == 32 || bytes[start] == 9 || bytes[start] == 10
        || bytes[start] == 12 || bytes[start] == 13)
        invariant
            start <= bytes@.len(),
            forall|i: int| 0 <= i < start ==> is_ascii_whitespace(#[trigger] bytes@[i]),
        decreases bytes@.len() - start,
    {
        start += 1;
    }
    if start == bytes.len() {
        return (0, 0);
    }
    let mut end: usize = bytes.len();
    while end > start && (bytes[end - 1] == 32 || bytes[end - 1] == 9 || bytes[end - 1] == 10
        || bytes[end - 1] == 12 || bytes[end - 1] == 13)
        invariant
            start < end <= bytes@.len() || (start == end && start < bytes@.len()),
            !is_ascii_whitespace(bytes@[start as int]),
            forall|i: int| end <= i < bytes@.len() ==> is_ascii_whitespace(#[trigger] bytes@[i]),
        decreases end - start,
    {
        end -= 1;
    }
    (start, end)
}

/// Why a control envelope is refused after it was parsed.
#[derive(Debug, Clone, Copy, PartialEq, Eq, Structural)]
pub enum EnvelopeVersionError {
    UnsupportedVersion(u8),
}

/// Accepts an envelope only when it carries this protocol version.
pub fn check_envelope_version(protocol_version: u8) -> (result: Result<(), EnvelopeVersionError>)
    ensures
        protocol_version == PROTOCOL_VERSION <==> result is Ok,
        protocol_version != PROTOCOL_VERSION ==> result == Err::<(), EnvelopeVersionError>(
            EnvelopeVersionError::UnsupportedVersion(protocol_version),
        ),
{
    if protocol_version != PROTOCOL_VERSION {
        Err(EnvelopeVersionError::UnsupportedVersion(protocol_version))
    } else {
        Ok(())
    }
}

} // verus!
