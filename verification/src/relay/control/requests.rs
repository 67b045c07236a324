//! Requests about one room or stream: voice state, keyframes, stream
//! configuration, listings and metrics.

use std::collections::BTreeMap;
use vstd::prelude::*;

use crate::protocol::control::{
    PublisherFeedback, RequestKeyframe, RoomId, RoomList, RoomSummary, ServerControl,
    SetVoiceState, StreamConfig, StreamId, StreamList, StreamSummary, UserId, VoiceState,
};
use crate::protocol::packet::MediaPacket;
use crate::relay::control::feedback::{
    clamp_target_resolution, clamp_u16, spec_clamp, spec_clamp_target_resolution,
};
use crate::relay::control::{
    control_error, is_error, lemma_stream_room, lemma_valid_same_rooms, ControlState, ControlView,
    MAX_TARGET_FRAMES_PER_SECOND, MIN_TARGET_FRAMES_PER_SECOND,
};
use crate::relay::keys::{
    lemma_increasing_not_in_prefix_u32, lemma_prefix_step, map_keys_u32, map_keys_u64,
    strictly_increasing_u32, strictly_increasing_u64,
};
use crate::relay::media::MediaForwardSummary;
use crate::relay::metrics::{forwarding_recorded, fresh_metrics, StreamForwardingMetrics};
use crate::relay::room::{PublishedStream, RoomView};
use crate::relay::session::Session;
use crate::samples::spec_percentile;

verus! {

broadcast use {vstd::std_specs::btree::group_btree_axioms, vstd::laws_cmp::group_laws_cmp};

pub open spec fn unauthenticated(reply: ServerControl) -> bool {
    is_error(reply, "unauthenticated"@, "send Hello first"@)
}

pub open spec fn room_not_found(reply: ServerControl) -> bool {
    is_error(reply, "room_not_found"@, "room does not exist"@)
}

pub open spec fn stream_not_found(reply: ServerControl) -> bool {
    is_error(reply, "stream_not_found"@, "stream does not exist"@)
}

/// The voice states of a room, empty when it has none.
pub open spec fn room_voice(v: ControlView, room_id: RoomId) -> Map<UserId, VoiceState> {
    if v.voice_states.contains_key(room_id) {
        v.voice_states[room_id]
    } else {
        Map::empty()
    }
}

/// `v` with a stream of `room_id` replaced by `stream`.
pub open spec fn with_stream(v: ControlView, room_id: RoomId, stream: PublishedStream) -> ControlView {
    ControlView {
        rooms: v.rooms.insert(
            room_id,
            RoomView {
                streams: v.rooms[room_id].streams.insert(stream.stream_id, stream),
                ..v.rooms[room_id]
            },
        ),
        ..v
    }
}

/// How many users watch `stream_id` in a room, as the control plane counts.
pub open spec fn room_subscriber_count(room: RoomView, stream_id: StreamId) -> u32 {
    if room.subscriptions.contains_key(stream_id) {
        room.subscriptions[stream_id].len() as u32
    } else {
        0
    }
}

/// The answer to a voice state update and the state after it: the caller
/// must be a participant; a muted user is never speaking.
pub open spec fn voice_state_reply(
    v: ControlView,
    user: Option<UserId>,
    request: SetVoiceState,
    w: ControlView,
    reply: ServerControl,
) -> bool {
    match user {
        None => unauthenticated(reply) && w == v,
        Some(u) => if !v.rooms.contains_key(request.room_id) {
            room_not_found(reply) && w == v
        } else if !v.rooms[request.room_id].participants.contains(u) {
            is_error(reply, "not_in_room"@, "join room before updating voice state"@) && w == v
        } else {
            let voice_state = VoiceState {
                room_id: request.room_id,
                user_id: u,
                muted: request.muted,
                deafened: request.deafened,
                push_to_talk: request.push_to_talk,
                speaking: request.speaking && !request.muted,
            };
            &&& reply == ServerControl::VoiceStateUpdated(voice_state)
            &&& w == (ControlView {
                voice_states: v.voice_states.insert(
                    request.room_id,
                    room_voice(v, request.room_id).insert(u, voice_state),
                ),
                ..v
            })
        },
    }
}

/// The answer to a keyframe request: the caller must be in the room and
/// publish or watch the stream; the request then waits for the publisher.
pub open spec fn keyframe_reply(
    v: ControlView,
    user: Option<UserId>,
    request: RequestKeyframe,
    w: ControlView,
    reply: ServerControl,
) -> bool {
    match user {
        None => unauthenticated(reply) && w == v,
        Some(u) => if !v.rooms.contains_key(request.room_id) {
            room_not_found(reply) && w == v
        } else if !v.rooms[request.room_id].participants.contains(u) {
            is_error(reply, "not_in_room"@, "join room before requesting a keyframe"@) && w == v
        } else if !v.rooms[request.room_id].streams.contains_key(request.stream_id) {
            stream_not_found(reply) && w == v
        } else if v.rooms[request.room_id].streams[request.stream_id].publisher_id != u && !(
        v.rooms[request.room_id].subscriptions.contains_key(request.stream_id)
            && v.rooms[request.room_id].subscriptions[request.stream_id].contains(u)) {
            is_error(
                reply,
                "not_subscribed"@,
                "subscribe to the stream before requesting a keyframe"@,
            ) && w == v
        } else {
            &&& reply == ServerControl::RequestKeyframe(request)
            &&& w == (ControlView {
                pending_keyframes: v.pending_keyframes.insert(request.stream_id, request.reason),
                ..v
            })
        },
    }
}

/// A stream configuration as the relay stores it: frame rate and
/// resolution held to the supported ranges.
pub open spec fn clamped_config(config: StreamConfig) -> StreamConfig {
    StreamConfig {
        frames_per_second: spec_clamp(
            config.frames_per_second as int,
            MIN_TARGET_FRAMES_PER_SECOND as int,
            MAX_TARGET_FRAMES_PER_SECOND as int,
        ) as u16,
        width: spec_clamp_target_resolution(config.width, config.height).0,
        height: spec_clamp_target_resolution(config.width, config.height).1,
        ..config
    }
}

/// The answer to a publisher's stream configuration: only the publisher,
/// with the stream's codec; the clamped configuration becomes the stream's
/// configuration and media targets.
pub open spec fn stream_config_reply(
    v: ControlView,
    user: Option<UserId>,
    config: StreamConfig,
    w: ControlView,
    reply: ServerControl,
) -> bool {
    match user {
        None => unauthenticated(reply) && w == v,
        Some(u) => if !v.rooms.contains_key(config.room_id) {
            room_not_found(reply) && w == v
        } else if !v.rooms[config.room_id].streams.contains_key(config.stream_id) {
            stream_not_found(reply) && w == v
        } else if v.rooms[config.room_id].streams[config.stream_id].publisher_id != u {
            is_error(reply, "not_publisher"@, "only the stream publisher can set stream config"@)
                && w == v
        } else if v.rooms[config.room_id].streams[config.stream_id].codec != config.codec {
            is_error(
                reply,
                "codec_mismatch"@,
                "stream config codec must match published stream codec"@,
            ) && w == v
        } else {
            let stored = clamped_config(config);
            let stream = v.rooms[config.room_id].streams[config.stream_id];
            &&& reply == ServerControl::StreamConfig(stored)
            &&& w == with_stream(
                v,
                config.room_id,
                PublishedStream {
                    target_frames_per_second: stored.frames_per_second,
                    target_width: stored.width,
                    target_height: stored.height,
                    config: Some(stored),
                    ..stream
                },
            )
        },
    }
}

/// The answer to a participant's poll for a stream's configuration.
pub open spec fn poll_config_reply(
    v: ControlView,
    user: Option<UserId>,
    room_id: RoomId,
    stream_id: StreamId,
    reply: ServerControl,
) -> bool {
    match user {
        None => unauthenticated(reply),
        Some(u) => if !v.rooms.contains_key(room_id) {
            room_not_found(reply)
        } else if !v.rooms[room_id].participants.contains(u) {
            is_error(reply, "not_in_room"@, "join room before polling stream config"@)
        } else if !v.rooms[room_id].streams.contains_key(stream_id) {
            stream_not_found(reply)
        } else {
            match v.rooms[room_id].streams[stream_id].config {
                Some(config) => reply == ServerControl::StreamConfig(config),
                None => is_error(
                    reply,
                    "stream_config_unavailable"@,
                    "publisher has not sent stream config yet"@,
                ),
            }
        },
    }
}

pub open spec fn room_summary_of(summary: RoomSummary, room: RoomView) -> bool {
    &&& summary.room_id == room.id
    &&& summary.name@ == room.name
    &&& summary.participant_count == room.participants.len() as u32
    &&& summary.published_stream_count == room.streams.len() as u32
}

/// One summary per room, in increasing room id order.
pub open spec fn room_list_of(list: RoomList, v: ControlView) -> bool {
    &&& forall|a: int, b: int|
        0 <= a < b < list.rooms@.len() ==> list.rooms@[a].room_id < list.rooms@[b].room_id
    &&& forall|r: RoomId|
        v.rooms.contains_key(r) <==> exists|i: int|
            0 <= i < list.rooms@.len() && #[trigger] list.rooms@[i].room_id == r
    &&& forall|i: int|
        0 <= i < list.rooms@.len() ==> v.rooms.contains_key(#[trigger] list.rooms@[i].room_id)
            && room_summary_of(list.rooms@[i], v.rooms[list.rooms@[i].room_id])
}

pub open spec fn stream_summary_of(
    summary: StreamSummary,
    room_id: RoomId,
    room: RoomView,
    stream: PublishedStream,
) -> bool {
    summary == StreamSummary {
        room_id,
        stream_id: stream.stream_id,
        publisher_id: stream.publisher_id,
        codec: stream.codec,
        media_kind: stream.media_kind,
        subscriber_count: room_subscriber_count(room, stream.stream_id),
        has_config: stream.config is Some,
        target_bitrate_bps: stream.target_bitrate_bps,
        target_frames_per_second: stream.target_frames_per_second,
    }
}

/// One summary per stream of the room, in increasing stream id order.
pub open spec fn stream_list_of(list: StreamList, room_id: RoomId, room: RoomView) -> bool {
    &&& list.room_id == room_id
    &&& forall|a: int, b: int|
        0 <= a < b < list.streams@.len() ==> list.streams@[a].stream_id
            < list.streams@[b].stream_id
    &&& forall|s: StreamId|
        room.streams.contains_key(s) <==> exists|i: int|
            0 <= i < list.streams@.len() && #[trigger] list.streams@[i].stream_id == s
    &&& forall|i: int|
        0 <= i < list.streams@.len() ==> room.streams.contains_key(
            #[trigger] list.streams@[i].stream_id,
        ) && stream_summary_of(
            list.streams@[i],
            room_id,
            room,
            room.streams[list.streams@[i].stream_id],
        )
}

/// The answer to a participant listing a room's streams.
pub open spec fn list_streams_reply(
    v: ControlView,
    user: Option<UserId>,
    room_id: RoomId,
    reply: ServerControl,
) -> bool {
    match user {
        None => unauthenticated(reply),
        Some(u) => if !v.rooms.contains_key(room_id) {
            room_not_found(reply)
        } else if !v.rooms[room_id].participants.contains(u) {
            is_error(reply, "not_in_room"@, "join room before listing streams"@)
        } else {
            reply matches ServerControl::StreamList(list) && stream_list_of(
                list,
                room_id,
                v.rooms[room_id],
            )
        },
    }
}

/// The answer to a participant polling a stream's forwarding metrics:
/// counters nothing was recorded for yet read as zero.
pub open spec fn poll_metrics_reply(
    v: ControlView,
    user: Option<UserId>,
    room_id: RoomId,
    stream_id: StreamId,
    reply: ServerControl,
) -> bool {
    match user {
        None => unauthenticated(reply),
        Some(u) => if !v.rooms.contains_key(room_id) {
            room_not_found(reply)
        } else if !v.rooms[room_id].participants.contains(u) {
            is_error(reply, "not_in_room"@, "join room before polling stream metrics"@)
        } else if !v.rooms[room_id].streams.contains_key(stream_id) {
            stream_not_found(reply)
        } else {
            reply matches ServerControl::StreamMetrics(snapshot) && {
                let count = room_subscriber_count(v.rooms[room_id], stream_id);
                if v.stream_metrics.contains_key(stream_id) {
                    let m = v.stream_metrics[stream_id];
                    snapshot == crate::protocol::control::StreamMetricsSnapshot {
                        room_id,
                        stream_id,
                        ingress_packets: m.ingress_packets,
                        ingress_bytes: m.ingress_bytes,
                        egress_queued_packets: m.egress_queued_packets,
                        egress_dropped_packets: m.egress_dropped_packets,
                        egress_queue_packets: 0,
                        egress_queue_media_ms: 0,
                        subscriber_count: count,
                        last_ingress_time_micros: m.last_ingress_time_micros,
                        server_route_ms_p50: spec_percentile(m.server_route_samples.samples(), 50),
                        server_route_ms_p95: spec_percentile(m.server_route_samples.samples(), 95),
                    }
                } else {
                    snapshot == crate::protocol::control::StreamMetricsSnapshot {
                        room_id,
                        stream_id,
                        ingress_packets: 0,
                        ingress_bytes: 0,
                        egress_queued_packets: 0,
                        egress_dropped_packets: 0,
                        egress_queue_packets: 0,
                        egress_queue_media_ms: 0,
                        subscriber_count: count,
                        last_ingress_time_micros: 0,
                        server_route_ms_p50: 0,
                        server_route_ms_p95: 0,
                    }
                }
            }
        },
    }
}

/// Why a caller may not change a stream's media targets, if they may not.
pub open spec fn publisher_control_error(
    v: ControlView,
    user: Option<UserId>,
    room_id: RoomId,
    stream_id: StreamId,
    error: Option<ServerControl>,
) -> bool {
    match user {
        None => error matches Some(e) && unauthenticated(e),
        Some(u) => if !v.rooms.contains_key(room_id) {
            error matches Some(e) && room_not_found(e)
        } else if !v.rooms[room_id].streams.contains_key(stream_id) {
            error matches Some(e) && stream_not_found(e)
        } else if v.rooms[room_id].streams[stream_id].publisher_id != u {
            error matches Some(e) && is_error(
                e,
                "not_publisher"@,
                "only the stream publisher can update target media settings"@,
            )
        } else {
            error is None
        },
    }
}

impl ControlState {
    pub(crate) fn register_keyframe_request(
        &mut self,
        stream_id: StreamId,
        reason: crate::protocol::control::KeyframeReason,
    )
        requires
            old(self).wf(),
        ensures
            final(self).wf(),
            final(self)@ == (ControlView {
                pending_keyframes: old(self)@.pending_keyframes.insert(stream_id, reason),
                ..old(self)@
            }),
    {
        self.pending_keyframe_requests.insert(stream_id, reason);
        proof {
            lemma_valid_same_rooms(old(self)@, self@);
        }
    }

    /// Replaces a published stream's record in its room.
    pub(crate) fn replace_stream(&mut self, room_id: RoomId, stream: PublishedStream)
        requires
            old(self).wf(),
            old(self)@.has_stream(room_id, stream.stream_id),
        ensures
            final(self).wf(),
            final(self)@ == with_stream(old(self)@, room_id, stream),
    {
        let ghost v0 = self@;
        match self.rooms.remove(&room_id) {
            Some(mut room) => {
                room.publish_stream(stream);
                self.rooms.insert(room_id, room);
            },
            None => {},
        }
        proof {
            let target = with_stream(v0, room_id, stream);
            assert(self@.rooms[room_id].streams =~= target.rooms[room_id].streams);
            assert(self@.rooms =~= target.rooms);
            assert(self@.viewer_stats =~= v0.viewer_stats);
            assert(self@.voice_states =~= v0.voice_states);
            let w = self@;
            assert forall|r: RoomId, s: StreamId| #[trigger] w.has_stream(r, s) implies v0.has_stream(r, s) by {}
            assert forall|r1: RoomId, r2: RoomId, s: StreamId|
                #[trigger] w.has_stream(r1, s) && #[trigger] w.has_stream(r2, s) implies r1 == r2 by {
                assert(v0.has_stream(r1, s) && v0.has_stream(r2, s));
            }
            assert forall|r: RoomId, s: StreamId|
                #[trigger] w.has_stream(r, s) implies w.rooms[r].streams[s].stream_id == s by {
                assert(v0.has_stream(r, s));
            }
            assert forall|r: RoomId, s: StreamId|
                w.rooms.contains_key(r) && #[trigger] w.rooms[r].subscriptions.contains_key(s)
                    implies w.rooms[r].streams.contains_key(s) by {
                assert(v0.rooms[r].subscriptions.contains_key(s));
            }
        }
    }

    pub(crate) fn set_voice_state(&mut self, session: &Session, request: SetVoiceState) -> (reply:
        ServerControl)
        requires
            old(self).wf(),
        ensures
            final(self).wf(),
            voice_state_reply(old(self)@, session.user_id, request, final(self)@, reply),
    {
        let user_id = match session.user_id {
            Some(u) => u,
            None => {
                return control_error("unauthenticated", "send Hello first");
            },
        };
        let participant = match self.rooms.get(&request.room_id) {
            Some(room) => room.participants.contains(&user_id),
            None => {
                return control_error("room_not_found", "room does not exist");
            },
        };
        if !participant {
            return control_error("not_in_room", "join room before updating voice state");
        }
        let voice_state = VoiceState {
            room_id: request.room_id,
            user_id,
            muted: request.muted,
            deafened: request.deafened,
            push_to_talk: request.push_to_talk,
            speaking: request.speaking && !request.muted,
        };
        let ghost v0 = self@;
        let mut room_voice_states = match self.voice_states.remove(&request.room_id) {
            Some(m) => m,
            None => BTreeMap::new(),
        };
        room_voice_states.insert(user_id, voice_state);
        self.voice_states.insert(request.room_id, room_voice_states);
        proof {
            assert(room_voice_states@ =~= room_voice(v0, request.room_id).insert(user_id, voice_state));
            assert(self@.voice_states =~= v0.voice_states.insert(
                request.room_id,
                room_voice(v0, request.room_id).insert(user_id, voice_state),
            ));
            assert(self@.rooms =~= v0.rooms);
            assert(self@.viewer_stats =~= v0.viewer_stats);
            lemma_valid_same_rooms(v0, self@);
        }
        ServerControl::VoiceStateUpdated(voice_state)
    }

    pub(crate) fn request_keyframe(&mut self, session: &Session, request: RequestKeyframe) -> (reply:
        ServerControl)
        requires
            old(self).wf(),
        ensures
            final(self).wf(),
            keyframe_reply(old(self)@, session.user_id, request, final(self)@, reply),
    {
        let user_id = match session.user_id {
            Some(u) => u,
            None => {
                return control_error("unauthenticated", "send Hello first");
            },
        };
        let room = match self.rooms.get(&request.room_id) {
            Some(room) => room,
            None => {
                return control_error("room_not_found", "room does not exist");
            },
        };
        if !room.participants.contains(&user_id) {
            return control_error("not_in_room", "join room before requesting a keyframe");
        }
        let publisher_id = match room.published_streams.get(&request.stream_id) {
            Some(stream) => stream.publisher_id,
            None => {
                return control_error("stream_not_found", "stream does not exist");
            },
        };
        let is_subscriber = match room.subscriptions.get(&request.stream_id) {
            Some(subscribers) => subscribers.contains(&user_id),
            None => false,
        };
        if publisher_id != user_id && !is_subscriber {
            return control_error(
                "not_subscribed",
                "subscribe to the stream before requesting a keyframe",
            );
        }
        self.register_keyframe_request(request.stream_id, request.reason);
        ServerControl::RequestKeyframe(request)
    }

    pub(crate) fn set_stream_config(&mut self, session: &Session, config: StreamConfig) -> (reply:
        ServerControl)
        requires
            old(self).wf(),
        ensures
            final(self).wf(),
            stream_config_reply(old(self)@, session.user_id, config, final(self)@, reply),
    {
        let user_id = match session.user_id {
            Some(u) => u,
            None => {
                return control_error("unauthenticated", "send Hello first");
            },
        };
        let stream = match self.rooms.get(&config.room_id) {
            Some(room) => match room.published_streams.get(&config.stream_id) {
                Some(stream) => *stream,
                None => {
                    return control_error("stream_not_found", "stream does not exist");
                },
            },
            None => {
                return control_error("room_not_found", "room does not exist");
            },
        };
        if stream.publisher_id != user_id {
            return control_error("not_publisher", "only the stream publisher can set stream config");
        }
        if stream.codec != config.codec {
            return control_error(
                "codec_mismatch",
                "stream config codec must match published stream codec",
            );
        }
        let frames_per_second = clamp_u16(
            config.frames_per_second,
            MIN_TARGET_FRAMES_PER_SECOND,
            MAX_TARGET_FRAMES_PER_SECOND,
        );
        let (width, height) = clamp_target_resolution(config.width, config.height);
        let stored = StreamConfig { frames_per_second, width, height, ..config };
        let updated = PublishedStream {
            target_frames_per_second: frames_per_second,
            target_width: width,
            target_height: height,
            config: Some(stored),
            ..stream
        };
        proof {
            assert(self@.has_stream(config.room_id, config.stream_id));
            assert(self@.valid());
        }
        self.replace_stream(config.room_id, updated);
        ServerControl::StreamConfig(stored)
    }

    pub(crate) fn poll_stream_config(&self, session: &Session, room_id: RoomId, stream_id: StreamId) -> (reply:
        ServerControl)
        ensures
            poll_config_reply(self@, session.user_id, room_id, stream_id, reply),
    {
        let user_id = match session.user_id {
            Some(u) => u,
            None => {
                return control_error("unauthenticated", "send Hello first");
            },
        };
        let room = match self.rooms.get(&room_id) {
            Some(room) => room,
            None => {
                return control_error("room_not_found", "room does not exist");
            },
        };
        if !room.participants.contains(&user_id) {
            return control_error("not_in_room", "join room before polling stream config");
        }
        match room.published_streams.get(&stream_id) {
            Some(stream) => match stream.config {
                Some(config) => ServerControl::StreamConfig(config),
                None => control_error(
                    "stream_config_unavailable",
                    "publisher has not sent stream config yet",
                ),
            },
            None => control_error("stream_not_found", "stream does not exist"),
        }
    }

    pub(crate) fn validate_publisher_control(
        &self,
        session: &Session,
        room_id: RoomId,
        stream_id: StreamId,
    ) -> (error: Option<ServerControl>)
        ensures
            publisher_control_error(self@, session.user_id, room_id, stream_id, error),
    {
        let user_id = match session.user_id {
            Some(u) => u,
            None => {
                return Some(control_error("unauthenticated", "send Hello first"));
            },
        };
        let room = match self.rooms.get(&room_id) {
            Some(room) => room,
            None => {
                return Some(control_error("room_not_found", "room does not exist"));
            },
        };
        match room.published_streams.get(&stream_id) {
            Some(stream) => {
                if stream.publisher_id != user_id {
                    Some(
                        control_error(
                            "not_publisher",
                            "only the stream publisher can update target media settings",
                        ),
                    )
                } else {
                    None
                }
            },
            None => Some(control_error("stream_not_found", "stream does not exist")),
        }
    }

    /// A summary of every room, in increasing room id order.
    pub(crate) fn list_rooms(&self) -> (list: RoomList)
        requires
            self.wf(),
        ensures
            room_list_of(list, self@),
    {
        let keys = map_keys_u64(&self.rooms);
        let mut rooms: Vec<RoomSummary> = Vec::new();
        let mut i: usize = 0;
        while i < keys.len()
            invariant
                0 <= i <= keys@.len(),
                keys@.to_set() == self.rooms@.dom(),
                strictly_increasing_u64(keys@),
                self.wf(),
                rooms@.len() == i,
                forall|m: int|
                    0 <= m < i ==> #[trigger] rooms@[m].room_id == keys@[m] && room_summary_of(
                        rooms@[m],
                        self@.rooms[keys@[m]],
                    ),
            decreases keys@.len() - i,
        {
            let r = keys[i];
            assert(keys@.to_set().contains(r));
            match self.rooms.get(&r) {
                Some(room) => {
                    assert(self@.rooms.contains_key(r));
                    rooms.push(
                        RoomSummary {
                            room_id: room.id,
                            name: room.name.clone(),
                            participant_count: room.participants.len() as u32,
                            published_stream_count: room.published_streams.len() as u32,
                        },
                    );
                },
                None => {},
            }
            i += 1;
        }
        let list = RoomList { rooms };
        proof {
            assert forall|r: RoomId|
                self@.rooms.contains_key(r) implies exists|i: int|
                    0 <= i < list.rooms@.len() && #[trigger] list.rooms@[i].room_id == r by {
                assert(keys@.to_set().contains(r));
                let m = choose|m: int| 0 <= m < keys@.len() && keys@[m] == r;
                assert(list.rooms@[m].room_id == r);
            }
            assert forall|i: int|
                0 <= i < list.rooms@.len() implies self@.rooms.contains_key(
                    #[trigger] list.rooms@[i].room_id,
                ) by {
                assert(keys@.to_set().contains(keys@[i]));
            }
        }
        list
    }

    pub(crate) fn list_streams(&self, session: &Session, room_id: RoomId) -> (reply: ServerControl)
        requires
            self.wf(),
        ensures
            list_streams_reply(self@, session.user_id, room_id, reply),
    {
        let user_id = match session.user_id {
            Some(u) => u,
            None => {
                return control_error("unauthenticated", "send Hello first");
            },
        };
        let room = match self.rooms.get(&room_id) {
            Some(room) => room,
            None => {
                return control_error("room_not_found", "room does not exist");
            },
        };
        if !room.participants.contains(&user_id) {
            return control_error("not_in_room", "join room before listing streams");
        }
        let ghost rv = room@;
        assert(rv == self@.rooms[room_id]);
        assert(forall|s: StreamId| #[trigger] rv.streams.contains_key(s) ==> self@.has_stream(room_id, s));
        let keys = map_keys_u32(&room.published_streams);
        let mut streams: Vec<StreamSummary> = Vec::new();
        let mut i: usize = 0;
        while i < keys.len()
            invariant
                0 <= i <= keys@.len(),
                keys@.to_set() == rv.streams.dom(),
                strictly_increasing_u32(keys@),
                rv == room@,
                forall|s: StreamId| #[trigger] rv.streams.contains_key(s) ==> rv.streams[s].stream_id == s,
                streams@.len() == i,
                forall|m: int|
                    0 <= m < i ==> #[trigger] streams@[m].stream_id == keys@[m] && stream_summary_of(
                        streams@[m],
                        room_id,
                        rv,
                        rv.streams[keys@[m]],
                    ),
            decreases keys@.len() - i,
        {
            let s = keys[i];
            assert(keys@.to_set().contains(s));
            match room.published_streams.get(&s) {
                Some(stream) => {
                    let subscriber_count: u32 = match room.subscriptions.get(&s) {
                        Some(subscribers) => subscribers.len() as u32,
                        None => 0,
                    };
                    streams.push(
                        StreamSummary {
                            room_id,
                            stream_id: stream.stream_id,
                            publisher_id: stream.publisher_id,
                            codec: stream.codec,
                            media_kind: stream.media_kind,
                            subscriber_count,
                            has_config: stream.config.is_some(),
                            target_bitrate_bps: stream.target_bitrate_bps,
                            target_frames_per_second: stream.target_frames_per_second,
                        },
                    );
                },
                None => {},
            }
            i += 1;
        }
        let list = StreamList { room_id, streams };
        proof {
            assert forall|a: int, b: int|
                0 <= a < b < list.streams@.len() implies list.streams@[a].stream_id
                    < list.streams@[b].stream_id by {
                assert(list.streams@[a].stream_id == keys@[a]);
                assert(list.streams@[b].stream_id == keys@[b]);
            }
            assert forall|s: StreamId|
                rv.streams.contains_key(s) implies exists|i: int|
                    0 <= i < list.streams@.len() && #[trigger] list.streams@[i].stream_id == s by {
                assert(keys@.to_set().contains(s));
                let m = choose|m: int| 0 <= m < keys@.len() && keys@[m] == s;
                assert(list.streams@[m].stream_id == s);
            }
            assert forall|i: int|
                0 <= i < list.streams@.len() implies rv.streams.contains_key(
                    #[trigger] list.streams@[i].stream_id,
                ) by {
                assert(keys@.to_set().contains(keys@[i]));
            }
        }
        ServerControl::StreamList(list)
    }

    pub(crate) fn poll_stream_metrics(
        &self,
        session: &Session,
        room_id: RoomId,
        stream_id: StreamId,
    ) -> (reply: ServerControl)
        requires
            self.wf(),
        ensures
            poll_metrics_reply(self@, session.user_id, room_id, stream_id, reply),
    {
        let user_id = match session.user_id {
            Some(u) => u,
            None => {
                return control_error("unauthenticated", "send Hello first");
            },
        };
        let room = match self.rooms.get(&room_id) {
            Some(room) => room,
            None => {
                return control_error("room_not_found", "room does not exist");
            },
        };
        if !room.participants.contains(&user_id) {
            return control_error("not_in_room", "join room before polling stream metrics");
        }
        if !room.published_streams.contains_key(&stream_id) {
            return control_error("stream_not_found", "stream does not exist");
        }
        let subscriber_count: u32 = match room.subscriptions.get(&stream_id) {
            Some(subscribers) => subscribers.len() as u32,
            None => 0,
        };
        let metrics = match self.stream_metrics.get(&stream_id) {
            Some(m) => *m,
            None => StreamForwardingMetrics::new(),
        };
        ServerControl::StreamMetrics(metrics.snapshot(room_id, stream_id, subscriber_count))
    }

    /// Counts one forwarded datagram against its stream's metrics; datagrams
    /// for streams nobody publishes are not counted.
    pub fn record_media_forward_summary(
        &mut self,
        packet: &MediaPacket,
        summary: MediaForwardSummary,
        ingress_bytes: usize,
        received_at_micros: u64,
        server_route_ms: u16,
    )
        requires
            old(self).wf(),
        ensures
            final(self).wf(),
            old(self)@.published(packet.header.room_stream_id) is None ==> final(self)@ == old(self)@,
            old(self)@.published(packet.header.room_stream_id) is Some ==> {
                let s = packet.header.room_stream_id;
                &&& final(self)@.stream_metrics.contains_key(s)
                &&& final(self)@ == (ControlView {
                    stream_metrics: old(self)@.stream_metrics.insert(s, final(self)@.stream_metrics[s]),
                    ..old(self)@
                })
                &&& old(self)@.stream_metrics.contains_key(s) ==> forwarding_recorded(
                    old(self)@.stream_metrics[s],
                    final(self)@.stream_metrics[s],
                    ingress_bytes,
                    summary.delivered,
                    summary.dropped,
                    received_at_micros,
                    server_route_ms,
                )
                &&& !old(self)@.stream_metrics.contains_key(s) ==> exists|fresh: StreamForwardingMetrics|
                    fresh_metrics(fresh) && forwarding_recorded(
                        fresh,
                        final(self)@.stream_metrics[s],
                        ingress_bytes,
                        summary.delivered,
                        summary.dropped,
                        received_at_micros,
                        server_route_ms,
                    )
            },
    {
        let stream_id = packet.header.room_stream_id;
        if self.published_stream(stream_id).is_none() {
            return ;
        }
        let ghost v0 = self@;
        let mut metrics = match self.stream_metrics.remove(&stream_id) {
            Some(m) => m,
            None => StreamForwardingMetrics::new(),
        };
        let ghost before = metrics;
        metrics.record_forwarding(
            ingress_bytes,
            summary.delivered,
            summary.dropped,
            received_at_micros,
            server_route_ms,
        );
        self.stream_metrics.insert(stream_id, metrics);
        proof {
            assert(self@.stream_metrics =~= v0.stream_metrics.insert(stream_id, metrics));
            assert(self@.rooms =~= v0.rooms);
            assert(self@.viewer_stats =~= v0.viewer_stats);
            assert(self@.voice_states =~= v0.voice_states);
            lemma_valid_same_rooms(v0, self@);
            if !v0.stream_metrics.contains_key(stream_id) {
                assert(fresh_metrics(before));
            }
        }
    }
}

} // verus!
