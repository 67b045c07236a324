//! Answering one client request: authorization first, then the request's
//! own rules.

use std::collections::BTreeMap;
use vstd::prelude::*;

use crate::protocol::control::{
    Authenticate, Authenticated, ClientControl, ClientEnvelope, ControlEnvelope, ControlError,
    CreateRoom, Hello, HelloAccepted, JoinRoom, KeyframeReason, MediaKind, Pong, PublishStream,
    RoomCreated, RoomId, RoomJoined, RoomLeft, ServerControl, ServerEnvelope, StreamId,
    StreamPublished, StreamSubscribed, StreamUnpublished, StreamUnsubscribed, SubscribeStream,
    TimeSyncResponse, UnpublishStream, UnsubscribeStream, UserId, ViewerStatsReport,
};
use crate::protocol::PROTOCOL_VERSION;
use crate::relay::control::feedback::{
    poll_feedback_reply, spec_aggregate_feedback, stream_reports, target_bitrate_reply,
    target_framerate_reply,
};
use crate::relay::control::membership::{after_leave, without_inner};
use crate::relay::control::participants::participants_reply;
use crate::relay::control::remote_input::{poll_input_reply, send_input_reply};
use crate::relay::control::requests::{
    keyframe_reply, list_streams_reply, poll_config_reply, poll_metrics_reply, room_list_of,
    room_not_found, stream_config_reply, stream_not_found, unauthenticated, voice_state_reply,
};
use crate::relay::control::{
    control_error, is_error, lemma_stream_room, lemma_valid_room_insert, lemma_valid_same_rooms,
    voice_with_default, ControlState, ControlView, DEFAULT_TARGET_BITRATE_BPS,
    DEFAULT_TARGET_FRAMES_PER_SECOND,
};
use crate::relay::metrics::unix_time_micros;
use crate::relay::room::{PublishedStream, Room, RoomView};
use crate::relay::session::Session;
use crate::text::{prefixed_decimal, spec_decimal};

verus! {

broadcast use {vstd::std_specs::btree::group_btree_axioms, vstd::laws_cmp::group_laws_cmp};

/// Every request but the handshake ones needs an identity.
pub open spec fn needs_identity(message: ClientControl) -> bool {
    !(message is Hello || message is Ping || message is TimeSync || message is Authenticate)
}

/// A request is let through when it needs no identity, or the session has
/// one and, on a relay with an access token, was granted access.
pub open spec fn authorized(v: ControlView, session: Session, message: ClientControl) -> bool {
    !needs_identity(message) || (session.user_id is Some && (v.access_token is None
        || session.access_granted))
}

pub open spec fn same_session(a: Session, b: Session) -> bool {
    &&& a.id == b.id
    &&& a.user_id == b.user_id
    &&& a.access_granted == b.access_granted
    &&& a.display_name@ == b.display_name@
}

/// The answer to a hello: the version must match; a first hello numbers
/// the user, named after the client, with access unless the relay has an
/// access token.
pub open spec fn hello_reply(
    v: ControlView,
    s: Session,
    hello: Hello,
    w: ControlView,
    s2: Session,
    reply: ServerControl,
) -> bool {
    if hello.protocol_version != PROTOCOL_VERSION {
        &&& is_error(
            reply,
            "unsupported_version"@,
            "unsupported client protocol version "@ + spec_decimal(hello.protocol_version as nat),
        )
        &&& w == v
        &&& same_session(s, s2)
    } else {
        &&& if s.user_id is None {
            &&& w == (ControlView { next_user_id: (v.next_user_id + 1) as u64, ..v })
            &&& s2.id == s.id
            &&& s2.user_id == Some(v.next_user_id)
            &&& s2.access_granted == (v.access_token is None)
            &&& s2.display_name@ == hello.client_name@
        } else {
            w == v && same_session(s, s2)
        }
        &&& reply matches ServerControl::HelloAccepted(accepted) && {
            &&& accepted.protocol_version == PROTOCOL_VERSION
            &&& accepted.server_name@ == "teamview-relay"@
            &&& s2.user_id == Some(accepted.user_id)
            &&& accepted.display_name@ == s2.display_name@
        }
    }
}

/// The answer to an access token: a wrong token is refused, anything else
/// grants access.
pub open spec fn authenticate_reply(
    v: ControlView,
    s: Session,
    authenticate: Authenticate,
    w: ControlView,
    s2: Session,
    reply: ServerControl,
) -> bool {
    &&& w == v
    &&& match s.user_id {
        None => is_error(reply, "not_ready"@, "send Hello first"@) && same_session(s, s2),
        Some(u) => if v.access_token matches Some(token) && authenticate.token@ != token {
            is_error(reply, "invalid_token"@, "access token is invalid"@) && same_session(s, s2)
        } else {
            &&& s2.id == s.id
            &&& s2.user_id == s.user_id
            &&& s2.access_granted
            &&& s2.display_name@ == s.display_name@
            &&& reply matches ServerControl::Authenticated(a) && a.user_id == u && a.display_name@
                == "user-"@ + spec_decimal(u as nat)
        },
    }
}

/// A new room, numbered next, with its creator in it.
pub open spec fn create_room_reply(
    v: ControlView,
    user: Option<UserId>,
    create: CreateRoom,
    w: ControlView,
    reply: ServerControl,
) -> bool {
    match user {
        None => unauthenticated(reply) && w == v,
        Some(u) => if v.rooms.len() >= v.limits.max_rooms {
            is_error(reply, "room_limit_reached"@, "the relay holds no more rooms"@) && w == v
        } else {
            let r = v.next_room_id;
            &&& w == (ControlView {
                rooms: v.rooms.insert(
                    r,
                    RoomView {
                        id: r,
                        name: create.name@,
                        participants: set![u],
                        streams: Map::empty(),
                        subscriptions: Map::empty(),
                    },
                ),
                voice_states: voice_with_default(v.voice_states, r, u),
                next_room_id: (r + 1) as u64,
                ..v
            })
            &&& reply matches ServerControl::RoomCreated(created) && created.room_id == r
                && created.name@ == create.name@
        },
    }
}

pub open spec fn join_room_reply(
    v: ControlView,
    user: Option<UserId>,
    join: JoinRoom,
    w: ControlView,
    reply: ServerControl,
) -> bool {
    if !v.rooms.contains_key(join.room_id) {
        room_not_found(reply) && w == v
    } else {
        match user {
            None => unauthenticated(reply) && w == v,
            Some(u) => if !v.rooms[join.room_id].participants.contains(u)
                && v.rooms[join.room_id].participants.len() >= v.limits.max_participants_per_room {
                is_error(reply, "room_full"@, "room has no space for another participant"@) && w == v
            } else {
                let room = v.rooms[join.room_id];
                &&& w == (ControlView {
                    rooms: v.rooms.insert(
                        join.room_id,
                        RoomView { participants: room.participants.insert(u), ..room },
                    ),
                    voice_states: voice_with_default(v.voice_states, join.room_id, u),
                    ..v
                })
                &&& reply == ServerControl::RoomJoined(
                    RoomJoined {
                        room_id: join.room_id,
                        participant_count: room.participants.insert(u).len() as u32,
                    },
                )
            },
        }
    }
}

/// A newly published stream: default targets, no configuration yet.
pub open spec fn new_published_stream(publish: PublishStream, user: UserId) -> PublishedStream {
    PublishedStream {
        stream_id: publish.stream_id,
        publisher_id: user,
        codec: publish.codec,
        media_kind: publish.media_kind,
        config: None,
        target_bitrate_bps: DEFAULT_TARGET_BITRATE_BPS,
        target_frames_per_second: DEFAULT_TARGET_FRAMES_PER_SECOND,
        target_width: 0,
        target_height: 0,
    }
}

/// Publishing: a stream id published anywhere is refused; the publisher
/// must be in the room.
pub open spec fn publish_reply(
    v: ControlView,
    user: Option<UserId>,
    publish: PublishStream,
    w: ControlView,
    reply: ServerControl,
) -> bool {
    if v.published(publish.stream_id) is Some {
        is_error(reply, "stream_id_conflict"@, "stream id is already published"@) && w == v
    } else if !v.rooms.contains_key(publish.room_id) {
        room_not_found(reply) && w == v
    } else {
        match user {
            None => unauthenticated(reply) && w == v,
            Some(u) => if !v.rooms[publish.room_id].participants.contains(u) {
                is_error(reply, "not_in_room"@, "join room before publishing"@) && w == v
            } else if v.rooms[publish.room_id].streams.len() >= v.limits.max_streams_per_room {
                is_error(reply, "stream_limit_reached"@, "room has no space for another stream"@)
                    && w == v
            } else {
                let room = v.rooms[publish.room_id];
                &&& w == (ControlView {
                    rooms: v.rooms.insert(
                        publish.room_id,
                        RoomView {
                            streams: room.streams.insert(
                                publish.stream_id,
                                new_published_stream(publish, u),
                            ),
                            ..room
                        },
                    ),
                    ..v
                })
                &&& reply == ServerControl::StreamPublished(
                    StreamPublished { room_id: publish.room_id, stream_id: publish.stream_id },
                )
            },
        }
    }
}

/// Subscribing: the viewer must be in the room and the stream published
/// there; a new viewer of a screen stream asks its publisher for a keyframe.
pub open spec fn subscribe_reply(
    v: ControlView,
    user: Option<UserId>,
    subscribe: SubscribeStream,
    w: ControlView,
    reply: ServerControl,
) -> bool {
    if !v.rooms.contains_key(subscribe.room_id) {
        room_not_found(reply) && w == v
    } else {
        match user {
            None => unauthenticated(reply) && w == v,
            Some(u) => {
                let room = v.rooms[subscribe.room_id];
                let s = subscribe.stream_id;
                if !room.participants.contains(u) {
                    is_error(reply, "not_in_room"@, "join room before subscribing"@) && w == v
                } else if !room.streams.contains_key(s) {
                    stream_not_found(reply) && w == v
                } else {
                    let already = room.subscriptions.contains_key(s)
                        && room.subscriptions[s].contains(u);
                    let subscribed = ControlView {
                        rooms: v.rooms.insert(
                            subscribe.room_id,
                            RoomView {
                                subscriptions: room.subscriptions.insert(
                                    s,
                                    if room.subscriptions.contains_key(s) {
                                        room.subscriptions[s].insert(u)
                                    } else {
                                        set![u]
                                    },
                                ),
                                ..room
                            },
                        ),
                        ..v
                    };
                    &&& w == if !already && room.streams[s].media_kind == MediaKind::Screen {
                        ControlView {
                            pending_keyframes: v.pending_keyframes.insert(
                                s,
                                KeyframeReason::NewSubscriber,
                            ),
                            ..subscribed
                        }
                    } else {
                        subscribed
                    }
                    &&& reply == ServerControl::StreamSubscribed(
                        StreamSubscribed { room_id: subscribe.room_id, stream_id: s },
                    )
                }
            },
        }
    }
}

/// Subscribers left after `user` stops watching `stream_id`; an emptied
/// set is dropped.
pub open spec fn unsubscribed(
    subs: Map<StreamId, Set<UserId>>,
    stream_id: StreamId,
    user: UserId,
) -> Map<StreamId, Set<UserId>> {
    if subs.contains_key(stream_id) {
        if subs[stream_id].remove(user).is_empty() {
            subs.remove(stream_id)
        } else {
            subs.insert(stream_id, subs[stream_id].remove(user))
        }
    } else {
        subs
    }
}

/// Unsubscribing always answers yes; in a room that exists it drops the
/// subscription and the viewer's report on the stream.
pub open spec fn unsubscribe_reply(
    v: ControlView,
    user: Option<UserId>,
    unsubscribe: UnsubscribeStream,
    w: ControlView,
    reply: ServerControl,
) -> bool {
    &&& if v.rooms.contains_key(unsubscribe.room_id) && user is Some {
        let u = user->0;
        let room = v.rooms[unsubscribe.room_id];
        w == (ControlView {
            rooms: v.rooms.insert(
                unsubscribe.room_id,
                RoomView {
                    subscriptions: unsubscribed(room.subscriptions, unsubscribe.stream_id, u),
                    ..room
                },
            ),
            viewer_stats: without_inner(v.viewer_stats, unsubscribe.stream_id, u),
            ..v
        })
    } else {
        w == v
    }
    &&& reply == ServerControl::StreamUnsubscribed(
        StreamUnsubscribed { room_id: unsubscribe.room_id, stream_id: unsubscribe.stream_id },
    )
}

/// Unpublishing: only the publisher may take a stream down; everything the
/// relay held for it goes.
pub open spec fn unpublish_reply(
    v: ControlView,
    user: Option<UserId>,
    unpublish: UnpublishStream,
    w: ControlView,
    reply: ServerControl,
) -> bool {
    match user {
        None => unauthenticated(reply) && w == v,
        Some(u) => if !v.rooms.contains_key(unpublish.room_id) {
            room_not_found(reply) && w == v
        } else if !v.rooms[unpublish.room_id].streams.contains_key(unpublish.stream_id) {
            stream_not_found(reply) && w == v
        } else if v.rooms[unpublish.room_id].streams[unpublish.stream_id].publisher_id != u {
            is_error(reply, "not_publisher"@, "only the stream publisher can unpublish the stream"@)
                && w == v
        } else {
            let room = v.rooms[unpublish.room_id];
            let s = unpublish.stream_id;
            &&& w == (ControlView {
                rooms: v.rooms.insert(
                    unpublish.room_id,
                    RoomView {
                        streams: room.streams.remove(s),
                        subscriptions: room.subscriptions.remove(s),
                        ..room
                    },
                ),
                viewer_stats: v.viewer_stats.remove(s),
                pending_keyframes: v.pending_keyframes.remove(s),
                stream_metrics: v.stream_metrics.remove(s),
                remote_inputs: v.remote_inputs.remove(s),
                ..v
            })
            &&& reply == ServerControl::StreamUnpublished(
                StreamUnpublished { room_id: unpublish.room_id, stream_id: s },
            )
        },
    }
}

/// A viewer's report replaces their last one for the stream; the answer is
/// the stream's feedback with the report counted.
pub open spec fn viewer_stats_reply(
    v: ControlView,
    user: Option<UserId>,
    report: ViewerStatsReport,
    w: ControlView,
    reply: ServerControl,
) -> bool {
    let stored = match user {
        Some(u) => ControlView {
            viewer_stats: v.viewer_stats.insert(
                report.stream_id,
                stream_reports(v, report.stream_id).insert(u, report),
            ),
            ..v
        },
        None => v,
    };
    &&& w == stored
    &&& reply == ServerControl::PublisherFeedback(
        spec_aggregate_feedback(stored, report.room_id, report.stream_id),
    )
}

/// What the relay answers `message` with, and the control state and
/// session after it, given the clock's readings on receipt and on reply.
pub open spec fn handled(
    v: ControlView,
    s: Session,
    message: ClientControl,
    w: ControlView,
    s2: Session,
    reply: ServerControl,
    received_micros: u64,
    sent_micros: u64,
) -> bool {
    if !authorized(v, s, message) {
        &&& w == v
        &&& same_session(s, s2)
        &&& if s.user_id is None {
            unauthenticated(reply)
        } else {
            is_error(reply, "not_authenticated"@, "authenticate before using relay controls"@)
        }
    } else {
        match message {
            ClientControl::Hello(hello) => hello_reply(v, s, hello, w, s2, reply),
            ClientControl::Authenticate(a) => authenticate_reply(v, s, a, w, s2, reply),
            _ => same_session(s, s2) && match message {
                ClientControl::Ping(ping) => w == v && if s.user_id is Some {
                    reply == ServerControl::Pong(Pong { nonce: ping.nonce })
                } else {
                    unauthenticated(reply)
                },
                ClientControl::TimeSync(sync) => w == v && if s.user_id is Some {
                    reply == ServerControl::TimeSync(
                        TimeSyncResponse {
                            client_send_time_micros: sync.client_send_time_micros,
                            server_receive_time_micros: received_micros,
                            server_send_time_micros: sent_micros,
                        },
                    )
                } else {
                    unauthenticated(reply)
                },
                ClientControl::CreateRoom(create) => create_room_reply(v, s.user_id, create, w, reply),
                ClientControl::ListRooms(_) => w == v && (reply matches ServerControl::RoomList(list)
                    && room_list_of(list, v)),
                ClientControl::JoinRoom(join) => join_room_reply(v, s.user_id, join, w, reply),
                ClientControl::PublishStream(p) => publish_reply(v, s.user_id, p, w, reply),
                ClientControl::UnpublishStream(u) => unpublish_reply(v, s.user_id, u, w, reply),
                ClientControl::ListStreams(list) => w == v && list_streams_reply(
                    v,
                    s.user_id,
                    list.room_id,
                    reply,
                ),
                ClientControl::SubscribeStream(sub) => subscribe_reply(v, s.user_id, sub, w, reply),
                ClientControl::UnsubscribeStream(u) => unsubscribe_reply(v, s.user_id, u, w, reply),
                ClientControl::LeaveRoom(leave) => {
                    &&& w == match s.user_id {
                        Some(u) => after_leave(v, u, leave.room_id),
                        None => v,
                    }
                    &&& reply == ServerControl::RoomLeft(RoomLeft { room_id: leave.room_id })
                },
                ClientControl::SetVoiceState(r) => voice_state_reply(v, s.user_id, r, w, reply),
                ClientControl::SetStreamConfig(c) => stream_config_reply(v, s.user_id, c, w, reply),
                ClientControl::PollStreamConfig(p) => w == v && poll_config_reply(
                    v,
                    s.user_id,
                    p.room_id,
                    p.stream_id,
                    reply,
                ),
                ClientControl::PollStreamMetrics(p) => w == v && poll_metrics_reply(
                    v,
                    s.user_id,
                    p.room_id,
                    p.stream_id,
                    reply,
                ),
                ClientControl::RequestKeyframe(r) => keyframe_reply(v, s.user_id, r, w, reply),
                ClientControl::ViewerStats(report) => viewer_stats_reply(v, s.user_id, report, w, reply),
                ClientControl::PollPublisherFeedback(p) => poll_feedback_reply(
                    v,
                    s.user_id,
                    p.room_id,
                    p.stream_id,
                    w,
                    reply,
                ),
                ClientControl::SetTargetBitrate(t) => target_bitrate_reply(v, s.user_id, t, w, reply),
                ClientControl::SetTargetFramerate(t) => target_framerate_reply(v, s.user_id, t, w, reply),
                ClientControl::ListParticipants(list) => w == v && participants_reply(
                    v,
                    s.user_id,
                    list.room_id,
                    reply,
                ),
                ClientControl::SendRemoteInput(r) => send_input_reply(v, s.user_id, r, w, reply),
                ClientControl::PollRemoteInput(p) => poll_input_reply(v, s.user_id, p, w, reply),
                _ => false,
            },
        }
    }
}

/// Whether the state has room for the identifier `message` would allocate:
/// a first accepted `Hello` numbers a user, an admitted `CreateRoom` from a
/// known user numbers a room; nothing else allocates.
pub open spec fn can_number(v: ControlView, s: Session, message: ClientControl) -> bool {
    &&& (message matches ClientControl::Hello(h) && s.user_id is None && h.protocol_version
        == PROTOCOL_VERSION) ==> v.next_user_id < u64::MAX
    &&& (message is CreateRoom && s.user_id is Some && authorized(v, s, message)) ==> v.next_room_id
        < u64::MAX
}

impl ControlState {
    fn hello(&mut self, session: &mut Session, hello: Hello) -> (reply: ServerControl)
        requires
            old(self).wf(),
            old(session).user_id is None && hello.protocol_version == PROTOCOL_VERSION
                ==> old(self)@.next_user_id < u64::MAX,
        ensures
            final(self).wf(),
            hello_reply(old(self)@, *old(session), hello, final(self)@, *final(session), reply),
    {
        if hello.protocol_version != PROTOCOL_VERSION {
            let message = prefixed_decimal(
                "unsupported client protocol version ",
                hello.protocol_version as u64,
            );
            return ServerControl::Error(
                ControlError { code: "unsupported_version".to_owned(), message },
            );
        }
        if session.user_id.is_none() {
            let user_id = self.next_user_id;
            let ghost v0 = self@;
            self.next_user_id = user_id + 1;
            proof {
                assert(self@.rooms =~= v0.rooms);
                assert(self@.viewer_stats =~= v0.viewer_stats);
                assert(self@.voice_states =~= v0.voice_states);
                lemma_valid_same_rooms(v0, self@);
            }
            let access = !self.requires_access_token();
            session.establish_identity(user_id, access, hello.client_name);
        }
        let user_id = match session.user_id {
            Some(u) => u,
            None => 0,
        };
        ServerControl::HelloAccepted(
            HelloAccepted {
                protocol_version: PROTOCOL_VERSION,
                server_name: "teamview-relay".to_owned(),
                user_id,
                display_name: session.display_name.clone(),
            },
        )
    }

    fn authenticate(&self, session: &mut Session, authenticate: Authenticate) -> (reply:
        ServerControl)
        ensures
            authenticate_reply(self@, *old(session), authenticate, self@, *final(session), reply),
    {
        let user_id = match session.user_id {
            Some(u) => u,
            None => {
                return control_error("not_ready", "send Hello first");
            },
        };
        match &self.access_token {
            Some(expected) => {
                if !authenticate.token.eq(expected) {
                    return control_error("invalid_token", "access token is invalid");
                }
            },
            None => {},
        }
        session.grant_access();
        ServerControl::Authenticated(
            Authenticated { user_id, display_name: prefixed_decimal("user-", user_id) },
        )
    }

    fn create_room(&mut self, session: &Session, create: CreateRoom) -> (reply: ServerControl)
        requires
            old(self).wf(),
            session.user_id is Some ==> old(self)@.next_room_id < u64::MAX,
        ensures
            final(self).wf(),
            create_room_reply(old(self)@, session.user_id, create, final(self)@, reply),
    {
        let user_id = match session.user_id {
            Some(u) => u,
            None => {
                return control_error("unauthenticated", "send Hello first");
            },
        };
        proof {
            assert(self@.rooms.dom() =~= self.rooms@.dom());
        }
        if self.rooms.len() as u64 >= self.limits.max_rooms {
            return control_error("room_limit_reached", "the relay holds no more rooms");
        }
        let ghost v0 = self@;
        let room_id = self.next_room_id;
        self.next_room_id = room_id + 1;
        let mut room = Room::new(room_id, create.name.as_str());
        room.join(user_id);
        let ghost new_room = room@;
        self.rooms.insert(room_id, room);
        self.ensure_voice_state(room_id, user_id);
        proof {
            assert(new_room.participants =~= set![user_id]);
            assert(self@.rooms =~= v0.rooms.insert(room_id, new_room));
            assert(!v0.rooms.contains_key(room_id));
            assert forall|s: StreamId| #[trigger] new_room.streams.contains_key(s) implies false by {}
            lemma_valid_room_insert(v0, self@, room_id, new_room);
        }
        ServerControl::RoomCreated(RoomCreated { room_id, name: create.name })
    }

    fn join_room(&mut self, session: &Session, join: JoinRoom) -> (reply: ServerControl)
        requires
            old(self).wf(),
        ensures
            final(self).wf(),
            join_room_reply(old(self)@, session.user_id, join, final(self)@, reply),
    {
        if !self.rooms.contains_key(&join.room_id) {
            return control_error("room_not_found", "room does not exist");
        }
        let user_id = match session.user_id {
            Some(u) => u,
            None => {
                return control_error("unauthenticated", "send Hello first");
            },
        };
        match self.rooms.get(&join.room_id) {
            Some(room) => {
                if !room.participants.contains(&user_id) && room.participants.len() as u64
                    >= self.limits.max_participants_per_room {
                    return control_error("room_full", "room has no space for another participant");
                }
            },
            None => {},
        }
        let ghost v0 = self@;
        proof {
            assert(self@.rooms.dom() =~= self.rooms@.dom());
            assert(v0.rooms.contains_key(join.room_id));
            assert(v0.rooms[join.room_id].id == join.room_id);
        }
        let mut room = match self.rooms.remove(&join.room_id) {
            Some(room) => room,
            None => {
                return control_error("room_not_found", "room does not exist");
            },
        };
        let participant_count = room.join(user_id);
        let ghost new_room = room@;
        self.rooms.insert(join.room_id, room);
        self.ensure_voice_state(join.room_id, user_id);
        proof {
            assert(self@.rooms =~= v0.rooms.insert(join.room_id, new_room));
            assert forall|s: StreamId| #[trigger] new_room.streams.contains_key(s) implies v0.has_stream(join.room_id, s) by {}
            lemma_valid_room_insert(v0, self@, join.room_id, new_room);
        }
        ServerControl::RoomJoined(RoomJoined { room_id: join.room_id, participant_count })
    }

    fn publish_stream(&mut self, session: &Session, publish: PublishStream) -> (reply:
        ServerControl)
        requires
            old(self).wf(),
        ensures
            final(self).wf(),
            publish_reply(old(self)@, session.user_id, publish, final(self)@, reply),
    {
        if self.publisher_for_stream(publish.stream_id).is_some() {
            return control_error("stream_id_conflict", "stream id is already published");
        }
        if !self.rooms.contains_key(&publish.room_id) {
            return control_error("room_not_found", "room does not exist");
        }
        let user_id = match session.user_id {
            Some(u) => u,
            None => {
                return control_error("unauthenticated", "send Hello first");
            },
        };
        let ghost v0 = self@;
        let mut room = match self.rooms.remove(&publish.room_id) {
            Some(room) => room,
            None => {
                return control_error("room_not_found", "room does not exist");
            },
        };
        if !room.participants.contains(&user_id) {
            self.rooms.insert(publish.room_id, room);
            proof {
                assert(self.rooms@ =~= old(self).rooms@);
                assert(self@.rooms =~= v0.rooms);
            }
            return control_error("not_in_room", "join room before publishing");
        }
        if room.published_streams.len() as u64 >= self.limits.max_streams_per_room {
            self.rooms.insert(publish.room_id, room);
            proof {
                assert(self.rooms@ =~= old(self).rooms@);
                assert(self@.rooms =~= v0.rooms);
            }
            return control_error("stream_limit_reached", "room has no space for another stream");
        }
        room.publish_stream(
            PublishedStream {
                stream_id: publish.stream_id,
                publisher_id: user_id,
                codec: publish.codec,
                media_kind: publish.media_kind,
                config: None,
                target_bitrate_bps: DEFAULT_TARGET_BITRATE_BPS,
                target_frames_per_second: DEFAULT_TARGET_FRAMES_PER_SECOND,
                target_width: 0,
                target_height: 0,
            },
        );
        let ghost new_room = room@;
        self.rooms.insert(publish.room_id, room);
        proof {
            assert(self@.rooms =~= v0.rooms.insert(publish.room_id, new_room));
            assert(self@.viewer_stats =~= v0.viewer_stats);
            assert(self@.voice_states =~= v0.voice_states);
            assert forall|s: StreamId| #[trigger] new_room.streams.contains_key(s) implies (v0.has_stream(publish.room_id, s) || forall|r: RoomId| !#[trigger] v0.has_stream(r, s)) by {
                if s == publish.stream_id {
                    assert forall|r: RoomId| !#[trigger] v0.has_stream(r, s) by {
                        if v0.has_stream(r, s) {
                            lemma_stream_room(v0, r, s);
                        }
                    }
                }
            }
            lemma_valid_room_insert(v0, self@, publish.room_id, new_room);
        }
        ServerControl::StreamPublished(
            StreamPublished { room_id: publish.room_id, stream_id: publish.stream_id },
        )
    }

    fn subscribe_stream(&mut self, session: &Session, subscribe: SubscribeStream) -> (reply:
        ServerControl)
        requires
            old(self).wf(),
        ensures
            final(self).wf(),
            subscribe_reply(old(self)@, session.user_id, subscribe, final(self)@, reply),
    {
        if !self.rooms.contains_key(&subscribe.room_id) {
            return control_error("room_not_found", "room does not exist");
        }
        let user_id = match session.user_id {
            Some(u) => u,
            None => {
                return control_error("unauthenticated", "send Hello first");
            },
        };
        let ghost v0 = self@;
        let (participant, published, already, screen) = match self.rooms.get(&subscribe.room_id) {
            Some(room) => {
                let already = match room.subscriptions.get(&subscribe.stream_id) {
                    Some(subscribers) => subscribers.contains(&user_id),
                    None => false,
                };
                let (published, screen) = match room.published_streams.get(&subscribe.stream_id) {
                    Some(stream) => (true, stream.media_kind == MediaKind::Screen),
                    None => (false, false),
                };
                (room.participants.contains(&user_id), published, already, screen)
            },
            None => (false, false, false, false),
        };
        if !participant {
            return control_error("not_in_room", "join room before subscribing");
        }
        if !published {
            return control_error("stream_not_found", "stream does not exist");
        }
        let mut room = match self.rooms.remove(&subscribe.room_id) {
            Some(room) => room,
            None => {
                return control_error("room_not_found", "room does not exist");
            },
        };
        room.subscribe(subscribe.stream_id, user_id);
        let ghost new_room = room@;
        self.rooms.insert(subscribe.room_id, room);
        proof {
            assert(self@.rooms =~= v0.rooms.insert(subscribe.room_id, new_room));
            assert(self@.viewer_stats =~= v0.viewer_stats);
            assert(self@.voice_states =~= v0.voice_states);
            assert forall|s: StreamId| #[trigger] new_room.streams.contains_key(s) implies v0.has_stream(subscribe.room_id, s) by {}
            assert forall|s: StreamId| #[trigger] new_room.subscriptions.contains_key(s) implies new_room.streams.contains_key(s) by {
                if s != subscribe.stream_id {
                    assert(v0.rooms[subscribe.room_id].subscriptions.contains_key(s));
                }
            }
            lemma_valid_room_insert(v0, self@, subscribe.room_id, new_room);
        }
        if !already && screen {
            self.register_keyframe_request(subscribe.stream_id, KeyframeReason::NewSubscriber);
        }
        ServerControl::StreamSubscribed(
            StreamSubscribed { room_id: subscribe.room_id, stream_id: subscribe.stream_id },
        )
    }

    fn unsubscribe_stream(&mut self, session: &Session, unsubscribe: UnsubscribeStream) -> (reply:
        ServerControl)
        requires
            old(self).wf(),
        ensures
            final(self).wf(),
            unsubscribe_reply(old(self)@, session.user_id, unsubscribe, final(self)@, reply),
    {
        let ghost v0 = self@;
        match session.user_id {
            Some(user_id) => {
                match self.rooms.remove(&unsubscribe.room_id) {
                    Some(mut room) => {
                        room.unsubscribe(unsubscribe.stream_id, user_id);
                        let ghost new_room = room@;
                        self.rooms.insert(unsubscribe.room_id, room);
                        proof {
                            assert(v0.rooms.contains_key(unsubscribe.room_id));
                            assert(new_room.id == v0.rooms[unsubscribe.room_id].id);
                            assert(self@.rooms =~= v0.rooms.insert(unsubscribe.room_id, new_room));
                            assert forall|s: StreamId| #[trigger] new_room.streams.contains_key(s) implies v0.has_stream(unsubscribe.room_id, s) by {}
                            assert forall|s: StreamId| #[trigger] new_room.subscriptions.contains_key(s) implies new_room.streams.contains_key(s) by {
                                assert(v0.rooms[unsubscribe.room_id].subscriptions.contains_key(s));
                            }
                            lemma_valid_room_insert(v0, self@, unsubscribe.room_id, new_room);
                        }
                        self.remove_viewer_stats(unsubscribe.stream_id, user_id);
                        proof {
                            let room0 = v0.rooms[unsubscribe.room_id];
                            assert(new_room == RoomView {
                                subscriptions: unsubscribed(room0.subscriptions, unsubscribe.stream_id, user_id),
                                ..room0
                            });
                        }
                    },
                    None => {
                        assert(self.rooms@ =~= old(self).rooms@);
                        assert(self@.rooms =~= v0.rooms);
                    },
                }
            },
            None => {},
        }
        ServerControl::StreamUnsubscribed(
            StreamUnsubscribed { room_id: unsubscribe.room_id, stream_id: unsubscribe.stream_id },
        )
    }

    fn unpublish_stream(&mut self, session: &Session, unpublish: UnpublishStream) -> (reply:
        ServerControl)
        requires
            old(self).wf(),
        ensures
            final(self).wf(),
            unpublish_reply(old(self)@, session.user_id, unpublish, final(self)@, reply),
    {
        let user_id = match session.user_id {
            Some(u) => u,
            None => {
                return control_error("unauthenticated", "send Hello first");
            },
        };
        let publisher_id = match self.rooms.get(&unpublish.room_id) {
            Some(room) => match room.published_streams.get(&unpublish.stream_id) {
                Some(stream) => stream.publisher_id,
                None => {
                    return control_error("stream_not_found", "stream does not exist");
                },
            },
            None => {
                return control_error("room_not_found", "room does not exist");
            },
        };
        if publisher_id != user_id {
            return control_error(
                "not_publisher",
                "only the stream publisher can unpublish the stream",
            );
        }
        let ghost v0 = self@;
        let mut room = match self.rooms.remove(&unpublish.room_id) {
            Some(room) => room,
            None => {
                return control_error("room_not_found", "room does not exist");
            },
        };
        room.remove_published_stream(unpublish.stream_id);
        let ghost new_room = room@;
        self.rooms.insert(unpublish.room_id, room);
        self.viewer_stats.remove(&unpublish.stream_id);
        self.pending_keyframe_requests.remove(&unpublish.stream_id);
        self.stream_metrics.remove(&unpublish.stream_id);
        self.remote_inputs.remove(&unpublish.stream_id);
        proof {
            assert(self@.remote_inputs =~= v0.remote_inputs.remove(unpublish.stream_id));
            assert(self@.rooms =~= v0.rooms.insert(unpublish.room_id, new_room));
            assert(self@.viewer_stats =~= v0.viewer_stats.remove(unpublish.stream_id));
            assert(self@.voice_states =~= v0.voice_states);
            assert forall|s: StreamId| #[trigger] new_room.streams.contains_key(s) implies v0.has_stream(unpublish.room_id, s) by {}
            assert forall|s: StreamId| #[trigger] new_room.subscriptions.contains_key(s) implies new_room.streams.contains_key(s) by {
                assert(v0.rooms[unpublish.room_id].subscriptions.contains_key(s));
            }
            lemma_valid_room_insert(v0, self@, unpublish.room_id, new_room);
        }
        ServerControl::StreamUnpublished(
            StreamUnpublished { room_id: unpublish.room_id, stream_id: unpublish.stream_id },
        )
    }

    fn record_viewer_stats(&mut self, session: &Session, report: ViewerStatsReport) -> (reply:
        ServerControl)
        requires
            old(self).wf(),
        ensures
            final(self).wf(),
            viewer_stats_reply(old(self)@, session.user_id, report, final(self)@, reply),
    {
        match session.user_id {
            Some(user_id) => {
                let ghost v0 = self@;
                let mut reports = match self.viewer_stats.remove(&report.stream_id) {
                    Some(m) => m,
                    None => BTreeMap::new(),
                };
                reports.insert(user_id, report);
                self.viewer_stats.insert(report.stream_id, reports);
                proof {
                    assert(reports@ =~= stream_reports(v0, report.stream_id).insert(user_id, report));
                    assert(self@.viewer_stats =~= v0.viewer_stats.insert(
                        report.stream_id,
                        stream_reports(v0, report.stream_id).insert(user_id, report),
                    ));
                    assert(self@.rooms =~= v0.rooms);
                    assert(self@.voice_states =~= v0.voice_states);
                    lemma_valid_same_rooms(v0, self@);
                }
            },
            None => {},
        }
        ServerControl::PublisherFeedback(
            self.aggregate_publisher_feedback(report.room_id, report.stream_id),
        )
    }

    fn authorization_error(&self, session: &Session, message: &ClientControl) -> (error: Option<
        ServerControl,
    >)
        ensures
            match error {
                Some(e) => !authorized(self@, *session, *message) && if session.user_id is None {
                    unauthenticated(e)
                } else {
                    is_error(e, "not_authenticated"@, "authenticate before using relay controls"@)
                },
                None => authorized(self@, *session, *message),
            },
    {
        let exempt = match message {
            ClientControl::Hello(_) => true,
            ClientControl::Ping(_) => true,
            ClientControl::TimeSync(_) => true,
            ClientControl::Authenticate(_) => true,
            _ => false,
        };
        if exempt {
            return None;
        }
        if session.user_id.is_none() {
            return Some(control_error("unauthenticated", "send Hello first"));
        }
        if self.requires_access_token() && !session.access_granted {
            return Some(
                control_error("not_authenticated", "authenticate before using relay controls"),
            );
        }
        None
    }

    /// Answers one request, with the clock read on receipt and on reply
    /// given as `received_micros` and `sent_micros`.
    pub fn handle_client_envelope_at(
        &mut self,
        session: &mut Session,
        envelope: ClientEnvelope,
        received_micros: u64,
        sent_micros: u64,
    ) -> (response: ServerEnvelope)
        requires
            old(self).wf(),
            can_number(old(self)@, *old(session), envelope.message),
        ensures
            final(self).wf(),
            response.protocol_version == PROTOCOL_VERSION,
            response.request_id == envelope.request_id,
            handled(
                old(self)@,
                *old(session),
                envelope.message,
                final(self)@,
                *final(session),
                response.message,
                received_micros,
                sent_micros,
            ),
    {
        let request_id = envelope.request_id;
        match self.authorization_error(session, &envelope.message) {
            Some(error) => {
                return ServerEnvelope::new(request_id, error);
            },
            None => {},
        }
        let message = match envelope.message {
            ClientControl::Hello(hello) => self.hello(session, hello),
            ClientControl::Ping(ping) => match session.user_id {
                Some(_) => ServerControl::Pong(Pong { nonce: ping.nonce }),
                None => control_error("unauthenticated", "send Hello first"),
            },
            ClientControl::TimeSync(sync) => match session.user_id {
                Some(_) => ServerControl::TimeSync(
                    TimeSyncResponse {
                        client_send_time_micros: sync.client_send_time_micros,
                        server_receive_time_micros: received_micros,
                        server_send_time_micros: sent_micros,
                    },
                ),
                None => control_error("unauthenticated", "send Hello first"),
            },
            ClientControl::Authenticate(authenticate) => self.authenticate(session, authenticate),
            ClientControl::CreateRoom(create) => self.create_room(session, create),
            ClientControl::ListRooms(_) => ServerControl::RoomList(self.list_rooms()),
            ClientControl::JoinRoom(join) => self.join_room(session, join),
            ClientControl::PublishStream(publish) => self.publish_stream(session, publish),
            ClientControl::UnpublishStream(unpublish) => self.unpublish_stream(session, unpublish),
            ClientControl::ListStreams(list) => self.list_streams(session, list.room_id),
            ClientControl::SubscribeStream(subscribe) => self.subscribe_stream(session, subscribe),
            ClientControl::UnsubscribeStream(unsubscribe) => self.unsubscribe_stream(
                session,
                unsubscribe,
            ),
            ClientControl::LeaveRoom(leave) => {
                match session.user_id {
                    Some(user_id) => self.leave_room(user_id, leave.room_id),
                    None => {},
                }
                ServerControl::RoomLeft(RoomLeft { room_id: leave.room_id })
            },
            ClientControl::SetVoiceState(request) => self.set_voice_state(session, request),
            ClientControl::SetStreamConfig(config) => self.set_stream_config(session, config),
            ClientControl::PollStreamConfig(poll) => self.poll_stream_config(
                session,
                poll.room_id,
                poll.stream_id,
            ),
            ClientControl::PollStreamMetrics(poll) => self.poll_stream_metrics(
                session,
                poll.room_id,
                poll.stream_id,
            ),
            ClientControl::RequestKeyframe(request) => self.request_keyframe(session, request),
            ClientControl::ViewerStats(report) => self.record_viewer_stats(session, report),
            ClientControl::PollPublisherFeedback(poll) => self.poll_publisher_feedback(
                session,
                poll.room_id,
                poll.stream_id,
            ),
            ClientControl::SetTargetBitrate(target) => self.set_target_bitrate(session, target),
            ClientControl::SetTargetFramerate(target) => self.set_target_framerate(session, target),
            ClientControl::ListParticipants(list) => self.list_participants(session, list.room_id),
            ClientControl::SendRemoteInput(request) => self.send_remote_input(session, request),
            ClientControl::PollRemoteInput(request) => self.poll_remote_input(session, request),
        };
        ServerEnvelope::new(request_id, message)
    }

    /// Answers one request, reading the relay clock for time sync.
    pub fn handle_client_envelope(&mut self, session: &mut Session, envelope: ClientEnvelope) -> (response:
        ServerEnvelope)
        requires
            old(self).wf(),
            can_number(old(self)@, *old(session), envelope.message),
        ensures
            final(self).wf(),
            response.protocol_version == PROTOCOL_VERSION,
            response.request_id == envelope.request_id,
            exists|received_micros: u64, sent_micros: u64|
                handled(
                    old(self)@,
                    *old(session),
                    envelope.message,
                    final(self)@,
                    *final(session),
                    response.message,
                    received_micros,
                    sent_micros,
                ),
    {
        let received_micros = unix_time_micros();
        let sent_micros = unix_time_micros();
        self.handle_client_envelope_at(session, envelope, received_micros, sent_micros)
    }
}

} // verus!
