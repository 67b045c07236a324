//! What holds of every answer the relay gives: the rules of rooms, streams
//! and access, stated over `handled`, the exact account of one request.

use vstd::prelude::*;

use crate::protocol::control::{
    ClientControl, KeyframeReason, MediaKind, RoomId, ServerControl, StreamId, UserId,
};
use crate::relay::control::handle::{authorized, handled, needs_identity, same_session};
use crate::relay::control::membership::{
    after_leave, leave_each, present_in, published_by, room_after_leave, room_is_empty,
    stats_without_user, subscribed_in,
};
use crate::relay::control::remote_input::{stream_inputs, MAX_QUEUED_REMOTE_INPUTS};
use crate::relay::control::requests::unauthenticated;
use crate::relay::control::{is_error, ControlView};
use crate::relay::session::Session;

verus! {

/// A refused request changes nothing: whenever the relay answers with an
/// error, the control state and the session are as they were.
pub proof fn law_error_reply_changes_nothing(
    v: ControlView,
    s: Session,
    message: ClientControl,
    w: ControlView,
    s2: Session,
    reply: ServerControl,
    received_micros: u64,
    sent_micros: u64,
)
    requires
        handled(v, s, message, w, s2, reply, received_micros, sent_micros),
        reply is Error,
    ensures
        w == v,
        same_session(s, s2),
{
}

/// Until a connection has said hello, and on a relay with an access token
/// until it has authenticated, every request but the handshake ones is
/// refused with an error.
pub proof fn law_controls_wait_for_access(
    v: ControlView,
    s: Session,
    message: ClientControl,
    w: ControlView,
    s2: Session,
    reply: ServerControl,
    received_micros: u64,
    sent_micros: u64,
)
    requires
        handled(v, s, message, w, s2, reply, received_micros, sent_micros),
        needs_identity(message),
        s.user_id is None || (v.access_token is Some && !s.access_granted),
    ensures
        reply is Error,
        w == v,
        same_session(s, s2),
{
}

/// Before hello, every request but hello is refused and changes nothing:
/// authentication with "not_ready", everything else with "unauthenticated".
pub proof fn law_hello_comes_first(
    v: ControlView,
    s: Session,
    message: ClientControl,
    w: ControlView,
    s2: Session,
    reply: ServerControl,
    received_micros: u64,
    sent_micros: u64,
)
    requires
        handled(v, s, message, w, s2, reply, received_micros, sent_micros),
        s.user_id is None,
        !(message is Hello),
    ensures
        w == v,
        same_session(s, s2),
        message is Authenticate ==> is_error(reply, "not_ready"@, "send Hello first"@),
        !(message is Authenticate) ==> unauthenticated(reply),
{
}

/// A stream's queue of remote input never grows past its bound: whatever
/// request the relay answers, a queue within the bound stays within it.
pub proof fn law_remote_input_queue_stays_bounded(
    v: ControlView,
    s: Session,
    message: ClientControl,
    w: ControlView,
    s2: Session,
    reply: ServerControl,
    received_micros: u64,
    sent_micros: u64,
    stream_id: StreamId,
)
    requires
        handled(v, s, message, w, s2, reply, received_micros, sent_micros),
        stream_inputs(v, stream_id).len() <= MAX_QUEUED_REMOTE_INPUTS,
    ensures
        stream_inputs(w, stream_id).len() <= MAX_QUEUED_REMOTE_INPUTS,
{
}

/// Presenting the relay's access token after hello grants access.
pub proof fn law_right_token_grants_access(
    v: ControlView,
    s: Session,
    message: ClientControl,
    w: ControlView,
    s2: Session,
    reply: ServerControl,
    received_micros: u64,
    sent_micros: u64,
)
    requires
        handled(v, s, message, w, s2, reply, received_micros, sent_micros),
        message matches ClientControl::Authenticate(a) && v.access_token == Some(a.token@),
        s.user_id is Some,
    ensures
        s2.access_granted,
        s2.user_id == s.user_id,
        reply is Authenticated,
        w == v,
{
}

/// A stream id is published once across all rooms: publishing an id that
/// some room already publishes is refused and changes nothing.
pub proof fn law_duplicate_stream_id_refused(
    v: ControlView,
    s: Session,
    message: ClientControl,
    w: ControlView,
    s2: Session,
    reply: ServerControl,
    received_micros: u64,
    sent_micros: u64,
)
    requires
        handled(v, s, message, w, s2, reply, received_micros, sent_micros),
        message matches ClientControl::PublishStream(p) && v.published(p.stream_id) is Some,
    ensures
        reply is Error,
        w == v,
{
}

/// The creator of a room is its first and only participant.
pub proof fn law_creator_joins_created_room(
    v: ControlView,
    s: Session,
    message: ClientControl,
    w: ControlView,
    s2: Session,
    reply: ServerControl,
    received_micros: u64,
    sent_micros: u64,
)
    requires
        handled(v, s, message, w, s2, reply, received_micros, sent_micros),
        message is CreateRoom,
        authorized(v, s, message),
        v.rooms.len() < v.limits.max_rooms,
        v.valid(),
    ensures
        reply matches ServerControl::RoomCreated(created) && {
            &&& w.rooms.contains_key(created.room_id)
            &&& !v.rooms.contains_key(created.room_id)
            &&& w.rooms[created.room_id].participants == set![s.user_id->0]
            &&& w.rooms[created.room_id].streams.is_empty()
        },
{
    assert(set![s.user_id->0].len() == 1);
}

/// After a user leaves a room they take no part in it: they are no longer a
/// participant, publish nothing there, watch nothing there, have no voice
/// state there, and a room left with neither participants nor streams is
/// gone.
pub proof fn law_leaving_removes_user_from_room(
    v: ControlView,
    s: Session,
    message: ClientControl,
    w: ControlView,
    s2: Session,
    reply: ServerControl,
    received_micros: u64,
    sent_micros: u64,
)
    requires
        handled(v, s, message, w, s2, reply, received_micros, sent_micros),
        message is LeaveRoom,
        s.user_id is Some,
        authorized(v, s, message),
    ensures
        ({
            let room_id = message->LeaveRoom_0.room_id;
            let u = s.user_id->0;
            &&& v.rooms.contains_key(room_id) ==> w.voice_state(room_id, u) is None
            &&& w.rooms.contains_key(room_id) ==> {
                &&& !w.rooms[room_id].participants.contains(u)
                &&& published_by(w.rooms[room_id], u).is_empty()
                &&& subscribed_in(w.rooms[room_id], u).is_empty()
                &&& !room_is_empty(w.rooms[room_id])
            }
        }),
{
    let room_id = message->LeaveRoom_0.room_id;
    let u = s.user_id->0;
    assert(w == after_leave(v, u, room_id));
    if v.rooms.contains_key(room_id) && w.voice_states.contains_key(room_id) {
        assert(w.voice_states[room_id] == v.voice_states[room_id].remove(u));
    }
    if w.rooms.contains_key(room_id) {
        let room = v.rooms[room_id];
        let left = room_after_leave(room, u);
        assert(w.rooms[room_id] == left);
        assert(published_by(left, u) =~= Set::empty());
        assert(subscribed_in(left, u) =~= Set::empty());
    }
}

/// A muted user is never speaking: the voice state a participant sets is
/// stored as answered, with speaking cleared when muted.
pub proof fn law_muted_is_never_speaking(
    v: ControlView,
    s: Session,
    message: ClientControl,
    w: ControlView,
    s2: Session,
    reply: ServerControl,
    received_micros: u64,
    sent_micros: u64,
)
    requires
        handled(v, s, message, w, s2, reply, received_micros, sent_micros),
        message is SetVoiceState,
        reply is VoiceStateUpdated,
    ensures
        ({
            let state = reply->VoiceStateUpdated_0;
            &&& state.muted ==> !state.speaking
            &&& w.voice_state(state.room_id, state.user_id) == Some(state)
        }),
{
}

/// A new viewer of a screen stream leaves a keyframe request pending for
/// its publisher.
pub proof fn law_new_screen_viewer_requests_keyframe(
    v: ControlView,
    s: Session,
    message: ClientControl,
    w: ControlView,
    s2: Session,
    reply: ServerControl,
    received_micros: u64,
    sent_micros: u64,
)
    requires
        handled(v, s, message, w, s2, reply, received_micros, sent_micros),
        message matches ClientControl::SubscribeStream(sub) && {
            &&& v.rooms.contains_key(sub.room_id)
            &&& v.rooms[sub.room_id].streams.contains_key(sub.stream_id)
            &&& v.rooms[sub.room_id].streams[sub.stream_id].media_kind == MediaKind::Screen
            &&& !(v.rooms[sub.room_id].subscriptions.contains_key(sub.stream_id)
                && v.rooms[sub.room_id].subscriptions[sub.stream_id].contains(s.user_id->0))
        },
        reply is StreamSubscribed,
    ensures
        w.pending_keyframes.contains_key(message->SubscribeStream_0.stream_id),
        w.pending_keyframes[message->SubscribeStream_0.stream_id] == KeyframeReason::NewSubscriber,
{
}

/// A publisher's poll for feedback answers any pending keyframe request and
/// clears it.
pub proof fn law_feedback_poll_clears_keyframe_request(
    v: ControlView,
    s: Session,
    message: ClientControl,
    w: ControlView,
    s2: Session,
    reply: ServerControl,
    received_micros: u64,
    sent_micros: u64,
)
    requires
        handled(v, s, message, w, s2, reply, received_micros, sent_micros),
        message is PollPublisherFeedback,
        reply is PublisherFeedback,
    ensures
        !w.pending_keyframes.contains_key(message->PollPublisherFeedback_0.stream_id),
{
}

/// Leaving the rooms of `order` in turn touches no other room and no other
/// room's voice states; in the rooms left that remain, `user` neither takes
/// part, publishes nor watches, and the room is not empty; the user has no
/// voice state in them; and the state of the streams they published there
/// is gone.
proof fn lemma_leave_each_rooms(v: ControlView, user: UserId, order: Seq<RoomId>)
    ensures
        forall|r: RoomId| #[trigger]
            leave_each(v, user, order).rooms.contains_key(r) ==> {
                &&& v.rooms.contains_key(r)
                &&& order.contains(r) ==> {
                    &&& !leave_each(v, user, order).rooms[r].participants.contains(user)
                    &&& published_by(leave_each(v, user, order).rooms[r], user).is_empty()
                    &&& subscribed_in(leave_each(v, user, order).rooms[r], user).is_empty()
                    &&& !room_is_empty(leave_each(v, user, order).rooms[r])
                }
                &&& !order.contains(r) ==> leave_each(v, user, order).rooms[r] == v.rooms[r]
            },
        forall|r: RoomId, s: StreamId|
            order.contains(r) && v.rooms.contains_key(r) && #[trigger] published_by(v.rooms[r], user).contains(s)
                && leave_each(v, user, order).rooms.contains_key(r) ==> {
                &&& !leave_each(v, user, order).rooms[r].streams.contains_key(s)
                &&& !leave_each(v, user, order).rooms[r].subscriptions.contains_key(s)
            },
        forall|r: RoomId|
            v.rooms.contains_key(r) && !order.contains(r) ==> #[trigger] leave_each(v, user, order).rooms.contains_key(r),
        forall|r: RoomId|
            order.contains(r) && v.rooms.contains_key(r) ==> #[trigger] leave_each(v, user, order).voice_state(r, user) is None,
        forall|r: RoomId|
            !order.contains(r) ==> #[trigger] leave_each(v, user, order).voice_state(r, user) == v.voice_state(r, user),
        forall|r: RoomId, s: StreamId|
            order.contains(r) && v.rooms.contains_key(r) && #[trigger] published_by(v.rooms[r], user).contains(s)
                ==> {
                &&& !leave_each(v, user, order).pending_keyframes.contains_key(s)
                &&& !leave_each(v, user, order).stream_metrics.contains_key(s)
                &&& !leave_each(v, user, order).remote_inputs.contains_key(s)
                &&& !leave_each(v, user, order).viewer_stats.contains_key(s)
            },
    decreases order.len(),
{
    if order.len() > 0 {
        let prefix = order.drop_last();
        let before = leave_each(v, user, prefix);
        let last = order.last();
        lemma_leave_each_rooms(v, user, prefix);
        let after = leave_each(v, user, order);
        assert(after == after_leave(before, user, last));
        assert(order =~= prefix.push(last));
        assert forall|r: RoomId| order.contains(r) <==> (prefix.contains(r) || r == last) by {
            if order.contains(r) && r != last {
                let i = choose|i: int| 0 <= i < order.len() && order[i] == r;
                assert(i < prefix.len());
                assert(prefix[i] == r);
            }
            if prefix.contains(r) {
                let i = choose|i: int| 0 <= i < prefix.len() && prefix[i] == r;
                assert(order[i] == r);
            }
            if r == last {
                assert(order[order.len() - 1] == r);
            }
        }
        if before.rooms.contains_key(last) {
            let room = before.rooms[last];
            let left = room_after_leave(room, user);
            assert(published_by(left, user) =~= Set::empty());
            assert(subscribed_in(left, user) =~= Set::empty());
            if prefix.contains(last) {
                assert(!room.participants.contains(user));
                assert(published_by(room, user).is_empty());
                assert(left.participants =~= room.participants);
                assert(left.streams =~= room.streams);
            }
        }
        assert forall|r: RoomId| #[trigger] after.rooms.contains_key(r) implies {
            &&& v.rooms.contains_key(r)
            &&& order.contains(r) ==> {
                &&& !after.rooms[r].participants.contains(user)
                &&& published_by(after.rooms[r], user).is_empty()
                &&& subscribed_in(after.rooms[r], user).is_empty()
                &&& !room_is_empty(after.rooms[r])
            }
            &&& !order.contains(r) ==> after.rooms[r] == v.rooms[r]
        } by {
            if r == last {
                assert(before.rooms.contains_key(r));
            } else {
                assert(after.rooms[r] == before.rooms[r]);
                assert(before.rooms.contains_key(r));
            }
        }
        assert forall|r: RoomId, s: StreamId|
            order.contains(r) && v.rooms.contains_key(r) && #[trigger] published_by(v.rooms[r], user).contains(s)
                && after.rooms.contains_key(r) implies {
                &&& !after.rooms[r].streams.contains_key(s)
                &&& !after.rooms[r].subscriptions.contains_key(s)
            } by {
            if r == last {
                assert(before.rooms.contains_key(r));
                if prefix.contains(r) {
                    assert(!before.rooms[r].streams.contains_key(s));
                    assert(!before.rooms[r].subscriptions.contains_key(s));
                } else {
                    assert(before.rooms[r] == v.rooms[r]);
                }
            } else {
                assert(prefix.contains(r));
                assert(after.rooms[r] == before.rooms[r]);
            }
        }
        assert forall|r: RoomId| v.rooms.contains_key(r) && !order.contains(r) implies #[trigger] after.rooms.contains_key(r) by {
            assert(before.rooms.contains_key(r));
        }
        assert forall|r: RoomId| order.contains(r) && v.rooms.contains_key(r) implies #[trigger] after.voice_state(r, user) is None by {
            if r != last {
                assert(prefix.contains(r));
                assert(before.voice_state(r, user) is None);
            } else if prefix.contains(r) {
                assert(before.voice_state(r, user) is None);
                if before.rooms.contains_key(r) {
                    let m = before.voice_states;
                    if m.contains_key(r) {
                        assert(!m[r].contains_key(user));
                        assert(m[r].remove(user) =~= m[r]);
                    }
                }
            } else {
                assert(before.rooms.contains_key(r));
                let m = before.voice_states;
                if m.contains_key(r) {
                    assert(!m[r].remove(user).contains_key(user));
                }
            }
        }
        assert forall|r: RoomId| !order.contains(r) implies #[trigger] after.voice_state(r, user) == v.voice_state(r, user) by {
            assert(!prefix.contains(r));
            assert(before.voice_state(r, user) == v.voice_state(r, user));
        }
        assert forall|r: RoomId, s: StreamId|
            order.contains(r) && v.rooms.contains_key(r) && #[trigger] published_by(v.rooms[r], user).contains(s)
            implies {
                &&& !after.pending_keyframes.contains_key(s)
                &&& !after.stream_metrics.contains_key(s)
                &&& !after.remote_inputs.contains_key(s)
                &&& !after.viewer_stats.contains_key(s)
            } by {
            if prefix.contains(r) {
                assert(!before.pending_keyframes.contains_key(s));
            } else {
                assert(r == last);
                assert(before.rooms.contains_key(r));
                assert(before.rooms[r] == v.rooms[r]);
            }
        }
    }
}

/// A disconnected user is gone from every room: once every room they were
/// present in has been left and their reports dropped, they take part in,
/// publish and watch nothing and have no voice state in any room; the rooms
/// they left empty are gone; every other room is as it was; the streams
/// they published are gone with their subscriptions, every viewer's reports
/// on them, keyframe requests, metrics and queued input; and the relay
/// keeps no report of theirs.
pub proof fn law_disconnect_removes_user(
    v: ControlView,
    user: UserId,
    order: Seq<RoomId>,
    w: ControlView,
)
    requires
        order.to_set() == Set::new(|r: RoomId| present_in(v, user, r)),
        w == (ControlView {
            viewer_stats: stats_without_user(leave_each(v, user, order).viewer_stats, user),
            ..leave_each(v, user, order)
        }),
    ensures
        forall|r: RoomId| #[trigger]
            w.rooms.contains_key(r) ==> {
                &&& !w.rooms[r].participants.contains(user)
                &&& published_by(w.rooms[r], user).is_empty()
                &&& subscribed_in(w.rooms[r], user).is_empty()
                &&& w.voice_state(r, user) is None
            },
        forall|r: RoomId| #[trigger]
            w.rooms.contains_key(r) && present_in(v, user, r) ==> !room_is_empty(w.rooms[r]),
        forall|r: RoomId|
            !present_in(v, user, r) ==> (#[trigger] w.rooms.contains_key(r) == v.rooms.contains_key(r))
                && (v.rooms.contains_key(r) ==> w.rooms[r] == v.rooms[r]),
        forall|r: RoomId, s: StreamId|
            v.rooms.contains_key(r) && #[trigger] published_by(v.rooms[r], user).contains(s) ==> {
                &&& !w.pending_keyframes.contains_key(s)
                &&& !w.stream_metrics.contains_key(s)
                &&& !w.remote_inputs.contains_key(s)
                &&& !w.viewer_stats.contains_key(s)
                &&& w.rooms.contains_key(r) ==> !w.rooms[r].streams.contains_key(s)
                    && !w.rooms[r].subscriptions.contains_key(s)
            },
        forall|s: StreamId| #[trigger]
            w.viewer_stats.contains_key(s) ==> !w.viewer_stats[s].contains_key(user),
{
    lemma_leave_each_rooms(v, user, order);
    assert forall|r: RoomId| #[trigger] order.contains(r) <==> present_in(v, user, r) by {
        assert(order.to_set().contains(r) == order.contains(r));
    }
    assert forall|r: RoomId| #[trigger] w.rooms.contains_key(r) implies {
        &&& !w.rooms[r].participants.contains(user)
        &&& published_by(w.rooms[r], user).is_empty()
        &&& subscribed_in(w.rooms[r], user).is_empty()
        &&& w.voice_state(r, user) is None
    } by {
        if !order.contains(r) {
            assert(!present_in(v, user, r));
            assert(published_by(v.rooms[r], user) =~= Set::empty()) by {
                assert forall|x: StreamId| !published_by(v.rooms[r], user).contains(x) by {
                    if published_by(v.rooms[r], user).contains(x) {
                        assert(exists|s: StreamId| #[trigger] published_by(v.rooms[r], user).contains(s));
                    }
                }
            }
            assert(subscribed_in(v.rooms[r], user) =~= Set::empty()) by {
                assert forall|x: StreamId| !subscribed_in(v.rooms[r], user).contains(x) by {
                    if subscribed_in(v.rooms[r], user).contains(x) {
                        assert(exists|s: StreamId| #[trigger] subscribed_in(v.rooms[r], user).contains(s));
                    }
                }
            }
            assert(leave_each(v, user, order).voice_state(r, user) == v.voice_state(r, user));
            assert(w.voice_states == leave_each(v, user, order).voice_states);
            assert(w.voice_state(r, user) == v.voice_state(r, user));
        } else {
            assert(v.rooms.contains_key(r));
            assert(leave_each(v, user, order).voice_state(r, user) is None);
            assert(w.voice_states == leave_each(v, user, order).voice_states);
        }
    }
    assert forall|r: RoomId, s: StreamId|
        v.rooms.contains_key(r) && #[trigger] published_by(v.rooms[r], user).contains(s) implies {
            &&& !w.pending_keyframes.contains_key(s)
            &&& !w.stream_metrics.contains_key(s)
            &&& !w.remote_inputs.contains_key(s)
            &&& !w.viewer_stats.contains_key(s)
            &&& w.rooms.contains_key(r) ==> !w.rooms[r].streams.contains_key(s)
                && !w.rooms[r].subscriptions.contains_key(s)
        } by {
        assert(present_in(v, user, r));
        assert(order.contains(r));
        assert(!leave_each(v, user, order).viewer_stats.contains_key(s));
    }
    assert forall|r: RoomId|
        !present_in(v, user, r) implies (#[trigger] w.rooms.contains_key(r) == v.rooms.contains_key(r))
            && (v.rooms.contains_key(r) ==> w.rooms[r] == v.rooms[r]) by {
        assert(!order.contains(r));
    }
}

} // verus!
