//! Leaving rooms and disconnecting: what a user takes with them.

use std::collections::BTreeMap;
use vstd::prelude::*;

use crate::protocol::control::{KeyframeReason, RoomId, StreamId, UserId, VoiceState};
use crate::relay::control::{default_voice_state, voice_with_default, ControlState, ControlView};
use crate::relay::keys::{
    lemma_increasing_not_in_prefix_u32, lemma_prefix_step, map_keys_u32, map_keys_u64,
    strictly_increasing_u32, strictly_increasing_u64,
};
use crate::relay::room::{subscription_sets, subscriptions_without, Room, RoomView};

verus! {

broadcast use {vstd::std_specs::btree::group_btree_axioms, vstd::laws_cmp::group_laws_cmp};

/// `m` with `key` taken out of the inner map at `outer`; an inner map left
/// empty is dropped.
pub open spec fn without_inner<K, K2, V>(m: Map<K, Map<K2, V>>, outer: K, key: K2) -> Map<
    K,
    Map<K2, V>,
> {
    if m.contains_key(outer) {
        if m[outer].remove(key).is_empty() {
            m.remove(outer)
        } else {
            m.insert(outer, m[outer].remove(key))
        }
    } else {
        m
    }
}

/// `without_inner` at every outer key in `outers`.
pub open spec fn without_inner_on<K, K2, V>(m: Map<K, Map<K2, V>>, outers: Set<K>, key: K2) -> Map<
    K,
    Map<K2, V>,
> {
    Map::new(
        |k: K| m.contains_key(k) && !(outers.contains(k) && m[k].remove(key).is_empty()),
        |k: K|
            if outers.contains(k) {
                m[k].remove(key)
            } else {
                m[k]
            },
    )
}

/// The streams `user` publishes in a room.
pub open spec fn published_by(room: RoomView, user: UserId) -> Set<StreamId> {
    Set::new(|s: StreamId| room.streams.contains_key(s) && room.streams[s].publisher_id == user)
}

/// The streams `user` watches in a room.
pub open spec fn subscribed_in(room: RoomView, user: UserId) -> Set<StreamId> {
    Set::new(
        |s: StreamId| room.subscriptions.contains_key(s) && room.subscriptions[s].contains(user),
    )
}

/// A room once `user` has left it: out of the participants and every
/// subscriber set, and the user's streams unpublished.
pub open spec fn room_after_leave(room: RoomView, user: UserId) -> RoomView {
    RoomView {
        id: room.id,
        name: room.name,
        participants: room.participants.remove(user),
        streams: room.streams.remove_keys(published_by(room, user)),
        subscriptions: subscriptions_without(room.subscriptions, user).remove_keys(
            published_by(room, user),
        ),
    }
}

pub open spec fn room_is_empty(room: RoomView) -> bool {
    room.participants.is_empty() && room.streams.is_empty()
}

/// The control state once `user` has left `room_id`: the room as left, the
/// user's stats for streams watched there and voice state there dropped, all
/// state of the user's streams there dropped, and the room gone if empty.
pub open spec fn after_leave(v: ControlView, user: UserId, room_id: RoomId) -> ControlView {
    if !v.rooms.contains_key(room_id) {
        v
    } else {
        let room = v.rooms[room_id];
        let left = room_after_leave(room, user);
        let removed = published_by(room, user);
        let voice = without_inner(v.voice_states, room_id, user);
        ControlView {
            rooms: if room_is_empty(left) {
                v.rooms.remove(room_id)
            } else {
                v.rooms.insert(room_id, left)
            },
            viewer_stats: without_inner_on(
                v.viewer_stats,
                subscribed_in(room, user),
                user,
            ).remove_keys(removed),
            voice_states: if room_is_empty(left) {
                voice.remove(room_id)
            } else {
                voice
            },
            pending_keyframes: v.pending_keyframes.remove_keys(removed),
            stream_metrics: v.stream_metrics.remove_keys(removed),
            remote_inputs: v.remote_inputs.remove_keys(removed),
            limits: v.limits,
            access_token: v.access_token,
            next_room_id: v.next_room_id,
            next_user_id: v.next_user_id,
        }
    }
}

/// A user counts as present in a room when they take part in it, publish
/// or watch a stream there, or have a voice state there.
pub open spec fn present_in(v: ControlView, user: UserId, room_id: RoomId) -> bool {
    v.rooms.contains_key(room_id) && (v.rooms[room_id].participants.contains(user) || (exists|
        s: StreamId,
    | #[trigger] published_by(v.rooms[room_id], user).contains(s)) || (exists|s: StreamId|
        #[trigger] subscribed_in(v.rooms[room_id], user).contains(s)) || v.voice_state(room_id, user) is Some)
}

/// Leaving each room of `order` in turn.
pub open spec fn leave_each(v: ControlView, user: UserId, order: Seq<RoomId>) -> ControlView
    decreases order.len(),
{
    if order.len() == 0 {
        v
    } else {
        after_leave(leave_each(v, user, order.drop_last()), user, order.last())
    }
}

/// Every stats report of `user` dropped, and stats maps left empty dropped.
pub open spec fn stats_without_user(
    m: Map<StreamId, Map<UserId, crate::protocol::control::ViewerStatsReport>>,
    user: UserId,
) -> Map<StreamId, Map<UserId, crate::protocol::control::ViewerStatsReport>> {
    without_inner_on(m, m.dom(), user)
}

/// Leaving preserves the control state's validity.
pub proof fn lemma_after_leave_valid(v: ControlView, user: UserId, room_id: RoomId)
    requires
        v.valid(),
    ensures
        after_leave(v, user, room_id).valid(),
        after_leave(v, user, room_id).rooms.dom().subset_of(v.rooms.dom()),
        forall|r: RoomId, s: StreamId| #[trigger]
            after_leave(v, user, room_id).has_stream(r, s) ==> v.has_stream(r, s),
{
    let w = after_leave(v, user, room_id);
    if v.rooms.contains_key(room_id) {
        assert forall|r: RoomId, s: StreamId| #[trigger] w.has_stream(r, s) implies v.has_stream(r, s)
            by {
            if r == room_id {
            }
        }
        assert forall|r: RoomId, s: StreamId|
            w.rooms.contains_key(r) && #[trigger] w.rooms[r].subscriptions.contains_key(s)
                implies w.rooms[r].streams.contains_key(s) by {
            if r == room_id {
                assert(v.rooms[r].subscriptions.contains_key(s));
            }
        }
        assert forall|r1: RoomId, r2: RoomId, s: StreamId|
            #[trigger] w.has_stream(r1, s) && #[trigger] w.has_stream(r2, s) implies r1 == r2 by {
            assert(v.has_stream(r1, s) && v.has_stream(r2, s));
        }
        assert forall|r: RoomId, s: StreamId| #[trigger]
            w.has_stream(r, s) implies w.rooms[r].streams[s].stream_id == s by {
            assert(v.has_stream(r, s));
        }
    }
}

/// The ids of the streams `user_id` is subscribed to in a room.
pub(crate) fn subscribed_streams(room: &Room, user_id: UserId) -> (stream_ids: Vec<StreamId>)
    ensures
        stream_ids@.to_set() == subscribed_in(room@, user_id),
        stream_ids@.no_duplicates(),
{
    let keys = map_keys_u32(&room.subscriptions);
    let mut result: Vec<StreamId> = Vec::new();
    let mut i: usize = 0;
    while i < keys.len()
        invariant
            0 <= i <= keys@.len(),
            keys@.to_set() == room.subscriptions@.dom(),
            strictly_increasing_u32(keys@),
            forall|k: StreamId|
                #![trigger result@.contains(k)]
                #![trigger subscribed_in(room@, user_id).contains(k)]
                result@.contains(k) <==> (keys@.subrange(0, i as int).contains(k)
                    && subscribed_in(room@, user_id).contains(k)),
        result@.no_duplicates(),
        decreases keys@.len() - i,
    {
        let k = keys[i];
        assert(keys@.to_set().contains(k));
        let ghost old_result = result@;
        match room.subscriptions.get(&k) {
            Some(subscribers) => {
                assert(subscribed_in(room@, user_id).contains(k) == subscribers@.contains(user_id));
                if subscribers.contains(&user_id) {
                    result.push(k);
                }
            },
            None => {},
        }
        proof {
            lemma_prefix_step(keys@, i as int);
            lemma_increasing_not_in_prefix_u32(keys@, i as int);
            let pushed = subscribed_in(room@, user_id).contains(k);
            assert(!old_result.contains(k));
            assert(result@ == if pushed { old_result.push(k) } else { old_result });
            assert forall|q: StreamId|
                #![trigger result@.contains(q)]
                #![trigger subscribed_in(room@, user_id).contains(q)]
                result@.contains(q) <==> (keys@.subrange(0, i + 1).contains(q)
                    && subscribed_in(room@, user_id).contains(q)) by {
                if pushed {
                    if result@.contains(q) && q != k {
                        let m = choose|m: int| 0 <= m < result@.len() && result@[m] == q;
                        assert(m < old_result.len());
                        assert(old_result[m] == q);
                    }
                    if old_result.contains(q) {
                        let m = choose|m: int| 0 <= m < old_result.len() && old_result[m] == q;
                        assert(result@[m] == q);
                    }
                    if q == k {
                        assert(result@[result@.len() - 1] == q);
                    }
                }
                if q != k {
                    assert(keys@.subrange(0, i + 1).contains(q) == keys@.subrange(0, i as int).contains(q));
                    assert(result@.contains(q) == old_result.contains(q));
                    assert(old_result.contains(q) <==> (keys@.subrange(0, i as int).contains(q) && subscribed_in(room@, user_id).contains(q)));
                } else {
                    assert(keys@.subrange(0, i + 1).contains(q));
                    assert(result@.contains(q) == pushed);
                }
            }
        }
        i += 1;
    }
    proof {
        assert(keys@.subrange(0, keys@.len() as int) =~= keys@);
        assert forall|k: StreamId| #[trigger]
            subscribed_in(room@, user_id).contains(k) implies keys@.contains(k) by {
            assert(keys@.to_set().contains(k));
        }
        assert(result@.to_set() =~= subscribed_in(room@, user_id));
    }
    result
}

/// Unpublishes every stream of `stream_ids` from a room.
fn remove_published_streams(room: &mut Room, stream_ids: &Vec<StreamId>)
    ensures
        final(room)@.streams == old(room)@.streams.remove_keys(stream_ids@.to_set()),
        final(room)@.subscriptions == old(room)@.subscriptions.remove_keys(stream_ids@.to_set()),
        final(room)@.id == old(room)@.id,
        final(room)@.name == old(room)@.name,
        final(room)@.participants == old(room)@.participants,
{
    let mut i: usize = 0;
    while i < stream_ids.len()
        invariant
            0 <= i <= stream_ids@.len(),
            room@.streams == old(room)@.streams.remove_keys(
                stream_ids@.subrange(0, i as int).to_set(),
            ),
            room@.subscriptions == old(room)@.subscriptions.remove_keys(
                stream_ids@.subrange(0, i as int).to_set(),
            ),
            room@.id == old(room)@.id,
            room@.name == old(room)@.name,
            room@.participants == old(room)@.participants,
        decreases stream_ids@.len() - i,
    {
        let s = stream_ids[i];
        room.remove_published_stream(s);
        proof {
            lemma_prefix_step(stream_ids@, i as int);
            let next = stream_ids@.subrange(0, i + 1).to_set();
            assert(room@.streams =~= old(room)@.streams.remove_keys(next));
            assert(room@.subscriptions =~= old(room)@.subscriptions.remove_keys(next));
        }
        i += 1;
    }
    assert(stream_ids@.subrange(0, i as int) =~= stream_ids@);
}

impl ControlState {
    /// Gives a participant the starting voice state unless they have one.
    pub(crate) fn ensure_voice_state(&mut self, room_id: RoomId, user_id: UserId)
        ensures
            old(self).wf() ==> final(self).wf(),
            final(self)@ == (ControlView {
                voice_states: voice_with_default(old(self)@.voice_states, room_id, user_id),
                ..old(self)@
            }),
    {
        let mut room_voice_states = match self.voice_states.remove(&room_id) {
            Some(m) => m,
            None => BTreeMap::new(),
        };
        if !room_voice_states.contains_key(&user_id) {
            room_voice_states.insert(
                user_id,
                VoiceState {
                    room_id,
                    user_id,
                    muted: false,
                    deafened: false,
                    push_to_talk: false,
                    speaking: true,
                },
            );
        }
        self.voice_states.insert(room_id, room_voice_states);
        proof {
            let o = old(self)@.voice_states;
            let inner = if o.contains_key(room_id) {
                if o[room_id].contains_key(user_id) {
                    o[room_id]
                } else {
                    o[room_id].insert(user_id, default_voice_state(room_id, user_id))
                }
            } else {
                map![user_id => default_voice_state(room_id, user_id)]
            };
            assert(room_voice_states@ =~= inner);
            assert(self@.voice_states =~= o.insert(room_id, inner));
            assert(self@.rooms =~= old(self)@.rooms);
            assert(self@.viewer_stats =~= old(self)@.viewer_stats);
            if old(self).wf() {
                crate::relay::control::lemma_valid_same_rooms(old(self)@, self@);
            }
        }
    }

    /// Forgets a participant's voice state, and the room's voice map once
    /// it is empty.
    pub(crate) fn remove_voice_state(&mut self, room_id: RoomId, user_id: UserId)
        ensures
            old(self).wf() ==> final(self).wf(),
            final(self)@ == (ControlView {
                voice_states: without_inner(old(self)@.voice_states, room_id, user_id),
                ..old(self)@
            }),
    {
        match self.voice_states.remove(&room_id) {
            Some(mut room_voice_states) => {
                room_voice_states.remove(&user_id);
                if !room_voice_states.is_empty() {
                    self.voice_states.insert(room_id, room_voice_states);
                }
            },
            None => {},
        }
        proof {
            assert(self@.voice_states =~= without_inner(old(self)@.voice_states, room_id, user_id));
            assert(self@.rooms =~= old(self)@.rooms);
            assert(self@.viewer_stats =~= old(self)@.viewer_stats);
            if old(self).wf() {
                crate::relay::control::lemma_valid_same_rooms(old(self)@, self@);
            }
        }
    }

    /// Forgets one viewer's report on one stream, and the stream's report
    /// map once it is empty.
    pub(crate) fn remove_viewer_stats(&mut self, stream_id: StreamId, user_id: UserId)
        ensures
            old(self).wf() ==> final(self).wf(),
            final(self)@ == (ControlView {
                viewer_stats: without_inner(old(self)@.viewer_stats, stream_id, user_id),
                ..old(self)@
            }),
    {
        match self.viewer_stats.remove(&stream_id) {
            Some(mut stream_viewer_stats) => {
                stream_viewer_stats.remove(&user_id);
                if !stream_viewer_stats.is_empty() {
                    self.viewer_stats.insert(stream_id, stream_viewer_stats);
                }
            },
            None => {},
        }
        proof {
            assert(self@.viewer_stats =~= without_inner(old(self)@.viewer_stats, stream_id, user_id));
            assert(self@.rooms =~= old(self)@.rooms);
            assert(self@.voice_states =~= old(self)@.voice_states);
            if old(self).wf() {
                crate::relay::control::lemma_valid_same_rooms(old(self)@, self@);
            }
        }
    }

    /// `remove_viewer_stats` for each stream of `stream_ids`.
    fn remove_viewer_stats_on(&mut self, stream_ids: &Vec<StreamId>, user_id: UserId)
        ensures
            final(self)@ == (ControlView {
                viewer_stats: without_inner_on(
                    old(self)@.viewer_stats,
                    stream_ids@.to_set(),
                    user_id,
                ),
                ..old(self)@
            }),
    {
        let mut i: usize = 0;
        assert(old(self)@.viewer_stats =~= without_inner_on(
            old(self)@.viewer_stats,
            stream_ids@.subrange(0, 0).to_set(),
            user_id,
        ));
        while i < stream_ids.len()
            invariant
                0 <= i <= stream_ids@.len(),
                self@ == (ControlView {
                    viewer_stats: without_inner_on(
                        old(self)@.viewer_stats,
                        stream_ids@.subrange(0, i as int).to_set(),
                        user_id,
                    ),
                    ..old(self)@
                }),
            decreases stream_ids@.len() - i,
        {
            let s = stream_ids[i];
            let ghost before = self@.viewer_stats;
            self.remove_viewer_stats(s, user_id);
            proof {
                lemma_prefix_step(stream_ids@, i as int);
                let o = old(self)@.viewer_stats;
                let next = stream_ids@.subrange(0, i + 1).to_set();
                let target = without_inner_on(o, next, user_id);
                let prev = stream_ids@.subrange(0, i as int).to_set();
                if prev.contains(s) && o.contains_key(s) {
                    assert(o[s].remove(user_id).remove(user_id) =~= o[s].remove(user_id));
                }
                assert(self@.viewer_stats =~= target);
            }
            i += 1;
        }
        assert(stream_ids@.subrange(0, i as int) =~= stream_ids@);
    }

    /// Drops the viewer reports, pending keyframe request, metrics and
    /// queued remote input of every stream of `stream_ids`.
    fn remove_streams_state(&mut self, stream_ids: &Vec<StreamId>)
        requires
            forall|s: StreamId| #[trigger]
                old(self).stream_metrics@.contains_key(s) ==> old(self).stream_metrics@[s].wf(),
        ensures
            final(self)@ == (ControlView {
                viewer_stats: old(self)@.viewer_stats.remove_keys(stream_ids@.to_set()),
                pending_keyframes: old(self)@.pending_keyframes.remove_keys(stream_ids@.to_set()),
                stream_metrics: old(self)@.stream_metrics.remove_keys(stream_ids@.to_set()),
                remote_inputs: old(self)@.remote_inputs.remove_keys(stream_ids@.to_set()),
                ..old(self)@
            }),
            forall|s: StreamId| #[trigger]
                final(self).stream_metrics@.contains_key(s) ==> final(self).stream_metrics@[s].wf(),
    {
        let mut i: usize = 0;
        proof {
            let none = stream_ids@.subrange(0, 0).to_set();
            assert(old(self)@.viewer_stats =~= old(self)@.viewer_stats.remove_keys(none));
            assert(old(self)@.pending_keyframes =~= old(self)@.pending_keyframes.remove_keys(none));
            assert(old(self)@.stream_metrics =~= old(self)@.stream_metrics.remove_keys(none));
            assert(old(self)@.remote_inputs =~= old(self)@.remote_inputs.remove_keys(none));
        }
        while i < stream_ids.len()
            invariant
                0 <= i <= stream_ids@.len(),
                self@ == (ControlView {
                    viewer_stats: old(self)@.viewer_stats.remove_keys(
                        stream_ids@.subrange(0, i as int).to_set(),
                    ),
                    pending_keyframes: old(self)@.pending_keyframes.remove_keys(
                        stream_ids@.subrange(0, i as int).to_set(),
                    ),
                    stream_metrics: old(self)@.stream_metrics.remove_keys(
                        stream_ids@.subrange(0, i as int).to_set(),
                    ),
                    remote_inputs: old(self)@.remote_inputs.remove_keys(
                        stream_ids@.subrange(0, i as int).to_set(),
                    ),
                    ..old(self)@
                }),
                forall|s: StreamId| #[trigger]
                    old(self).stream_metrics@.contains_key(s) ==> old(self).stream_metrics@[s].wf(),
            decreases stream_ids@.len() - i,
        {
            let s = stream_ids[i];
            let ghost before = self@;
            self.viewer_stats.remove(&s);
            self.pending_keyframe_requests.remove(&s);
            self.stream_metrics.remove(&s);
            self.remote_inputs.remove(&s);
            proof {
                assert(self@.viewer_stats =~= before.viewer_stats.remove(s));
                assert(self@.remote_inputs =~= before.remote_inputs.remove(s));
                lemma_prefix_step(stream_ids@, i as int);
                let next = stream_ids@.subrange(0, i + 1).to_set();
                assert(self@.viewer_stats =~= old(self)@.viewer_stats.remove_keys(next));
                assert(self@.pending_keyframes =~= old(self)@.pending_keyframes.remove_keys(next));
                assert(self@.stream_metrics =~= old(self)@.stream_metrics.remove_keys(next));
                assert(self@.remote_inputs =~= old(self)@.remote_inputs.remove_keys(next));
            }
            i += 1;
        }
        assert(stream_ids@.subrange(0, i as int) =~= stream_ids@);
    }

    /// Takes `user_id` out of `room_id`: participation, subscriptions and
    /// their reports, voice state, and the streams the user published there.
    /// A room left empty is removed.
    pub(crate) fn leave_room(&mut self, user_id: UserId, room_id: RoomId)
        requires
            old(self).wf(),
        ensures
            final(self).wf(),
            final(self)@ == after_leave(old(self)@, user_id, room_id),
    {
        let mut room = match self.rooms.remove(&room_id) {
            Some(room) => room,
            None => {
                assert(self.rooms@ =~= old(self).rooms@);
                assert(self@.rooms =~= old(self)@.rooms);
                return ;
            },
        };
        let ghost v0 = old(self)@;
        let ghost room0 = room@;
        assert(room0 == v0.rooms[room_id]);
        let subscribed = subscribed_streams(&room, user_id);
        let removed = room.streams_published_by(user_id);
        room.leave(user_id);
        remove_published_streams(&mut room, &removed);
        proof {
            let left = room_after_leave(room0, user_id);
            assert(removed@.to_set() =~= published_by(room0, user_id));
            assert(room@.participants == left.participants);
            assert(room@.streams =~= left.streams);
            assert(room@.subscriptions =~= left.subscriptions);
            assert(room@ == left);
        }
        let empty = room.is_empty();
        self.rooms.insert(room_id, room);
        proof {
            assert(self@.rooms =~= v0.rooms.insert(room_id, room_after_leave(room0, user_id)));
        }
        self.remove_viewer_stats_on(&subscribed, user_id);
        self.remove_voice_state(room_id, user_id);
        self.remove_streams_state(&removed);
        let ghost mid = self@;
        assert(mid.rooms == v0.rooms.insert(room_id, room_after_leave(room0, user_id)));
        if empty {
            self.rooms.remove(&room_id);
            self.voice_states.remove(&room_id);
            assert(self@.rooms =~= mid.rooms.remove(room_id));
            assert(self@.voice_states =~= mid.voice_states.remove(room_id));
        }
        proof {
            let target = after_leave(v0, user_id, room_id);
            assert(self@.rooms =~= target.rooms);
            assert(self@.voice_states =~= target.voice_states);
            assert(self@.viewer_stats =~= target.viewer_stats);
            assert(self@.pending_keyframes =~= target.pending_keyframes);
            assert(self@.stream_metrics =~= target.stream_metrics);
            lemma_after_leave_valid(v0, user_id, room_id);
        }
    }

    /// Takes a disconnected user out of every room they are present in,
    /// in increasing room order, then drops every report they sent.
    pub fn disconnect_user(&mut self, user_id: UserId)
        requires
            old(self).wf(),
        ensures
            final(self).wf(),
            exists|order: Seq<RoomId>|
                {
                    &&& strictly_increasing_u64(order)
                    &&& order.to_set() == Set::new(
                        |r: RoomId| present_in(old(self)@, user_id, r),
                    )
                    &&& final(self)@ == (ControlView {
                        viewer_stats: stats_without_user(
                            leave_each(old(self)@, user_id, order).viewer_stats,
                            user_id,
                        ),
                        ..leave_each(old(self)@, user_id, order)
                    })
                },
    {
        let ghost v0 = self@;
        let keys = map_keys_u64(&self.rooms);
        let mut affected: Vec<RoomId> = Vec::new();
        let mut i: usize = 0;
        while i < keys.len()
            invariant
                0 <= i <= keys@.len(),
                keys@.to_set() == self.rooms@.dom(),
                strictly_increasing_u64(keys@),
                self@ == v0,
                strictly_increasing_u64(affected@),
                forall|m: int| 0 <= m < affected@.len() ==> keys@.subrange(0, i as int).contains(#[trigger] affected@[m]),
                forall|r: RoomId|
                    #![trigger affected@.contains(r)]
                    #![trigger present_in(v0, user_id, r)]
                    affected@.contains(r) <==> (keys@.subrange(0, i as int).contains(r)
                        && present_in(v0, user_id, r)),
            decreases keys@.len() - i,
        {
            let r = keys[i];
            assert(keys@.to_set().contains(r));
            let ghost old_affected = affected@;
            let present = match self.rooms.get(&r) {
                Some(room) => {
                    let published = room.streams_published_by(user_id);
                    proof {
                        assert(room@ == v0.rooms[r]);
                        if published@.len() > 0 {
                            assert(published@.contains(published@[0]));
                            assert(room@.streams.dom().contains(published@[0]));
                            assert(published_by(v0.rooms[r], user_id).contains(published@[0]));
                        }
                        if exists|s: StreamId| #[trigger] published_by(v0.rooms[r], user_id).contains(s) {
                            let s = choose|s: StreamId| #[trigger] published_by(v0.rooms[r], user_id).contains(s);
                            assert(room@.streams.dom().contains(s));
                            assert(published@.contains(s));
                        }
                    }
                    let subscribed = subscribed_streams(room, user_id);
                    proof {
                        if subscribed@.len() > 0 {
                            assert(subscribed@.to_set().contains(subscribed@[0]));
                        }
                        if exists|s: StreamId| #[trigger] subscribed_in(v0.rooms[r], user_id).contains(s) {
                            let s = choose|s: StreamId| #[trigger] subscribed_in(v0.rooms[r], user_id).contains(s);
                            assert(subscribed@.to_set().contains(s));
                        }
                    }
                    room.participants.contains(&user_id) || published.len() > 0 || subscribed.len() > 0
                        || self.voice_state(r, user_id).is_some()
                },
                None => false,
            };
            assert(present == present_in(v0, user_id, r));
            if present {
                affected.push(r);
            }
            proof {
                lemma_prefix_step(keys@, i as int);
                crate::relay::keys::lemma_increasing_not_in_prefix_u64(keys@, i as int);
                assert(!old_affected.contains(r));
                assert(affected@ == if present { old_affected.push(r) } else { old_affected });
                assert forall|m: int| 0 <= m < old_affected.len() implies old_affected[m] < r by {
                    assert(keys@.subrange(0, i as int).contains(old_affected[m]));
                    let q = choose|q: int| 0 <= q < i && #[trigger] keys@.subrange(0, i as int)[q] == old_affected[m];
                    assert(keys@[q] < keys@[i as int]);
                }
                assert forall|m: int| 0 <= m < affected@.len() implies keys@.subrange(0, i + 1).contains(#[trigger] affected@[m]) by {
                    if m < old_affected.len() {
                        assert(affected@[m] == old_affected[m]);
                    }
                }
                assert forall|q: RoomId|
                    #![trigger affected@.contains(q)]
                    #![trigger present_in(v0, user_id, q)]
                    affected@.contains(q) <==> (keys@.subrange(0, i + 1).contains(q)
                        && present_in(v0, user_id, q)) by {
                    if present {
                        if affected@.contains(q) && q != r {
                            let m = choose|m: int| 0 <= m < affected@.len() && affected@[m] == q;
                            assert(old_affected[m] == q);
                        }
                        if old_affected.contains(q) {
                            let m = choose|m: int| 0 <= m < old_affected.len() && old_affected[m] == q;
                            assert(affected@[m] == q);
                        }
                        if q == r {
                            assert(affected@[affected@.len() - 1] == q);
                        }
                    }
                    if q != r {
                        assert(affected@.contains(q) == old_affected.contains(q));
                    }
                }
            }
            i += 1;
        }
        proof {
            assert(keys@.subrange(0, keys@.len() as int) =~= keys@);
            assert forall|r: RoomId| #[trigger] present_in(v0, user_id, r) implies keys@.contains(r) by {
                assert(keys@.to_set().contains(r));
            }
            assert(affected@.to_set() =~= Set::new(|r: RoomId| present_in(v0, user_id, r)));
        }
        let mut j: usize = 0;
        while j < affected.len()
            invariant
                0 <= j <= affected@.len(),
                self.wf(),
                self@ == leave_each(v0, user_id, affected@.subrange(0, j as int)),
            decreases affected@.len() - j,
        {
            let r = affected[j];
            self.leave_room(user_id, r);
            proof {
                let next = affected@.subrange(0, j + 1);
                assert(next.drop_last() =~= affected@.subrange(0, j as int));
                assert(next.last() == r);
            }
            j += 1;
        }
        assert(affected@.subrange(0, j as int) =~= affected@);
        let ghost left = self@;
        assert(left.valid());
        let stats_keys = map_keys_u32(&self.viewer_stats);
        assert(stats_keys@.to_set() == left.viewer_stats.dom());
        self.remove_viewer_stats_on(&stats_keys, user_id);
        proof {
            assert(self@ == (ControlView {
                viewer_stats: stats_without_user(left.viewer_stats, user_id),
                ..left
            }));
            assert(self@.rooms == left.rooms);
            assert(self@.next_room_id == left.next_room_id);
            crate::relay::control::lemma_valid_same_rooms(left, self@);
            assert(self.stream_metrics@ == left.stream_metrics);
        }
    }
}

} // verus!
