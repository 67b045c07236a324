//! The relay's control plane: rooms, streams, subscriptions, voice state,
//! viewer reports and media targets, driven by client requests.

use std::collections::BTreeMap;
use vstd::prelude::*;

use crate::protocol::control::{
    ControlError, KeyframeReason, RemoteInputEvent, RoomId, ServerControl, StreamId, UserId,
    ViewerStatsReport, VoiceState,
};
use crate::relay::keys::{map_keys_u64, set_members_u64, strictly_increasing_u64};
use crate::relay::metrics::StreamForwardingMetrics;
use crate::relay::room::{PublishedStream, Room, RoomView};

pub mod feedback;
pub mod handle;
pub mod membership;
pub mod participants;
pub mod remote_input;
pub mod laws;
pub mod requests;

verus! {

broadcast use {vstd::std_specs::btree::group_btree_axioms, vstd::laws_cmp::group_laws_cmp};

pub const DEFAULT_TARGET_BITRATE_BPS: u32 = 4_000_000;
pub const DEFAULT_TARGET_FRAMES_PER_SECOND: u16 = 30;
pub const MIN_TARGET_BITRATE_BPS: u32 = 16_000;
pub const MAX_TARGET_BITRATE_BPS: u32 = 16_000_000;
pub const MIN_TARGET_FRAMES_PER_SECOND: u16 = 5;
pub const MAX_TARGET_FRAMES_PER_SECOND: u16 = 120;
pub const DEGRADED_BITRATE_PERCENT: u32 = 80;
pub const MIN_TARGET_WIDTH: u32 = 320;
pub const MIN_TARGET_HEIGHT: u32 = 180;
pub const MAX_TARGET_WIDTH: u32 = 7680;
pub const MAX_TARGET_HEIGHT: u32 = 4320;

/// How many rooms the relay holds at most, and how many participants and
/// published streams each room takes.
#[derive(Debug, Clone, Copy, PartialEq, Eq, Structural)]
pub struct ControlLimits {
    pub max_rooms: u64,
    pub max_participants_per_room: u64,
    pub max_streams_per_room: u64,
}

pub const DEFAULT_MAX_ROOMS: u64 = 1024;
pub const DEFAULT_MAX_PARTICIPANTS_PER_ROOM: u64 = 64;
pub const DEFAULT_MAX_STREAMS_PER_ROOM: u64 = 32;

impl ControlLimits {
    pub open spec fn spec_default() -> ControlLimits {
        ControlLimits {
            max_rooms: DEFAULT_MAX_ROOMS,
            max_participants_per_room: DEFAULT_MAX_PARTICIPANTS_PER_ROOM,
            max_streams_per_room: DEFAULT_MAX_STREAMS_PER_ROOM,
        }
    }
}

impl Default for ControlLimits {
    fn default() -> (limits: ControlLimits)
        ensures
            limits == ControlLimits::spec_default(),
    {
        ControlLimits {
            max_rooms: DEFAULT_MAX_ROOMS,
            max_participants_per_room: DEFAULT_MAX_PARTICIPANTS_PER_ROOM,
            max_streams_per_room: DEFAULT_MAX_STREAMS_PER_ROOM,
        }
    }
}

/// Everything the relay knows about rooms and their streams.
#[derive(Debug)]
pub struct ControlState {
    rooms: BTreeMap<RoomId, Room>,
    viewer_stats: BTreeMap<StreamId, BTreeMap<UserId, ViewerStatsReport>>,
    voice_states: BTreeMap<RoomId, BTreeMap<UserId, VoiceState>>,
    pending_keyframe_requests: BTreeMap<StreamId, KeyframeReason>,
    stream_metrics: BTreeMap<StreamId, StreamForwardingMetrics>,
    remote_inputs: BTreeMap<StreamId, Vec<RemoteInputEvent>>,
    limits: ControlLimits,
    access_token: Option<String>,
    next_room_id: RoomId,
    next_user_id: UserId,
}

/// The control state as mathematical maps.
pub struct ControlView {
    pub rooms: Map<RoomId, RoomView>,
    pub viewer_stats: Map<StreamId, Map<UserId, ViewerStatsReport>>,
    pub voice_states: Map<RoomId, Map<UserId, VoiceState>>,
    pub pending_keyframes: Map<StreamId, KeyframeReason>,
    pub stream_metrics: Map<StreamId, StreamForwardingMetrics>,
    /// Input events from viewers waiting for each stream's publisher,
    /// oldest first.
    pub remote_inputs: Map<StreamId, Seq<RemoteInputEvent>>,
    pub limits: ControlLimits,
    pub access_token: Option<Seq<char>>,
    pub next_room_id: RoomId,
    pub next_user_id: UserId,
}

/// The inner maps of a map of maps, as maps.
pub open spec fn nested_views<K, K2, V>(m: Map<K, BTreeMap<K2, V>>) -> Map<K, Map<K2, V>> {
    Map::new(|k: K| m.dom().contains(k), |k: K| m[k]@)
}

pub open spec fn queue_views<K, V>(m: Map<K, Vec<V>>) -> Map<K, Seq<V>> {
    Map::new(|k: K| m.dom().contains(k), |k: K| m[k]@)
}

pub open spec fn room_views(m: Map<RoomId, Room>) -> Map<RoomId, RoomView> {
    Map::new(|k: RoomId| m.dom().contains(k), |k: RoomId| m[k]@)
}

impl View for ControlState {
    type V = ControlView;

    closed spec fn view(&self) -> ControlView {
        ControlView {
            rooms: room_views(self.rooms@),
            viewer_stats: nested_views(self.viewer_stats@),
            voice_states: nested_views(self.voice_states@),
            pending_keyframes: self.pending_keyframe_requests@,
            stream_metrics: self.stream_metrics@,
            remote_inputs: queue_views(self.remote_inputs@),
            limits: self.limits,
            access_token: match self.access_token {
                Some(t) => Some(t@),
                None => None,
            },
            next_room_id: self.next_room_id,
            next_user_id: self.next_user_id,
        }
    }
}

/// The voice state a participant starts with: heard and speaking.
pub open spec fn default_voice_state(room_id: RoomId, user_id: UserId) -> VoiceState {
    VoiceState {
        room_id,
        user_id,
        muted: false,
        deafened: false,
        push_to_talk: false,
        speaking: true,
    }
}

impl ControlView {
    pub open spec fn has_stream(self, room_id: RoomId, stream_id: StreamId) -> bool {
        self.rooms.contains_key(room_id) && self.rooms[room_id].streams.contains_key(stream_id)
    }

    /// The room that publishes a stream.
    pub open spec fn stream_room(self, stream_id: StreamId) -> Option<RoomId> {
        if exists|r: RoomId| self.has_stream(r, stream_id) {
            Some(choose|r: RoomId| self.has_stream(r, stream_id))
        } else {
            None
        }
    }

    pub open spec fn published(self, stream_id: StreamId) -> Option<PublishedStream> {
        match self.stream_room(stream_id) {
            Some(r) => Some(self.rooms[r].streams[stream_id]),
            None => None,
        }
    }

    /// Who watches a stream.
    pub open spec fn subscribers(self, stream_id: StreamId) -> Set<UserId> {
        match self.stream_room(stream_id) {
            Some(r) => if self.rooms[r].subscriptions.contains_key(stream_id) {
                self.rooms[r].subscriptions[stream_id]
            } else {
                Set::empty()
            },
            None => Set::empty(),
        }
    }

    pub open spec fn voice_state(self, room_id: RoomId, user_id: UserId) -> Option<VoiceState> {
        if self.voice_states.contains_key(room_id) && self.voice_states[room_id].contains_key(
            user_id,
        ) {
            Some(self.voice_states[room_id][user_id])
        } else {
            None
        }
    }

    /// Room keys match room ids, stream keys match stream ids, a stream id
    /// is published in one room at most, and only published streams have
    /// subscribers.
    pub open spec fn valid(self) -> bool {
        &&& forall|r: RoomId| #[trigger]
            self.rooms.contains_key(r) ==> self.rooms[r].id == r && r < self.next_room_id
        &&& forall|r: RoomId, s: StreamId| #[trigger]
            self.has_stream(r, s) ==> self.rooms[r].streams[s].stream_id == s
        &&& forall|r1: RoomId, r2: RoomId, s: StreamId|
            #[trigger] self.has_stream(r1, s) && #[trigger] self.has_stream(r2, s) ==> r1 == r2
        &&& forall|r: RoomId, s: StreamId|
            self.rooms.contains_key(r) && #[trigger] self.rooms[r].subscriptions.contains_key(s)
                ==> self.rooms[r].streams.contains_key(s)
    }
}

/// The room holding a stream, when one does.
pub proof fn lemma_stream_room(v: ControlView, r: RoomId, s: StreamId)
    requires
        v.valid(),
        v.has_stream(r, s),
    ensures
        v.stream_room(s) == Some(r),
        v.published(s) == Some(v.rooms[r].streams[s]),
{
    let c = choose|q: RoomId| v.has_stream(q, s);
    assert(v.has_stream(c, s));
}

/// A stream no room holds.
pub proof fn lemma_no_stream_room(v: ControlView, s: StreamId)
    requires
        forall|r: RoomId| !#[trigger] v.has_stream(r, s),
    ensures
        v.stream_room(s) is None,
        v.published(s) is None,
        v.subscribers(s) == Set::<UserId>::empty(),
{
}

/// Validity depends on the rooms and the next room id alone.
pub proof fn lemma_valid_same_rooms(a: ControlView, b: ControlView)
    requires
        a.valid(),
        a.rooms == b.rooms,
        a.next_room_id <= b.next_room_id,
    ensures
        b.valid(),
{
    assert forall|r: RoomId, s: StreamId| #[trigger] b.has_stream(r, s) implies a.has_stream(r, s) by {}
    assert forall|r1: RoomId, r2: RoomId, s: StreamId|
        #[trigger] b.has_stream(r1, s) && #[trigger] b.has_stream(r2, s) implies r1 == r2 by {
        assert(a.has_stream(r1, s) && a.has_stream(r2, s));
    }
}

/// The voice states with `user_id` given the starting state in `room_id`
/// unless they already have one there.
pub open spec fn voice_with_default(
    m: Map<RoomId, Map<UserId, VoiceState>>,
    room_id: RoomId,
    user_id: UserId,
) -> Map<RoomId, Map<UserId, VoiceState>> {
    m.insert(
        room_id,
        if m.contains_key(room_id) {
            if m[room_id].contains_key(user_id) {
                m[room_id]
            } else {
                m[room_id].insert(user_id, default_voice_state(room_id, user_id))
            }
        } else {
            map![user_id => default_voice_state(room_id, user_id)]
        },
    )
}

/// Putting a room in place keeps the state valid when the room's keys are
/// its ids, its streams are its own or new everywhere, and only its
/// streams have subscribers.
pub proof fn lemma_valid_room_insert(v: ControlView, w: ControlView, room_id: RoomId, room: RoomView)
    requires
        v.valid(),
        w.rooms == v.rooms.insert(room_id, room),
        room.id == room_id,
        room_id < w.next_room_id,
        v.next_room_id <= w.next_room_id,
        forall|s: StreamId| #[trigger] room.streams.contains_key(s) ==> room.streams[s].stream_id == s,
        forall|s: StreamId| #[trigger] room.streams.contains_key(s) ==> (v.has_stream(room_id, s) || forall|r: RoomId| !#[trigger] v.has_stream(r, s)),
        forall|s: StreamId| #[trigger] room.subscriptions.contains_key(s) ==> room.streams.contains_key(s),
    ensures
        w.valid(),
{
    assert forall|r1: RoomId, r2: RoomId, s: StreamId|
        #[trigger] w.has_stream(r1, s) && #[trigger] w.has_stream(r2, s) implies r1 == r2 by {
        if r1 == room_id && r2 != room_id {
            assert(v.has_stream(r2, s));
        } else if r2 == room_id && r1 != room_id {
            assert(v.has_stream(r1, s));
        } else if r1 != room_id && r2 != room_id {
            assert(v.has_stream(r1, s) && v.has_stream(r2, s));
        }
    }
    assert forall|r: RoomId, s: StreamId| #[trigger] w.has_stream(r, s) implies w.rooms[r].streams[s].stream_id == s by {
        if r != room_id {
            assert(v.has_stream(r, s));
        }
    }
    assert forall|r: RoomId, s: StreamId|
        w.rooms.contains_key(r) && #[trigger] w.rooms[r].subscriptions.contains_key(s)
            implies w.rooms[r].streams.contains_key(s) by {
        if r != room_id {
            assert(v.rooms[r].subscriptions.contains_key(s));
        }
    }
}

/// A control error with the given code and message.
pub open spec fn is_error(reply: ServerControl, code: Seq<char>, message: Seq<char>) -> bool {
    reply matches ServerControl::Error(e) && e.code@ == code && e.message@ == message
}

pub fn control_error(code: &str, message: &str) -> (reply: ServerControl)
    ensures
        is_error(reply, code@, message@),
{
    ServerControl::Error(ControlError::new(code, message))
}

impl ControlState {
    pub closed spec fn wf(&self) -> bool {
        &&& self@.valid()
        &&& forall|s: StreamId| #[trigger]
            self.stream_metrics@.contains_key(s) ==> self.stream_metrics@[s].wf()
    }

    pub fn new() -> (state: ControlState)
        ensures
            state.wf(),
            state@.rooms == Map::<RoomId, RoomView>::empty(),
            state@.viewer_stats == Map::<StreamId, Map<UserId, ViewerStatsReport>>::empty(),
            state@.voice_states == Map::<RoomId, Map<UserId, VoiceState>>::empty(),
            state@.pending_keyframes == Map::<StreamId, KeyframeReason>::empty(),
            state@.stream_metrics == Map::<StreamId, StreamForwardingMetrics>::empty(),
            state@.remote_inputs == Map::<StreamId, Seq<RemoteInputEvent>>::empty(),
            state@.limits == ControlLimits::spec_default(),
            state@.access_token is None,
            state@.next_room_id == 1,
            state@.next_user_id == 1,
    {
        let state = ControlState {
            rooms: BTreeMap::new(),
            viewer_stats: BTreeMap::new(),
            voice_states: BTreeMap::new(),
            pending_keyframe_requests: BTreeMap::new(),
            stream_metrics: BTreeMap::new(),
            remote_inputs: BTreeMap::new(),
            limits: ControlLimits::default(),
            access_token: None,
            next_room_id: 1,
            next_user_id: 1,
        };
        assert(state@.rooms =~= Map::<RoomId, RoomView>::empty());
        assert(state@.viewer_stats =~= Map::<StreamId, Map<UserId, ViewerStatsReport>>::empty());
        assert(state@.voice_states =~= Map::<RoomId, Map<UserId, VoiceState>>::empty());
        assert(state@.remote_inputs =~= Map::<StreamId, Seq<RemoteInputEvent>>::empty());
        state
    }

    /// A relay that admits only clients presenting `access_token`.
    pub fn with_access_token(access_token: &str) -> (state: ControlState)
        ensures
            state.wf(),
            state@.rooms == Map::<RoomId, RoomView>::empty(),
            state@.viewer_stats == Map::<StreamId, Map<UserId, ViewerStatsReport>>::empty(),
            state@.voice_states == Map::<RoomId, Map<UserId, VoiceState>>::empty(),
            state@.pending_keyframes == Map::<StreamId, KeyframeReason>::empty(),
            state@.stream_metrics == Map::<StreamId, StreamForwardingMetrics>::empty(),
            state@.remote_inputs == Map::<StreamId, Seq<RemoteInputEvent>>::empty(),
            state@.limits == ControlLimits::spec_default(),
            state@.access_token == Some(access_token@),
            state@.next_room_id == 1,
            state@.next_user_id == 1,
    {
        let mut state = ControlState::new();
        state.access_token = Some(access_token.to_owned());
        state
    }

    /// Sets how many rooms, participants and streams the relay takes; what
    /// it holds already stays.
    pub fn set_limits(&mut self, limits: ControlLimits)
        requires
            old(self).wf(),
        ensures
            final(self).wf(),
            final(self)@ == (ControlView { limits, ..old(self)@ }),
    {
        self.limits = limits;
        proof {
            assert(self@.rooms =~= old(self)@.rooms);
            assert(self@.viewer_stats =~= old(self)@.viewer_stats);
            assert(self@.voice_states =~= old(self)@.voice_states);
            assert(self@.remote_inputs =~= old(self)@.remote_inputs);
            lemma_valid_same_rooms(old(self)@, self@);
        }
    }

    pub fn limits(&self) -> (limits: ControlLimits)
        ensures
            limits == self@.limits,
    {
        self.limits
    }

    pub fn requires_access_token(&self) -> (required: bool)
        ensures
            required == self@.access_token is Some,
    {
        self.access_token.is_some()
    }

    /// Whether another room and another user can still be numbered.
    pub fn has_id_space(&self) -> (space: bool)
        ensures
            space == (self@.next_room_id < u64::MAX && self@.next_user_id < u64::MAX),
    {
        self.next_room_id < u64::MAX && self.next_user_id < u64::MAX
    }

    pub fn room(&self, room_id: RoomId) -> (room: Option<&Room>)
        ensures
            match room {
                Some(r) => self@.rooms.contains_key(room_id) && r@ == self@.rooms[room_id],
                None => !self@.rooms.contains_key(room_id),
            },
    {
        self.rooms.get(&room_id)
    }

    /// The room that publishes `stream_id`, found by walking the rooms.
    fn room_of_stream(&self, stream_id: StreamId) -> (room_id: Option<RoomId>)
        requires
            self.wf(),
        ensures
            room_id == self@.stream_room(stream_id),
    {
        let keys = map_keys_u64(&self.rooms);
        let mut i: usize = 0;
        while i < keys.len()
            invariant
                0 <= i <= keys@.len(),
                keys@.to_set() == self.rooms@.dom(),
                self.wf(),
                forall|m: int| 0 <= m < i ==> !self@.has_stream(#[trigger] keys@[m], stream_id),
            decreases keys@.len() - i,
        {
            let r = keys[i];
            assert(keys@.to_set().contains(r));
            match self.rooms.get(&r) {
                Some(room) => {
                    if room.published_streams.contains_key(&stream_id) {
                        proof {
                            assert(self@.has_stream(r, stream_id));
                            lemma_stream_room(self@, r, stream_id);
                        }
                        return Some(r);
                    }
                },
                None => {},
            }
            i += 1;
        }
        proof {
            assert forall|r: RoomId| !#[trigger] self@.has_stream(r, stream_id) by {
                if self@.rooms.contains_key(r) {
                    assert(keys@.to_set().contains(r));
                    let m = choose|m: int| 0 <= m < keys@.len() && keys@[m] == r;
                    assert(!self@.has_stream(keys@[m], stream_id));
                }
            }
            lemma_no_stream_room(self@, stream_id);
        }
        None
    }

    /// The published stream with this id, in whichever room holds it.
    pub fn published_stream(&self, stream_id: StreamId) -> (stream: Option<&PublishedStream>)
        requires
            self.wf(),
        ensures
            match stream {
                Some(p) => self@.published(stream_id) == Some(*p),
                None => self@.published(stream_id) is None,
            },
    {
        match self.room_of_stream(stream_id) {
            Some(r) => {
                match self.rooms.get(&r) {
                    Some(room) => room.published_streams.get(&stream_id),
                    None => None,
                }
            },
            None => None,
        }
    }

    pub fn publisher_for_stream(&self, stream_id: StreamId) -> (publisher: Option<UserId>)
        requires
            self.wf(),
        ensures
            publisher == match self@.published(stream_id) {
                Some(p) => Some(p.publisher_id),
                None => None::<UserId>,
            },
    {
        match self.published_stream(stream_id) {
            Some(stream) => Some(stream.publisher_id),
            None => None,
        }
    }

    /// The subscribers of a stream, in increasing order.
    pub fn subscribers_for_stream(&self, stream_id: StreamId) -> (subscribers: Vec<UserId>)
        requires
            self.wf(),
        ensures
            subscribers@.to_set() == self@.subscribers(stream_id),
            subscribers@.len() == self@.subscribers(stream_id).len(),
            strictly_increasing_u64(subscribers@),
    {
        match self.room_of_stream(stream_id) {
            Some(r) => {
                match self.rooms.get(&r) {
                    Some(room) => match room.subscriptions.get(&stream_id) {
                        Some(subscribers) => set_members_u64(subscribers),
                        None => Vec::new(),
                    },
                    None => Vec::new(),
                }
            },
            None => Vec::new(),
        }
    }

    pub fn voice_state(&self, room_id: RoomId, user_id: UserId) -> (voice_state: Option<&VoiceState>)
        ensures
            match voice_state {
                Some(v) => self@.voice_state(room_id, user_id) == Some(*v),
                None => self@.voice_state(room_id, user_id) is None,
            },
    {
        match self.voice_states.get(&room_id) {
            Some(room_voice_states) => room_voice_states.get(&user_id),
            None => None,
        }
    }

    /// The voice state `user_id` has in the room that publishes `stream_id`.
    pub fn voice_state_for_stream(&self, stream_id: StreamId, user_id: UserId) -> (voice_state:
        Option<&VoiceState>)
        requires
            self.wf(),
        ensures
            match voice_state {
                Some(v) => self@.stream_room(stream_id) is Some && self@.voice_state(
                    self@.stream_room(stream_id)->0,
                    user_id,
                ) == Some(*v),
                None => self@.stream_room(stream_id) is None || self@.voice_state(
                    self@.stream_room(stream_id)->0,
                    user_id,
                ) is None,
            },
    {
        match self.room_of_stream(stream_id) {
            Some(r) => self.voice_state(r, user_id),
            None => None,
        }
    }

    /// Voice from `user_id` on `stream_id` is forwarded unless the user is
    /// muted, or holds push-to-talk without speaking.
    pub fn voice_publisher_can_send(&self, stream_id: StreamId, user_id: UserId) -> (can_send: bool)
        requires
            self.wf(),
        ensures
            can_send == match self@.stream_room(stream_id) {
                Some(r) => match self@.voice_state(r, user_id) {
                    Some(v) => !v.muted && (!v.push_to_talk || v.speaking),
                    None => true,
                },
                None => true,
            },
    {
        match self.voice_state_for_stream(stream_id, user_id) {
            Some(voice_state) => !voice_state.muted && (!voice_state.push_to_talk
                || voice_state.speaking),
            None => true,
        }
    }

    /// The last stats report `user_id` sent for `stream_id`.
    pub fn viewer_stats_report(&self, stream_id: StreamId, user_id: UserId) -> (report: Option<
        ViewerStatsReport,
    >)
        ensures
            report == if self@.viewer_stats.contains_key(stream_id)
                && self@.viewer_stats[stream_id].contains_key(user_id) {
                Some(self@.viewer_stats[stream_id][user_id])
            } else {
                None::<ViewerStatsReport>
            },
    {
        match self.viewer_stats.get(&stream_id) {
            Some(reports) => match reports.get(&user_id) {
                Some(report) => Some(*report),
                None => None,
            },
            None => None,
        }
    }

    /// Whether a keyframe request is waiting for the stream's publisher.
    pub fn keyframe_pending(&self, stream_id: StreamId) -> (pending: bool)
        ensures
            pending == self@.pending_keyframes.contains_key(stream_id),
    {
        self.pending_keyframe_requests.contains_key(&stream_id)
    }
}

} // verus!
