//! Listing a room's participants with their voice state and stream counts.

use vstd::prelude::*;

use crate::protocol::control::{
    ParticipantList, ParticipantSummary, RoomId, ServerControl, StreamId, UserId, VoiceState,
};
use crate::relay::control::membership::{published_by, subscribed_in, subscribed_streams};
use crate::relay::control::requests::{room_not_found, unauthenticated};
use crate::relay::control::{control_error, default_voice_state, is_error, ControlState, ControlView};
use crate::relay::keys::{set_members_u64, strictly_increasing_u32, strictly_increasing_u64};
use crate::relay::room::RoomView;
use crate::text::{prefixed_decimal, spec_decimal};

verus! {

broadcast use {vstd::std_specs::btree::group_btree_axioms, vstd::laws_cmp::group_laws_cmp};

/// The name a participant is listed under: `user-` and their id.
pub open spec fn participant_name(user: UserId) -> Seq<char> {
    "user-"@ + spec_decimal(user as nat)
}

/// A participant's voice state in a room, the starting one when none is
/// recorded.
pub open spec fn participant_voice(v: ControlView, room_id: RoomId, user: UserId) -> VoiceState {
    match v.voice_state(room_id, user) {
        Some(vs) => vs,
        None => default_voice_state(room_id, user),
    }
}

/// What the relay lists of one participant.
pub open spec fn participant_summary_of(
    summary: ParticipantSummary,
    room_id: RoomId,
    room: RoomView,
    user: UserId,
    voice: VoiceState,
) -> bool {
    &&& summary.room_id == room_id
    &&& summary.user_id == user
    &&& summary.display_name@ == participant_name(user)
    &&& summary.muted == voice.muted
    &&& summary.deafened == voice.deafened
    &&& summary.push_to_talk == voice.push_to_talk
    &&& summary.speaking == voice.speaking
    &&& summary.published_stream_count == published_by(room, user).len() as u32
    &&& summary.subscribed_stream_count == subscribed_in(room, user).len() as u32
}

/// One summary per participant of the room, in increasing user id order.
pub open spec fn participant_list_of(list: ParticipantList, room_id: RoomId, v: ControlView) -> bool {
    let room = v.rooms[room_id];
    &&& list.room_id == room_id
    &&& forall|a: int, b: int|
        0 <= a < b < list.participants@.len() ==> list.participants@[a].user_id
            < list.participants@[b].user_id
    &&& forall|u: UserId|
        room.participants.contains(u) <==> exists|i: int|
            0 <= i < list.participants@.len() && #[trigger] list.participants@[i].user_id == u
    &&& forall|i: int|
        0 <= i < list.participants@.len() ==> participant_summary_of(
            #[trigger] list.participants@[i],
            room_id,
            room,
            list.participants@[i].user_id,
            participant_voice(v, room_id, list.participants@[i].user_id),
        )
}

/// The answer to a participant listing the people in a room.
pub open spec fn participants_reply(
    v: ControlView,
    user: Option<UserId>,
    room_id: RoomId,
    reply: ServerControl,
) -> bool {
    match user {
        None => unauthenticated(reply),
        Some(u) => if !v.rooms.contains_key(room_id) {
            room_not_found(reply)
        } else if !v.rooms[room_id].participants.contains(u) {
            is_error(reply, "not_in_room"@, "join room before listing participants"@)
        } else {
            reply matches ServerControl::ParticipantList(list) && participant_list_of(
                list,
                room_id,
                v,
            )
        },
    }
}

proof fn lemma_increasing_u32_unique(s: Seq<u32>)
    requires
        strictly_increasing_u32(s),
    ensures
        s.no_duplicates(),
{
    assert forall|i: int, j: int| 0 <= i < s.len() && 0 <= j < s.len() && i != j implies s[i]
        != s[j] by {
        if i < j {
            assert(s[i] < s[j]);
        } else {
            assert(s[j] < s[i]);
        }
    }
}

impl ControlState {
    /// Lists the participants of a room for one of them.
    pub(crate) fn list_participants(&self, session: &crate::relay::session::Session, room_id: RoomId) -> (reply:
        ServerControl)
        requires
            self.wf(),
        ensures
            participants_reply(self@, session.user_id, room_id, reply),
    {
        let user_id = match session.user_id {
            Some(u) => u,
            None => {
                return control_error("unauthenticated", "send Hello first");
            },
        };
        let room = match self.room(room_id) {
            Some(room) => room,
            None => {
                return control_error("room_not_found", "room does not exist");
            },
        };
        if !room.participants.contains(&user_id) {
            return control_error("not_in_room", "join room before listing participants");
        }
        let ghost rv = room@;
        let members = set_members_u64(&room.participants);
        let mut participants: Vec<ParticipantSummary> = Vec::new();
        let mut i: usize = 0;
        while i < members.len()
            invariant
                0 <= i <= members@.len(),
                members@.to_set() == rv.participants,
                strictly_increasing_u64(members@),
                rv == room@,
                rv == self@.rooms[room_id],
                participants@.len() == i,
                forall|m: int|
                    0 <= m < i ==> #[trigger] participants@[m].user_id == members@[m]
                        && participant_summary_of(
                        participants@[m],
                        room_id,
                        rv,
                        members@[m],
                        participant_voice(self@, room_id, members@[m]),
                    ),
            decreases members@.len() - i,
        {
            let p = members[i];
            let voice = match self.voice_state(room_id, p) {
                Some(vs) => *vs,
                None => VoiceState {
                    room_id,
                    user_id: p,
                    muted: false,
                    deafened: false,
                    push_to_talk: false,
                    speaking: true,
                },
            };
            let published = room.streams_published_by(p);
            let subscribed = subscribed_streams(room, p);
            proof {
                lemma_increasing_u32_unique(published@);
                published@.unique_seq_to_set();
                subscribed@.unique_seq_to_set();
                assert(published@.to_set() =~= published_by(rv, p));
            }
            participants.push(
                ParticipantSummary {
                    room_id,
                    user_id: p,
                    display_name: prefixed_decimal("user-", p),
                    muted: voice.muted,
                    deafened: voice.deafened,
                    push_to_talk: voice.push_to_talk,
                    speaking: voice.speaking,
                    published_stream_count: published.len() as u32,
                    subscribed_stream_count: subscribed.len() as u32,
                },
            );
            proof {
                assert(participants@[i as int].user_id == members@[i as int]);
            }
            i += 1;
        }
        let list = ParticipantList { room_id, participants };
        proof {
            assert forall|a: int, b: int|
                0 <= a < b < list.participants@.len() implies list.participants@[a].user_id
                    < list.participants@[b].user_id by {
                assert(list.participants@[a].user_id == members@[a]);
                assert(list.participants@[b].user_id == members@[b]);
            }
            assert forall|u: UserId|
                rv.participants.contains(u) implies exists|i: int|
                    0 <= i < list.participants@.len() && #[trigger] list.participants@[i].user_id
                        == u by {
                assert(members@.to_set().contains(u));
                let m = choose|m: int| 0 <= m < members@.len() && members@[m] == u;
                assert(list.participants@[m].user_id == u);
            }
            assert forall|u: UserId|
                (exists|i: int|
                    0 <= i < list.participants@.len() && #[trigger] list.participants@[i].user_id
                        == u) implies rv.participants.contains(u) by {
                let m = choose|m: int|
                    0 <= m < list.participants@.len() && #[trigger] list.participants@[m].user_id
                        == u;
                assert(members@.to_set().contains(members@[m]));
            }
            assert forall|m: int| 0 <= m < list.participants@.len() implies participant_summary_of(
                #[trigger] list.participants@[m],
                room_id,
                rv,
                list.participants@[m].user_id,
                participant_voice(self@, room_id, list.participants@[m].user_id),
            ) by {
                assert(list.participants@[m].user_id == members@[m]);
            }
        }
        ServerControl::ParticipantList(list)
    }
}

} // verus!
