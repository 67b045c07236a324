//! A room: its participants, the streams published in it, and who watches
//! which stream.

use std::collections::{BTreeMap, BTreeSet};
use vstd::prelude::*;

use crate::protocol::codec::CodecId;
use crate::protocol::control::{MediaKind, RoomId, StreamConfig, StreamId, UserId};
use crate::relay::keys::{
    lemma_increasing_not_in_prefix_u32, lemma_prefix_step_u32, map_keys_u32,
    strictly_increasing_u32,
};

verus! {

broadcast use {vstd::std_specs::btree::group_btree_axioms, vstd::laws_cmp::group_laws_cmp};

/// A stream as the relay keeps it: who publishes it, what it carries, its
/// last configuration and the media targets the relay currently asks for.
#[derive(Debug, Clone, Copy, PartialEq, Eq, Structural)]
pub struct PublishedStream {
    pub stream_id: StreamId,
    pub publisher_id: UserId,
    pub codec: CodecId,
    pub media_kind: MediaKind,
    pub config: Option<StreamConfig>,
    pub target_bitrate_bps: u32,
    pub target_frames_per_second: u16,
    pub target_width: u32,
    pub target_height: u32,
}

#[derive(Debug, Clone, PartialEq, Eq)]
pub struct Room {
    pub id: RoomId,
    pub name: String,
    pub participants: BTreeSet<UserId>,
    pub published_streams: BTreeMap<StreamId, PublishedStream>,
    pub subscriptions: BTreeMap<StreamId, BTreeSet<UserId>>,
}

/// A room with its sets and maps as mathematical values.
pub struct RoomView {
    pub id: RoomId,
    pub name: Seq<char>,
    pub participants: Set<UserId>,
    pub streams: Map<StreamId, PublishedStream>,
    pub subscriptions: Map<StreamId, Set<UserId>>,
}

/// The subscriber sets of a subscription map as sets.
pub open spec fn subscription_sets(m: Map<StreamId, BTreeSet<UserId>>) -> Map<StreamId, Set<UserId>> {
    Map::new(|k: StreamId| m.dom().contains(k), |k: StreamId| m[k]@)
}

impl View for Room {
    type V = RoomView;

    open spec fn view(&self) -> RoomView {
        RoomView {
            id: self.id,
            name: self.name@,
            participants: self.participants@,
            streams: self.published_streams@,
            subscriptions: subscription_sets(self.subscriptions@),
        }
    }
}

/// The subscriptions left after `user` is taken out of every subscriber
/// set, with the sets that become empty dropped.
pub open spec fn subscriptions_without(subs: Map<StreamId, Set<UserId>>, user: UserId) -> Map<StreamId, Set<UserId>> {
    Map::new(
        |k: StreamId| subs.dom().contains(k) && !subs[k].remove(user).is_empty(),
        |k: StreamId| subs[k].remove(user),
    )
}

impl Room {
    pub fn new(id: RoomId, name: &str) -> (room: Room)
        ensures
            room@.id == id,
            room@.name == name@,
            room@.participants == Set::<UserId>::empty(),
            room@.streams == Map::<StreamId, PublishedStream>::empty(),
            room@.subscriptions == Map::<StreamId, Set<UserId>>::empty(),
    {
        let room = Room {
            id,
            name: name.to_owned(),
            participants: BTreeSet::new(),
            published_streams: BTreeMap::new(),
            subscriptions: BTreeMap::new(),
        };
        assert(room@.subscriptions =~= Map::<StreamId, Set<UserId>>::empty());
        room
    }

    /// Adds a participant and gives the participant count.
    pub fn join(&mut self, user_id: UserId) -> (count: u32)
        ensures
            final(self)@.participants == old(self)@.participants.insert(user_id),
            final(self)@.id == old(self)@.id,
            final(self)@.name == old(self)@.name,
            final(self)@.streams == old(self)@.streams,
            final(self)@.subscriptions == old(self)@.subscriptions,
            count == final(self)@.participants.len() as u32,
    {
        self.participants.insert(user_id);
        self.participants.len() as u32
    }

    /// Takes a participant out of the room and out of every subscriber set;
    /// subscriber sets left empty are dropped. Streams stay.
    pub fn leave(&mut self, user_id: UserId)
        ensures
            final(self)@.participants == old(self)@.participants.remove(user_id),
            final(self)@.subscriptions == subscriptions_without(old(self)@.subscriptions, user_id),
            final(self)@.id == old(self)@.id,
            final(self)@.name == old(self)@.name,
            final(self)@.streams == old(self)@.streams,
    {
        self.participants.remove(&user_id);
        let keys = map_keys_u32(&self.subscriptions);
        let ghost old_subs = subscription_sets(self.subscriptions@);
        let ghost target = subscriptions_without(old_subs, user_id);
        let mut i: usize = 0;
        while i < keys.len()
            invariant
                0 <= i <= keys@.len(),
                keys@.to_set() == old_subs.dom(),
                strictly_increasing_u32(keys@),
                self@.participants == old(self)@.participants.remove(user_id),
                self@.id == old(self)@.id,
                self@.name == old(self)@.name,
                self@.streams == old(self)@.streams,
                target == subscriptions_without(old_subs, user_id),
                forall|k: StreamId|
                    #![trigger subscription_sets(self.subscriptions@).dom().contains(k)]
                    keys@.subrange(0, i as int).contains(k) ==> (subscription_sets(
                        self.subscriptions@,
                    ).dom().contains(k) == target.dom().contains(k)) && (target.dom().contains(k)
                        ==> subscription_sets(self.subscriptions@)[k] == target[k]),
                forall|k: StreamId|
                    #![trigger subscription_sets(self.subscriptions@).dom().contains(k)]
                    !keys@.subrange(0, i as int).contains(k) ==> (subscription_sets(
                        self.subscriptions@,
                    ).dom().contains(k) == old_subs.dom().contains(k)) && (old_subs.dom().contains(k)
                        ==> subscription_sets(self.subscriptions@)[k] == old_subs[k]),
            decreases keys@.len() - i,
        {
            let k = keys[i];
            let ghost before = subscription_sets(self.subscriptions@);
            proof {
                assert(keys@.to_set().contains(k));
                lemma_increasing_not_in_prefix_u32(keys@, i as int);
                assert(before.dom().contains(k));
            }
            let removed = self.subscriptions.remove(&k);
            match removed {
                Some(mut subscribers) => {
                    subscribers.remove(&user_id);
                    if !subscribers.is_empty() {
                        self.subscriptions.insert(k, subscribers);
                    }
                },
                None => {},
            }
            proof {
                lemma_prefix_step_u32(keys@, i as int);
                let after = subscription_sets(self.subscriptions@);
                assert forall|q: StreamId| q != k implies #[trigger] after.dom().contains(q)
                    == before.dom().contains(q) && (before.dom().contains(q) ==> after[q]
                    == before[q]) by {}
                assert(after.dom().contains(k) == target.dom().contains(k));
                assert(target.dom().contains(k) ==> after[k] == target[k]);
                assert forall|q: StreamId|
                    !keys@.subrange(0, i + 1).contains(q) implies (#[trigger] after.dom().contains(q)
                    == old_subs.dom().contains(q)) && (old_subs.dom().contains(q) ==> after[q]
                    == old_subs[q]) by {
                    assert(!keys@.subrange(0, i as int).contains(q) && q != k);
                    assert(before.dom().contains(q) == old_subs.dom().contains(q));
                }
            }
            i += 1;
        }
        proof {
            assert(keys@.subrange(0, keys@.len() as int) =~= keys@);
            assert forall|k: StreamId| old_subs.dom().contains(k) implies keys@.contains(k) by {
                assert(keys@.to_set().contains(k));
            }
            assert(subscription_sets(self.subscriptions@) =~= target);
        }
    }

    /// Publishes a stream, replacing any with the same id.
    pub fn publish_stream(&mut self, stream: PublishedStream)
        ensures
            final(self)@.streams == old(self)@.streams.insert(stream.stream_id, stream),
            final(self)@.id == old(self)@.id,
            final(self)@.name == old(self)@.name,
            final(self)@.participants == old(self)@.participants,
            final(self)@.subscriptions == old(self)@.subscriptions,
    {
        self.published_streams.insert(stream.stream_id, stream);
    }

    /// The ids of the streams `user_id` publishes here, in increasing order.
    pub fn streams_published_by(&self, user_id: UserId) -> (stream_ids: Vec<StreamId>)
        ensures
            strictly_increasing_u32(stream_ids@),
            forall|k: StreamId|
                stream_ids@.contains(k) <==> (#[trigger] self@.streams.dom().contains(k)
                    && self@.streams[k].publisher_id == user_id),
    {
        let keys = map_keys_u32(&self.published_streams);
        let mut result: Vec<StreamId> = Vec::new();
        let mut i: usize = 0;
        while i < keys.len()
            invariant
                0 <= i <= keys@.len(),
                keys@.to_set() == self@.streams.dom(),
                strictly_increasing_u32(keys@),
                strictly_increasing_u32(result@),
                forall|m: int| 0 <= m < result@.len() ==> keys@.subrange(0, i as int).contains(#[trigger] result@[m]),
                forall|k: StreamId|
                    result@.contains(k) <==> (keys@.subrange(0, i as int).contains(k)
                        && self@.streams.dom().contains(k) && self@.streams[k].publisher_id
                        == user_id),
            decreases keys@.len() - i,
        {
            let k = keys[i];
            proof {
                assert(keys@.to_set().contains(k));
            }
            let stream = self.published_streams.get(&k);
            let ghost old_result = result@;
            match stream {
                Some(s) => {
                    if s.publisher_id == user_id {
                        result.push(k);
                    }
                },
                None => {},
            }
            proof {
                assert forall|m: int| 0 <= m < old_result.len() implies old_result[m] < k by {
                    assert(keys@.subrange(0, i as int).contains(old_result[m]));
                    let q = choose|q: int| 0 <= q < i && #[trigger] keys@.subrange(0, i as int)[q] == old_result[m];
                    assert(keys@[q] < keys@[i as int]);
                }
                lemma_prefix_step_u32(keys@, i as int);
                assert forall|m: int| 0 <= m < result@.len() implies keys@.subrange(0, i + 1).contains(#[trigger] result@[m]) by {
                    if m < old_result.len() {
                        assert(result@[m] == old_result[m]);
                    }
                }
                assert forall|k2: StreamId| result@.contains(k2) <==> (keys@.subrange(0, i + 1).contains(k2)
                        && self@.streams.dom().contains(k2) && self@.streams[k2].publisher_id
                        == user_id) by {
                    if result@.contains(k2) && !old_result.contains(k2) {
                        let m = choose|m: int| 0 <= m < result@.len() && result@[m] == k2;
                        assert(m == old_result.len());
                    }
                    if old_result.contains(k2) {
                        let m = choose|m: int| 0 <= m < old_result.len() && old_result[m] == k2;
                        assert(result@[m] == k2);
                    }
                    if k2 == k && self@.streams.dom().contains(k2) && self@.streams[k2].publisher_id == user_id {
                        assert(result@[result@.len() - 1] == k2);
                    }
                }
            }
            i += 1;
        }
        proof {
            assert(keys@.subrange(0, keys@.len() as int) =~= keys@);
            assert forall|k: StreamId| self@.streams.dom().contains(k) implies keys@.contains(k) by {
                assert(keys@.to_set().contains(k));
            }
        }
        result
    }

    /// Unpublishes a stream and forgets who watched it; gives the stream.
    pub fn remove_published_stream(&mut self, stream_id: StreamId) -> (removed: Option<PublishedStream>)
        ensures
            removed == if old(self)@.streams.dom().contains(stream_id) {
                Some(old(self)@.streams[stream_id])
            } else {
                None::<PublishedStream>
            },
            final(self)@.streams == old(self)@.streams.remove(stream_id),
            final(self)@.subscriptions == old(self)@.subscriptions.remove(stream_id),
            final(self)@.id == old(self)@.id,
            final(self)@.name == old(self)@.name,
            final(self)@.participants == old(self)@.participants,
    {
        let removed = self.published_streams.remove(&stream_id);
        self.subscriptions.remove(&stream_id);
        assert(subscription_sets(self.subscriptions@) =~= subscription_sets(old(self).subscriptions@).remove(stream_id));
        removed
    }

    /// Subscribes a user to a published stream; refuses unknown streams.
    pub fn subscribe(&mut self, stream_id: StreamId, user_id: UserId) -> (subscribed: bool)
        ensures
            subscribed == old(self)@.streams.dom().contains(stream_id),
            subscribed ==> final(self)@.subscriptions == old(self)@.subscriptions.insert(
                stream_id,
                if old(self)@.subscriptions.dom().contains(stream_id) {
                    old(self)@.subscriptions[stream_id].insert(user_id)
                } else {
                    set![user_id]
                },
            ),
            !subscribed ==> final(self)@.subscriptions == old(self)@.subscriptions,
            final(self)@.id == old(self)@.id,
            final(self)@.name == old(self)@.name,
            final(self)@.participants == old(self)@.participants,
            final(self)@.streams == old(self)@.streams,
    {
        if !self.published_streams.contains_key(&stream_id) {
            return false;
        }
        let mut subscribers = match self.subscriptions.remove(&stream_id) {
            Some(s) => s,
            None => BTreeSet::new(),
        };
        subscribers.insert(user_id);
        self.subscriptions.insert(stream_id, subscribers);
        proof {
            let o = subscription_sets(old(self).subscriptions@);
            let expected = o.insert(
                stream_id,
                if o.dom().contains(stream_id) { o[stream_id].insert(user_id) } else { set![user_id] },
            );
            assert(subscribers@ =~= if o.dom().contains(stream_id) { o[stream_id].insert(user_id) } else { set![user_id] });
            assert(subscription_sets(self.subscriptions@) =~= expected);
        }
        true
    }

    /// Takes a user out of one stream's subscribers, dropping the set when it
    /// becomes empty.
    pub fn unsubscribe(&mut self, stream_id: StreamId, user_id: UserId)
        ensures
            final(self)@.subscriptions == if old(self)@.subscriptions.dom().contains(stream_id) {
                if old(self)@.subscriptions[stream_id].remove(user_id).is_empty() {
                    old(self)@.subscriptions.remove(stream_id)
                } else {
                    old(self)@.subscriptions.insert(
                        stream_id,
                        old(self)@.subscriptions[stream_id].remove(user_id),
                    )
                }
            } else {
                old(self)@.subscriptions
            },
            final(self)@.id == old(self)@.id,
            final(self)@.name == old(self)@.name,
            final(self)@.participants == old(self)@.participants,
            final(self)@.streams == old(self)@.streams,
    {
        let removed = self.subscriptions.remove(&stream_id);
        match removed {
            Some(mut subscribers) => {
                subscribers.remove(&user_id);
                if !subscribers.is_empty() {
                    self.subscriptions.insert(stream_id, subscribers);
                }
                proof {
                    let o = subscription_sets(old(self).subscriptions@);
                    if o[stream_id].remove(user_id).is_empty() {
                        assert(subscribers@ =~= Set::<UserId>::empty());
                        assert(subscription_sets(self.subscriptions@) =~= o.remove(stream_id));
                    } else {
                        assert(subscription_sets(self.subscriptions@) =~= o.insert(stream_id, o[stream_id].remove(user_id)));
                    }
                }
            },
            None => {
                assert(subscription_sets(self.subscriptions@) =~= subscription_sets(old(self).subscriptions@));
            },
        }
    }

    /// A room is empty once nobody is in it and nothing is published.
    pub fn is_empty(&self) -> (empty: bool)
        ensures
            empty == (self@.participants.is_empty() && self@.streams.dom().is_empty()),
    {
        let r = self.participants.is_empty() && self.published_streams.is_empty();
        proof {
            if self@.streams.dom().is_empty() {
                assert(self@.streams.dom() =~= Set::<StreamId>::empty());
            }
            if self@.participants.is_empty() {
                assert(self@.participants =~= Set::<UserId>::empty());
            }
        }
        r
    }
}

} // verus!
