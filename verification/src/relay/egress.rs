//! The relay's egress queues: one per subscribed viewer and stream, each
//! bounded by the same media-time budget. Forwarded packets are offered to
//! the queues of their targets; a queue that cannot take a packet within
//! its budget drops it for that viewer and stream alone.

use std::collections::BTreeMap;
use vstd::prelude::*;

use crate::protocol::control::{StreamId, UserId};
use crate::protocol::packet::{MediaPacket, PacketFlags, spec_has_flag};
use crate::protocol::frame::PacketView;
use crate::relay::router::{StreamFanout, StreamFanoutView, ViewerQueueView};

verus! {

broadcast use {vstd::std_specs::btree::group_btree_axioms, vstd::laws_cmp::group_laws_cmp};

/// The egress queues of every stream.
pub struct MediaEgress {
    budget_ms: u16,
    streams: BTreeMap<StreamId, StreamFanout>,
}

pub struct MediaEgressView {
    pub budget_ms: u16,
    pub streams: Map<StreamId, StreamFanoutView>,
}

pub open spec fn fanout_views(m: Map<StreamId, StreamFanout>) -> Map<StreamId, StreamFanoutView> {
    Map::new(|k: StreamId| m.dom().contains(k), |k: StreamId| m[k]@)
}

impl View for MediaEgress {
    type V = MediaEgressView;

    closed spec fn view(&self) -> MediaEgressView {
        MediaEgressView { budget_ms: self.budget_ms, streams: fanout_views(self.streams@) }
    }
}

/// The queue a viewer starts with: empty, with the egress budget.
pub open spec fn fresh_queue(viewer: UserId, budget_ms: u16) -> ViewerQueueView {
    ViewerQueueView {
        viewer_id: viewer,
        packets: Seq::empty(),
        queued_media_ms: 0,
        queue_budget_ms: budget_ms,
        received_packets: 0,
        dropped_packets: 0,
        dropped_frames: 0,
    }
}

/// The queues of a stream, none before the stream's first packet.
pub open spec fn stream_queues(e: MediaEgressView, stream_id: StreamId) -> Map<UserId, ViewerQueueView> {
    if e.streams.contains_key(stream_id) {
        e.streams[stream_id].viewers
    } else {
        Map::empty()
    }
}

/// A viewer's queue for a stream, a fresh one when it has none yet.
pub open spec fn queue_of(queues: Map<UserId, ViewerQueueView>, viewer: UserId, budget_ms: u16) -> ViewerQueueView {
    if queues.contains_key(viewer) {
        queues[viewer]
    } else {
        fresh_queue(viewer, budget_ms)
    }
}

/// The queues once `packet` of `duration_ms` has been offered to each of
/// `targets`.
pub open spec fn offered_to(
    queues: Map<UserId, ViewerQueueView>,
    targets: Seq<UserId>,
    packet: PacketView,
    duration_ms: u16,
    budget_ms: u16,
) -> Map<UserId, ViewerQueueView> {
    Map::new(
        |u: UserId| queues.contains_key(u) || targets.contains(u),
        |u: UserId|
            if targets.contains(u) {
                queue_of(queues, u, budget_ms).offered(packet, duration_ms)
            } else {
                queues[u]
            },
    )
}

/// How much media time a packet of a stream running at `frames_per_second`
/// stands for: a frame's duration for the packet that ends a frame, none
/// for the other fragments.
pub open spec fn spec_packet_media_ms(frames_per_second: u16, flags: u8) -> u16 {
    if spec_has_flag(flags, PacketFlags::END_OF_FRAME) && frames_per_second > 0 {
        (1000int / frames_per_second as int) as u16
    } else {
        0
    }
}

pub fn packet_media_ms(frames_per_second: u16, flags: PacketFlags) -> (duration_ms: u16)
    ensures
        duration_ms == spec_packet_media_ms(frames_per_second, flags.0),
{
    if flags.contains(PacketFlags::END_OF_FRAME) && frames_per_second > 0 {
        1000 / frames_per_second
    } else {
        0
    }
}

impl MediaEgress {
    /// Each stream's queues are those of that stream, valid, and every one
    /// has the egress budget.
    pub open spec fn wf(&self) -> bool {
        forall|s: StreamId| #[trigger] self@.streams.contains_key(s) ==> {
            &&& self@.streams[s].valid()
            &&& self@.streams[s].stream_id == s
        }
    }

    /// No queues yet; each one made will have a budget of `budget_ms`.
    pub fn new(budget_ms: u16) -> (egress: MediaEgress)
        ensures
            egress.wf(),
            egress@.budget_ms == budget_ms,
            egress@.streams == Map::<StreamId, StreamFanoutView>::empty(),
    {
        let egress = MediaEgress { budget_ms, streams: BTreeMap::new() };
        assert(egress@.streams =~= Map::<StreamId, StreamFanoutView>::empty());
        egress
    }

    pub fn budget_ms(&self) -> (budget_ms: u16)
        ensures
            budget_ms == self@.budget_ms,
    {
        self.budget_ms
    }

    /// Takes a stream's queues out, an empty set of them when it has none.
    fn take_stream(&mut self, stream_id: StreamId) -> (fanout: StreamFanout)
        requires
            old(self).wf(),
        ensures
            final(self).wf(),
            fanout.wf(),
            fanout@.stream_id == stream_id,
            fanout@.viewers == stream_queues(old(self)@, stream_id),
            final(self)@ == (MediaEgressView {
                streams: old(self)@.streams.remove(stream_id),
                ..old(self)@
            }),
    {
        let fanout = match self.streams.remove(&stream_id) {
            Some(f) => f,
            None => StreamFanout::new(stream_id),
        };
        proof {
            assert(self@.streams =~= old(self)@.streams.remove(stream_id));
            if old(self)@.streams.contains_key(stream_id) {
                assert(old(self).streams@.contains_key(stream_id));
            }
        }
        fanout
    }

    fn put_stream(&mut self, stream_id: StreamId, fanout: StreamFanout)
        requires
            old(self).wf(),
            fanout.wf(),
            fanout@.stream_id == stream_id,
        ensures
            final(self).wf(),
            final(self)@ == (MediaEgressView {
                streams: old(self)@.streams.insert(stream_id, fanout@),
                ..old(self)@
            }),
    {
        let ghost f = fanout@;
        self.streams.insert(stream_id, fanout);
        assert(self@.streams =~= old(self)@.streams.insert(stream_id, f));
    }

    /// Offers `packet`, standing for `duration_ms` of media, to the queue of
    /// each of `targets` on `stream_id`, making the queues that do not exist
    /// yet; says of each target whether its queue took the packet.
    pub fn enqueue(
        &mut self,
        stream_id: StreamId,
        targets: &Vec<UserId>,
        packet: &MediaPacket,
        duration_ms: u16,
    ) -> (queued: Vec<bool>)
        requires
            old(self).wf(),
            targets@.no_duplicates(),
        ensures
            final(self).wf(),
            final(self)@.budget_ms == old(self)@.budget_ms,
            final(self)@.streams == old(self)@.streams.insert(
                stream_id,
                StreamFanoutView {
                    stream_id,
                    viewers: offered_to(
                        stream_queues(old(self)@, stream_id),
                        targets@,
                        packet@,
                        duration_ms,
                        old(self)@.budget_ms,
                    ),
                },
            ),
            queued@.len() == targets@.len(),
            forall|i: int| 0 <= i < targets@.len() ==> #[trigger] queued@[i] == queue_of(
                stream_queues(old(self)@, stream_id),
                targets@[i],
                old(self)@.budget_ms,
            ).fits(duration_ms),
    {
        let ghost q0 = stream_queues(self@, stream_id);
        let budget = self.budget_ms;
        let mut fanout = self.take_stream(stream_id);
        let mut queued: Vec<bool> = Vec::new();
        let mut i: usize = 0;
        proof {
            assert(fanout@.viewers =~= offered_to(q0, targets@.subrange(0, 0), packet@, duration_ms, budget));
        }
        while i < targets.len()
            invariant
                0 <= i <= targets@.len(),
                targets@.no_duplicates(),
                fanout.wf(),
                fanout@.stream_id == stream_id,
                fanout@.viewers == offered_to(q0, targets@.subrange(0, i as int), packet@, duration_ms, budget),
                queued@.len() == i,
                forall|m: int| 0 <= m < i ==> #[trigger] queued@[m] == queue_of(q0, targets@[m], budget).fits(
                    duration_ms,
                ),
            decreases targets@.len() - i,
        {
            let u = targets[i];
            let ghost before = fanout@.viewers;
            let ghost pre = targets@.subrange(0, i as int);
            let ghost post = targets@.subrange(0, i + 1);
            proof {
                crate::relay::keys::lemma_prefix_step(targets@, i as int);
                assert(!pre.contains(u)) by {
                    if pre.contains(u) {
                        let m = choose|m: int| 0 <= m < pre.len() && pre[m] == u;
                        assert(targets@[m] == targets@[i as int]);
                    }
                }
                assert(before.contains_key(u) == q0.contains_key(u));
                if q0.contains_key(u) {
                    assert(before[u] == q0[u]);
                }
            }
            fanout.add_viewer(u, budget);
            let ghost start = fanout@.viewers[u];
            assert(start == queue_of(q0, u, budget));
            let fits = match fanout.viewer_queue_mut(u) {
                Some(queue) => {
                    let decision = queue.enqueue(packet.duplicate(), duration_ms);
                    match decision {
                        crate::relay::router::EnqueueDecision::Enqueue => true,
                        _ => false,
                    }
                },
                None => false,
            };
            queued.push(fits);
            proof {
                assert(fanout@.viewers =~= offered_to(q0, post, packet@, duration_ms, budget)) by {
                    assert forall|x: UserId| #[trigger] fanout@.viewers.contains_key(x) <==> (q0.contains_key(x)
                        || post.contains(x)) by {}
                    assert forall|x: UserId| #[trigger] fanout@.viewers.contains_key(x) implies fanout@.viewers[x]
                        == offered_to(q0, post, packet@, duration_ms, budget)[x] by {}
                }
            }
            i += 1;
        }
        proof {
            assert(targets@.subrange(0, targets@.len() as int) =~= targets@);
        }
        self.put_stream(stream_id, fanout);
        queued
    }

    /// Takes the oldest packet from `viewer`'s queue on `stream_id`, if it
    /// holds one.
    pub fn next_packet(&mut self, stream_id: StreamId, viewer: UserId) -> (packet: Option<MediaPacket>)
        requires
            old(self).wf(),
        ensures
            final(self).wf(),
            final(self)@.budget_ms == old(self)@.budget_ms,
            ({
                let queues = stream_queues(old(self)@, stream_id);
                if queues.contains_key(viewer) && queues[viewer].packets.len() > 0 {
                    &&& packet matches Some(p) && p@ == queues[viewer].packets[0].0
                    &&& final(self)@.streams == old(self)@.streams.insert(
                        stream_id,
                        StreamFanoutView {
                            stream_id,
                            viewers: queues.insert(
                                viewer,
                                ViewerQueueView {
                                    packets: queues[viewer].packets.drop_first(),
                                    queued_media_ms: (queues[viewer].queued_media_ms
                                        - queues[viewer].packets[0].1) as u16,
                                    ..queues[viewer]
                                },
                            ),
                        },
                    )
                } else {
                    packet is None && final(self)@.streams == old(self)@.streams
                }
            }),
    {
        if !self.streams.contains_key(&stream_id) {
            return None;
        }
        let ghost queues = stream_queues(self@, stream_id);
        let mut fanout = self.take_stream(stream_id);
        let ghost before = fanout@;
        let packet = match fanout.viewer_queue_mut(viewer) {
            Some(queue) => queue.drain_one(),
            None => None,
        };
        proof {
            if queues.contains_key(viewer) {
                assert(fanout@.viewers =~= queues.insert(viewer, fanout@.viewers[viewer]));
            } else {
                assert(fanout@.viewers =~= queues);
            }
        }
        proof {
            if !(queues.contains_key(viewer) && queues[viewer].packets.len() > 0) {
                assert(fanout@.viewers =~= queues);
                assert(old(self)@.streams.contains_key(stream_id));
                assert(fanout@ == old(self)@.streams[stream_id]);
            }
        }
        self.put_stream(stream_id, fanout);
        proof {
            if !(queues.contains_key(viewer) && queues[viewer].packets.len() > 0) {
                assert(self@.streams =~= old(self)@.streams);
            }
        }
        packet
    }

    /// Forgets every queue of `viewer`, as when their connection closes.
    pub fn remove_viewer(&mut self, viewer: UserId)
        requires
            old(self).wf(),
        ensures
            final(self).wf(),
            final(self)@.budget_ms == old(self)@.budget_ms,
            final(self)@.streams.dom() == old(self)@.streams.dom(),
            forall|s: StreamId| #[trigger] final(self)@.streams.contains_key(s) ==> final(self)@.streams[s]
                == (StreamFanoutView {
                    viewers: old(self)@.streams[s].viewers.remove(viewer),
                    ..old(self)@.streams[s]
                }),
    {
        let keys = crate::relay::keys::map_keys_u32(&self.streams);
        let ghost o = self@.streams;
        let mut i: usize = 0;
        while i < keys.len()
            invariant
                0 <= i <= keys@.len(),
                keys@.to_set() == o.dom(),
                crate::relay::keys::strictly_increasing_u32(keys@),
                self.wf(),
                self@.budget_ms == old(self)@.budget_ms,
                o == old(self)@.streams,
                self@.streams.dom() == o.dom(),
                forall|s: StreamId| #[trigger] self@.streams.contains_key(s) ==> self@.streams[s]
                    == if keys@.subrange(0, i as int).contains(s) {
                        StreamFanoutView { viewers: o[s].viewers.remove(viewer), ..o[s] }
                    } else {
                        o[s]
                    },
            decreases keys@.len() - i,
        {
            let s = keys[i];
            assert(keys@.to_set().contains(s));
            let ghost before = self@.streams;
            let mut fanout = self.take_stream(s);
            fanout.remove_viewer(viewer);
            self.put_stream(s, fanout);
            proof {
                crate::relay::keys::lemma_prefix_step(keys@, i as int);
                crate::relay::keys::lemma_increasing_not_in_prefix_u32(keys@, i as int);
                assert(self@.streams.dom() =~= o.dom());
                assert forall|x: StreamId| #[trigger] self@.streams.contains_key(x) implies self@.streams[x]
                    == if keys@.subrange(0, i + 1).contains(x) {
                        StreamFanoutView { viewers: o[x].viewers.remove(viewer), ..o[x] }
                    } else {
                        o[x]
                    } by {
                    if x == s {
                        assert(self@.streams[x].viewers =~= o[x].viewers.remove(viewer));
                    } else {
                        assert(keys@.subrange(0, i + 1).contains(x) == keys@.subrange(0, i as int).contains(x));
                    }
                }
            }
            i += 1;
        }
        proof {
            assert(keys@.subrange(0, keys@.len() as int) =~= keys@);
            assert forall|x: StreamId| #[trigger] self@.streams.contains_key(x) implies keys@.contains(x) by {
                assert(keys@.to_set().contains(x));
            }
        }
    }
}

} // verus!
