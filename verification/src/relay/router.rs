//! Per-viewer egress queues: each viewer of a stream has its own media-time
//! budget, and a slow viewer loses packets without holding up the others.

use std::collections::{BTreeMap, BTreeSet, VecDeque};
use vstd::prelude::*;

use crate::protocol::control::{StreamId, UserId};
use crate::protocol::frame::PacketView;
use crate::protocol::packet::{spec_has_flag, MediaPacket, PacketFlags};
use crate::protocol::stats::QueueStats;
use crate::relay::keys::{map_keys_u64, strictly_increasing_u64};
use crate::relay::metrics::sat_add_u64;

verus! {

broadcast use {vstd::std_specs::btree::group_btree_axioms, vstd::laws_cmp::group_laws_cmp};

#[derive(Debug, Clone, Copy, PartialEq, Eq, Structural)]
pub enum EnqueueDecision {
    Enqueue,
    DropForViewer,
}

/// A queue over its media-time budget takes no more packets.
pub fn decide_enqueue(queue: QueueStats, queue_budget_ms: u16) -> (decision: EnqueueDecision)
    ensures
        decision == if queue.queued_media_ms > queue_budget_ms {
            EnqueueDecision::DropForViewer
        } else {
            EnqueueDecision::Enqueue
        },
{
    if queue.is_over_budget(queue_budget_ms) {
        EnqueueDecision::DropForViewer
    } else {
        EnqueueDecision::Enqueue
    }
}

#[derive(Debug)]
struct QueuedPacket {
    packet: MediaPacket,
    media_duration_ms: u16,
}

/// One viewer's queue of packets waiting to go out.
#[derive(Debug)]
pub struct ViewerQueue {
    viewer_id: UserId,
    queued_packets: VecDeque<QueuedPacket>,
    queued_media_ms: u16,
    queue_budget_ms: u16,
    received_packets: u64,
    dropped_packets: u64,
    dropped_frames: u64,
}

pub struct ViewerQueueView {
    pub viewer_id: UserId,
    /// The queued packets, oldest first, each with its media duration.
    pub packets: Seq<(PacketView, u16)>,
    pub queued_media_ms: u16,
    pub queue_budget_ms: u16,
    pub received_packets: u64,
    pub dropped_packets: u64,
    pub dropped_frames: u64,
}

/// The media time of queued packets.
pub open spec fn total_duration(packets: Seq<(PacketView, u16)>) -> int
    decreases packets.len(),
{
    if packets.len() == 0 {
        0
    } else {
        packets[0].1 + total_duration(packets.drop_first())
    }
}

pub proof fn lemma_total_duration_push(packets: Seq<(PacketView, u16)>, p: (PacketView, u16))
    ensures
        total_duration(packets.push(p)) == total_duration(packets) + p.1,
    decreases packets.len(),
{
    let pushed = packets.push(p);
    if packets.len() > 0 {
        assert(pushed.drop_first() =~= packets.drop_first().push(p));
        lemma_total_duration_push(packets.drop_first(), p);
        assert(pushed[0] == packets[0]);
        assert(total_duration(pushed) == pushed[0].1 + total_duration(pushed.drop_first()));
    } else {
        assert(pushed.drop_first() =~= Seq::<(PacketView, u16)>::empty());
        assert(total_duration(pushed.drop_first()) == 0);
        assert(pushed[0] == p);
        assert(total_duration(pushed) == pushed[0].1 + total_duration(pushed.drop_first()));
    }
}

pub proof fn lemma_total_duration_nonneg(packets: Seq<(PacketView, u16)>)
    ensures
        total_duration(packets) >= 0,
    decreases packets.len(),
{
    if packets.len() > 0 {
        lemma_total_duration_nonneg(packets.drop_first());
    }
}

spec fn queued_views(q: Seq<QueuedPacket>) -> Seq<(PacketView, u16)> {
    q.map_values(|e: QueuedPacket| (e.packet@, e.media_duration_ms))
}

impl View for ViewerQueue {
    type V = ViewerQueueView;

    closed spec fn view(&self) -> ViewerQueueView {
        ViewerQueueView {
            viewer_id: self.viewer_id,
            packets: queued_views(self.queued_packets@),
            queued_media_ms: self.queued_media_ms,
            queue_budget_ms: self.queue_budget_ms,
            received_packets: self.received_packets,
            dropped_packets: self.dropped_packets,
            dropped_frames: self.dropped_frames,
        }
    }
}

impl ViewerQueueView {
    /// The queued media time is what the packets add up to, within budget.
    pub open spec fn valid(self) -> bool {
        &&& self.queued_media_ms == total_duration(self.packets)
        &&& self.queued_media_ms <= self.queue_budget_ms
    }

    /// Whether a packet of `duration_ms` fits the budget.
    pub open spec fn fits(self, duration_ms: u16) -> bool {
        self.queued_media_ms + duration_ms <= self.queue_budget_ms
    }

    /// The queue after offering it a packet: queued when it fits, otherwise
    /// counted as dropped (and as a dropped frame when it ends one).
    pub open spec fn offered(self, packet: PacketView, duration_ms: u16) -> ViewerQueueView {
        if self.fits(duration_ms) {
            ViewerQueueView {
                packets: self.packets.push((packet, duration_ms)),
                queued_media_ms: (self.queued_media_ms + duration_ms) as u16,
                received_packets: sat_add_u64(self.received_packets as int, 1),
                ..self
            }
        } else {
            ViewerQueueView {
                dropped_packets: sat_add_u64(self.dropped_packets as int, 1),
                dropped_frames: if spec_has_flag(packet.0.flags.0, PacketFlags::END_OF_FRAME) {
                    sat_add_u64(self.dropped_frames as int, 1)
                } else {
                    self.dropped_frames
                },
                ..self
            }
        }
    }
}

impl ViewerQueue {
    pub open spec fn wf(&self) -> bool {
        self@.valid()
    }

    pub fn new(viewer_id: UserId, queue_budget_ms: u16) -> (queue: ViewerQueue)
        ensures
            queue.wf(),
            queue@ == (ViewerQueueView {
                viewer_id,
                packets: Seq::empty(),
                queued_media_ms: 0,
                queue_budget_ms,
                received_packets: 0,
                dropped_packets: 0,
                dropped_frames: 0,
            }),
    {
        let queue = ViewerQueue {
            viewer_id,
            queued_packets: VecDeque::new(),
            queued_media_ms: 0,
            queue_budget_ms,
            received_packets: 0,
            dropped_packets: 0,
            dropped_frames: 0,
        };
        assert(queue@.packets =~= Seq::<(PacketView, u16)>::empty());
        queue
    }

    pub fn viewer_id(&self) -> (viewer_id: UserId)
        ensures
            viewer_id == self@.viewer_id,
    {
        self.viewer_id
    }

    /// Queues the packet when its media time fits the budget; otherwise
    /// drops it for this viewer.
    pub fn enqueue(&mut self, packet: MediaPacket, media_duration_ms: u16) -> (decision:
        EnqueueDecision)
        requires
            old(self).wf(),
        ensures
            final(self).wf(),
            final(self)@ == old(self)@.offered(packet@, media_duration_ms),
            decision == if old(self)@.fits(media_duration_ms) {
                EnqueueDecision::Enqueue
            } else {
                EnqueueDecision::DropForViewer
            },
    {
        let total = self.queued_media_ms as u32 + media_duration_ms as u32;
        if total > self.queue_budget_ms as u32 {
            self.dropped_packets = self.dropped_packets.saturating_add(1);
            if packet.header.flags.contains(PacketFlags::END_OF_FRAME) {
                self.dropped_frames = self.dropped_frames.saturating_add(1);
            }
            return EnqueueDecision::DropForViewer;
        }
        let ghost before = self.queued_packets@;
        let ghost view = (packet@, media_duration_ms);
        self.received_packets = self.received_packets.saturating_add(1);
        self.queued_media_ms = total as u16;
        self.queued_packets.push_back(QueuedPacket { packet, media_duration_ms });
        proof {
            assert(queued_views(self.queued_packets@) =~= queued_views(before).push(view));
            lemma_total_duration_push(queued_views(before), view);
        }
        EnqueueDecision::Enqueue
    }

    /// Takes the oldest queued packet, releasing its media time.
    pub fn drain_one(&mut self) -> (packet: Option<MediaPacket>)
        requires
            old(self).wf(),
        ensures
            final(self).wf(),
            old(self)@.packets.len() == 0 ==> packet is None && final(self)@ == old(self)@,
            old(self)@.packets.len() > 0 ==> {
                &&& packet matches Some(p) && p@ == old(self)@.packets[0].0
                &&& final(self)@ == (ViewerQueueView {
                    packets: old(self)@.packets.drop_first(),
                    queued_media_ms: (old(self)@.queued_media_ms - old(self)@.packets[0].1) as u16,
                    ..old(self)@
                })
            },
    {
        let ghost before = self.queued_packets@;
        match self.queued_packets.pop_front() {
            Some(queued) => {
                proof {
                    assert(queued_views(self.queued_packets@) =~= queued_views(before).drop_first());
                    lemma_total_duration_nonneg(queued_views(before).drop_first());
                }
                self.queued_media_ms = self.queued_media_ms - queued.media_duration_ms;
                Some(queued.packet)
            },
            None => None,
        }
    }

    pub fn stats(&self) -> (stats: QueueStats)
        ensures
            stats == (QueueStats {
                queued_packets: self@.packets.len() as u32,
                queued_media_ms: self@.queued_media_ms,
                dropped_packets: self@.dropped_packets,
                dropped_frames: self@.dropped_frames,
            }),
    {
        QueueStats {
            queued_packets: self.queued_packets.len() as u32,
            queued_media_ms: self.queued_media_ms,
            dropped_packets: self.dropped_packets,
            dropped_frames: self.dropped_frames,
        }
    }

    pub fn received_packets(&self) -> (received: u64)
        ensures
            received == self@.received_packets,
    {
        self.received_packets
    }
}

/// `BTreeMap::get_mut`: a mutable reference to the queue kept under
/// `viewer_id`, when there is one; the map afterwards holds whatever the
/// reference was left pointing at. Trusted: the call is std's.
#[verifier::external_body]
fn viewer_entry_mut(viewers: &mut BTreeMap<UserId, ViewerQueue>, viewer_id: UserId) -> (entry:
    Option<&mut ViewerQueue>)
    ensures
        match entry {
            Some(q) => {
                &&& old(viewers)@.contains_key(viewer_id)
                &&& *q == old(viewers)@[viewer_id]
                &&& final(viewers)@ == old(viewers)@.insert(viewer_id, *final(q))
            },
            None => !old(viewers)@.contains_key(viewer_id) && final(viewers)@ == old(viewers)@,
        },
{
    viewers.get_mut(&viewer_id)
}

/// The viewers of one stream and their queues.
#[derive(Debug)]
pub struct StreamFanout {
    stream_id: StreamId,
    viewers: BTreeMap<UserId, ViewerQueue>,
}

pub struct StreamFanoutView {
    pub stream_id: StreamId,
    pub viewers: Map<UserId, ViewerQueueView>,
}

pub open spec fn queue_views(m: Map<UserId, ViewerQueue>) -> Map<UserId, ViewerQueueView> {
    Map::new(|u: UserId| m.dom().contains(u), |u: UserId| m[u]@)
}

impl View for StreamFanout {
    type V = StreamFanoutView;

    closed spec fn view(&self) -> StreamFanoutView {
        StreamFanoutView { stream_id: self.stream_id, viewers: queue_views(self.viewers@) }
    }
}

/// What one fanned-out packet did: the viewers it was queued for and those
/// it was dropped for.
#[derive(Debug, Clone, PartialEq, Eq)]
pub struct FanoutSummary {
    pub stream_id: StreamId,
    pub delivered_to: BTreeSet<UserId>,
    pub dropped_for: BTreeSet<UserId>,
}

impl StreamFanoutView {
    /// Every queue is valid and keyed by its viewer.
    pub open spec fn valid(self) -> bool {
        forall|u: UserId| #[trigger]
            self.viewers.contains_key(u) ==> self.viewers[u].valid() && self.viewers[u].viewer_id
                == u
    }
}

impl StreamFanout {
    pub open spec fn wf(&self) -> bool {
        self@.valid()
    }

    pub fn new(stream_id: StreamId) -> (fanout: StreamFanout)
        ensures
            fanout.wf(),
            fanout@.stream_id == stream_id,
            fanout@.viewers == Map::<UserId, ViewerQueueView>::empty(),
    {
        let fanout = StreamFanout { stream_id, viewers: BTreeMap::new() };
        assert(fanout@.viewers =~= Map::<UserId, ViewerQueueView>::empty());
        fanout
    }

    /// Adds a viewer with an empty queue; a viewer already there keeps its
    /// queue and budget.
    pub fn add_viewer(&mut self, viewer_id: UserId, queue_budget_ms: u16)
        requires
            old(self).wf(),
        ensures
            final(self).wf(),
            final(self)@.stream_id == old(self)@.stream_id,
            old(self)@.viewers.contains_key(viewer_id) ==> final(self)@.viewers == old(self)@.viewers,
            !old(self)@.viewers.contains_key(viewer_id) ==> final(self)@.viewers == old(self)@.viewers.insert(
                viewer_id,
                ViewerQueueView {
                    viewer_id,
                    packets: Seq::empty(),
                    queued_media_ms: 0,
                    queue_budget_ms,
                    received_packets: 0,
                    dropped_packets: 0,
                    dropped_frames: 0,
                },
            ),
    {
        if !self.viewers.contains_key(&viewer_id) {
            let queue = ViewerQueue::new(viewer_id, queue_budget_ms);
            self.viewers.insert(viewer_id, queue);
            assert(self@.viewers =~= old(self)@.viewers.insert(viewer_id, queue@));
        }
    }

    pub fn remove_viewer(&mut self, viewer_id: UserId)
        requires
            old(self).wf(),
        ensures
            final(self).wf(),
            final(self)@.stream_id == old(self)@.stream_id,
            final(self)@.viewers == old(self)@.viewers.remove(viewer_id),
    {
        self.viewers.remove(&viewer_id);
        assert(self@.viewers =~= old(self)@.viewers.remove(viewer_id));
    }

    /// Offers the packet to every viewer's queue on its own: each viewer
    /// queues it or drops it by its own budget alone.
    pub fn fanout(&mut self, packet: MediaPacket, media_duration_ms: u16) -> (summary:
        FanoutSummary)
        requires
            old(self).wf(),
        ensures
            final(self).wf(),
            final(self)@.stream_id == old(self)@.stream_id,
            final(self)@.viewers == Map::new(
                |u: UserId| old(self)@.viewers.contains_key(u),
                |u: UserId| old(self)@.viewers[u].offered(packet@, media_duration_ms),
            ),
            summary.stream_id == old(self)@.stream_id,
            summary.delivered_to@ == Set::new(
                |u: UserId|
                    old(self)@.viewers.contains_key(u) && old(self)@.viewers[u].fits(
                        media_duration_ms,
                    ),
            ),
            summary.dropped_for@ == Set::new(
                |u: UserId|
                    old(self)@.viewers.contains_key(u) && !old(self)@.viewers[u].fits(
                        media_duration_ms,
                    ),
            ),
    {
        let ghost v0 = self@.viewers;
        let keys = map_keys_u64(&self.viewers);
        let mut delivered_to: BTreeSet<UserId> = BTreeSet::new();
        let mut dropped_for: BTreeSet<UserId> = BTreeSet::new();
        let mut i: usize = 0;
        while i < keys.len()
            invariant
                0 <= i <= keys@.len(),
                keys@.to_set() == v0.dom(),
                strictly_increasing_u64(keys@),
                self@.stream_id == old(self)@.stream_id,
                self@.viewers.dom() == v0.dom(),
                forall|u: UserId| #[trigger]
                    self@.viewers.contains_key(u) ==> self@.viewers[u].valid() && self@.viewers[u].viewer_id == u,
                forall|m: int|
                    0 <= m < i ==> #[trigger] self@.viewers[keys@[m]] == v0[keys@[m]].offered(
                        packet@,
                        media_duration_ms,
                    ),
                forall|m: int|
                    i <= m < keys@.len() ==> #[trigger] self@.viewers[keys@[m]] == v0[keys@[m]],
                forall|u: UserId|
                    #[trigger] delivered_to@.contains(u) <==> (keys@.subrange(0, i as int).contains(u)
                        && v0[u].fits(media_duration_ms)),
                forall|u: UserId|
                    #[trigger] dropped_for@.contains(u) <==> (keys@.subrange(0, i as int).contains(u)
                        && !v0[u].fits(media_duration_ms)),
            decreases keys@.len() - i,
        {
            let k = keys[i];
            assert(keys@.to_set().contains(k));
            let ghost before = self@.viewers;
            proof {
                crate::relay::keys::lemma_prefix_step(keys@, i as int);
                crate::relay::keys::lemma_increasing_not_in_prefix_u64(keys@, i as int);
                assert(before[k] == v0[k]);
            }
            match self.viewers.remove(&k) {
                Some(mut queue) => {
                    let decision = queue.enqueue(packet.duplicate(), media_duration_ms);
                    self.viewers.insert(k, queue);
                    match decision {
                        EnqueueDecision::Enqueue => {
                            delivered_to.insert(k);
                        },
                        EnqueueDecision::DropForViewer => {
                            dropped_for.insert(k);
                        },
                    }
                    proof {
                        assert(self@.viewers =~= before.insert(k, v0[k].offered(packet@, media_duration_ms)));
                        assert forall|m: int| 0 <= m < i + 1 implies #[trigger] self@.viewers[keys@[m]] == v0[keys@[m]].offered(packet@, media_duration_ms) by {
                            if m < i {
                                assert(keys@[m] < keys@[i as int]);
                            }
                        }
                        assert forall|m: int| i + 1 <= m < keys@.len() implies #[trigger] self@.viewers[keys@[m]] == v0[keys@[m]] by {
                            assert(keys@[i as int] < keys@[m]);
                        }
                    }
                },
                None => {},
            }
            i += 1;
        }
        proof {
            assert(keys@.subrange(0, keys@.len() as int) =~= keys@);
            assert forall|u: UserId| #[trigger] v0.contains_key(u) implies keys@.contains(u) by {
                assert(keys@.to_set().contains(u));
            }
            let target = Map::new(
                |u: UserId| v0.contains_key(u),
                |u: UserId| v0[u].offered(packet@, media_duration_ms),
            );
            assert forall|u: UserId| #[trigger] v0.contains_key(u) implies self@.viewers[u] == target[u] by {
                let m = choose|m: int| 0 <= m < keys@.len() && keys@[m] == u;
                assert(self@.viewers[keys@[m]] == v0[keys@[m]].offered(packet@, media_duration_ms));
            }
            assert(self@.viewers =~= target);
            assert(delivered_to@ =~= Set::new(|u: UserId| v0.contains_key(u) && v0[u].fits(media_duration_ms)));
            assert(dropped_for@ =~= Set::new(|u: UserId| v0.contains_key(u) && !v0[u].fits(media_duration_ms)));
        }
        FanoutSummary { stream_id: self.stream_id, delivered_to, dropped_for }
    }

    pub fn viewer_queue(&self, viewer_id: UserId) -> (queue: Option<&ViewerQueue>)
        ensures
            match queue {
                Some(q) => self@.viewers.contains_key(viewer_id) && q@ == self@.viewers[viewer_id],
                None => !self@.viewers.contains_key(viewer_id),
            },
    {
        self.viewers.get(&viewer_id)
    }

    /// The viewer's queue, to drain or refill; the fanout afterwards holds
    /// the queue as it was left.
    pub fn viewer_queue_mut(&mut self, viewer_id: UserId) -> (queue: Option<&mut ViewerQueue>)
        requires
            old(self).wf(),
        ensures
            match queue {
                Some(q) => {
                    &&& old(self)@.viewers.contains_key(viewer_id)
                    &&& q@ == old(self)@.viewers[viewer_id]
                    &&& final(self)@.stream_id == old(self)@.stream_id
                    &&& final(self)@.viewers == old(self)@.viewers.insert(viewer_id, final(q)@)
                },
                None => !old(self)@.viewers.contains_key(viewer_id) && final(self)@ == old(self)@,
            },
    {
        let entry = viewer_entry_mut(&mut self.viewers, viewer_id);
        entry
    }
}

} // verus!
