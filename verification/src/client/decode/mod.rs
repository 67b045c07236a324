//! Turning received packets back into frames: a buffer of incomplete frames
//! bounded in count and age, and the decoded picture types.

pub mod h264;

use std::collections::BTreeMap;
use vstd::prelude::*;

use crate::protocol::frame::{
    packet_views, reassemble_frame, spec_reassemble, EncodedFrame, FrameReassemblyError,
    FrameView, PacketView,
};
use crate::protocol::packet::MediaPacket;
use crate::relay::keys::{lemma_increasing_not_in_prefix_u32, lemma_prefix_step, map_keys_u32, strictly_increasing_u32};

verus! {

broadcast use {vstd::std_specs::btree::group_btree_axioms, vstd::laws_cmp::group_laws_cmp, vstd::set::group_set_axioms};

#[derive(Debug, Clone, PartialEq, Eq)]
pub struct DecodedFrame {
    pub frame_id: u32,
    pub width: u32,
    pub height: u32,
    pub pixel_format: DecodedPixelFormat,
    pub pixels: Vec<u8>,
}

#[derive(Debug, Clone, Copy, PartialEq, Eq, Structural)]
pub enum DecodedPixelFormat {
    Bgra8,
}

pub const MAX_PENDING_FRAMES: usize = 64;
pub const MAX_FRAME_AGE_FRAMES: u32 = 64;

/// Why a packet could not be taken into the buffer.
#[derive(Debug, Clone, Copy, PartialEq, Eq, Structural)]
pub enum ReassemblyError {
    DuplicateFragment { fragment_index: u16, frame_id: u32 },
    Reassembly(FrameReassemblyError),
}

/// How far `newest` is past `frame_id`, counting modulo 2^32.
pub open spec fn frame_distance(frame_id: u32, newest: u32) -> int {
    if newest >= frame_id {
        newest - frame_id
    } else {
        newest + 0x1_0000_0000 - frame_id
    }
}

/// A frame more than `max_age` frames behind the newest (and not so far
/// that it is really ahead) is stale.
pub open spec fn older_than_window(frame_id: u32, newest: u32, max_age: u32) -> bool {
    frame_distance(frame_id, newest) > max_age && frame_distance(frame_id, newest) < u32::MAX / 2
}

/// Staleness by frame id, counted modulo 2^32: a frame is stale exactly
/// when the newest id is more than `max_age` frames past it, and by less
/// than half the id space; so the newest frame itself, the frames inside the
/// window, and every frame up to half the id space ahead of the newest are
/// never stale.
pub proof fn law_stale_means_behind_the_window(frame_id: u32, newest: u32, max_age: u32)
    ensures
        older_than_window(frame_id, newest, max_age) <==> (max_age < (newest as int - frame_id as int)
            % 0x1_0000_0000 && (newest as int - frame_id as int) % 0x1_0000_0000 < 0x7fff_ffff),
        (frame_id as int - newest as int) % 0x1_0000_0000 <= 0x8000_0001 ==> !older_than_window(
            frame_id,
            newest,
            max_age,
        ),
        (newest as int - frame_id as int) % 0x1_0000_0000 <= max_age ==> !older_than_window(
            frame_id,
            newest,
            max_age,
        ),
{
    let m: int = 0x1_0000_0000;
    let d = newest as int - frame_id as int;
    if d >= 0 {
        assert(d % m == d) by {
            vstd::arithmetic::div_mod::lemma_small_mod(d as nat, m as nat);
        }
        if d == 0 {
            assert((frame_id as int - newest as int) % m == 0);
        } else {
            assert((-d) % m == m - d) by {
                vstd::arithmetic::div_mod::lemma_mod_add_multiples_vanish(-d, m);
                vstd::arithmetic::div_mod::lemma_small_mod((m - d) as nat, m as nat);
            }
        }
    } else {
        assert(d % m == d + m) by {
            vstd::arithmetic::div_mod::lemma_mod_add_multiples_vanish(d, m);
            vstd::arithmetic::div_mod::lemma_small_mod((d + m) as nat, m as nat);
        }
        assert((-d) % m == -d) by {
            vstd::arithmetic::div_mod::lemma_small_mod((-d) as nat, m as nat);
        }
    }
}

pub fn frame_is_older_than_window(frame_id: u32, newest_frame_id: u32, max_frame_age_frames: u32) -> (older: bool)
    ensures
        older == older_than_window(frame_id, newest_frame_id, max_frame_age_frames),
{
    let distance: u32 = if newest_frame_id >= frame_id {
        newest_frame_id - frame_id
    } else {
        ((newest_frame_id as u64 + 0x1_0000_0000u64) - frame_id as u64) as u32
    };
    distance > max_frame_age_frames && distance < u32::MAX / 2
}

#[derive(Debug)]
struct PendingFrame {
    packets: Vec<MediaPacket>,
}

/// Incomplete frames by id, each with the packets received so far.
#[derive(Debug)]
pub struct FrameReassemblyBuffer {
    pending: BTreeMap<u32, PendingFrame>,
    max_pending_frames: usize,
    max_frame_age_frames: u32,
}

pub struct ReassemblyView {
    pub pending: Map<u32, Seq<PacketView>>,
    pub max_pending_frames: nat,
    pub max_frame_age_frames: u32,
}

spec fn pending_views(m: Map<u32, PendingFrame>) -> Map<u32, Seq<PacketView>> {
    Map::new(|k: u32| m.dom().contains(k), |k: u32| packet_views(m[k].packets@))
}

impl View for FrameReassemblyBuffer {
    type V = ReassemblyView;

    closed spec fn view(&self) -> ReassemblyView {
        ReassemblyView {
            pending: pending_views(self.pending@),
            max_pending_frames: self.max_pending_frames as nat,
            max_frame_age_frames: self.max_frame_age_frames,
        }
    }
}

/// The smallest frame id pending.
pub open spec fn oldest_pending(m: Map<u32, Seq<PacketView>>) -> u32 {
    choose|k: u32| m.contains_key(k) && forall|j: u32| m.contains_key(j) ==> k <= j
}

/// The pending frames less the stale ones.
pub open spec fn without_stale(m: Map<u32, Seq<PacketView>>, newest: u32, max_age: u32) -> Map<u32, Seq<PacketView>> {
    Map::new(|k: u32| m.contains_key(k) && !older_than_window(k, newest, max_age), |k: u32| m[k])
}

pub open spec fn stale_ids(m: Map<u32, Seq<PacketView>>, newest: u32, max_age: u32) -> Set<u32> {
    Set::new(|k: u32| m.contains_key(k) && older_than_window(k, newest, max_age))
}

/// Whether, once stale frames are gone, a new frame finds the buffer full.
pub open spec fn needs_room(v: ReassemblyView, frame_id: u32) -> bool {
    let p1 = without_stale(v.pending, frame_id, v.max_frame_age_frames);
    !p1.contains_key(frame_id) && p1.len() >= v.max_pending_frames
}

/// The pending frames once stale ones went and, when a new frame needs
/// room, the oldest one.
pub open spec fn room_made(v: ReassemblyView, frame_id: u32) -> Map<u32, Seq<PacketView>> {
    let p1 = without_stale(v.pending, frame_id, v.max_frame_age_frames);
    if needs_room(v, frame_id) {
        p1.remove(oldest_pending(p1))
    } else {
        p1
    }
}

/// How many incomplete frames making room dropped.
pub open spec fn room_dropped(v: ReassemblyView, frame_id: u32) -> nat {
    let d1 = stale_ids(v.pending, frame_id, v.max_frame_age_frames).len();
    if needs_room(v, frame_id) {
        d1 + 1
    } else {
        d1
    }
}

/// The packets already held for the packet's frame once room is made.
pub open spec fn existing_packets(v: ReassemblyView, packet: PacketView) -> Seq<PacketView> {
    let p2 = room_made(v, packet.0.frame_id);
    if p2.contains_key(packet.0.frame_id) {
        p2[packet.0.frame_id]
    } else {
        Seq::empty()
    }
}

/// Whether the packet's fragment is already held.
pub open spec fn is_duplicate(v: ReassemblyView, packet: PacketView) -> bool {
    exists|j: int|
        0 <= j < existing_packets(v, packet).len() && #[trigger] existing_packets(v, packet)[j].0.fragment_index
            == packet.0.fragment_index
}

/// What taking in a packet does: stale frames go, then the oldest frame if
/// a new one needs room; a repeated fragment is refused; the packet is
/// added; a frame with all its fragments leaves the buffer reassembled.
pub open spec fn push_outcome(
    v: ReassemblyView,
    packet: PacketView,
    w: ReassemblyView,
    result: Result<ReassemblyOutcome, ReassemblyError>,
) -> bool {
    let frame_id = packet.0.frame_id;
    let p2 = room_made(v, frame_id);
    let dropped = room_dropped(v, frame_id);
    let existing = existing_packets(v, packet);
    let packets = existing.push(packet);
    &&& w.max_pending_frames == v.max_pending_frames
    &&& w.max_frame_age_frames == v.max_frame_age_frames
    &&& if is_duplicate(v, packet) {
        &&& result == Err::<ReassemblyOutcome, ReassemblyError>(
            ReassemblyError::DuplicateFragment {
                fragment_index: packet.0.fragment_index,
                frame_id,
            },
        )
        &&& w.pending == p2.insert(frame_id, existing)
    } else if packets.len() != packet.0.fragment_count {
        &&& result matches Ok(outcome) && outcome.frame is None && outcome.dropped_frames == dropped
        &&& w.pending == p2.insert(frame_id, packets)
    } else {
        &&& w.pending == p2.remove(frame_id)
        &&& match spec_reassemble(packets) {
            Ok(frame) => result matches Ok(outcome) && outcome.frame matches Some(f) && f@ == frame
                && outcome.dropped_frames == dropped,
            Err(e) => result == Err::<ReassemblyOutcome, ReassemblyError>(ReassemblyError::Reassembly(e)),
        }
    }
}

#[derive(Debug, Clone, PartialEq, Eq)]
pub struct ReassemblyOutcome {
    pub frame: Option<EncodedFrame>,
    pub dropped_frames: u64,
}

impl FrameReassemblyBuffer {
    /// At least one frame may be pending, and no more than the limit are.
    pub open spec fn wf(&self) -> bool {
        &&& self@.max_pending_frames >= 1
        &&& self@.max_frame_age_frames >= 1
        &&& self@.pending.len() <= self@.max_pending_frames
        &&& self@.pending.dom().finite()
    }

    /// Up to 64 pending frames, none more than 64 frames old.
    pub fn new() -> (buffer: FrameReassemblyBuffer)
        ensures
            buffer.wf(),
            buffer@.pending == Map::<u32, Seq<PacketView>>::empty(),
            buffer@.max_pending_frames == MAX_PENDING_FRAMES,
            buffer@.max_frame_age_frames == MAX_FRAME_AGE_FRAMES,
    {
        FrameReassemblyBuffer::with_limits(MAX_PENDING_FRAMES, MAX_FRAME_AGE_FRAMES)
    }

    /// Limits of zero count as one.
    pub fn with_limits(max_pending_frames: usize, max_frame_age_frames: u32) -> (buffer: FrameReassemblyBuffer)
        ensures
            buffer.wf(),
            buffer@.pending == Map::<u32, Seq<PacketView>>::empty(),
            buffer@.max_pending_frames == if max_pending_frames == 0 { 1 } else { max_pending_frames as nat },
            buffer@.max_frame_age_frames == if max_frame_age_frames == 0 { 1 } else { max_frame_age_frames },
    {
        let buffer = FrameReassemblyBuffer {
            pending: BTreeMap::new(),
            max_pending_frames: if max_pending_frames == 0 { 1 } else { max_pending_frames },
            max_frame_age_frames: if max_frame_age_frames == 0 { 1 } else { max_frame_age_frames },
        };
        assert(buffer@.pending =~= Map::<u32, Seq<PacketView>>::empty());
        buffer
    }

    pub fn pending_frames(&self) -> (count: usize)
        ensures
            count == self@.pending.len(),
    {
        assert(self@.pending.dom() =~= self.pending@.dom());
        self.pending.len()
    }

    /// Pending frames times the frame interval, held at `u16::MAX`.
    pub fn estimated_jitter_ms(&self, frame_interval_ms: u16) -> (jitter: u16)
        ensures
            jitter == ({
                let pending = if self@.pending.len() > u16::MAX { (self@.pending.len() % 65536) as int } else { self@.pending.len() as int };
                if pending * frame_interval_ms > u16::MAX { u16::MAX as int } else { pending * frame_interval_ms }
            }),
    {
        let len = self.pending.len();
        assert(self@.pending.dom() =~= self.pending@.dom());
        let pending: u16 = if len > u16::MAX as usize { (len % 65536) as u16 } else { len as u16 };
        assert((pending as int) * (frame_interval_ms as int) <= 65535 * 65535) by (nonlinear_arith);
        let product = pending as u32 * frame_interval_ms as u32;
        if product > u16::MAX as u32 {
            u16::MAX
        } else {
            product as u16
        }
    }

    /// Drops pending frames too far behind `newest_frame_id`; gives how many.
    fn evict_stale_frames(&mut self, newest_frame_id: u32) -> (dropped: u64)
        requires
            old(self).wf(),
        ensures
            final(self).wf(),
            final(self)@.pending == without_stale(old(self)@.pending, newest_frame_id, old(self)@.max_frame_age_frames),
            final(self)@.max_pending_frames == old(self)@.max_pending_frames,
            final(self)@.max_frame_age_frames == old(self)@.max_frame_age_frames,
            dropped == stale_ids(old(self)@.pending, newest_frame_id, old(self)@.max_frame_age_frames).len(),
            dropped + final(self)@.pending.len() == old(self)@.pending.len(),
    {
        let ghost v0 = self@.pending;
        let age = self.max_frame_age_frames;
        let keys = map_keys_u32(&self.pending);
        let mut stale: Vec<u32> = Vec::new();
        let mut i: usize = 0;
        while i < keys.len()
            invariant
                0 <= i <= keys@.len(),
                keys@.to_set() == v0.dom(),
                strictly_increasing_u32(keys@),
                strictly_increasing_u32(stale@),
                forall|m: int| 0 <= m < stale@.len() ==> keys@.subrange(0, i as int).contains(#[trigger] stale@[m]),
                forall|k: u32|
                    #![trigger stale@.contains(k)]
                    stale@.contains(k) <==> (keys@.subrange(0, i as int).contains(k) && older_than_window(k, newest_frame_id, age)),
            decreases keys@.len() - i,
        {
            let k = keys[i];
            let ghost old_stale = stale@;
            let older = frame_is_older_than_window(k, newest_frame_id, age);
            if older {
                stale.push(k);
            }
            proof {
                lemma_prefix_step(keys@, i as int);
                lemma_increasing_not_in_prefix_u32(keys@, i as int);
                assert forall|m: int| 0 <= m < old_stale.len() implies old_stale[m] < k by {
                    assert(keys@.subrange(0, i as int).contains(old_stale[m]));
                    let q = choose|q: int| 0 <= q < i && #[trigger] keys@.subrange(0, i as int)[q] == old_stale[m];
                    assert(keys@[q] < keys@[i as int]);
                }
                assert forall|m: int| 0 <= m < stale@.len() implies keys@.subrange(0, i + 1).contains(#[trigger] stale@[m]) by {
                    if m < old_stale.len() {
                        assert(stale@[m] == old_stale[m]);
                    }
                }
                assert forall|q: u32|
                    #![trigger stale@.contains(q)]
                    stale@.contains(q) <==> (keys@.subrange(0, i + 1).contains(q) && older_than_window(q, newest_frame_id, age)) by {
                    if older {
                        if stale@.contains(q) && q != k {
                            let m = choose|m: int| 0 <= m < stale@.len() && stale@[m] == q;
                            assert(old_stale[m] == q);
                        }
                        if old_stale.contains(q) {
                            let m = choose|m: int| 0 <= m < old_stale.len() && old_stale[m] == q;
                            assert(stale@[m] == q);
                        }
                        if q == k {
                            assert(stale@[stale@.len() - 1] == q);
                        }
                    }
                    if q != k {
                        assert(stale@.contains(q) == old_stale.contains(q));
                    }
                }
            }
            i += 1;
        }
        proof {
            assert(keys@.subrange(0, keys@.len() as int) =~= keys@);
            assert forall|k: u32| #[trigger] v0.contains_key(k) implies keys@.contains(k) by {
                assert(keys@.to_set().contains(k));
            }
            assert(stale@.to_set() =~= stale_ids(v0, newest_frame_id, age));
            assert(stale@.no_duplicates()) by {
                assert forall|a: int, b: int| 0 <= a < stale@.len() && 0 <= b < stale@.len() && a != b implies stale@[a] != stale@[b] by {
                    if a < b {
                        assert(stale@[a] < stale@[b]);
                    } else {
                        assert(stale@[b] < stale@[a]);
                    }
                }
            }
            stale@.unique_seq_to_set();
        }
        let mut j: usize = 0;
        while j < stale.len()
            invariant
                0 <= j <= stale@.len(),
                self.max_pending_frames == old(self).max_pending_frames,
                self.max_frame_age_frames == old(self).max_frame_age_frames,
                self@.pending == v0.remove_keys(stale@.subrange(0, j as int).to_set()),
            decreases stale@.len() - j,
        {
            let k = stale[j];
            let ghost before = self@.pending;
            self.pending.remove(&k);
            proof {
                assert(self@.pending =~= before.remove(k));
                lemma_prefix_step(stale@, j as int);
                assert(self@.pending =~= v0.remove_keys(stale@.subrange(0, j + 1).to_set()));
            }
            j += 1;
        }
        proof {
            assert(stale@.subrange(0, j as int) =~= stale@);
            assert(self@.pending =~= without_stale(v0, newest_frame_id, age));
            assert(self@.pending.dom().subset_of(v0.dom()));
            vstd::set_lib::lemma_len_subset(self@.pending.dom(), v0.dom());
            let st = stale_ids(v0, newest_frame_id, age);
            let kept = self@.pending.dom();
            assert(st.subset_of(v0.dom()));
            vstd::set_lib::lemma_len_subset(st, v0.dom());
            assert(st.disjoint(kept));
            vstd::set_lib::lemma_set_disjoint_lens(st, kept);
            assert(st + kept =~= v0.dom());
        }
        stale.len() as u64
    }

    /// Drops stale frames and, when `frame_id` is new and the buffer full,
    /// the oldest frame; gives how many frames went.
    fn make_room(&mut self, frame_id: u32) -> (dropped: u64)
        requires
            old(self).wf(),
        ensures
            final(self).wf(),
            final(self)@.pending == room_made(old(self)@, frame_id),
            dropped == room_dropped(old(self)@, frame_id),
            final(self)@.max_pending_frames == old(self)@.max_pending_frames,
            final(self)@.max_frame_age_frames == old(self)@.max_frame_age_frames,
            !final(self)@.pending.contains_key(frame_id) ==> final(self)@.pending.len() < final(self)@.max_pending_frames,
    {
        let ghost v0 = self@;
        let mut dropped = self.evict_stale_frames(frame_id);
        let ghost p1 = self@.pending;
        proof {
            assert(self.pending@.dom() =~= p1.dom());
        }
        if !self.pending.contains_key(&frame_id) && self.pending.len() >= self.max_pending_frames {
            let keys = map_keys_u32(&self.pending);
            assert(keys@.len() >= 1);
            let oldest = keys[0];
            proof {
                assert(keys@.to_set().contains(oldest));
                assert forall|j: u32| p1.contains_key(j) implies oldest <= j by {
                    assert(keys@.to_set().contains(j));
                    let m = choose|m: int| 0 <= m < keys@.len() && keys@[m] == j;
                    if m > 0 {
                        assert(keys@[0] < keys@[m]);
                    }
                }
                let c = oldest_pending(p1);
                assert(p1.contains_key(oldest) && forall|j: u32| p1.contains_key(j) ==> oldest <= j);
                assert(p1.contains_key(c) && forall|j: u32| p1.contains_key(j) ==> c <= j);
                assert(c <= oldest && oldest <= c);
                assert(dropped == 0);
            }
            let ghost before = self@.pending;
            self.pending.remove(&oldest);
            assert(self@.pending =~= before.remove(oldest));
            dropped = dropped + 1;
        }
        proof {
            assert(self.pending@.dom() =~= self@.pending.dom());
        }
        dropped
    }

    /// Takes in a packet and gives the frame it completes, if any, with the
    /// number of incomplete frames dropped to make room or for age.
    pub fn push_with_stats(&mut self, packet: MediaPacket) -> (result: Result<ReassemblyOutcome, ReassemblyError>)
        requires
            old(self).wf(),
        ensures
            final(self).wf(),
            push_outcome(old(self)@, packet@, final(self)@, result),
    {
        let ghost v0 = self@;
        let ghost pv = packet@;
        let frame_id = packet.header.frame_id;
        let fragment_count = packet.header.fragment_count as usize;
        let fragment_index = packet.header.fragment_index;
        let dropped = self.make_room(frame_id);
        let ghost p2 = self@.pending;
        proof {
            assert(self.pending@.dom() =~= p2.dom());
        }
        let mut entry = match self.pending.remove(&frame_id) {
            Some(pending) => pending,
            None => PendingFrame { packets: Vec::new() },
        };
        let ghost existing = packet_views(entry.packets@);
        assert(existing == if p2.contains_key(frame_id) { p2[frame_id] } else { Seq::<PacketView>::empty() });
        let ghost without = self@.pending;
        assert(without =~= p2.remove(frame_id));
        let mut i: usize = 0;
        while i < entry.packets.len()
            invariant
                0 <= i <= entry.packets@.len(),
                existing == packet_views(entry.packets@),
                pv.0.fragment_index == fragment_index,
                pv.0.frame_id == frame_id,
                pv == packet@,
                v0 == old(self)@,
                p2 == room_made(v0, frame_id),
                self@.pending == without,
                self@.max_pending_frames == v0.max_pending_frames,
                self@.max_frame_age_frames == v0.max_frame_age_frames,
                without == p2.remove(frame_id),
                existing == if p2.contains_key(frame_id) { p2[frame_id] } else { Seq::<PacketView>::empty() },
                p2.len() <= v0.max_pending_frames,
                !p2.contains_key(frame_id) ==> p2.len() < v0.max_pending_frames,
                p2.dom().finite(),
                v0.max_pending_frames >= 1,
                v0.max_frame_age_frames >= 1,
                forall|j: int| 0 <= j < i ==> #[trigger] existing[j].0.fragment_index != fragment_index,
            decreases entry.packets@.len() - i,
        {
            if entry.packets[i].header.fragment_index == fragment_index {
                assert(existing[i as int].0.fragment_index == fragment_index);
                self.pending.insert(frame_id, entry);
                proof {
                    assert(self@.pending =~= without.insert(frame_id, existing));
                    assert(self@.pending =~= p2.insert(frame_id, existing));
                    assert(self.pending@.dom() =~= self@.pending.dom());
                    assert(existing_packets(v0, pv)[i as int].0.fragment_index == pv.0.fragment_index);
                }
                return Err(ReassemblyError::DuplicateFragment { fragment_index, frame_id });
            }
            i += 1;
        }
        assert(existing_packets(v0, pv) == existing);
        assert(!is_duplicate(v0, pv));
        entry.packets.push(packet);
        assert(packet_views(entry.packets@) =~= existing.push(pv));
        if entry.packets.len() != fragment_count {
            let ghost grown = packet_views(entry.packets@);
            self.pending.insert(frame_id, entry);
            proof {
                assert(self@.pending =~= without.insert(frame_id, grown));
                assert(self@.pending =~= p2.insert(frame_id, existing.push(pv)));
                assert(self.pending@.dom() =~= self@.pending.dom());
            }
            return Ok(ReassemblyOutcome { frame: None, dropped_frames: dropped });
        }
        proof {
            assert(self.pending@.dom() =~= self@.pending.dom());
            assert(self@.pending.dom().subset_of(p2.dom()));
            vstd::set_lib::lemma_len_subset(self@.pending.dom(), p2.dom());
        }
        match reassemble_frame(entry.packets) {
            Ok(frame) => Ok(ReassemblyOutcome { frame: Some(frame), dropped_frames: dropped }),
            Err(e) => Err(ReassemblyError::Reassembly(e)),
        }
    }

    /// Takes in a packet and gives the frame it completes, if any.
    pub fn push(&mut self, packet: MediaPacket) -> (result: Result<Option<EncodedFrame>, ReassemblyError>)
        requires
            old(self).wf(),
        ensures
            final(self).wf(),
            exists|outcome: Result<ReassemblyOutcome, ReassemblyError>|
                push_outcome(old(self)@, packet@, final(self)@, outcome) && match outcome {
                    Ok(o) => result == Ok::<Option<EncodedFrame>, ReassemblyError>(o.frame),
                    Err(e) => result == Err::<Option<EncodedFrame>, ReassemblyError>(e),
                },
    {
        let outcome = self.push_with_stats(packet);
        match outcome {
            Ok(o) => Ok(o.frame),
            Err(e) => Err(e),
        }
    }
}

/// A video decoder: turns an encoded access unit into a picture, or none
/// while it has nothing to show.
pub trait VideoDecoder {
    fn decode(&mut self, encoded: &[u8]) -> Option<DecodedFrame>;
}

} // verus!
