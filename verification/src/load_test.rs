//! Synthetic load on the relay's fan-out: streams of generated packets
//! offered to many viewer queues, and H.264-like sample frames split,
//! fanned out and put back together.

use vstd::prelude::*;

use crate::protocol::codec::CodecId;
use crate::protocol::control::UserId;
use crate::protocol::frame::{
    lemma_fragment_bounds, lemma_fragment_count_positive, lemma_packetize_reassemble,
    lemma_packetized_prefix_incomplete, packet_views, packetize_frame, reassemble_frame,
    spec_fragment_count, EncodedFrame, FramePacketizeError, FrameReassemblyError,
};
use crate::protocol::packet::{MediaPacket, MediaPacketHeader, PacketFlags, PacketType};
use crate::relay::router::{StreamFanout, StreamFanoutView, ViewerQueueView};

verus! {

broadcast use {vstd::std_specs::btree::group_btree_axioms, vstd::laws_cmp::group_laws_cmp, vstd::set::group_set_axioms};

/// How much load to generate.
#[derive(Debug, Clone, Copy, PartialEq, Eq, Structural)]
pub struct LoadTestArgs {
    pub publishers: u16,
    pub viewers: u16,
    pub packets: u32,
    pub media_duration_ms: u16,
    pub max_payload: usize,
    pub include_slow_viewer: bool,
}

#[derive(Debug, Clone, Copy, PartialEq, Eq, Default, Structural)]
pub struct SyntheticFanoutResult {
    pub total_delivered: u64,
    pub total_dropped: u64,
    pub slow_viewer_dropped: u64,
}

#[derive(Debug, Clone, Copy, PartialEq, Eq, Default, Structural)]
pub struct SampleForwardResult {
    pub frames: u32,
    pub fragments: u64,
    pub reassembled_frames: u64,
    pub total_delivered: u64,
    pub total_dropped: u64,
}

/// Why a sample forward run stopped.
#[derive(Debug, Clone, Copy, PartialEq, Eq, Structural)]
pub enum LoadTestError {
    Packetize(FramePacketizeError),
    Reassemble(FrameReassemblyError),
    FrameMismatch(u32),
}

/// The start of the sample access unit: SPS, PPS and IDR slice start codes.
pub open spec fn sample_h264_prefix() -> Seq<u8> {
    seq![
        0x00u8, 0x00, 0x00, 0x01, 0x67, 0x42, 0x00, 0x1f,
        0x00, 0x00, 0x00, 0x01, 0x68, 0xce, 0x06, 0xe2,
        0x00, 0x00, 0x00, 0x01, 0x65,
    ]
}

/// The sample frame's bytes: the prefix, then 4096 bytes counting up from
/// the frame id.
pub open spec fn sample_h264_bytes(frame_id: u32) -> Seq<u8> {
    sample_h264_prefix() + Seq::new(4096, |i: int| ((frame_id + i) % 256) as u8)
}

/// An H.264-like frame of stream 1; the first frame is the keyframe.
pub fn sample_h264_frame(frame_id: u32) -> (frame: EncodedFrame)
    ensures
        frame.room_stream_id == 1,
        frame.frame_id == frame_id,
        frame.media_timestamp == frame_id * 3_000,
        frame.sender_capture_time_micros == frame_id * 33_333,
        frame.sender_encode_done_time_micros == 0,
        frame.sender_send_time_micros == 0,
        frame.server_receive_time_micros == 0,
        frame.server_send_time_micros == 0,
        frame.codec == CodecId::H264,
        frame.is_keyframe == (frame_id == 1),
        frame.bytes@ == sample_h264_bytes(frame_id),
{
    let mut bytes: Vec<u8> = vec![
        0x00, 0x00, 0x00, 0x01, 0x67, 0x42, 0x00, 0x1f,
        0x00, 0x00, 0x00, 0x01, 0x68, 0xce, 0x06, 0xe2,
        0x00, 0x00, 0x00, 0x01, 0x65,
    ];
    assert(bytes@ =~= sample_h264_prefix());
    let mut idx: u32 = 0;
    while idx < 4096
        invariant
            idx <= 4096,
            bytes@ == sample_h264_prefix() + Seq::new(
                idx as nat,
                |i: int| ((frame_id + i) % 256) as u8,
            ),
        decreases 4096 - idx,
    {
        bytes.push(((frame_id as u64 + idx as u64) % 256) as u8);
        idx += 1;
        assert(bytes@ =~= sample_h264_prefix() + Seq::new(
            idx as nat,
            |i: int| ((frame_id + i) % 256) as u8,
        ));
    }
    EncodedFrame {
        room_stream_id: 1,
        frame_id,
        media_timestamp: frame_id as u64 * 3_000,
        sender_capture_time_micros: frame_id as u64 * 33_333,
        sender_encode_done_time_micros: 0,
        sender_send_time_micros: 0,
        server_receive_time_micros: 0,
        server_send_time_micros: 0,
        codec: CodecId::H264,
        is_keyframe: frame_id == 1,
        bytes,
    }
}

/// The ASCII bytes of `synthetic-stage2-payload`.
pub open spec fn synthetic_payload() -> Seq<u8> {
    seq![
        0x73u8, 0x79, 0x6e, 0x74, 0x68, 0x65, 0x74, 0x69, 0x63, 0x2d, 0x73, 0x74,
        0x61, 0x67, 0x65, 0x32, 0x2d, 0x70, 0x61, 0x79, 0x6c, 0x6f, 0x61, 0x64,
    ]
}

/// A one-packet video frame with a fixed payload.
pub fn synthetic_packet(stream_id: u32, sequence_number: u32, frame_id: u32) -> (packet: MediaPacket)
    ensures
        packet.header == (MediaPacketHeader {
            frame_id,
            flags: PacketFlags(PacketFlags::END_OF_FRAME),
            ..MediaPacketHeader::spec_new(
                PacketType::Video,
                CodecId::H264,
                stream_id,
                sequence_number,
                24,
            )
        }),
        packet.payload@ == synthetic_payload(),
{
    let payload: Vec<u8> = vec![
        0x73, 0x79, 0x6e, 0x74, 0x68, 0x65, 0x74, 0x69, 0x63, 0x2d, 0x73, 0x74,
        0x61, 0x67, 0x65, 0x32, 0x2d, 0x70, 0x61, 0x79, 0x6c, 0x6f, 0x61, 0x64,
    ];
    let mut header = MediaPacketHeader::new(
        PacketType::Video,
        CodecId::H264,
        stream_id,
        sequence_number,
        payload.len() as u16,
    );
    header.frame_id = frame_id;
    header.flags = PacketFlags::empty().with(PacketFlags::END_OF_FRAME);
    assert(0u8 | 2u8 == 2u8) by (bit_vector);
    MediaPacket { header, payload }
}

/// Ten times a media duration, held at `u16::MAX`.
pub fn saturating_times_ten(duration_ms: u16) -> (budget: u16)
    ensures
        budget == if duration_ms * 10 > u16::MAX { u16::MAX } else { (duration_ms * 10) as u16 },
{
    if duration_ms > 6553 {
        u16::MAX
    } else {
        duration_ms * 10
    }
}

/// The viewers a fan-out reached and those it dropped for split the
/// viewers between them.
proof fn lemma_split_len(dom: Set<UserId>, delivered: Set<UserId>, dropped: Set<UserId>)
    requires
        dom.finite(),
        forall|u: UserId| delivered.contains(u) ==> dom.contains(u),
        forall|u: UserId| dropped.contains(u) ==> dom.contains(u) && !delivered.contains(u),
        forall|u: UserId| dom.contains(u) ==> delivered.contains(u) || dropped.contains(u),
    ensures
        delivered.len() + dropped.len() == dom.len(),
        delivered.finite(),
        dropped.finite(),
{
    vstd::set_lib::lemma_len_subset(delivered, dom);
    vstd::set_lib::lemma_len_subset(dropped, dom);
    vstd::set_lib::lemma_set_disjoint_lens(delivered, dropped);
    assert(delivered + dropped =~= dom);
}

/// Ten times a media duration, held at `u16::MAX`.
pub open spec fn spec_times_ten(duration_ms: u16) -> u16 {
    if duration_ms * 10 > u16::MAX {
        u16::MAX
    } else {
        (duration_ms * 10) as u16
    }
}

/// The queue budget of viewer `viewer` in a fan-out run: the slow viewer,
/// when there is one, is the last and holds one packet's media time; every
/// other viewer holds ten.
pub open spec fn fanout_budget(args: LoadTestArgs, viewer: int) -> u16 {
    if args.include_slow_viewer && viewer == args.viewers {
        args.media_duration_ms
    } else {
        spec_times_ten(args.media_duration_ms)
    }
}

/// How many of `offered` packets of `duration_ms` a queue that is never
/// drained keeps within `budget_ms`.
pub open spec fn undrained_kept(offered: nat, duration_ms: u16, budget_ms: u16) -> nat {
    if duration_ms == 0 {
        offered
    } else if offered < budget_ms / duration_ms {
        offered
    } else {
        (budget_ms / duration_ms) as nat
    }
}

/// How many packets of one stream the last viewer, whom nobody drains,
/// keeps in a fan-out run.
pub open spec fn last_viewer_kept(args: LoadTestArgs) -> nat {
    undrained_kept(args.packets as nat, args.media_duration_ms, fanout_budget(args, args.viewers as int))
}

/// One more packet offered to an undrained queue holding `kept` packets:
/// it fits exactly when the count kept grows.
proof fn lemma_undrained_step(offered: nat, duration_ms: u16, budget_ms: u16)
    ensures
        undrained_kept(offered, duration_ms, budget_ms) * duration_ms <= budget_ms || duration_ms == 0,
        (undrained_kept(offered, duration_ms, budget_ms) * duration_ms + duration_ms <= budget_ms)
            ==> undrained_kept(offered + 1, duration_ms, budget_ms) == undrained_kept(offered, duration_ms, budget_ms) + 1,
        !(undrained_kept(offered, duration_ms, budget_ms) * duration_ms + duration_ms <= budget_ms)
            ==> undrained_kept(offered + 1, duration_ms, budget_ms) == undrained_kept(offered, duration_ms, budget_ms),
        (undrained_kept(offered, duration_ms, budget_ms) * duration_ms + duration_ms <= budget_ms)
            ==> undrained_kept(offered, duration_ms, budget_ms) == offered,
{
    if duration_ms > 0 {
        let d = duration_ms as int;
        let b = budget_ms as int;
        let m = b / d;
        assert(m * d <= b && b < (m + 1) * d) by (nonlinear_arith)
            requires
                d > 0,
                m == b / d,
                b >= 0,
        ;
        let k = undrained_kept(offered, duration_ms, budget_ms) as int;
        if (offered as int) < m {
            assert(k == offered);
            assert(k + 1 <= m);
            assert((k + 1) * d <= m * d) by (nonlinear_arith)
                requires
                    k + 1 <= m,
                    d > 0,
            ;
            assert(k * d <= m * d) by (nonlinear_arith)
                requires
                    k <= m,
                    d > 0,
            ;
            assert(k * d + d == (k + 1) * d) by (nonlinear_arith);
        } else {
            assert(k == m);
            assert(k * d + d == (m + 1) * d) by (nonlinear_arith)
                requires
                    k == m,
            ;
        }
    }
}

/// Offers `packets` one-packet frames of each publisher's stream to its
/// viewers, every viewer but the last draining one packet before each; with
/// a slow viewer, the last one has a budget of one packet. The drained
/// viewers keep every packet; the last viewer keeps what fits its budget,
/// and every drop is its.
pub fn run_synthetic_fanout(args: &LoadTestArgs) -> (result: SyntheticFanoutResult)
    requires
        args.publishers * args.viewers * args.packets <= u64::MAX,
    ensures
        result.total_delivered + result.total_dropped == args.publishers * args.viewers * args.packets,
        args.viewers == 0 ==> result.total_delivered == 0 && result.total_dropped == 0,
        args.viewers > 0 ==> {
            &&& result.total_delivered == args.publishers * ((args.viewers - 1) * args.packets
                + last_viewer_kept(*args))
            &&& result.total_dropped == args.publishers * (args.packets - last_viewer_kept(*args))
        },
        result.slow_viewer_dropped == if args.include_slow_viewer { result.total_dropped } else { 0 },
{
    let mut result = SyntheticFanoutResult { total_delivered: 0, total_dropped: 0, slow_viewer_dropped: 0 };
    let viewers: u64 = args.viewers as u64;
    let d: u16 = args.media_duration_ms;
    let ghost total: int = args.publishers * args.viewers * args.packets;
    let ghost kept_all: int = if viewers == 0 { 0 } else { last_viewer_kept(*args) as int };
    let ghost per_delivered: int = if viewers == 0 { 0 } else { (viewers - 1) * args.packets + kept_all };
    let ghost per_dropped: int = if viewers == 0 { 0 } else { args.packets - kept_all };
    let mut publisher_index: u16 = 0;
    assert(0 * viewers * args.packets == 0) by (nonlinear_arith);
    proof {
        if viewers > 0 {
            lemma_undrained_bound(args.packets as nat, d, fanout_budget(*args, viewers as int));
        }
    }
    while publisher_index < args.publishers
        invariant
            publisher_index <= args.publishers,
            viewers == args.viewers,
            d == args.media_duration_ms,
            total == args.publishers * args.viewers * args.packets,
            total <= u64::MAX,
            kept_all == if viewers == 0 { 0 } else { last_viewer_kept(*args) as int },
            0 <= kept_all <= args.packets,
            per_delivered == if viewers == 0 { 0 } else { (viewers - 1) * args.packets + kept_all },
            per_dropped == if viewers == 0 { 0 } else { args.packets - kept_all },
            result.total_delivered + result.total_dropped == publisher_index * viewers * args.packets,
            result.total_delivered == publisher_index * per_delivered,
            result.total_dropped == publisher_index * per_dropped,
            result.slow_viewer_dropped == if args.include_slow_viewer { result.total_dropped } else { 0 },
        decreases args.publishers - publisher_index,
    {
        let stream_id = publisher_index as u32 + 1;
        let mut fanout = StreamFanout::new(stream_id);
        let mut viewer: u64 = 1;
        while viewer <= viewers
            invariant
                1 <= viewer <= viewers + 1,
                viewers == args.viewers,
                fanout.wf(),
                fanout@.viewers.dom() == Set::new(|u: UserId| 1 <= u < viewer),
                fanout@.viewers.dom().finite(),
                fanout@.viewers.dom().len() == viewer - 1,
                forall|u: UserId| #[trigger] fanout@.viewers.contains_key(u) ==> fanout@.viewers[u].queue_budget_ms
                    == fanout_budget(*args, u as int) && fanout@.viewers[u].packets.len() == 0,
            decreases viewers + 1 - viewer,
        {
            let budget = if args.include_slow_viewer && viewer == viewers {
                args.media_duration_ms
            } else {
                saturating_times_ten(args.media_duration_ms)
            };
            let ghost before = fanout@.viewers.dom();
            fanout.add_viewer(viewer, budget);
            proof {
                assert(!before.contains(viewer));
                assert(fanout@.viewers.dom() =~= before.insert(viewer));
                assert(before.insert(viewer) =~= Set::new(|u: UserId| 1 <= u < viewer + 1));
            }
            viewer += 1;
        }
        let ghost dom = fanout@.viewers.dom();
        let ghost done: int = publisher_index * viewers * args.packets;
        let ghost b_last: u16 = fanout_budget(*args, viewers as int);
        proof {
            assert((publisher_index + 1) * viewers * args.packets == done + viewers * args.packets)
                by (nonlinear_arith)
                requires
                    done == publisher_index * viewers * args.packets,
            ;
            assert((publisher_index + 1) * viewers * args.packets <= total) by (nonlinear_arith)
                requires
                    publisher_index + 1 <= args.publishers,
                    total == args.publishers * viewers * args.packets,
                    viewers >= 0,
                    args.packets >= 0,
            ;
            if viewers > 0 {
                assert(dom.contains(viewers));
                let q = fanout@.viewers[viewers];
                assert(q.valid());
                assert(q.packets =~= Seq::empty());
                assert(q.queued_media_ms == 0);
                assert(undrained_kept(0, d, b_last) == 0);
            }
        }
        let ghost start_delivered: int = result.total_delivered as int;
        let ghost start_dropped: int = result.total_dropped as int;
        let mut packet_index: u32 = 0;
        while packet_index < args.packets
            invariant
                packet_index <= args.packets,
                viewers == args.viewers,
                d == args.media_duration_ms,
                b_last == fanout_budget(*args, viewers as int),
                fanout.wf(),
                fanout@.viewers.dom() == dom,
                dom == Set::new(|u: UserId| 1 <= u < viewers + 1),
                dom.finite(),
                dom.len() == viewers,
                done == publisher_index * viewers * args.packets,
                done + viewers * args.packets <= total,
                total <= u64::MAX,
                forall|u: UserId| #[trigger] fanout@.viewers.contains_key(u) ==> fanout@.viewers[u].queue_budget_ms
                    == fanout_budget(*args, u as int),
                forall|u: UserId| #[trigger] fanout@.viewers.contains_key(u) && u < viewers
                    ==> fanout@.viewers[u].packets.len() <= 1,
                viewers > 0 ==> fanout@.viewers[viewers].queued_media_ms
                    == undrained_kept(packet_index as nat, d, b_last) * d,
                result.total_delivered + result.total_dropped == done + packet_index * viewers,
                result.total_delivered == start_delivered + if viewers == 0 { 0 } else {
                    packet_index * (viewers - 1) + undrained_kept(packet_index as nat, d, b_last)
                },
                result.total_dropped == start_dropped + if viewers == 0 { 0 } else {
                    packet_index - undrained_kept(packet_index as nat, d, b_last)
                },
                result.slow_viewer_dropped == if args.include_slow_viewer { result.total_dropped } else { 0 },
            decreases args.packets - packet_index,
        {
            let mut drained: u64 = 1;
            let ghost last_before = fanout@.viewers[viewers];
            while drained < viewers
                invariant
                    1 <= drained <= viewers || viewers == 0,
                    viewers == args.viewers,
                    fanout.wf(),
                    fanout@.viewers.dom() == dom,
                    dom == Set::new(|u: UserId| 1 <= u < viewers + 1),
                    forall|u: UserId| #[trigger] fanout@.viewers.contains_key(u) ==> fanout@.viewers[u].queue_budget_ms
                        == fanout_budget(*args, u as int),
                    forall|u: UserId| #[trigger] fanout@.viewers.contains_key(u) && u < viewers
                        ==> fanout@.viewers[u].packets.len() <= 1,
                    forall|u: UserId| #[trigger] fanout@.viewers.contains_key(u) && u < drained
                        ==> fanout@.viewers[u].packets.len() == 0,
                    viewers > 0 ==> fanout@.viewers[viewers] == last_before,
                decreases viewers - drained,
            {
                let ghost before = fanout@;
                match fanout.viewer_queue_mut(drained) {
                    Some(queue) => {
                        queue.drain_one();
                    },
                    None => {},
                }
                proof {
                    assert(fanout@.viewers.dom() =~= dom);
                    assert(before.viewers.contains_key(drained));
                    assert forall|u: UserId| #[trigger] fanout@.viewers.contains_key(u) && u < drained + 1
                        implies fanout@.viewers[u].packets.len() == 0 by {
                        if u == drained {
                            assert(before.viewers[u].packets.len() <= 1);
                        }
                    }
                }
                drained += 1;
            }
            let ghost pre = fanout@;
            proof {
                assert forall|u: UserId| #[trigger] pre.viewers.contains_key(u) && u < viewers
                    implies pre.viewers[u].fits(d) by {
                    assert(pre.viewers[u].valid());
                    assert(pre.viewers[u].packets =~= Seq::empty());
                    assert(pre.viewers[u].queue_budget_ms == spec_times_ten(d));
                }
                if viewers > 0 {
                    assert(dom.contains(viewers));
                    assert(pre.viewers.contains_key(viewers));
                    lemma_undrained_step(packet_index as nat, d, b_last);
                    assert(pre.viewers[viewers].queue_budget_ms == b_last);
                }
            }
            let packet = synthetic_packet(stream_id, packet_index + 1, packet_index + 1);
            let summary = fanout.fanout(packet, args.media_duration_ms);
            let ghost last_fits: bool = viewers > 0 && pre.viewers[viewers].fits(d);
            proof {
                lemma_split_len(dom, summary.delivered_to@, summary.dropped_for@);
                assert(packet_index * viewers + viewers <= viewers * args.packets)
                    by (nonlinear_arith)
                    requires
                        packet_index + 1 <= args.packets,
                        viewers >= 0,
                ;
                assert((packet_index + 1) * viewers == packet_index * viewers + viewers)
                    by (nonlinear_arith);
                if viewers > 0 && !last_fits {
                    assert(summary.dropped_for@ =~= set![viewers]);
                } else {
                    assert(summary.dropped_for@ =~= Set::<UserId>::empty());
                }
                if viewers > 0 {
                    assert((packet_index + 1) * (viewers - 1) == packet_index * (viewers - 1) + (viewers - 1))
                        by (nonlinear_arith);
                    let k = undrained_kept(packet_index as nat, d, b_last) as int;
                    assert((k + 1) * d == k * d + d) by (nonlinear_arith);
                    assert(fanout@.viewers[viewers] == pre.viewers[viewers].offered(packet@, d));
                }
            }
            result.total_delivered = result.total_delivered + summary.delivered_to.len() as u64;
            result.total_dropped = result.total_dropped + summary.dropped_for.len() as u64;
            if args.include_slow_viewer && summary.dropped_for.contains(&viewers) {
                result.slow_viewer_dropped = result.slow_viewer_dropped + 1;
            }
            proof {
                assert forall|u: UserId| #[trigger] fanout@.viewers.contains_key(u) && u < viewers
                    implies fanout@.viewers[u].packets.len() <= 1 by {
                    assert(pre.viewers[u].fits(d));
                    assert(pre.viewers[u].packets.len() == 0);
                }
            }
            packet_index += 1;
        }
        proof {
            assert(args.packets * viewers == viewers * args.packets) by (nonlinear_arith);
            if viewers > 0 {
                assert(b_last == fanout_budget(*args, args.viewers as int));
                assert(undrained_kept(args.packets as nat, d, b_last) == kept_all);
                assert(args.packets * (viewers - 1) == (viewers - 1) * args.packets) by (nonlinear_arith);
            }
            assert((publisher_index + 1) * per_delivered == publisher_index * per_delivered + per_delivered)
                by (nonlinear_arith);
            assert((publisher_index + 1) * per_dropped == publisher_index * per_dropped + per_dropped)
                by (nonlinear_arith);
        }
        publisher_index += 1;
    }
    result
}

/// An undrained queue keeps no more packets than it was offered; with a
/// budget of at least one packet it keeps one of one or more; it keeps all
/// exactly when they fit the budget together.
proof fn lemma_undrained_bound(offered: nat, duration_ms: u16, budget_ms: u16)
    ensures
        undrained_kept(offered, duration_ms, budget_ms) <= offered,
        offered >= 1 && duration_ms <= budget_ms ==> undrained_kept(offered, duration_ms, budget_ms) >= 1,
        (undrained_kept(offered, duration_ms, budget_ms) == offered) == (offered * duration_ms <= budget_ms),
{
    if duration_ms > 0 {
        let d = duration_ms as int;
        let b = budget_ms as int;
        let m = b / d;
        let o = offered as int;
        assert(m * d <= b && b < (m + 1) * d) by (nonlinear_arith)
            requires
                d > 0,
                m == b / d,
                b >= 0,
        ;
        if d <= b {
            assert(m >= 1) by (nonlinear_arith)
                requires
                    d <= b,
                    b < (m + 1) * d,
                    d > 0,
            ;
        }
        if o <= m {
            assert(o * d <= m * d) by (nonlinear_arith)
                requires
                    o <= m,
                    d > 0,
            ;
        } else {
            assert(o * d >= (m + 1) * d) by (nonlinear_arith)
                requires
                    o >= m + 1,
                    d > 0,
            ;
        }
    }
}

/// A frame index times a hundred, held at `u32::MAX`: the first sequence
/// number of the frame's packets.
pub open spec fn first_sequence_number_spec(frame_index: u32) -> u32 {
    if frame_index * 100 > u32::MAX {
        u32::MAX
    } else {
        (frame_index * 100) as u32
    }
}

pub fn first_sequence_number(frame_index: u32) -> (sequence_number: u32)
    ensures
        sequence_number == first_sequence_number_spec(frame_index),
{
    let product = frame_index as u64 * 100;
    if product > u32::MAX as u64 {
        u32::MAX
    } else {
        product as u32
    }
}

fn same_bytes(a: &Vec<u8>, b: &Vec<u8>) -> (same: bool)
    ensures
        same == (a@ == b@),
{
    if a.len() != b.len() {
        return false;
    }
    let mut i: usize = 0;
    while i < a.len()
        invariant
            a@.len() == b@.len(),
            0 <= i <= a@.len(),
            forall|j: int| 0 <= j < i ==> a@[j] == b@[j],
        decreases a@.len() - i,
    {
        if a[i] != b[i] {
            return false;
        }
        i += 1;
    }
    assert(a@ =~= b@);
    true
}

/// A viewer's queue with every packet taken out; its counters stay.
spec fn emptied_queue(q: ViewerQueueView) -> ViewerQueueView {
    ViewerQueueView { packets: Seq::empty(), queued_media_ms: 0, ..q }
}

/// The fan-out after emptying `viewer`'s queue, when it has one.
spec fn drained_fanout(f: StreamFanoutView, viewer: UserId) -> StreamFanoutView {
    if f.viewers.contains_key(viewer) {
        StreamFanoutView { viewers: f.viewers.insert(viewer, emptied_queue(f.viewers[viewer])), ..f }
    } else {
        f
    }
}

/// Empties one viewer's queue.
fn drain_viewer(fanout: &mut StreamFanout, viewer: UserId)
    requires
        old(fanout).wf(),
    ensures
        final(fanout).wf(),
        final(fanout)@ == drained_fanout(old(fanout)@, viewer),
{
    loop
        invariant
            fanout.wf(),
            fanout@.stream_id == old(fanout)@.stream_id,
            fanout@.viewers.dom() == old(fanout)@.viewers.dom(),
            forall|u: UserId| #[trigger] fanout@.viewers.contains_key(u) && u != viewer
                ==> fanout@.viewers[u] == old(fanout)@.viewers[u],
            fanout@.viewers.contains_key(viewer) ==> emptied_queue(fanout@.viewers[viewer])
                == emptied_queue(old(fanout)@.viewers[viewer]),
        ensures
            fanout.wf(),
            fanout@.stream_id == old(fanout)@.stream_id,
            fanout@.viewers.dom() == old(fanout)@.viewers.dom(),
            forall|u: UserId| #[trigger] fanout@.viewers.contains_key(u) && u != viewer
                ==> fanout@.viewers[u] == old(fanout)@.viewers[u],
            fanout@.viewers.contains_key(viewer) ==> emptied_queue(fanout@.viewers[viewer])
                == emptied_queue(old(fanout)@.viewers[viewer]),
            fanout@.viewers.contains_key(viewer) ==> fanout@.viewers[viewer].packets.len() == 0,
        decreases (if fanout@.viewers.contains_key(viewer) { fanout@.viewers[viewer].packets.len() } else { 0 }),
    {
        let ghost before = fanout@;
        let drained = match fanout.viewer_queue_mut(viewer) {
            Some(queue) => queue.drain_one(),
            None => None,
        };
        proof {
            assert(fanout@.viewers.dom() =~= before.viewers.dom());
        }
        if drained.is_none() {
            break;
        }
    }
    proof {
        let f = fanout@;
        let o = old(fanout)@;
        if o.viewers.contains_key(viewer) {
            let q = f.viewers[viewer];
            assert(q.valid());
            assert(q.packets =~= Seq::empty());
            assert(q == emptied_queue(q));
            assert(f.viewers =~= o.viewers.insert(viewer, emptied_queue(o.viewers[viewer])));
        } else {
            assert(f.viewers =~= o.viewers);
        }
    }
}

/// A sample frame splits into no more fragments than it has bytes and one.
proof fn lemma_fragment_count_bound(max_payload: nat)
    requires
        max_payload > 0,
    ensures
        spec_fragment_count(4117, max_payload) <= 4118,
{
    lemma_fragment_count_positive(4117, max_payload);
    lemma_fragment_bounds(4117, max_payload, 0);
}

/// How many fragments each sample frame splits into at `max_payload`.
pub open spec fn sample_fragment_count(max_payload: usize) -> nat {
    spec_fragment_count(4117, max_payload as nat)
}

/// Whether all fragments of a sample frame fit together in a viewer queue
/// with a budget of ten packets' media time.
pub open spec fn sample_frame_fits(args: LoadTestArgs) -> bool {
    sample_fragment_count(args.max_payload) * args.media_duration_ms <= spec_times_ten(
        args.media_duration_ms,
    )
}

/// Forwards `packets` sample frames, split at `max_payload`, to `viewers`
/// viewers with a budget of ten packets' media time each, every queue
/// drained before each frame; the first viewer's fragments are put back
/// together and checked against the frame. It succeeds with every fragment
/// delivered to every viewer exactly when there are no frames, or the
/// payload limit is usable, there is a viewer, and a frame's fragments fit
/// the budget together.
pub fn run_sample_forward(args: &LoadTestArgs) -> (result: Result<SampleForwardResult, LoadTestError>)
    requires
        args.viewers * args.packets * 65535 <= u64::MAX,
    ensures
        args.packets == 0 ==> result == Ok::<SampleForwardResult, LoadTestError>(
            SampleForwardResult { frames: 0, fragments: 0, reassembled_frames: 0, total_delivered: 0, total_dropped: 0 },
        ),
        args.packets > 0 && args.max_payload == 0 ==> result == Err::<SampleForwardResult, LoadTestError>(
            LoadTestError::Packetize(FramePacketizeError::ZeroMaxPayload),
        ),
        args.packets > 0 && args.max_payload > u16::MAX ==> result == Err::<SampleForwardResult, LoadTestError>(
            LoadTestError::Packetize(FramePacketizeError::PayloadTooLarge(args.max_payload)),
        ),
        args.packets > 0 && 1 <= args.max_payload <= u16::MAX && args.viewers == 0 ==> result == Err::<
            SampleForwardResult,
            LoadTestError,
        >(LoadTestError::Reassemble(FrameReassemblyError::Empty)),
        args.packets > 0 && 1 <= args.max_payload <= u16::MAX && args.viewers > 0 && !sample_frame_fits(*args)
            ==> result == Err::<SampleForwardResult, LoadTestError>(
            LoadTestError::Reassemble(FrameReassemblyError::FragmentCountMismatch),
        ),
        args.packets > 0 && 1 <= args.max_payload <= u16::MAX && args.viewers > 0 && sample_frame_fits(*args)
            ==> (result matches Ok(r) && {
            &&& r.frames == args.packets
            &&& r.reassembled_frames == args.packets
            &&& r.fragments == args.packets * sample_fragment_count(args.max_payload)
            &&& r.total_delivered == args.viewers * args.packets * sample_fragment_count(args.max_payload)
            &&& r.total_dropped == 0
        }),
{
    let mut result = SampleForwardResult { frames: 0, fragments: 0, reassembled_frames: 0, total_delivered: 0, total_dropped: 0 };
    let viewers: u64 = args.viewers as u64;
    let d: u16 = args.media_duration_ms;
    let mut fanout = StreamFanout::new(1);
    let budget = saturating_times_ten(args.media_duration_ms);
    let ghost n: nat = sample_fragment_count(args.max_payload);
    let mut viewer: u64 = 1;
    while viewer <= viewers
        invariant
            1 <= viewer <= viewers + 1,
            viewers == args.viewers,
            budget == spec_times_ten(d),
            fanout.wf(),
            fanout@.viewers.dom() == Set::new(|u: UserId| 1 <= u < viewer),
            fanout@.viewers.dom().finite(),
            fanout@.viewers.dom().len() == viewer - 1,
            forall|u: UserId| #[trigger] fanout@.viewers.contains_key(u) ==> fanout@.viewers[u].queue_budget_ms
                == budget,
        decreases viewers + 1 - viewer,
    {
        let ghost before = fanout@.viewers.dom();
        fanout.add_viewer(viewer, budget);
        proof {
            assert(!before.contains(viewer));
            assert(fanout@.viewers.dom() =~= before.insert(viewer));
            assert(before.insert(viewer) =~= Set::new(|u: UserId| 1 <= u < viewer + 1));
        }
        viewer += 1;
    }
    let ghost dom = fanout@.viewers.dom();
    proof {
        assert(d <= budget);
        if 1 <= args.max_payload {
            lemma_fragment_count_positive(4117, args.max_payload as nat);
            lemma_fragment_count_bound(args.max_payload as nat);
        }
        assert(viewers > 0 ==> dom.contains(1));
    }
    let mut frame_index: u32 = 0;
    assert(viewers * 0 * n == 0) by (nonlinear_arith);
    while frame_index < args.packets
        invariant
            frame_index <= args.packets,
            viewers == args.viewers,
            d == args.media_duration_ms,
            budget == spec_times_ten(d),
            d <= budget,
            n == sample_fragment_count(args.max_payload),
            1 <= args.max_payload ==> 1 <= n <= 4118,
            args.viewers * args.packets * 65535 <= u64::MAX,
            fanout.wf(),
            fanout@.viewers.dom() == dom,
            dom == Set::new(|u: UserId| 1 <= u < viewers + 1),
            dom.finite(),
            dom.len() == viewers,
            forall|u: UserId| #[trigger] fanout@.viewers.contains_key(u) ==> fanout@.viewers[u].queue_budget_ms
                == budget,
            frame_index > 0 ==> 1 <= args.max_payload <= u16::MAX && viewers > 0 && sample_frame_fits(*args),
            result.frames == frame_index,
            result.reassembled_frames == frame_index,
            result.fragments == frame_index * n,
            result.total_delivered == viewers * frame_index * n,
            result.total_dropped == 0,
        decreases args.packets - frame_index,
    {
        let mut drained: u64 = 1;
        while drained <= viewers
            invariant
                1 <= drained <= viewers + 1,
                viewers == args.viewers,
                fanout.wf(),
                fanout@.viewers.dom() == dom,
                dom == Set::new(|u: UserId| 1 <= u < viewers + 1),
                forall|u: UserId| #[trigger] fanout@.viewers.contains_key(u) ==> fanout@.viewers[u].queue_budget_ms
                    == budget,
                forall|u: UserId| #[trigger] fanout@.viewers.contains_key(u) && u < drained
                    ==> fanout@.viewers[u].packets.len() == 0,
            decreases viewers + 1 - drained,
        {
            let ghost before = fanout@;
            drain_viewer(&mut fanout, drained);
            proof {
                assert(before.viewers.contains_key(drained));
                assert forall|u: UserId| #[trigger] fanout@.viewers.contains_key(u) && u < drained + 1
                    implies fanout@.viewers[u].packets.len() == 0 by {
                    if u != drained {
                        assert(fanout@.viewers[u] == before.viewers[u]);
                    }
                }
            }
            drained += 1;
        }
        proof {
            assert forall|u: UserId| #[trigger] fanout@.viewers.contains_key(u) implies fanout@.viewers[u].queued_media_ms
                == undrained_kept(0, d, budget) * d by {
                assert(fanout@.viewers[u].valid());
                assert(u < drained);
                assert(fanout@.viewers[u].packets.len() == 0);
                assert(fanout@.viewers[u].packets =~= Seq::empty());
                assert(crate::relay::router::total_duration(fanout@.viewers[u].packets) == 0);
                assert(undrained_kept(0, d, budget) == 0);
            }
        }
        let frame = sample_h264_frame(frame_index + 1);
        let packets = match packetize_frame(&frame, first_sequence_number(frame_index), args.max_payload) {
            Ok(packets) => packets,
            Err(e) => {
                proof {
                    assert(frame.bytes@.len() == 4117);
                }
                return Err(LoadTestError::Packetize(e));
            },
        };
        let ghost views = packet_views(packets@);
        let ghost fragments_before = result.fragments;
        let ghost delivered_before = result.total_delivered;
        proof {
            assert(frame.bytes@.len() == 4117);
            assert(packets@.len() == views.len());
            assert(views.len() == n);
            assert(frame_index * n + n <= args.packets * 65535) by (nonlinear_arith)
                requires
                    frame_index + 1 <= args.packets,
                    n <= 4118,
            ;
            assert(viewers * (frame_index * n) + viewers * n <= viewers * args.packets * 65535)
                by (nonlinear_arith)
                requires
                    frame_index * n + n <= args.packets * 65535,
                    viewers >= 0,
            ;
            assert(viewers * frame_index * n == viewers * (frame_index * n)) by (nonlinear_arith);
        }
        result.frames = result.frames + 1;
        result.fragments = result.fragments + packets.len() as u64;
        let mut first_viewer_packets: Vec<MediaPacket> = Vec::new();
        let mut i: usize = 0;
        while i < packets.len()
            invariant
                0 <= i <= packets@.len(),
                packets@.len() == n,
                views == packet_views(packets@),
                viewers == args.viewers,
                d == args.media_duration_ms,
                budget == spec_times_ten(d),
                fanout.wf(),
                fanout@.viewers.dom() == dom,
                dom == Set::new(|u: UserId| 1 <= u < viewers + 1),
                dom.finite(),
                dom.len() == viewers,
                forall|u: UserId| #[trigger] fanout@.viewers.contains_key(u) ==> fanout@.viewers[u].queue_budget_ms
                    == budget,
                forall|u: UserId| #[trigger] fanout@.viewers.contains_key(u) ==> fanout@.viewers[u].queued_media_ms
                    == undrained_kept(i as nat, d, budget) * d,
                packet_views(first_viewer_packets@) == if viewers > 0 {
                    views.take(undrained_kept(i as nat, d, budget) as int)
                } else {
                    Seq::<crate::protocol::frame::PacketView>::empty()
                },
                delivered_before + viewers * n <= u64::MAX,
                frame_index < args.packets,
                result.frames == frame_index + 1,
                result.reassembled_frames == frame_index,
                result.fragments == frame_index * n + n,
                result.total_delivered == delivered_before + viewers * undrained_kept(i as nat, d, budget),
                result.total_dropped == viewers * (i - undrained_kept(i as nat, d, budget)),
                result.total_dropped + result.total_delivered <= delivered_before + viewers * i,
            decreases packets@.len() - i,
        {
            let ghost pre = fanout@;
            let ghost k = undrained_kept(i as nat, d, budget);
            let ghost fits: bool = k * d + d <= budget;
            proof {
                lemma_undrained_step(i as nat, d, budget);
                lemma_undrained_bound(i as nat, d, budget);
                lemma_undrained_bound((i + 1) as nat, d, budget);
                assert forall|u: UserId| #[trigger] pre.viewers.contains_key(u) implies pre.viewers[u].fits(d) == fits by {}
            }
            let summary = fanout.fanout(packets[i].duplicate(), args.media_duration_ms);
            proof {
                lemma_split_len(dom, summary.delivered_to@, summary.dropped_for@);
                if fits {
                    assert(summary.delivered_to@ =~= dom);
                    assert(summary.dropped_for@ =~= Set::<UserId>::empty());
                } else {
                    assert(summary.dropped_for@ =~= dom);
                    assert(summary.delivered_to@ =~= Set::<UserId>::empty());
                }
                assert(viewers * (k + 1) == viewers * k + viewers) by (nonlinear_arith);
                assert(viewers * (i + 1 - k) == viewers * (i - k) + viewers) by (nonlinear_arith);
                assert(viewers * (k + 1) <= viewers * n) by (nonlinear_arith)
                    requires
                        k + 1 <= i + 1,
                        i + 1 <= n,
                        viewers >= 0,
                ;
                assert(viewers * (i + 1) <= viewers * n) by (nonlinear_arith)
                    requires
                        i + 1 <= n,
                        viewers >= 0,
                ;
                assert((k + 1) * d == k * d + d) by (nonlinear_arith);
                let k2 = undrained_kept((i + 1) as nat, d, budget) as int;
                assert(viewers * k2 + viewers * (i + 1 - k2) == viewers * (i + 1)) by (nonlinear_arith);
                assert forall|u: UserId| #[trigger] fanout@.viewers.contains_key(u) implies fanout@.viewers[u].queued_media_ms
                    == undrained_kept((i + 1) as nat, d, budget) * d by {
                    assert(fanout@.viewers[u] == pre.viewers[u].offered(packets@[i as int]@, d));
                }
            }
            result.total_delivered = result.total_delivered + summary.delivered_to.len() as u64;
            result.total_dropped = result.total_dropped + summary.dropped_for.len() as u64;
            if summary.delivered_to.contains(&1) {
                let copy = packets[i].duplicate();
                proof {
                    assert(fits && viewers > 0);
                    assert(k == i);
                }
                let ghost old_first = first_viewer_packets@;
                first_viewer_packets.push(copy);
                proof {
                    assert(copy@ == packets@[i as int]@);
                    assert(views[i as int] == packets@[i as int]@);
                    assert(first_viewer_packets@ =~= old_first.push(copy));
                    assert(packet_views(first_viewer_packets@) =~= packet_views(old_first).push(copy@));
                    assert(views.take(i + 1) =~= views.take(i as int).push(views[i as int]));
                    assert(packet_views(first_viewer_packets@) =~= views.take(i + 1));
                }
            } else {
                proof {
                    assert(viewers > 0 ==> !fits);
                }
            }
            i += 1;
        }
        let ghost kept_all = undrained_kept(n, d, budget);
        proof {
            lemma_undrained_bound(n, d, budget);
            assert(views.take(n as int) =~= views);
        }
        let reassembled = match reassemble_frame(first_viewer_packets) {
            Ok(frame) => frame,
            Err(e) => {
                proof {
                    if viewers > 0 {
                        if kept_all == n {
                            lemma_packetize_reassemble(frame@, PacketType::Video, first_sequence_number_spec(frame_index), args.max_payload as nat);
                        } else {
                            assert(!sample_frame_fits(*args));
                            lemma_packetized_prefix_incomplete(
                                frame@,
                                PacketType::Video,
                                first_sequence_number_spec(frame_index),
                                args.max_payload as nat,
                                kept_all as int,
                            );
                        }
                    }
                }
                return Err(LoadTestError::Reassemble(e));
            },
        };
        proof {
            assert(viewers > 0);
            if kept_all != n {
                lemma_packetized_prefix_incomplete(
                    frame@,
                    PacketType::Video,
                    first_sequence_number_spec(frame_index),
                    args.max_payload as nat,
                    kept_all as int,
                );
                assert(false);
            }
            lemma_packetize_reassemble(frame@, PacketType::Video, first_sequence_number_spec(frame_index), args.max_payload as nat);
            assert(reassembled@ == frame@);
            assert(sample_frame_fits(*args));
        }
        if !same_bytes(&reassembled.bytes, &frame.bytes) {
            return Err(LoadTestError::FrameMismatch(frame.frame_id));
        }
        result.reassembled_frames = result.reassembled_frames + 1;
        proof {
            assert((frame_index + 1) * n == frame_index * n + n) by (nonlinear_arith);
            assert(viewers * (frame_index + 1) * n == viewers * frame_index * n + viewers * n)
                by (nonlinear_arith);
        }
        frame_index += 1;
    }
    Ok(result)
}

} // verus!
