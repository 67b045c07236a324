//! Forwarding media datagrams from a stream's publisher to its subscribers.

use vstd::prelude::*;

use crate::protocol::control::{MediaKind, StreamId, UserId};
use crate::protocol::packet::{spec_decode_packet, spec_encode_packet, MediaPacket, PacketType};
use crate::relay::control::ControlState;
use crate::relay::egress::{packet_media_ms, spec_packet_media_ms};
use crate::relay::keys::strictly_increasing_u64;
use crate::relay::session::Session;

verus! {

/// What became of one ingress datagram: to how many subscribers it went out
/// and how many it could not reach.
#[derive(Debug, Clone, Copy, PartialEq, Eq, Structural)]
pub struct MediaForwardSummary {
    pub stream_id: StreamId,
    pub delivered: u32,
    pub dropped: u32,
}

impl MediaForwardSummary {
    /// Counts one send to a subscriber, delivered or not.
    pub fn record_send(&mut self, delivered: bool)
        requires
            old(self).delivered < u32::MAX,
            old(self).dropped < u32::MAX,
        ensures
            final(self).stream_id == old(self).stream_id,
            delivered ==> final(self).delivered == old(self).delivered + 1 && final(self).dropped
                == old(self).dropped,
            !delivered ==> final(self).dropped == old(self).dropped + 1 && final(self).delivered
                == old(self).delivered,
    {
        if delivered {
            self.delivered = self.delivered + 1;
        } else {
            self.dropped = self.dropped + 1;
        }
    }
}

/// The packet type a stream of each media kind carries.
pub open spec fn spec_media_kind_packet_type(kind: MediaKind) -> PacketType {
    match kind {
        MediaKind::Screen => PacketType::Video,
        MediaKind::Voice => PacketType::Audio,
        MediaKind::Probe => PacketType::Probe,
    }
}

pub fn media_kind_packet_type(kind: MediaKind) -> (packet_type: PacketType)
    ensures
        packet_type == spec_media_kind_packet_type(kind),
{
    match kind {
        MediaKind::Screen => PacketType::Video,
        MediaKind::Voice => PacketType::Audio,
        MediaKind::Probe => PacketType::Probe,
    }
}

/// What to do with an ingress datagram: refuse it, counted as one drop, or
/// send its bytes to each target.
#[derive(Debug)]
pub enum ForwardPlan {
    Reject(MediaForwardSummary),
    Send { stream_id: StreamId, bytes: Vec<u8>, targets: Vec<UserId>, media_duration_ms: u16 },
}

/// Whether `user` is deafened in the room that publishes `stream_id`.
pub open spec fn deafened_for_stream(
    v: crate::relay::control::ControlView,
    stream_id: StreamId,
    user: UserId,
) -> bool {
    match v.stream_room(stream_id) {
        Some(r) => match v.voice_state(r, user) {
            Some(vs) => vs.deafened,
            None => false,
        },
        None => false,
    }
}

/// Whether voice from `user` on `stream_id` may go out: not while they are
/// muted, nor while they hold push-to-talk without speaking.
pub open spec fn voice_may_send(
    v: crate::relay::control::ControlView,
    stream_id: StreamId,
    user: UserId,
) -> bool {
    match v.stream_room(stream_id) {
        Some(r) => match v.voice_state(r, user) {
            Some(vs) => !vs.muted && (!vs.push_to_talk || vs.speaking),
            None => true,
        },
        None => true,
    }
}

/// Whether subscriber `user` is sent a packet of a `kind` stream from
/// `publisher_id`: never the publisher, and no voice to a deafened user.
pub open spec fn receives_forward(
    v: crate::relay::control::ControlView,
    stream_id: StreamId,
    kind: MediaKind,
    publisher_id: UserId,
    user: UserId,
) -> bool {
    user != publisher_id && !(kind == MediaKind::Voice && deafened_for_stream(v, stream_id, user))
}

/// Whether `plan` is what the relay does with `packet` from `publisher_id`:
/// refuse it unless it is for a published stream of that publisher, of the
/// stream's codec and packet type, from a publisher whose voice may go out
/// when it is a voice stream, and encodable; else send its bytes to every
/// subscriber but the publisher, leaving out deafened users for voice, in
/// increasing user id order, as standing for the media time of the frame it
/// ends at the stream's target frame rate.
pub open spec fn forward_plan_of(
    v: crate::relay::control::ControlView,
    publisher_id: UserId,
    packet: MediaPacket,
    plan: ForwardPlan,
) -> bool {
    let s = packet.header.room_stream_id;
    match v.published(s) {
        Some(p) => if p.publisher_id != publisher_id || p.codec != packet.header.codec
            || spec_media_kind_packet_type(p.media_kind) != packet.header.packet_type
            || (p.media_kind == MediaKind::Voice && !voice_may_send(v, s, publisher_id))
            || spec_encode_packet(packet.header, packet.payload@) is Err {
            plan == ForwardPlan::Reject(
                MediaForwardSummary { stream_id: s, delivered: 0, dropped: 1 },
            )
        } else {
            plan matches ForwardPlan::Send { stream_id, bytes, targets, media_duration_ms } && {
                &&& stream_id == s
                &&& media_duration_ms == spec_packet_media_ms(
                    p.target_frames_per_second,
                    packet.header.flags.0,
                )
                &&& spec_encode_packet(packet.header, packet.payload@) == Ok::<
                    Seq<u8>,
                    crate::protocol::packet::PacketEncodeError,
                >(bytes@)
                &&& strictly_increasing_u64(targets@)
                &&& targets@.to_set() == v.subscribers(s).filter(
                    |u: UserId| receives_forward(v, s, p.media_kind, publisher_id, u),
                )
            }
        },
        None => plan == ForwardPlan::Reject(
            MediaForwardSummary { stream_id: s, delivered: 0, dropped: 1 },
        ),
    }
}

impl ControlState {
    /// Plans forwarding a datagram from `publisher_id`: it must be for a
    /// published stream of that publisher, of the stream's codec and packet
    /// type, and encodable; it then goes to every subscriber but the
    /// publisher, in increasing user id order.
    pub fn plan_media_forward(&self, publisher_id: UserId, packet: &MediaPacket) -> (plan:
        ForwardPlan)
        requires
            self.wf(),
        ensures
            forward_plan_of(self@, publisher_id, *packet, plan),
    {
        let stream_id = packet.header.room_stream_id;
        let reject = ForwardPlan::Reject(MediaForwardSummary { stream_id, delivered: 0, dropped: 1 });
        let published = match self.published_stream(stream_id) {
            Some(p) => *p,
            None => {
                return reject;
            },
        };
        if published.publisher_id != publisher_id || published.codec != packet.header.codec
            || media_kind_packet_type(published.media_kind) != packet.header.packet_type {
            return reject;
        }
        let is_voice = match published.media_kind {
            MediaKind::Voice => true,
            _ => false,
        };
        if is_voice && !self.voice_publisher_can_send(stream_id, publisher_id) {
            return reject;
        }
        let bytes = match packet.encode() {
            Ok(bytes) => bytes,
            Err(_) => {
                return reject;
            },
        };
        let subscribers = self.subscribers_for_stream(stream_id);
        let mut targets: Vec<UserId> = Vec::new();
        let mut i: usize = 0;
        while i < subscribers.len()
            invariant
                0 <= i <= subscribers@.len(),
                strictly_increasing_u64(subscribers@),
                strictly_increasing_u64(targets@),
                forall|m: int| 0 <= m < targets@.len() ==> subscribers@.subrange(0, i as int).contains(#[trigger] targets@[m]),
                self.wf(),
                is_voice == (published.media_kind == MediaKind::Voice),
                forall|u: UserId|
                    #[trigger] targets@.contains(u) <==> (subscribers@.subrange(0, i as int).contains(u)
                        && receives_forward(self@, stream_id, published.media_kind, publisher_id, u)),
            decreases subscribers@.len() - i,
        {
            let u = subscribers[i];
            let ghost old_targets = targets@;
            let deafened = match self.voice_state_for_stream(stream_id, u) {
                Some(vs) => vs.deafened,
                None => false,
            };
            let keep = u != publisher_id && !(is_voice && deafened);
            assert(keep == receives_forward(self@, stream_id, published.media_kind, publisher_id, u));
            if keep {
                targets.push(u);
            }
            proof {
                crate::relay::keys::lemma_prefix_step(subscribers@, i as int);
                crate::relay::keys::lemma_increasing_not_in_prefix_u64(subscribers@, i as int);
                assert forall|m: int| 0 <= m < old_targets.len() implies old_targets[m] < u by {
                    assert(subscribers@.subrange(0, i as int).contains(old_targets[m]));
                    let q = choose|q: int| 0 <= q < i && #[trigger] subscribers@.subrange(0, i as int)[q] == old_targets[m];
                    assert(subscribers@[q] < subscribers@[i as int]);
                }
                assert forall|m: int| 0 <= m < targets@.len() implies subscribers@.subrange(0, i + 1).contains(#[trigger] targets@[m]) by {
                    if m < old_targets.len() {
                        assert(targets@[m] == old_targets[m]);
                    }
                }
                assert forall|q: UserId|
                    #[trigger] targets@.contains(q) <==> (subscribers@.subrange(0, i + 1).contains(q)
                        && receives_forward(self@, stream_id, published.media_kind, publisher_id, q)) by {
                    if keep {
                        if targets@.contains(q) && q != u {
                            let m = choose|m: int| 0 <= m < targets@.len() && targets@[m] == q;
                            assert(old_targets[m] == q);
                        }
                        if old_targets.contains(q) {
                            let m = choose|m: int| 0 <= m < old_targets.len() && old_targets[m] == q;
                            assert(targets@[m] == q);
                        }
                        if q == u {
                            assert(targets@[targets@.len() - 1] == q);
                        }
                    }
                }
            }
            i += 1;
        }
        proof {
            assert(subscribers@.subrange(0, subscribers@.len() as int) =~= subscribers@);
            assert(targets@.to_set() =~= self@.subscribers(stream_id).filter(
                |u: UserId| receives_forward(self@, stream_id, published.media_kind, publisher_id, u),
            ));
        }
        let media_duration_ms = packet_media_ms(published.target_frames_per_second, packet.header.flags);
        ForwardPlan::Send { stream_id, bytes, targets, media_duration_ms }
    }
}

impl ControlState {
    /// What the relay does with a media datagram that arrived on `session`:
    /// nothing (`None`) before the session has access, for a datagram longer
    /// than `max_datagram_payload` bytes, or when the bytes are no media
    /// packet; otherwise the decoded packet and the plan for it from the
    /// session's user.
    pub fn plan_media_datagram(&self, session: &Session, bytes: &[u8], max_datagram_payload: usize) -> (planned: Option<
        (MediaPacket, ForwardPlan),
    >)
        requires
            self.wf(),
        ensures
            !(session.user_id is Some && session.access_granted) ==> planned is None,
            bytes@.len() > max_datagram_payload ==> planned is None,
            session.user_id is Some && session.access_granted && bytes@.len() <= max_datagram_payload
                ==> match spec_decode_packet(bytes@) {
                Err(_) => planned is None,
                Ok(decoded) => planned matches Some((packet, plan)) && {
                    &&& (packet.header, packet.payload@) == decoded
                    &&& forward_plan_of(self@, session.user_id->0, packet, plan)
                },
            },
    {
        if bytes.len() > max_datagram_payload {
            return None;
        }
        if !session.has_access() {
            return None;
        }
        let user_id = match session.user_id {
            Some(u) => u,
            None => {
                return None;
            },
        };
        match MediaPacket::decode(bytes) {
            Ok(packet) => {
                let plan = self.plan_media_forward(user_id, &packet);
                Some((packet, plan))
            },
            Err(_) => None,
        }
    }
}

} // verus!
