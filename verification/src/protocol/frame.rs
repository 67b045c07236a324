//! Encoded frames and their split into media packets and back.

use vstd::prelude::*;

use crate::protocol::codec::CodecId;
use crate::protocol::packet::{
    lemma_frame_flag_bits, spec_has_flag, spec_validate, MediaPacket, MediaPacketHeader,
    PacketDecodeError, PacketEncodeError, PacketFlags, PacketType, MEDIA_PACKET_HEADER_LEN,
};
use crate::protocol::PROTOCOL_VERSION;

verus! {

/// One encoded access unit before it is split for the network.
#[derive(Debug, Clone, PartialEq, Eq)]
pub struct EncodedFrame {
    pub room_stream_id: u32,
    pub frame_id: u32,
    pub media_timestamp: u64,
    pub sender_capture_time_micros: u64,
    pub sender_encode_done_time_micros: u64,
    pub sender_send_time_micros: u64,
    pub server_receive_time_micros: u64,
    pub server_send_time_micros: u64,
    pub codec: CodecId,
    pub is_keyframe: bool,
    pub bytes: Vec<u8>,
}

/// An encoded frame with its bytes as a sequence.
pub struct FrameView {
    pub room_stream_id: u32,
    pub frame_id: u32,
    pub media_timestamp: u64,
    pub sender_capture_time_micros: u64,
    pub sender_encode_done_time_micros: u64,
    pub sender_send_time_micros: u64,
    pub server_receive_time_micros: u64,
    pub server_send_time_micros: u64,
    pub codec: CodecId,
    pub is_keyframe: bool,
    pub bytes: Seq<u8>,
}

impl View for EncodedFrame {
    type V = FrameView;

    open spec fn view(&self) -> FrameView {
        FrameView {
            room_stream_id: self.room_stream_id,
            frame_id: self.frame_id,
            media_timestamp: self.media_timestamp,
            sender_capture_time_micros: self.sender_capture_time_micros,
            sender_encode_done_time_micros: self.sender_encode_done_time_micros,
            sender_send_time_micros: self.sender_send_time_micros,
            server_receive_time_micros: self.server_receive_time_micros,
            server_send_time_micros: self.server_send_time_micros,
            codec: self.codec,
            is_keyframe: self.is_keyframe,
            bytes: self.bytes@,
        }
    }
}

/// A packet as a header and its payload bytes.
pub type PacketView = (MediaPacketHeader, Seq<u8>);

impl View for MediaPacket {
    type V = PacketView;

    open spec fn view(&self) -> PacketView {
        (self.header, self.payload@)
    }
}

pub open spec fn packet_views(packets: Seq<MediaPacket>) -> Seq<PacketView> {
    packets.map_values(|p: MediaPacket| p@)
}

#[derive(Debug, Clone, Copy, PartialEq, Eq, Structural)]
pub enum FramePacketizeError {
    ZeroMaxPayload,
    PayloadTooLarge(usize),
    DatagramTooSmall,
    TooManyFragments(usize),
    PacketEncode(PacketEncodeError),
}

#[derive(Debug, Clone, Copy, PartialEq, Eq, Structural)]
pub enum FrameReassemblyError {
    Empty,
    MissingFragment(u16),
    DuplicateFragment(u16),
    FragmentMetadataMismatch,
    FragmentCountMismatch,
    InvalidEndOfFrameFlag(u16),
    InvalidPacketHeader(PacketDecodeError),
}

/// `x` reduced modulo 2^32, for `x` below 2^33.
pub open spec fn wrap_u32(x: int) -> u32 {
    if x > u32::MAX {
        (x - 0x1_0000_0000) as u32
    } else {
        x as u32
    }
}

/// How many packets a frame of `len` bytes takes: at least one.
pub open spec fn spec_fragment_count(len: nat, max_payload: nat) -> nat
    recommends
        max_payload > 0,
{
    if len == 0 {
        1
    } else {
        ((len + max_payload - 1) as int / max_payload as int) as nat
    }
}

/// The bytes fragment `i` carries.
pub open spec fn fragment_payload(bytes: Seq<u8>, max_payload: nat, i: int) -> Seq<u8> {
    let start = i * max_payload;
    let end = if (i + 1) * max_payload < bytes.len() {
        (i + 1) * max_payload
    } else {
        bytes.len() as int
    };
    bytes.subrange(start, end)
}

/// The flag byte of fragment `i` of `count`.
pub open spec fn fragment_flags(is_keyframe: bool, i: int, count: int) -> u8 {
    if is_keyframe {
        if i + 1 == count {
            3
        } else {
            1
        }
    } else {
        if i + 1 == count {
            2
        } else {
            0
        }
    }
}

/// The header of fragment `i` of `count`.
pub open spec fn fragment_header(
    frame: FrameView,
    packet_type: PacketType,
    first_sequence_number: u32,
    count: nat,
    i: int,
    payload_length: nat,
) -> MediaPacketHeader {
    MediaPacketHeader {
        version: PROTOCOL_VERSION,
        packet_type,
        flags: PacketFlags(fragment_flags(frame.is_keyframe, i, count as int)),
        room_stream_id: frame.room_stream_id,
        sequence_number: wrap_u32(first_sequence_number + i),
        frame_id: frame.frame_id,
        fragment_index: i as u16,
        fragment_count: count as u16,
        media_timestamp: frame.media_timestamp,
        sender_capture_time_micros: frame.sender_capture_time_micros,
        sender_clock_offset_micros: 0,
        sender_encode_done_time_micros: frame.sender_encode_done_time_micros,
        sender_send_time_micros: frame.sender_send_time_micros,
        server_receive_time_micros: frame.server_receive_time_micros,
        server_send_time_micros: frame.server_send_time_micros,
        codec: frame.codec,
        layer: 0,
        payload_length: payload_length as u16,
    }
}

/// Packet `i` of the split of `frame`.
pub open spec fn fragment_packet(
    frame: FrameView,
    packet_type: PacketType,
    first_sequence_number: u32,
    max_payload: nat,
    i: int,
) -> PacketView {
    let count = spec_fragment_count(frame.bytes.len(), max_payload);
    let payload = fragment_payload(frame.bytes, max_payload, i);
    (
        fragment_header(frame, packet_type, first_sequence_number, count, i, payload.len()),
        payload,
    )
}

/// The packets a frame splits into, or why it cannot be split.
pub open spec fn spec_packetize(
    frame: FrameView,
    packet_type: PacketType,
    first_sequence_number: u32,
    max_payload: nat,
) -> Result<Seq<PacketView>, FramePacketizeError> {
    let count = spec_fragment_count(frame.bytes.len(), max_payload);
    if max_payload == 0 {
        Err(FramePacketizeError::ZeroMaxPayload)
    } else if max_payload > u16::MAX {
        Err(FramePacketizeError::PayloadTooLarge(max_payload as usize))
    } else if count > u16::MAX {
        Err(FramePacketizeError::TooManyFragments(count as usize))
    } else if packet_type == PacketType::Probe && frame.codec != CodecId::H264 {
        Err(
            FramePacketizeError::PacketEncode(
                PacketEncodeError::InvalidHeader(
                    PacketDecodeError::InvalidPacketCodec { packet_type, codec: frame.codec },
                ),
            ),
        )
    } else {
        Ok(
            Seq::new(
                count,
                |i: int| fragment_packet(frame, packet_type, first_sequence_number, max_payload, i),
            ),
        )
    }
}

pub proof fn lemma_fragment_count_positive(len: nat, max_payload: nat)
    requires
        max_payload > 0,
    ensures
        spec_fragment_count(len, max_payload) >= 1,
{
    if len > 0 {
        assert((len + max_payload - 1) as int / max_payload as int >= 1) by (nonlinear_arith)
            requires
                len > 0,
                max_payload > 0,
        ;
    }
}

pub proof fn lemma_fragment_bounds(len: nat, max_payload: nat, i: int)
    requires
        max_payload > 0,
        0 <= i < spec_fragment_count(len, max_payload),
    ensures
        i * max_payload <= len,
        len > 0 ==> i * max_payload < len,
        spec_fragment_count(len, max_payload) >= 1,
        spec_fragment_count(len, max_payload) * max_payload >= len,
        spec_fragment_count(len, max_payload) <= len + 1,
{
    let c = spec_fragment_count(len, max_payload);
    if len == 0 {
        assert(i == 0);
        assert(i * max_payload == 0);
    } else {
        assert(c * max_payload >= len && (c - 1) * max_payload < len) by (nonlinear_arith)
            requires
                c == (len + max_payload - 1) as int / max_payload as int,
                max_payload > 0,
                len > 0,
        ;
        assert(i * max_payload <= (c - 1) * max_payload) by (nonlinear_arith)
            requires
                i <= c - 1,
                max_payload > 0,
        ;
        assert(c <= len) by (nonlinear_arith)
            requires
                c == (len + max_payload - 1) as int / max_payload as int,
                max_payload > 0,
                len > 0,
        ;
    }
}

/// Splits a video frame into packets of at most `max_payload` payload bytes.
pub fn packetize_frame(frame: &EncodedFrame, first_sequence_number: u32, max_payload: usize) -> (result: Result<Vec<MediaPacket>, FramePacketizeError>)
    ensures
        match result {
            Ok(packets) => spec_packetize(
                frame@,
                PacketType::Video,
                first_sequence_number,
                max_payload as nat,
            ) == Ok::<Seq<PacketView>, FramePacketizeError>(packet_views(packets@)),
            Err(e) => spec_packetize(
                frame@,
                PacketType::Video,
                first_sequence_number,
                max_payload as nat,
            ) == Err::<Seq<PacketView>, FramePacketizeError>(e),
        },
{
    packetize_frame_with_type(frame, PacketType::Video, first_sequence_number, max_payload)
}

/// Splits a frame into packets of the given type: every packet carries the
/// frame's identity and timing, consecutive sequence numbers (wrapping),
/// its fragment position, the keyframe flag of the frame, and the
/// end-of-frame flag on the last fragment only.
pub fn packetize_frame_with_type(
    frame: &EncodedFrame,
    packet_type: PacketType,
    first_sequence_number: u32,
    max_payload: usize,
) -> (result: Result<Vec<MediaPacket>, FramePacketizeError>)
    ensures
        match result {
            Ok(packets) => spec_packetize(
                frame@,
                packet_type,
                first_sequence_number,
                max_payload as nat,
            ) == Ok::<Seq<PacketView>, FramePacketizeError>(packet_views(packets@)),
            Err(e) => spec_packetize(frame@, packet_type, first_sequence_number, max_payload as nat)
                == Err::<Seq<PacketView>, FramePacketizeError>(e),
        },
{
    if max_payload == 0 {
        return Err(FramePacketizeError::ZeroMaxPayload);
    }
    if max_payload > 65535 {
        return Err(FramePacketizeError::PayloadTooLarge(max_payload));
    }
    let len = frame.bytes.len();
    proof {
        if len % max_payload != 0 {
            assert(len / max_payload < usize::MAX) by (nonlinear_arith)
                requires
                    len % max_payload != 0,
                    max_payload > 0,
                    len <= usize::MAX,
            ;
        }
    }
    let fragment_count: usize = if len == 0 {
        1
    } else if len % max_payload != 0 {
        len / max_payload + 1
    } else {
        len / max_payload
    };
    proof {
        if len > 0 {
            assert(fragment_count == (len + max_payload - 1) as int / max_payload as int) by (nonlinear_arith)
                requires
                    fragment_count == if len % max_payload != 0 {
                        (len / max_payload) as int + 1
                    } else {
                        (len / max_payload) as int
                    },
                    max_payload > 0,
            ;
        }
    }
    if fragment_count > 65535 {
        return Err(FramePacketizeError::TooManyFragments(fragment_count));
    }
    if packet_type == PacketType::Probe && frame.codec != CodecId::H264 {
        return Err(
            FramePacketizeError::PacketEncode(
                PacketEncodeError::InvalidHeader(
                    PacketDecodeError::InvalidPacketCodec { packet_type, codec: frame.codec },
                ),
            ),
        );
    }
    let ghost fv = frame@;
    let ghost mp = max_payload as nat;
    proof {
        lemma_frame_flag_bits();
    }
    let mut packets: Vec<MediaPacket> = Vec::new();
    let mut fragment_index: usize = 0;
    while fragment_index < fragment_count
        invariant
            0 <= fragment_index <= fragment_count,
            fragment_count == spec_fragment_count(len as nat, mp),
            fragment_count <= 65535,
            0 < max_payload <= 65535,
            len == fv.bytes.len(),
            fv == frame@,
            mp == max_payload,
            packets@.len() == fragment_index,
            forall|k: int|
                0 <= k < fragment_index ==> #[trigger] packets@[k]@ == fragment_packet(
                    fv,
                    packet_type,
                    first_sequence_number,
                    mp,
                    k,
                ),
        decreases fragment_count - fragment_index,
    {
        proof {
            lemma_fragment_bounds(len as nat, mp, fragment_index as int);
            assert(fragment_index * max_payload <= fragment_count * max_payload) by (
            nonlinear_arith)
                requires
                    fragment_index <= fragment_count,
            ;
        }
        let start = fragment_index * max_payload;
        let end = if len - start > max_payload {
            start + max_payload
        } else {
            len
        };
        let mut payload: Vec<u8> = Vec::new();
        let mut j: usize = start;
        while j < end
            invariant
                start <= j <= end,
                end <= len,
                len == frame.bytes@.len(),
                payload@ == frame.bytes@.subrange(start as int, j as int),
            decreases end - j,
        {
            payload.push(frame.bytes[j]);
            j += 1;
            assert(payload@ =~= frame.bytes@.subrange(start as int, j as int));
        }
        let mut flags = PacketFlags::empty();
        if frame.is_keyframe {
            flags = flags.with(PacketFlags::KEYFRAME);
        }
        if fragment_index + 1 == fragment_count {
            flags = flags.with(PacketFlags::END_OF_FRAME);
        }
        let sequence_number: u32 = if first_sequence_number as u64 + fragment_index as u64
            > 0xffff_ffff {
            (first_sequence_number as u64 + fragment_index as u64 - 0x1_0000_0000) as u32
        } else {
            (first_sequence_number as u64 + fragment_index as u64) as u32
        };
        let mut header = MediaPacketHeader::new(
            packet_type,
            frame.codec,
            frame.room_stream_id,
            sequence_number,
            (end - start) as u16,
        );
        header.flags = flags;
        header.frame_id = frame.frame_id;
        header.fragment_index = fragment_index as u16;
        header.fragment_count = fragment_count as u16;
        header.media_timestamp = frame.media_timestamp;
        header.sender_capture_time_micros = frame.sender_capture_time_micros;
        header.sender_encode_done_time_micros = frame.sender_encode_done_time_micros;
        header.sender_send_time_micros = frame.sender_send_time_micros;
        header.server_receive_time_micros = frame.server_receive_time_micros;
        header.server_send_time_micros = frame.server_send_time_micros;
        let packet = MediaPacket { header, payload };
        proof {
            let i = fragment_index as int;
            let pk = fragment_packet(fv, packet_type, first_sequence_number, mp, i);
            lemma_frame_flag_bits();
            assert((i + 1) * mp == i * mp + mp) by (nonlinear_arith);
            assert(start == i * mp);
            assert(end == if (i + 1) * mp < len { (i + 1) * mp } else { len as int });
            assert(packet@.1 =~= pk.1);
            assert(payload@.len() == end - start);
            assert(header.flags.0 == fragment_flags(
                fv.is_keyframe,
                i,
                fragment_count as int,
            ));
            assert(header.sequence_number == wrap_u32(first_sequence_number + i));
            assert(packet@.0 == pk.0);
        }
        packets.push(packet);
        fragment_index += 1;
    }
    proof {
        assert(packet_views(packets@) =~= Seq::new(
            fragment_count as nat,
            |i: int| fragment_packet(fv, packet_type, first_sequence_number, mp, i),
        ));
    }
    Ok(packets)
}

/// Splits a video frame so that every datagram, header included, fits in
/// `max_datagram_payload` bytes.
pub fn packetize_frame_for_datagram_target(
    frame: &EncodedFrame,
    first_sequence_number: u32,
    max_datagram_payload: usize,
) -> (result: Result<Vec<MediaPacket>, FramePacketizeError>)
    ensures
        max_datagram_payload <= 81 ==> result == Err::<Vec<MediaPacket>, FramePacketizeError>(
            FramePacketizeError::DatagramTooSmall,
        ),
        max_datagram_payload > 81 ==> match result {
            Ok(packets) => spec_packetize(
                frame@,
                PacketType::Video,
                first_sequence_number,
                (max_datagram_payload - 81) as nat,
            ) == Ok::<Seq<PacketView>, FramePacketizeError>(packet_views(packets@)),
            Err(e) => spec_packetize(
                frame@,
                PacketType::Video,
                first_sequence_number,
                (max_datagram_payload - 81) as nat,
            ) == Err::<Seq<PacketView>, FramePacketizeError>(e),
        },
{
    if max_datagram_payload <= MEDIA_PACKET_HEADER_LEN {
        return Err(FramePacketizeError::DatagramTooSmall);
    }
    packetize_frame_with_type_for_datagram_target(
        frame,
        PacketType::Video,
        first_sequence_number,
        max_datagram_payload,
    )
}

/// Splits a frame of the given packet type so that every datagram fits in
/// `max_datagram_payload` bytes.
pub fn packetize_frame_with_type_for_datagram_target(
    frame: &EncodedFrame,
    packet_type: PacketType,
    first_sequence_number: u32,
    max_datagram_payload: usize,
) -> (result: Result<Vec<MediaPacket>, FramePacketizeError>)
    ensures
        max_datagram_payload <= 81 ==> result == Err::<Vec<MediaPacket>, FramePacketizeError>(
            FramePacketizeError::DatagramTooSmall,
        ),
        max_datagram_payload > 81 ==> match result {
            Ok(packets) => spec_packetize(
                frame@,
                packet_type,
                first_sequence_number,
                (max_datagram_payload - 81) as nat,
            ) == Ok::<Seq<PacketView>, FramePacketizeError>(packet_views(packets@)),
            Err(e) => spec_packetize(
                frame@,
                packet_type,
                first_sequence_number,
                (max_datagram_payload - 81) as nat,
            ) == Err::<Seq<PacketView>, FramePacketizeError>(e),
        },
{
    if max_datagram_payload <= MEDIA_PACKET_HEADER_LEN {
        return Err(FramePacketizeError::DatagramTooSmall);
    }
    packetize_frame_with_type(
        frame,
        packet_type,
        first_sequence_number,
        max_datagram_payload - MEDIA_PACKET_HEADER_LEN,
    )
}

/// The smaller of two times, where zero means "not stamped".
pub open spec fn min_nonzero(left: u64, right: u64) -> u64 {
    if left == 0 {
        right
    } else if right == 0 {
        left
    } else if left < right {
        left
    } else {
        right
    }
}

fn min_nonzero_exec(left: u64, right: u64) -> (result: u64)
    ensures
        result == min_nonzero(left, right),
{
    if left == 0 {
        right
    } else if right == 0 {
        left
    } else if left < right {
        left
    } else {
        right
    }
}

pub open spec fn max_u64(a: u64, b: u64) -> u64 {
    if a >= b {
        a
    } else {
        b
    }
}

/// Keys never decrease along `s`.
pub open spec fn sorted_by_index(s: Seq<PacketView>) -> bool {
    forall|a: int, b: int|
        0 <= a < b < s.len() ==> s[a].0.fragment_index <= s[b].0.fragment_index
}

/// Inserts `p` after every element whose fragment index is not larger.
pub open spec fn insert_by_index(sorted: Seq<PacketView>, p: PacketView) -> Seq<PacketView>
    decreases sorted.len(),
{
    if sorted.len() == 0 {
        seq![p]
    } else if sorted.last().0.fragment_index <= p.0.fragment_index {
        sorted.push(p)
    } else {
        insert_by_index(sorted.drop_last(), p).push(sorted.last())
    }
}

/// The stable sort of packets by fragment index.
pub open spec fn sort_by_index(s: Seq<PacketView>) -> Seq<PacketView>
    decreases s.len(),
{
    if s.len() == 0 {
        s
    } else {
        insert_by_index(sort_by_index(s.drop_last()), s.last())
    }
}

/// The first header that fails validation, in the order given.
pub open spec fn first_header_error(s: Seq<PacketView>) -> Option<PacketDecodeError>
    decreases s.len(),
{
    if s.len() == 0 {
        None
    } else {
        match spec_validate(s[0].0) {
            Err(e) => Some(e),
            Ok(_) => first_header_error(s.drop_first()),
        }
    }
}

/// Whether a fragment disagrees with the first one on the frame it belongs to.
pub open spec fn metadata_differs(h: MediaPacketHeader, first: MediaPacketHeader) -> bool {
    ||| h.fragment_count != first.fragment_count
    ||| h.frame_id != first.frame_id
    ||| h.room_stream_id != first.room_stream_id
    ||| h.codec != first.codec
    ||| h.packet_type != first.packet_type
    ||| h.layer != first.layer
    ||| h.media_timestamp != first.media_timestamp
    ||| h.sender_capture_time_micros != first.sender_capture_time_micros
    ||| spec_has_flag(h.flags.0, 1) != spec_has_flag(first.flags.0, 1)
}

/// Running state of the scan: latest encode-done, latest send, earliest
/// stamped relay receive, latest relay send, and the bytes so far.
pub type ScanAcc = (u64, u64, u64, u64, Seq<u8>);

/// Walks the sorted fragments from position `i`, checking each and folding
/// its timing and payload into `acc`.
pub open spec fn spec_scan(sorted: Seq<PacketView>, first: MediaPacketHeader, i: int, acc: ScanAcc) -> Result<ScanAcc, FrameReassemblyError>
    decreases sorted.len() - i,
{
    if i < 0 || i >= sorted.len() {
        Ok(acc)
    } else {
        let h = sorted[i].0;
        let fi = h.fragment_index;
        if i > 0 && sorted[i - 1].0.fragment_index == fi {
            Err(FrameReassemblyError::DuplicateFragment(fi))
        } else if fi != i {
            Err(FrameReassemblyError::MissingFragment(i as u16))
        } else if metadata_differs(h, first) {
            Err(FrameReassemblyError::FragmentMetadataMismatch)
        } else if spec_has_flag(h.flags.0, 2) != (i + 1 == first.fragment_count) {
            Err(FrameReassemblyError::InvalidEndOfFrameFlag(fi))
        } else {
            spec_scan(
                sorted,
                first,
                i + 1,
                (
                    max_u64(acc.0, h.sender_encode_done_time_micros),
                    max_u64(acc.1, h.sender_send_time_micros),
                    min_nonzero(acc.2, h.server_receive_time_micros),
                    max_u64(acc.3, h.server_send_time_micros),
                    acc.4 + sorted[i].1,
                ),
            )
        }
    }
}

/// The frame a successful scan describes, or the scan's error.
pub open spec fn finish_frame(first: MediaPacketHeader, scanned: Result<ScanAcc, FrameReassemblyError>) -> Result<FrameView, FrameReassemblyError> {
    match scanned {
        Err(e) => Err(e),
        Ok(acc) => Ok(
            FrameView {
                room_stream_id: first.room_stream_id,
                frame_id: first.frame_id,
                media_timestamp: first.media_timestamp,
                sender_capture_time_micros: first.sender_capture_time_micros,
                sender_encode_done_time_micros: acc.0,
                sender_send_time_micros: acc.1,
                server_receive_time_micros: acc.2,
                server_send_time_micros: acc.3,
                codec: first.codec,
                is_keyframe: spec_has_flag(first.flags.0, 1),
                bytes: acc.4,
            },
        ),
    }
}

/// The frame rebuilt from packets, or the first reason they do not form one:
/// every header is validated, the packets are stably sorted by fragment
/// index, and the sorted run must be exactly the fragments of one video or
/// audio frame, each carrying the same frame metadata and the end-of-frame
/// flag on the last one only.
pub open spec fn spec_reassemble(packets: Seq<PacketView>) -> Result<FrameView, FrameReassemblyError> {
    if packets.len() == 0 {
        Err(FrameReassemblyError::Empty)
    } else {
        match first_header_error(packets) {
            Some(e) => Err(FrameReassemblyError::InvalidPacketHeader(e)),
            None => {
                let sorted = sort_by_index(packets);
                let first = sorted[0].0;
                if !(first.packet_type == PacketType::Video || first.packet_type
                    == PacketType::Audio) {
                    Err(FrameReassemblyError::FragmentMetadataMismatch)
                } else if sorted.len() != first.fragment_count {
                    Err(FrameReassemblyError::FragmentCountMismatch)
                } else {
                    let init: ScanAcc = (
                        first.sender_encode_done_time_micros,
                        first.sender_send_time_micros,
                        first.server_receive_time_micros,
                        first.server_send_time_micros,
                        Seq::empty(),
                    );
                    finish_frame(first, spec_scan(sorted, first, 0, init))
                }
            },
        }
    }
}

proof fn lemma_sort_len(s: Seq<PacketView>)
    ensures
        sort_by_index(s).len() == s.len(),
    decreases s.len(),
{
    if s.len() > 0 {
        lemma_sort_len(s.drop_last());
        lemma_insert_len(sort_by_index(s.drop_last()), s.last());
    }
}

proof fn lemma_insert_len(t: Seq<PacketView>, p: PacketView)
    ensures
        insert_by_index(t, p).len() == t.len() + 1,
    decreases t.len(),
{
    if t.len() > 0 && t.last().0.fragment_index > p.0.fragment_index {
        lemma_insert_len(t.drop_last(), p);
    }
}

/// In a sorted run, inserting lands right before the first larger key.
proof fn lemma_insert_at(t: Seq<PacketView>, p: PacketView, j: int)
    requires
        0 <= j <= t.len(),
        forall|m: int| 0 <= m < j ==> t[m].0.fragment_index <= p.0.fragment_index,
        forall|m: int| j <= m < t.len() ==> t[m].0.fragment_index > p.0.fragment_index,
    ensures
        insert_by_index(t, p) == t.take(j).push(p) + t.skip(j),
    decreases t.len(),
{
    if t.len() == 0 {
        assert(t.take(j).push(p) + t.skip(j) =~= seq![p]);
    } else if t.last().0.fragment_index <= p.0.fragment_index {
        assert(j == t.len());
        assert(t.take(j).push(p) + t.skip(j) =~= t.push(p));
    } else {
        let d = t.drop_last();
        lemma_insert_at(d, p, j);
        assert(d.take(j).push(p) + d.skip(j) + seq![t.last()] =~= t.take(j).push(p) + t.skip(j));
    }
}

/// A run already sorted by fragment index is left as it is.
proof fn lemma_sorted_sort_identity(s: Seq<PacketView>)
    requires
        sorted_by_index(s),
    ensures
        sort_by_index(s) == s,
    decreases s.len(),
{
    if s.len() > 0 {
        let d = s.drop_last();
        assert(sorted_by_index(d));
        lemma_sorted_sort_identity(d);
        assert(d.push(s.last()) =~= s);
    }
}

proof fn lemma_no_header_error(s: Seq<PacketView>)
    requires
        forall|i: int| 0 <= i < s.len() ==> spec_validate(#[trigger] s[i].0) is Ok,
    ensures
        first_header_error(s) is None,
    decreases s.len(),
{
    if s.len() > 0 {
        assert forall|i: int| 0 <= i < s.drop_first().len() implies spec_validate(
            #[trigger] s.drop_first()[i].0,
        ) is Ok by {
            assert(s.drop_first()[i] == s[i + 1]);
        }
        lemma_no_header_error(s.drop_first());
    }
}

proof fn lemma_header_error_step(s: Seq<PacketView>, i: int)
    requires
        0 <= i < s.len(),
    ensures
        first_header_error(s.skip(i)) == match spec_validate(s[i].0) {
            Err(e) => Some(e),
            Ok(_) => first_header_error(s.skip(i + 1)),
        },
{
    assert(s.skip(i).drop_first() =~= s.skip(i + 1));
    assert(s.skip(i)[0] == s[i]);
}

/// The bytes of the first `i` fragments.
pub open spec fn fragment_prefix(bytes: Seq<u8>, max_payload: nat, i: int) -> Seq<u8> {
    bytes.subrange(0, if i * max_payload < bytes.len() { i * max_payload } else { bytes.len() as int })
}

proof fn lemma_scan_packetized(
    frame: FrameView,
    packet_type: PacketType,
    first_sequence_number: u32,
    max_payload: nat,
    i: int,
)
    requires
        spec_packetize(frame, packet_type, first_sequence_number, max_payload) is Ok,
        packet_type == PacketType::Video || packet_type == PacketType::Audio,
        0 <= i <= spec_fragment_count(frame.bytes.len(), max_payload),
    ensures
        ({
            let s = spec_packetize(frame, packet_type, first_sequence_number, max_payload).unwrap();
            spec_scan(
                s,
                s[0].0,
                i,
                (
                    frame.sender_encode_done_time_micros,
                    frame.sender_send_time_micros,
                    frame.server_receive_time_micros,
                    frame.server_send_time_micros,
                    fragment_prefix(frame.bytes, max_payload, i),
                ),
            ) == Ok::<ScanAcc, FrameReassemblyError>(
                (
                    frame.sender_encode_done_time_micros,
                    frame.sender_send_time_micros,
                    frame.server_receive_time_micros,
                    frame.server_send_time_micros,
                    frame.bytes,
                ),
            )
        }),
    decreases spec_fragment_count(frame.bytes.len(), max_payload) - i,
{
    let s = spec_packetize(frame, packet_type, first_sequence_number, max_payload).unwrap();
    let count = spec_fragment_count(frame.bytes.len(), max_payload);
    let len = frame.bytes.len();
    lemma_fragment_count_positive(len, max_payload);
    lemma_fragment_bounds(len, max_payload, 0);
    if i == count {
        assert(fragment_prefix(frame.bytes, max_payload, i) =~= frame.bytes);
    } else {
        lemma_fragment_bounds(len, max_payload, i);
        lemma_frame_flag_bits();
        let h = s[i].0;
        let first = s[0].0;
        if i > 0 {
            assert(s[i - 1].0.fragment_index == (i - 1) as u16);
        }
        assert(h.fragment_index == i);
        assert(!metadata_differs(h, first));
        assert((i + 1) * max_payload == i * max_payload + max_payload) by (nonlinear_arith);
        assert(fragment_prefix(frame.bytes, max_payload, i) + s[i].1 =~= fragment_prefix(
            frame.bytes,
            max_payload,
            i + 1,
        ));
        lemma_scan_packetized(frame, packet_type, first_sequence_number, max_payload, i + 1);
    }
}

/// Reassembling the packets of a video or audio frame gives back the frame.
pub proof fn lemma_packetize_reassemble(
    frame: FrameView,
    packet_type: PacketType,
    first_sequence_number: u32,
    max_payload: nat,
)
    requires
        spec_packetize(frame, packet_type, first_sequence_number, max_payload) is Ok,
        packet_type == PacketType::Video || packet_type == PacketType::Audio,
    ensures
        spec_reassemble(spec_packetize(frame, packet_type, first_sequence_number, max_payload).unwrap())
            == Ok::<FrameView, FrameReassemblyError>(frame),
{
    let s = spec_packetize(frame, packet_type, first_sequence_number, max_payload).unwrap();
    let count = spec_fragment_count(frame.bytes.len(), max_payload);
    lemma_fragment_count_positive(frame.bytes.len(), max_payload);
    lemma_fragment_bounds(frame.bytes.len(), max_payload, 0);
    lemma_frame_flag_bits();
    assert forall|i: int| 0 <= i < s.len() implies spec_validate(#[trigger] s[i].0) is Ok by {}
    lemma_no_header_error(s);
    assert(sorted_by_index(s));
    lemma_sorted_sort_identity(s);
    assert(fragment_prefix(frame.bytes, max_payload, 0) =~= Seq::<u8>::empty());
    lemma_scan_packetized(frame, packet_type, first_sequence_number, max_payload, 0);
}

/// Fragment indices strictly increase along `s`.
pub open spec fn strictly_sorted_by_index(s: Seq<PacketView>) -> bool {
    forall|a: int, b: int|
        0 <= a < b < s.len() ==> s[a].0.fragment_index < s[b].0.fragment_index
}

/// No two packets of `s` share a fragment index.
pub open spec fn distinct_indices(s: Seq<PacketView>) -> bool {
    forall|a: int, b: int|
        0 <= a < s.len() && 0 <= b < s.len() && a != b ==> s[a].0.fragment_index
            != s[b].0.fragment_index
}

/// Inserting a packet whose index `t` lacks into a strictly sorted run keeps
/// it strictly sorted, and adds just that packet.
proof fn lemma_insert_strict(t: Seq<PacketView>, p: PacketView)
    requires
        strictly_sorted_by_index(t),
        forall|m: int| 0 <= m < t.len() ==> t[m].0.fragment_index != p.0.fragment_index,
    ensures
        strictly_sorted_by_index(insert_by_index(t, p)),
        insert_by_index(t, p).len() == t.len() + 1,
        forall|x: PacketView| #[trigger] insert_by_index(t, p).contains(x) <==> (t.contains(x) || x == p),
    decreases t.len(),
{
    let r = insert_by_index(t, p);
    if t.len() == 0 {
        assert(r =~= seq![p]);
        assert forall|x: PacketView| r.contains(x) <==> x == p by {
            if r.contains(x) {
                let i = choose|i: int| 0 <= i < r.len() && r[i] == x;
                assert(i == 0);
            }
            if x == p {
                assert(r[0] == p);
            }
        }
    } else if t.last().0.fragment_index <= p.0.fragment_index {
        assert(r == t.push(p));
        assert(t.last().0.fragment_index < p.0.fragment_index);
        assert forall|a: int, b: int| 0 <= a < b < r.len() implies r[a].0.fragment_index < r[b].0.fragment_index by {
            if b == t.len() && a < t.len() - 1 {
                assert(t[a].0.fragment_index < t[t.len() - 1].0.fragment_index);
            }
        }
        assert forall|x: PacketView| #[trigger] r.contains(x) <==> (t.contains(x) || x == p) by {
            if r.contains(x) {
                let i = choose|i: int| 0 <= i < r.len() && r[i] == x;
                if i < t.len() {
                    assert(t[i] == x);
                }
            }
            if t.contains(x) {
                let i = choose|i: int| 0 <= i < t.len() && t[i] == x;
                assert(r[i] == x);
            }
            if x == p {
                assert(r[t.len() as int] == p);
            }
        }
    } else {
        let d = t.drop_last();
        let last = t.last();
        assert(strictly_sorted_by_index(d));
        lemma_insert_strict(d, p);
        let e = insert_by_index(d, p);
        assert(r == e.push(last));
        assert forall|m: int| 0 <= m < e.len() implies e[m].0.fragment_index < last.0.fragment_index by {
            assert(e.contains(e[m]));
            if d.contains(e[m]) {
                let i = choose|i: int| 0 <= i < d.len() && d[i] == e[m];
                assert(t[i] == d[i]);
            }
        }
        assert forall|a: int, b: int| 0 <= a < b < r.len() implies r[a].0.fragment_index < r[b].0.fragment_index by {
            if b == e.len() {
                assert(r[a] == e[a]);
            } else {
                assert(r[a] == e[a] && r[b] == e[b]);
            }
        }
        assert forall|x: PacketView| #[trigger] r.contains(x) <==> (t.contains(x) || x == p) by {
            if r.contains(x) {
                let i = choose|i: int| 0 <= i < r.len() && r[i] == x;
                if i < e.len() {
                    assert(e[i] == x);
                    assert(e.contains(x));
                    if d.contains(x) {
                        let j = choose|j: int| 0 <= j < d.len() && d[j] == x;
                        assert(t[j] == x);
                    }
                } else {
                    assert(t[t.len() - 1] == x);
                }
            }
            if t.contains(x) {
                let i = choose|i: int| 0 <= i < t.len() && t[i] == x;
                if i < d.len() {
                    assert(d[i] == x);
                    assert(e.contains(x));
                    let j = choose|j: int| 0 <= j < e.len() && e[j] == x;
                    assert(r[j] == x);
                } else {
                    assert(r[e.len() as int] == x);
                }
            }
            if x == p {
                assert(e.contains(p));
                let j = choose|j: int| 0 <= j < e.len() && e[j] == p;
                assert(r[j] == p);
            }
        }
    }
}

/// Sorting packets with distinct indices sorts them strictly and keeps
/// exactly the packets given.
proof fn lemma_sort_strict(q: Seq<PacketView>)
    requires
        distinct_indices(q),
    ensures
        strictly_sorted_by_index(sort_by_index(q)),
        sort_by_index(q).len() == q.len(),
        forall|x: PacketView| #[trigger] sort_by_index(q).contains(x) <==> q.contains(x),
    decreases q.len(),
{
    if q.len() > 0 {
        let d = q.drop_last();
        let last = q.last();
        assert(distinct_indices(d));
        lemma_sort_strict(d);
        let t = sort_by_index(d);
        assert forall|m: int| 0 <= m < t.len() implies t[m].0.fragment_index != last.0.fragment_index by {
            assert(t.contains(t[m]));
            assert(d.contains(t[m]));
            let i = choose|i: int| 0 <= i < d.len() && d[i] == t[m];
            assert(q[i] == t[m]);
            assert(q[q.len() - 1] == last);
        }
        lemma_insert_strict(t, last);
        assert forall|x: PacketView| #[trigger] sort_by_index(q).contains(x) <==> q.contains(x) by {
            assert(sort_by_index(q) == insert_by_index(t, last));
            if d.contains(x) {
                let i = choose|i: int| 0 <= i < d.len() && d[i] == x;
                assert(q[i] == x);
            }
            if q.contains(x) {
                let i = choose|i: int| 0 <= i < q.len() && q[i] == x;
                if i < d.len() {
                    assert(d[i] == x);
                } else {
                    assert(x == last);
                }
            }
            if x == last {
                assert(q[q.len() - 1] == x);
            }
        }
    }
}

/// In a strictly sorted run of `n` packets with indices below `n`, the
/// packet at each position has that position as its index.
proof fn lemma_strict_indices_exact(t: Seq<PacketView>)
    requires
        strictly_sorted_by_index(t),
        forall|m: int| 0 <= m < t.len() ==> t[m].0.fragment_index < t.len(),
    ensures
        forall|m: int| 0 <= m < t.len() ==> #[trigger] t[m].0.fragment_index == m,
{
    assert forall|m: int| 0 <= m < t.len() implies #[trigger] t[m].0.fragment_index >= m by {
        lemma_index_at_least(t, m);
    }
    assert forall|m: int| 0 <= m < t.len() implies #[trigger] t[m].0.fragment_index <= m by {
        lemma_index_at_most(t, m);
    }
}

proof fn lemma_index_at_least(t: Seq<PacketView>, m: int)
    requires
        strictly_sorted_by_index(t),
        0 <= m < t.len(),
    ensures
        t[m].0.fragment_index >= m,
    decreases m,
{
    if m > 0 {
        lemma_index_at_least(t, m - 1);
        assert(t[m - 1].0.fragment_index < t[m].0.fragment_index);
    }
}

proof fn lemma_index_at_most(t: Seq<PacketView>, m: int)
    requires
        strictly_sorted_by_index(t),
        forall|k: int| 0 <= k < t.len() ==> t[k].0.fragment_index < t.len(),
        0 <= m < t.len(),
    ensures
        t[m].0.fragment_index <= m,
    decreases t.len() - m,
{
    if m < t.len() - 1 {
        lemma_index_at_most(t, m + 1);
        assert(t[m].0.fragment_index < t[m + 1].0.fragment_index);
    }
}

/// Reassembly does not depend on the order fragments arrive in: any
/// reordering of the packets of a frame, each once, gives the frame back.
pub proof fn law_reassemble_any_order(
    frame: FrameView,
    packet_type: PacketType,
    first_sequence_number: u32,
    max_payload: nat,
    arrived: Seq<PacketView>,
)
    requires
        spec_packetize(frame, packet_type, first_sequence_number, max_payload) is Ok,
        packet_type == PacketType::Video || packet_type == PacketType::Audio,
        arrived.len() == spec_packetize(frame, packet_type, first_sequence_number, max_payload).unwrap().len(),
        arrived.no_duplicates(),
        forall|i: int| 0 <= i < arrived.len() ==> spec_packetize(frame, packet_type, first_sequence_number, max_payload).unwrap().contains(#[trigger] arrived[i]),
    ensures
        spec_reassemble(arrived) == Ok::<FrameView, FrameReassemblyError>(frame),
{
    let s = spec_packetize(frame, packet_type, first_sequence_number, max_payload).unwrap();
    let n = s.len();
    lemma_packetize_reassemble(frame, packet_type, first_sequence_number, max_payload);
    lemma_fragment_count_positive(frame.bytes.len(), max_payload);
    lemma_fragment_bounds(frame.bytes.len(), max_payload, 0);
    lemma_frame_flag_bits();
    assert forall|i: int| 0 <= i < n implies spec_validate(#[trigger] s[i].0) is Ok by {}
    assert forall|k: int| 0 <= k < n implies #[trigger] s[k].0.fragment_index == k by {}
    // every arrived packet is the fragment its index names
    assert forall|i: int| 0 <= i < arrived.len() implies arrived[i] == s[arrived[i].0.fragment_index as int]
        && spec_validate(#[trigger] arrived[i].0) is Ok by {
        let k = choose|k: int| 0 <= k < n && s[k] == arrived[i];
        assert(s[k].0.fragment_index == k);
    }
    assert(distinct_indices(arrived)) by {
        assert forall|a: int, b: int|
            0 <= a < arrived.len() && 0 <= b < arrived.len() && a != b implies arrived[a].0.fragment_index
                != arrived[b].0.fragment_index by {
            assert(spec_validate(arrived[a].0) is Ok);
            assert(spec_validate(arrived[b].0) is Ok);
        }
    }
    lemma_no_header_error(arrived);
    lemma_sort_strict(arrived);
    let t = sort_by_index(arrived);
    assert forall|m: int| 0 <= m < t.len() implies t[m].0.fragment_index < t.len() by {
        assert(t.contains(t[m]));
        let i = choose|i: int| 0 <= i < arrived.len() && arrived[i] == t[m];
        assert(spec_validate(arrived[i].0) is Ok);
    }
    lemma_strict_indices_exact(t);
    assert forall|m: int| 0 <= m < n implies t[m] == s[m] by {
        assert(t.contains(t[m]));
        let i = choose|i: int| 0 <= i < arrived.len() && arrived[i] == t[m];
        assert(spec_validate(arrived[i].0) is Ok);
        assert(t[m].0.fragment_index == m);
    }
    assert(t =~= s);
    lemma_no_header_error(s);
    assert(sorted_by_index(s));
    lemma_sorted_sort_identity(s);
}

/// The first `k` packets of a packetized frame, short of all of them, do
/// not reassemble: their count differs from the fragment count they carry.
pub proof fn lemma_packetized_prefix_incomplete(
    frame: FrameView,
    packet_type: PacketType,
    first_sequence_number: u32,
    max_payload: nat,
    k: int,
)
    requires
        spec_packetize(frame, packet_type, first_sequence_number, max_payload) is Ok,
        packet_type == PacketType::Video || packet_type == PacketType::Audio,
        1 <= k < spec_packetize(frame, packet_type, first_sequence_number, max_payload).unwrap().len(),
    ensures
        spec_reassemble(spec_packetize(frame, packet_type, first_sequence_number, max_payload).unwrap().take(k))
            == Err::<FrameView, FrameReassemblyError>(FrameReassemblyError::FragmentCountMismatch),
{
    let s = spec_packetize(frame, packet_type, first_sequence_number, max_payload).unwrap();
    lemma_fragment_count_positive(frame.bytes.len(), max_payload);
    lemma_fragment_bounds(frame.bytes.len(), max_payload, 0);
    lemma_frame_flag_bits();
    assert forall|i: int| 0 <= i < s.len() implies spec_validate(#[trigger] s[i].0) is Ok by {}
    let t = s.take(k);
    assert forall|i: int| 0 <= i < t.len() implies spec_validate(#[trigger] t[i].0) is Ok by {
        assert(t[i] == s[i]);
    }
    lemma_no_header_error(t);
    assert(sorted_by_index(s));
    assert(sorted_by_index(t)) by {
        assert forall|a: int, b: int| 0 <= a < b < t.len() implies t[a].0.fragment_index
            <= t[b].0.fragment_index by {
            assert(t[a] == s[a] && t[b] == s[b]);
        }
    }
    lemma_sorted_sort_identity(t);
    assert(t[0] == s[0]);
}

/// Rebuilds a frame from its packets, in any order.
pub fn reassemble_frame(packets: Vec<MediaPacket>) -> (result: Result<EncodedFrame, FrameReassemblyError>)
    ensures
        match result {
            Ok(frame) => spec_reassemble(packet_views(packets@)) == Ok::<
                FrameView,
                FrameReassemblyError,
            >(frame@),
            Err(e) => spec_reassemble(packet_views(packets@)) == Err::<
                FrameView,
                FrameReassemblyError,
            >(e),
        },
{
    let ghost orig = packet_views(packets@);
    let mut work = packets;
    if work.len() == 0 {
        return Err(FrameReassemblyError::Empty);
    }
    let n = work.len();
    let mut k: usize = 0;
    proof {
        assert(orig.skip(0) =~= orig);
    }
    while k < n
        invariant
            0 <= k <= n,
            n == work@.len(),
            orig == packet_views(work@),
            orig == packet_views(packets@),
            first_header_error(orig) == first_header_error(orig.skip(k as int)),
        decreases n - k,
    {
        proof {
            lemma_header_error_step(orig, k as int);
            assert(orig[k as int] == work@[k as int]@);
        }
        match work[k].header.validate() {
            Ok(()) => {},
            Err(e) => {
                assert(first_header_error(orig) == Some(e));
                assert(orig.len() > 0);
                assert(spec_reassemble(orig) == Err::<FrameView, FrameReassemblyError>(
                    FrameReassemblyError::InvalidPacketHeader(e),
                ));
                return Err(FrameReassemblyError::InvalidPacketHeader(e));
            },
        }
        k += 1;
    }
    proof {
        assert(orig.skip(n as int) =~= Seq::<PacketView>::empty());
        assert(first_header_error(orig) is None);
    }
    // stable insertion sort by fragment index
    let mut i: usize = 1;
    proof {
        let t1 = orig.take(1);
        assert(t1.drop_last() =~= Seq::<PacketView>::empty());
        assert(sort_by_index(t1.drop_last()) =~= Seq::<PacketView>::empty());
        assert(insert_by_index(Seq::<PacketView>::empty(), t1.last()) =~= seq![t1.last()]);
        assert(sort_by_index(t1) =~= t1);
        assert(packet_views(work@).take(1) =~= orig.take(1));
    }
    while i < n
        invariant
            1 <= i <= n,
            n == work@.len(),
            packet_views(work@).take(i as int) == sort_by_index(orig.take(i as int)),
            packet_views(work@).skip(i as int) == orig.skip(i as int),
            sorted_by_index(packet_views(work@).take(i as int)),
            orig.len() == n,
        decreases n - i,
    {
        let ghost before = packet_views(work@);
        let ghost t = before.take(i as int);
        let x = work.remove(i);
        proof {
            assert(x@ == orig[i as int]) by {
                assert(before.skip(i as int)[0] == before[i as int]);
            }
        }
        let key = x.header.fragment_index;
        let mut j: usize = 0;
        while j < i && work[j].header.fragment_index <= key
            invariant
                0 <= j <= i,
                i < n,
                work@.len() == n - 1,
                packet_views(work@).take(i as int) == t,
                forall|m: int| 0 <= m < j ==> t[m].0.fragment_index <= key,
            decreases i - j,
        {
            proof {
                assert(t[j as int] == packet_views(work@)[j as int]);
            }
            j += 1;
        }
        proof {
            if j < i {
                assert(t[j as int] == packet_views(work@)[j as int]);
                assert forall|m: int| j <= m < t.len() implies t[m].0.fragment_index > key by {
                    assert(t[j as int].0.fragment_index <= t[m].0.fragment_index);
                }
            }
            lemma_insert_at(t, x@, j as int);
        }
        work.insert(j, x);
        proof {
            let after = packet_views(work@);
            assert(orig.take(i + 1).drop_last() =~= orig.take(i as int));
            assert(orig.take(i + 1).last() == orig[i as int]);
            assert(after.take(i + 1) =~= t.take(j as int).push(x@) + t.skip(j as int));
            assert(after.skip(i + 1) =~= orig.skip(i + 1)) by {
                assert(before.skip(i as int) == orig.skip(i as int));
                assert forall|m: int| 0 <= m < after.skip(i + 1).len() implies #[trigger] after.skip(
                    i + 1,
                )[m] == orig.skip(i + 1)[m] by {
                    assert(after[i + 1 + m] == before[i + 1 + m]);
                    assert(before.skip(i as int)[m + 1] == orig.skip(i as int)[m + 1]);
                }
            }
            let nt = after.take(i + 1);
            assert forall|a: int, b: int| 0 <= a < b < nt.len() implies nt[a].0.fragment_index
                <= nt[b].0.fragment_index by {
                if a < j && b < j {
                } else if a < j && b == j {
                } else if a < j {
                    assert(nt[b] == t[b - 1]);
                } else if a == j {
                    assert(nt[b] == t[b - 1]);
                } else {
                    assert(nt[a] == t[a - 1] && nt[b] == t[b - 1]);
                }
            }
        }
        i += 1;
    }
    let ghost sorted = packet_views(work@);
    proof {
        assert(sorted.take(n as int) =~= sorted);
        assert(orig.take(n as int) =~= orig);
        lemma_sort_len(orig);
    }
    let first = work[0].header;
    if !(first.packet_type == PacketType::Video || first.packet_type == PacketType::Audio) {
        return Err(FrameReassemblyError::FragmentMetadataMismatch);
    }
    if work.len() != first.fragment_count as usize {
        return Err(FrameReassemblyError::FragmentCountMismatch);
    }
    let is_keyframe = first.flags.contains(PacketFlags::KEYFRAME);
    let mut sender_encode_done_time_micros = first.sender_encode_done_time_micros;
    let mut sender_send_time_micros = first.sender_send_time_micros;
    let mut server_receive_time_micros = min_nonzero_exec(first.server_receive_time_micros, 0);
    let mut server_send_time_micros = first.server_send_time_micros;
    let mut bytes: Vec<u8> = Vec::new();
    let ghost init: ScanAcc = (
        first.sender_encode_done_time_micros,
        first.sender_send_time_micros,
        first.server_receive_time_micros,
        first.server_send_time_micros,
        Seq::empty(),
    );
    proof {
        assert(sorted.len() == n);
        assert(spec_reassemble(orig) == finish_frame(first, spec_scan(sorted, first, 0, init)));
    }
    let mut previous_fragment_index: Option<u16> = None;
    let mut expected_index: usize = 0;
    while expected_index < n
        invariant
            0 <= expected_index <= n,
            n == work@.len(),
            n == first.fragment_count,
            sorted == packet_views(work@),
            sorted == sort_by_index(orig),
            orig == packet_views(packets@),
            spec_reassemble(orig) == finish_frame(first, spec_scan(sorted, first, 0, init)),
            first.packet_type == PacketType::Video || first.packet_type == PacketType::Audio,
            first_header_error(orig) is None,
            orig.len() == n,
            first == sorted[0].0,
            is_keyframe == spec_has_flag(first.flags.0, 1),
            spec_scan(sorted, first, 0, init) == spec_scan(
                sorted,
                first,
                expected_index as int,
                (
                    sender_encode_done_time_micros,
                    sender_send_time_micros,
                    server_receive_time_micros,
                    server_send_time_micros,
                    bytes@,
                ),
            ),
            previous_fragment_index == if expected_index == 0 {
                None::<u16>
            } else {
                Some(sorted[expected_index - 1].0.fragment_index)
            },
        decreases n - expected_index,
    {
        let packet = &work[expected_index];
        proof {
            assert(sorted[expected_index as int] == work@[expected_index as int]@);
        }
        let fragment_index = packet.header.fragment_index;
        let ghost acc: ScanAcc = (
            sender_encode_done_time_micros,
            sender_send_time_micros,
            server_receive_time_micros,
            server_send_time_micros,
            bytes@,
        );
        if previous_fragment_index == Some(fragment_index) {
            assert(expected_index > 0);
            assert(sorted[expected_index - 1].0.fragment_index == fragment_index);
            assert(spec_scan(sorted, first, expected_index as int, acc) == Err::<ScanAcc, FrameReassemblyError>(
                FrameReassemblyError::DuplicateFragment(fragment_index),
            ));
            assert(spec_reassemble(orig) == Err::<FrameView, FrameReassemblyError>(
                FrameReassemblyError::DuplicateFragment(fragment_index),
            ));
            return Err(FrameReassemblyError::DuplicateFragment(fragment_index));
        }
        previous_fragment_index = Some(fragment_index);
        if fragment_index as usize != expected_index {
            assert(spec_scan(sorted, first, expected_index as int, acc) == Err::<ScanAcc, FrameReassemblyError>(
                FrameReassemblyError::MissingFragment(expected_index as u16),
            ));
            return Err(FrameReassemblyError::MissingFragment(expected_index as u16));
        }
        if packet.header.fragment_count != first.fragment_count || packet.header.frame_id
            != first.frame_id || packet.header.room_stream_id != first.room_stream_id
            || packet.header.codec != first.codec || packet.header.packet_type
            != first.packet_type || packet.header.layer != first.layer
            || packet.header.media_timestamp != first.media_timestamp
            || packet.header.sender_capture_time_micros != first.sender_capture_time_micros
            || packet.header.flags.contains(PacketFlags::KEYFRAME) != is_keyframe {
            assert(metadata_differs(packet.header, first));
            assert(spec_scan(sorted, first, expected_index as int, acc) == Err::<ScanAcc, FrameReassemblyError>(
                FrameReassemblyError::FragmentMetadataMismatch,
            ));
            assert(spec_reassemble(orig) == Err::<FrameView, FrameReassemblyError>(
                FrameReassemblyError::FragmentMetadataMismatch,
            ));
            return Err(FrameReassemblyError::FragmentMetadataMismatch);
        }
        if packet.header.sender_encode_done_time_micros > sender_encode_done_time_micros {
            sender_encode_done_time_micros = packet.header.sender_encode_done_time_micros;
        }
        if packet.header.sender_send_time_micros > sender_send_time_micros {
            sender_send_time_micros = packet.header.sender_send_time_micros;
        }
        server_receive_time_micros = min_nonzero_exec(
            server_receive_time_micros,
            packet.header.server_receive_time_micros,
        );
        if packet.header.server_send_time_micros > server_send_time_micros {
            server_send_time_micros = packet.header.server_send_time_micros;
        }
        let expected_end_of_frame = expected_index + 1 == first.fragment_count as usize;
        if packet.header.flags.contains(PacketFlags::END_OF_FRAME) != expected_end_of_frame {
            assert(!metadata_differs(packet.header, first));
            assert(spec_scan(sorted, first, expected_index as int, acc) == Err::<ScanAcc, FrameReassemblyError>(
                FrameReassemblyError::InvalidEndOfFrameFlag(fragment_index),
            ));
            return Err(FrameReassemblyError::InvalidEndOfFrameFlag(fragment_index));
        }
        let ghost before = bytes@;
        let mut b: usize = 0;
        while b < packet.payload.len()
            invariant
                0 <= b <= packet.payload@.len(),
                bytes@ == before + packet.payload@.subrange(0, b as int),
            decreases packet.payload@.len() - b,
        {
            bytes.push(packet.payload[b]);
            b += 1;
            assert(bytes@ =~= before + packet.payload@.subrange(0, b as int));
        }
        proof {
            assert(packet.payload@.subrange(0, b as int) =~= packet.payload@);
        }
        expected_index += 1;
    }
    Ok(
        EncodedFrame {
            room_stream_id: first.room_stream_id,
            frame_id: first.frame_id,
            media_timestamp: first.media_timestamp,
            sender_capture_time_micros: first.sender_capture_time_micros,
            sender_encode_done_time_micros,
            sender_send_time_micros,
            server_receive_time_micros,
            server_send_time_micros,
            codec: first.codec,
            is_keyframe,
            bytes,
        },
    )
}

} // verus!
