//! The media packet: an 81-byte big-endian header followed by an opaque
//! payload, one packet per QUIC datagram.

use vstd::prelude::*;

use crate::protocol::codec::CodecId;
use crate::protocol::wire::{
    lemma_be16_round_trip, lemma_be32_round_trip, lemma_be64_round_trip,
    lemma_i64_bits_round_trip,
    be16, be32, be64, get_be16, get_be32, get_be64, put_be16, put_be32, put_be64, put_u8,
    read_be16, read_be32, read_be64,
};
use crate::protocol::PROTOCOL_VERSION;

verus! {

/// Length of the header this version writes.
pub const MEDIA_PACKET_HEADER_LEN: usize = 81;

/// Datagram size budget used when nothing else is configured.
pub const DEFAULT_DATAGRAM_PAYLOAD_TARGET: usize = 1_150;

/// Flag bit of a packet that belongs to a keyframe.
pub const FLAG_KEYFRAME: u8 = 1;

/// Flag bit of the last packet of a frame.
pub const FLAG_END_OF_FRAME: u8 = 2;

/// Flag bit of a configuration packet.
pub const FLAG_CONFIG: u8 = 4;

/// Flag bit of a packet that may be dropped without harm.
pub const FLAG_DISCARDABLE: u8 = 8;

#[derive(Debug, Clone, Copy, PartialEq, Eq, Structural)]
pub enum PacketType {
    Video,
    Audio,
    Probe,
}

impl PacketType {
    pub open spec fn spec_wire(self) -> u8 {
        match self {
            PacketType::Video => 1,
            PacketType::Audio => 2,
            PacketType::Probe => 3,
        }
    }

    pub open spec fn spec_from_wire(value: u8) -> Option<PacketType> {
        if value == 1 {
            Some(PacketType::Video)
        } else if value == 2 {
            Some(PacketType::Audio)
        } else if value == 3 {
            Some(PacketType::Probe)
        } else {
            None
        }
    }

    pub fn to_wire(self) -> (value: u8)
        ensures
            value == self.spec_wire(),
    {
        match self {
            PacketType::Video => 1,
            PacketType::Audio => 2,
            PacketType::Probe => 3,
        }
    }

    /// Reads a packet type from its wire byte.
    pub fn try_from_wire(value: u8) -> (result: Result<PacketType, PacketDecodeError>)
        ensures
            match PacketType::spec_from_wire(value) {
                Some(t) => result == Ok::<PacketType, PacketDecodeError>(t),
                None => result == Err::<PacketType, PacketDecodeError>(
                    PacketDecodeError::UnknownPacketType(value),
                ),
            },
    {
        match value {
            1 => Ok(PacketType::Video),
            2 => Ok(PacketType::Audio),
            3 => Ok(PacketType::Probe),
            other => Err(PacketDecodeError::UnknownPacketType(other)),
        }
    }
}

/// The flag byte of a packet header.
#[derive(Debug, Clone, Copy, PartialEq, Eq, Default, Structural)]
pub struct PacketFlags(pub u8);

/// Whether the bits of `flag` meet those of `bits`.
pub open spec fn spec_has_flag(bits: u8, flag: u8) -> bool {
    bits & flag != 0
}

impl PacketFlags {
    pub const KEYFRAME: u8 = 1;
    pub const END_OF_FRAME: u8 = 2;
    pub const CONFIG: u8 = 4;
    pub const DISCARDABLE: u8 = 8;

    pub fn empty() -> (flags: PacketFlags)
        ensures
            flags.0 == 0,
    {
        PacketFlags(0)
    }

    pub fn from_bits(bits: u8) -> (flags: PacketFlags)
        ensures
            flags.0 == bits,
    {
        PacketFlags(bits)
    }

    pub fn bits(self) -> (bits: u8)
        ensures
            bits == self.0,
    {
        self.0
    }

    pub fn contains(self, flag: u8) -> (present: bool)
        ensures
            present == spec_has_flag(self.0, flag),
    {
        self.0 & flag != 0
    }

    pub fn with(self, flag: u8) -> (flags: PacketFlags)
        ensures
            flags.0 == self.0 | flag,
    {
        PacketFlags(self.0 | flag)
    }
}

/// The empty flag set has no bits, contains no flag, and adding a flag to
/// it gives exactly that flag's bits.
pub proof fn law_empty_flags(flag: u8)
    ensures
        !spec_has_flag(0, flag),
        (0u8 | flag) == flag,
{
    assert(0u8 & flag == 0u8) by (bit_vector);
    assert(0u8 | flag == flag) by (bit_vector);
}

/// The flag byte of every combination of the keyframe and end-of-frame bits,
/// and which bits each one carries.
pub proof fn lemma_frame_flag_bits()
    ensures
        0u8 | 1u8 == 1u8,
        0u8 | 2u8 == 2u8,
        1u8 | 2u8 == 3u8,
        forall|v: u8|
            v < 4 ==> (spec_has_flag(v, 1) <==> v % 2 == 1) && (spec_has_flag(v, 2) <==> v >= 2),
{
    assert(0u8 | 1u8 == 1u8) by (bit_vector);
    assert(0u8 | 2u8 == 2u8) by (bit_vector);
    assert(1u8 | 2u8 == 3u8) by (bit_vector);
    assert forall|v: u8| v < 4 implies (spec_has_flag(v, 1) <==> v % 2 == 1) && (spec_has_flag(
        v,
        2,
    ) <==> v >= 2) by {
        assert(v < 4 ==> ((v & 1 != 0) <==> v % 2 == 1) && ((v & 2 != 0) <==> v >= 2))
            by (bit_vector);
    }
}

#[derive(Debug, Clone, Copy, PartialEq, Eq, Structural)]
pub struct MediaPacketHeader {
    pub version: u8,
    pub packet_type: PacketType,
    pub flags: PacketFlags,
    pub room_stream_id: u32,
    pub sequence_number: u32,
    pub frame_id: u32,
    pub fragment_index: u16,
    pub fragment_count: u16,
    pub media_timestamp: u64,
    pub sender_capture_time_micros: u64,
    pub sender_clock_offset_micros: i64,
    pub sender_encode_done_time_micros: u64,
    pub sender_send_time_micros: u64,
    pub server_receive_time_micros: u64,
    pub server_send_time_micros: u64,
    pub codec: CodecId,
    pub layer: u8,
    pub payload_length: u16,
}

#[derive(Debug, Clone, Copy, PartialEq, Eq, Structural)]
pub struct DecodedMediaPacketHeader {
    pub header: MediaPacketHeader,
    pub payload_offset: usize,
}

#[derive(Debug, Clone, Copy, PartialEq, Eq, Structural)]
pub enum PacketDecodeError {
    TooShort { expected: usize, actual: usize },
    PayloadTooShort { expected: usize, actual: usize },
    TrailingBytes { expected: usize, actual: usize },
    UnsupportedVersion(u8),
    UnsupportedHeaderLength(usize),
    UnknownPacketType(u8),
    UnknownCodec(u8),
    InvalidFragment { fragment_index: u16, fragment_count: u16 },
    UnsupportedLayer(u8),
    InvalidPacketCodec { packet_type: PacketType, codec: CodecId },
}

#[derive(Debug, Clone, Copy, PartialEq, Eq, Structural)]
pub enum PacketEncodeError {
    PayloadTooLarge(usize),
    PayloadLengthMismatch { header: usize, actual: usize },
    InvalidHeader(PacketDecodeError),
}

/// The checks every header must pass, in the order they are made.
pub open spec fn spec_validate(h: MediaPacketHeader) -> Result<(), PacketDecodeError> {
    if h.fragment_count == 0 || h.fragment_index >= h.fragment_count {
        Err(
            PacketDecodeError::InvalidFragment {
                fragment_index: h.fragment_index,
                fragment_count: h.fragment_count,
            },
        )
    } else if h.layer != 0 {
        Err(PacketDecodeError::UnsupportedLayer(h.layer))
    } else if h.packet_type == PacketType::Probe && h.codec != CodecId::H264 {
        Err(PacketDecodeError::InvalidPacketCodec { packet_type: h.packet_type, codec: h.codec })
    } else {
        Ok(())
    }
}

/// Version, type, flags and header length: bytes 0 to 5.
#[verifier::opaque]
pub open spec fn header_lead(h: MediaPacketHeader) -> Seq<u8> {
    seq![h.version, h.packet_type.spec_wire(), h.flags.0] + be16(81)
}

/// Stream, sequence, frame and fragment fields: bytes 5 to 21.
#[verifier::opaque]
pub open spec fn header_ids(h: MediaPacketHeader) -> Seq<u8> {
    be32(h.room_stream_id) + be32(h.sequence_number) + be32(h.frame_id) + be16(h.fragment_index)
        + be16(h.fragment_count)
}

/// The seven 64-bit timing fields: bytes 21 to 77.
#[verifier::opaque]
pub open spec fn header_times(h: MediaPacketHeader) -> Seq<u8> {
    be64(h.media_timestamp) + be64(h.sender_capture_time_micros) + be64(
        h.sender_clock_offset_micros as u64,
    ) + be64(h.sender_encode_done_time_micros) + be64(h.sender_send_time_micros) + be64(
        h.server_receive_time_micros,
    ) + be64(h.server_send_time_micros)
}

/// Codec, layer and payload length: bytes 77 to 81.
#[verifier::opaque]
pub open spec fn header_tail(h: MediaPacketHeader) -> Seq<u8> {
    seq![h.codec.spec_wire(), h.layer] + be16(h.payload_length)
}

/// The 81 header bytes this version writes for `h`.
pub open spec fn header_bytes(h: MediaPacketHeader) -> Seq<u8> {
    header_lead(h) + header_ids(h) + header_times(h) + header_tail(h)
}

/// The header fields read at their fixed offsets.
pub open spec fn header_at(s: Seq<u8>, packet_type: PacketType, codec: CodecId) -> MediaPacketHeader {
    MediaPacketHeader {
        version: s[0],
        packet_type,
        flags: PacketFlags(s[2]),
        room_stream_id: read_be32(s, 5),
        sequence_number: read_be32(s, 9),
        frame_id: read_be32(s, 13),
        fragment_index: read_be16(s, 17),
        fragment_count: read_be16(s, 19),
        media_timestamp: read_be64(s, 21),
        sender_capture_time_micros: read_be64(s, 29),
        sender_clock_offset_micros: read_be64(s, 37) as i64,
        sender_encode_done_time_micros: read_be64(s, 45),
        sender_send_time_micros: read_be64(s, 53),
        server_receive_time_micros: read_be64(s, 61),
        server_send_time_micros: read_be64(s, 69),
        codec,
        layer: s[78],
        payload_length: read_be16(s, 79),
    }
}

/// What decoding a header from `s` gives: the header and where its payload
/// starts, or the first check that fails.
pub open spec fn spec_decode_header(s: Seq<u8>) -> Result<DecodedMediaPacketHeader, PacketDecodeError> {
    if s.len() < 81 {
        Err(PacketDecodeError::TooShort { expected: 81, actual: s.len() as usize })
    } else if s[0] != PROTOCOL_VERSION {
        Err(PacketDecodeError::UnsupportedVersion(s[0]))
    } else {
        match PacketType::spec_from_wire(s[1]) {
            None => Err(PacketDecodeError::UnknownPacketType(s[1])),
            Some(packet_type) => {
                let header_length = read_be16(s, 3) as usize;
                if header_length < 81 {
                    Err(PacketDecodeError::UnsupportedHeaderLength(header_length))
                } else if s.len() < header_length {
                    Err(
                        PacketDecodeError::TooShort {
                            expected: header_length,
                            actual: s.len() as usize,
                        },
                    )
                } else {
                    match CodecId::spec_from_wire(s[77]) {
                        None => Err(PacketDecodeError::UnknownCodec(s[77])),
                        Some(codec) => {
                            let header = header_at(s, packet_type, codec);
                            match spec_validate(header) {
                                Err(e) => Err(e),
                                Ok(_) => Ok(
                                    DecodedMediaPacketHeader {
                                        header,
                                        payload_offset: header_length,
                                    },
                                ),
                            }
                        },
                    }
                }
            },
        }
    }
}

impl MediaPacketHeader {
    /// A single-fragment header with zeroed timing and frame fields.
    pub open spec fn spec_new(
        packet_type: PacketType,
        codec: CodecId,
        room_stream_id: u32,
        sequence_number: u32,
        payload_length: u16,
    ) -> MediaPacketHeader {
        MediaPacketHeader {
            version: PROTOCOL_VERSION,
            packet_type,
            flags: PacketFlags(0),
            room_stream_id,
            sequence_number,
            frame_id: 0,
            fragment_index: 0,
            fragment_count: 1,
            media_timestamp: 0,
            sender_capture_time_micros: 0,
            sender_clock_offset_micros: 0,
            sender_encode_done_time_micros: 0,
            sender_send_time_micros: 0,
            server_receive_time_micros: 0,
            server_send_time_micros: 0,
            codec,
            layer: 0,
            payload_length,
        }
    }

    pub fn new(
        packet_type: PacketType,
        codec: CodecId,
        room_stream_id: u32,
        sequence_number: u32,
        payload_length: u16,
    ) -> (header: MediaPacketHeader)
        ensures
            header == MediaPacketHeader::spec_new(
                packet_type,
                codec,
                room_stream_id,
                sequence_number,
                payload_length,
            ),
    {
        MediaPacketHeader {
            version: PROTOCOL_VERSION,
            packet_type,
            flags: PacketFlags::empty(),
            room_stream_id,
            sequence_number,
            frame_id: 0,
            fragment_index: 0,
            fragment_count: 1,
            media_timestamp: 0,
            sender_capture_time_micros: 0,
            sender_clock_offset_micros: 0,
            sender_encode_done_time_micros: 0,
            sender_send_time_micros: 0,
            server_receive_time_micros: 0,
            server_send_time_micros: 0,
            codec,
            layer: 0,
            payload_length,
        }
    }

    /// Appends the header's wire bytes to `dst`.
    pub fn encode(&self, dst: &mut Vec<u8>)
        ensures
            final(dst)@ == old(dst)@ + header_bytes(*self),
    {
        let ghost start = dst@;
        put_u8(dst, self.version);
        put_u8(dst, self.packet_type.to_wire());
        put_u8(dst, self.flags.bits());
        put_be16(dst, 81u16);
        put_be32(dst, self.room_stream_id);
        put_be32(dst, self.sequence_number);
        put_be32(dst, self.frame_id);
        put_be16(dst, self.fragment_index);
        put_be16(dst, self.fragment_count);
        put_be64(dst, self.media_timestamp);
        put_be64(dst, self.sender_capture_time_micros);
        put_be64(dst, self.sender_clock_offset_micros as u64);
        put_be64(dst, self.sender_encode_done_time_micros);
        put_be64(dst, self.sender_send_time_micros);
        put_be64(dst, self.server_receive_time_micros);
        put_be64(dst, self.server_send_time_micros);
        put_u8(dst, self.codec.to_wire());
        put_u8(dst, self.layer);
        put_be16(dst, self.payload_length);
        reveal(header_lead);
        reveal(header_ids);
        reveal(header_times);
        reveal(header_tail);
        assert(dst@ =~= start + header_bytes(*self));
    }

    /// Checks the fragment position, the layer and the codec of a probe.
    pub fn validate(&self) -> (result: Result<(), PacketDecodeError>)
        ensures
            result == spec_validate(*self),
    {
        if self.fragment_count == 0 {
            return Err(
                PacketDecodeError::InvalidFragment {
                    fragment_index: self.fragment_index,
                    fragment_count: self.fragment_count,
                },
            );
        }
        if self.fragment_index >= self.fragment_count {
            return Err(
                PacketDecodeError::InvalidFragment {
                    fragment_index: self.fragment_index,
                    fragment_count: self.fragment_count,
                },
            );
        }
        if self.layer != 0 {
            return Err(PacketDecodeError::UnsupportedLayer(self.layer));
        }
        if self.packet_type == PacketType::Probe && self.codec != CodecId::H264 {
            return Err(
                PacketDecodeError::InvalidPacketCodec {
                    packet_type: self.packet_type,
                    codec: self.codec,
                },
            );
        }
        Ok(())
    }

    /// Decodes a header; longer header lengths than this version writes are
    /// accepted and their extra bytes skipped.
    pub fn decode(src: &[u8]) -> (result: Result<DecodedMediaPacketHeader, PacketDecodeError>)
        ensures
            result == spec_decode_header(src@),
    {
        if src.len() < MEDIA_PACKET_HEADER_LEN {
            return Err(
                PacketDecodeError::TooShort { expected: MEDIA_PACKET_HEADER_LEN, actual: src.len() },
            );
        }
        let version = src[0];
        if version != PROTOCOL_VERSION {
            return Err(PacketDecodeError::UnsupportedVersion(version));
        }
        let packet_type = match PacketType::try_from_wire(src[1]) {
            Ok(t) => t,
            Err(e) => return Err(e),
        };
        let flags = PacketFlags::from_bits(src[2]);
        let header_length = get_be16(src, 3) as usize;
        if header_length < MEDIA_PACKET_HEADER_LEN {
            return Err(PacketDecodeError::UnsupportedHeaderLength(header_length));
        }
        if src.len() < header_length {
            return Err(PacketDecodeError::TooShort { expected: header_length, actual: src.len() });
        }
        let codec = match CodecId::try_from_wire(src[77]) {
            Ok(c) => c,
            Err(e) => return Err(PacketDecodeError::UnknownCodec(e.0)),
        };
        let header = MediaPacketHeader {
            version,
            packet_type,
            flags,
            room_stream_id: get_be32(src, 5),
            sequence_number: get_be32(src, 9),
            frame_id: get_be32(src, 13),
            fragment_index: get_be16(src, 17),
            fragment_count: get_be16(src, 19),
            media_timestamp: get_be64(src, 21),
            sender_capture_time_micros: get_be64(src, 29),
            sender_clock_offset_micros: get_be64(src, 37) as i64,
            sender_encode_done_time_micros: get_be64(src, 45),
            sender_send_time_micros: get_be64(src, 53),
            server_receive_time_micros: get_be64(src, 61),
            server_send_time_micros: get_be64(src, 69),
            codec,
            layer: src[78],
            payload_length: get_be16(src, 79),
        };
        match header.validate() {
            Ok(()) => {},
            Err(e) => return Err(e),
        }
        Ok(DecodedMediaPacketHeader { header, payload_offset: header_length })
    }
}

/// The packet bytes `encode` gives for a header and payload, or why it refuses.
pub open spec fn spec_encode_packet(header: MediaPacketHeader, payload: Seq<u8>) -> Result<Seq<u8>, PacketEncodeError> {
    if payload.len() > u16::MAX {
        Err(PacketEncodeError::PayloadTooLarge(payload.len() as usize))
    } else if header.payload_length != payload.len() {
        Err(
            PacketEncodeError::PayloadLengthMismatch {
                header: header.payload_length as usize,
                actual: payload.len() as usize,
            },
        )
    } else {
        match spec_validate(header) {
            Err(e) => Err(PacketEncodeError::InvalidHeader(e)),
            Ok(_) => Ok(header_bytes(header) + payload),
        }
    }
}

/// What decoding a whole datagram gives: the header and exactly the payload
/// it announces, or why the datagram is refused.
pub open spec fn spec_decode_packet(s: Seq<u8>) -> Result<(MediaPacketHeader, Seq<u8>), PacketDecodeError> {
    match spec_decode_header(s) {
        Err(e) => Err(e),
        Ok(decoded) => {
            let expected = decoded.payload_offset + decoded.header.payload_length;
            if s.len() < expected {
                Err(
                    PacketDecodeError::PayloadTooShort {
                        expected: expected as usize,
                        actual: s.len() as usize,
                    },
                )
            } else if s.len() > expected {
                Err(
                    PacketDecodeError::TrailingBytes {
                        expected: expected as usize,
                        actual: s.len() as usize,
                    },
                )
            } else {
                Ok((decoded.header, s.subrange(decoded.payload_offset as int, expected)))
            }
        },
    }
}

proof fn lemma_read_ids(h: MediaPacketHeader, s: Seq<u8>)
    requires
        s.len() >= 21,
        s.subrange(5, 21) == header_ids(h),
    ensures
        read_be32(s, 5) == h.room_stream_id,
        read_be32(s, 9) == h.sequence_number,
        read_be32(s, 13) == h.frame_id,
        read_be16(s, 17) == h.fragment_index,
        read_be16(s, 19) == h.fragment_count,
{
    reveal(header_ids);
    let g = header_ids(h);
    assert(s.subrange(5, 9) =~= g.subrange(0, 4));
    assert(s.subrange(9, 13) =~= g.subrange(4, 8));
    assert(s.subrange(13, 17) =~= g.subrange(8, 12));
    assert(s.subrange(17, 19) =~= g.subrange(12, 14));
    assert(s.subrange(19, 21) =~= g.subrange(14, 16));
    assert(g.subrange(0, 4) =~= be32(h.room_stream_id));
    assert(g.subrange(4, 8) =~= be32(h.sequence_number));
    assert(g.subrange(8, 12) =~= be32(h.frame_id));
    assert(g.subrange(12, 14) =~= be16(h.fragment_index));
    assert(g.subrange(14, 16) =~= be16(h.fragment_count));
    lemma_be32_round_trip(h.room_stream_id);
    lemma_be32_round_trip(h.sequence_number);
    lemma_be32_round_trip(h.frame_id);
    lemma_be16_round_trip(h.fragment_index);
    lemma_be16_round_trip(h.fragment_count);
}

proof fn lemma_read_times(h: MediaPacketHeader, s: Seq<u8>)
    requires
        s.len() >= 77,
        s.subrange(21, 77) == header_times(h),
    ensures
        read_be64(s, 21) == h.media_timestamp,
        read_be64(s, 29) == h.sender_capture_time_micros,
        read_be64(s, 37) as i64 == h.sender_clock_offset_micros,
        read_be64(s, 45) == h.sender_encode_done_time_micros,
        read_be64(s, 53) == h.sender_send_time_micros,
        read_be64(s, 61) == h.server_receive_time_micros,
        read_be64(s, 69) == h.server_send_time_micros,
{
    reveal(header_times);
    let g = header_times(h);
    assert(s.subrange(21, 29) =~= g.subrange(0, 8));
    assert(s.subrange(29, 37) =~= g.subrange(8, 16));
    assert(s.subrange(37, 45) =~= g.subrange(16, 24));
    assert(s.subrange(45, 53) =~= g.subrange(24, 32));
    assert(s.subrange(53, 61) =~= g.subrange(32, 40));
    assert(s.subrange(61, 69) =~= g.subrange(40, 48));
    assert(s.subrange(69, 77) =~= g.subrange(48, 56));
    assert(g.subrange(0, 8) =~= be64(h.media_timestamp));
    assert(g.subrange(8, 16) =~= be64(h.sender_capture_time_micros));
    assert(g.subrange(16, 24) =~= be64(h.sender_clock_offset_micros as u64));
    assert(g.subrange(24, 32) =~= be64(h.sender_encode_done_time_micros));
    assert(g.subrange(32, 40) =~= be64(h.sender_send_time_micros));
    assert(g.subrange(40, 48) =~= be64(h.server_receive_time_micros));
    assert(g.subrange(48, 56) =~= be64(h.server_send_time_micros));
    lemma_be64_round_trip(h.media_timestamp);
    lemma_be64_round_trip(h.sender_capture_time_micros);
    lemma_be64_round_trip(h.sender_clock_offset_micros as u64);
    lemma_be64_round_trip(h.sender_encode_done_time_micros);
    lemma_be64_round_trip(h.sender_send_time_micros);
    lemma_be64_round_trip(h.server_receive_time_micros);
    lemma_be64_round_trip(h.server_send_time_micros);
    lemma_i64_bits_round_trip(h.sender_clock_offset_micros);
}

proof fn lemma_header_group_lens(h: MediaPacketHeader)
    ensures
        header_lead(h).len() == 5,
        header_ids(h).len() == 16,
        header_times(h).len() == 56,
        header_tail(h).len() == 4,
{
    reveal(header_lead);
    reveal(header_ids);
    reveal(header_times);
    reveal(header_tail);
}

proof fn lemma_read_lead_tail(h: MediaPacketHeader, s: Seq<u8>)
    requires
        s.len() == 81,
        s.subrange(0, 5) == header_lead(h),
        s.subrange(77, 81) == header_tail(h),
    ensures
        s[0] == h.version,
        s[1] == h.packet_type.spec_wire(),
        s[2] == h.flags.0,
        read_be16(s, 3) == 81,
        s[77] == h.codec.spec_wire(),
        s[78] == h.layer,
        read_be16(s, 79) == h.payload_length,
{
    reveal(header_lead);
    reveal(header_tail);
    let lead = header_lead(h);
    let tail = header_tail(h);
    assert(s[0] == lead[0] && s[1] == lead[1] && s[2] == lead[2]);
    assert(s.subrange(3, 5) =~= lead.subrange(3, 5));
    assert(lead.subrange(3, 5) =~= be16(81));
    lemma_be16_round_trip(81);
    assert(s[77] == tail[0] && s[78] == tail[1]);
    assert(s.subrange(79, 81) =~= tail.subrange(2, 4));
    assert(tail.subrange(2, 4) =~= be16(h.payload_length));
    lemma_be16_round_trip(h.payload_length);
}

proof fn lemma_header_layout(h: MediaPacketHeader)
    ensures
        ({
            let s = header_bytes(h);
            &&& s.len() == 81
            &&& s[0] == h.version
            &&& s[1] == h.packet_type.spec_wire()
            &&& read_be16(s, 3) == 81
            &&& s[77] == h.codec.spec_wire()
            &&& header_at(s, h.packet_type, h.codec) == h
        }),
{
    let s = header_bytes(h);
    lemma_header_group_lens(h);
    assert(s.subrange(0, 5) =~= header_lead(h));
    assert(s.subrange(5, 21) =~= header_ids(h));
    assert(s.subrange(21, 77) =~= header_times(h));
    assert(s.subrange(77, 81) =~= header_tail(h));
    lemma_read_lead_tail(h, s);
    lemma_read_ids(h, s);
    lemma_read_times(h, s);
}

/// Reading header fields looks only at the first 81 bytes.
proof fn lemma_header_at_prefix(a: Seq<u8>, b: Seq<u8>, packet_type: PacketType, codec: CodecId)
    requires
        a.len() >= 81,
        b.len() >= 81,
        forall|i: int| 0 <= i < 81 ==> a[i] == b[i],
    ensures
        header_at(a, packet_type, codec) == header_at(b, packet_type, codec),
        read_be16(a, 3) == read_be16(b, 3),
{
}

/// A header of this version that passes validation decodes from its own
/// bytes, whatever follows them, and its payload starts right after them.
pub proof fn lemma_header_round_trip(h: MediaPacketHeader, rest: Seq<u8>)
    requires
        h.version == PROTOCOL_VERSION,
        spec_validate(h) is Ok,
    ensures
        header_bytes(h).len() == 81,
        spec_decode_header(header_bytes(h) + rest) == Ok::<
            DecodedMediaPacketHeader,
            PacketDecodeError,
        >(DecodedMediaPacketHeader { header: h, payload_offset: 81 }),
{
    lemma_header_layout(h);
    let hb = header_bytes(h);
    let s = hb + rest;
    assert forall|i: int| 0 <= i < 81 implies s[i] == hb[i] by {}
    lemma_header_at_prefix(s, hb, h.packet_type, h.codec);
    assert(PacketType::spec_from_wire(s[1]) == Some(h.packet_type));
    assert(CodecId::spec_from_wire(s[77]) == Some(h.codec));
}

/// Whatever `encode` accepts of this version, `decode` gives back unchanged.
pub proof fn lemma_packet_round_trip(header: MediaPacketHeader, payload: Seq<u8>)
    requires
        header.version == PROTOCOL_VERSION,
        spec_encode_packet(header, payload) is Ok,
    ensures
        spec_decode_packet(spec_encode_packet(header, payload).unwrap()) == Ok::<
            (MediaPacketHeader, Seq<u8>),
            PacketDecodeError,
        >((header, payload)),
{
    lemma_header_round_trip(header, payload);
    let s = header_bytes(header) + payload;
    assert(s.subrange(81, 81 + payload.len() as int) =~= payload);
}

/// A packet's bytes with `extension` after the 81 header bytes and the
/// header length field counting it: how a later protocol revision may
/// extend the header.
pub open spec fn extended_packet_bytes(header: MediaPacketHeader, extension: Seq<u8>, payload: Seq<u8>) -> Seq<u8> {
    let hb = header_bytes(header);
    hb.subrange(0, 3) + be16((81 + extension.len()) as u16) + hb.subrange(5, 81) + extension + payload
}

/// Decoding skips header extensions it does not know and refuses bytes
/// after the payload: a packet that encodes decodes back from its bytes
/// with any extension after the header, and not with a byte appended.
pub proof fn law_decode_skips_header_extensions(
    header: MediaPacketHeader,
    payload: Seq<u8>,
    extension: Seq<u8>,
    extra: u8,
)
    requires
        header.version == PROTOCOL_VERSION,
        spec_encode_packet(header, payload) is Ok,
        81 + extension.len() <= u16::MAX,
    ensures
        spec_decode_packet(extended_packet_bytes(header, extension, payload)) == Ok::<
            (MediaPacketHeader, Seq<u8>),
            PacketDecodeError,
        >((header, payload)),
        spec_decode_packet(spec_encode_packet(header, payload).unwrap().push(extra)) == Err::<
            (MediaPacketHeader, Seq<u8>),
            PacketDecodeError,
        >(
            PacketDecodeError::TrailingBytes {
                expected: spec_encode_packet(header, payload).unwrap().len() as usize,
                actual: (spec_encode_packet(header, payload).unwrap().len() + 1) as usize,
            },
        ),
{
    lemma_header_layout(header);
    let hb = header_bytes(header);
    let k = extension.len();
    let len_field = (81 + k) as u16;
    let s = extended_packet_bytes(header, extension, payload);
    assert(s.len() == 81 + k + payload.len());
    assert forall|i: int| 0 <= i < 81 && i != 3 && i != 4 implies s[i] == hb[i] by {}
    assert(s.subrange(3, 5) =~= be16(len_field));
    lemma_be16_round_trip(len_field);
    assert(read_be16(s, 3) == len_field);
    assert(header_at(s, header.packet_type, header.codec) == header_at(hb, header.packet_type, header.codec));
    assert(PacketType::spec_from_wire(s[1]) == Some(header.packet_type));
    assert(CodecId::spec_from_wire(s[77]) == Some(header.codec));
    assert(s.subrange(81 + k as int, s.len() as int) =~= payload);

    let e = spec_encode_packet(header, payload).unwrap();
    assert(e == hb + payload);
    let t = e.push(extra);
    assert(t =~= hb + payload.push(extra));
    lemma_header_round_trip(header, payload.push(extra));
}

#[derive(Debug, Clone, PartialEq, Eq)]
pub struct MediaPacket {
    pub header: MediaPacketHeader,
    pub payload: Vec<u8>,
}

impl MediaPacket {
    /// A copy of this packet: the same header and payload bytes.
    pub fn duplicate(&self) -> (copy: MediaPacket)
        ensures
            copy.header == self.header,
            copy.payload@ == self.payload@,
    {
        let mut payload: Vec<u8> = Vec::new();
        let mut i: usize = 0;
        while i < self.payload.len()
            invariant
                0 <= i <= self.payload@.len(),
                payload@ == self.payload@.subrange(0, i as int),
            decreases self.payload@.len() - i,
        {
            payload.push(self.payload[i]);
            i += 1;
            assert(payload@ =~= self.payload@.subrange(0, i as int));
        }
        assert(self.payload@.subrange(0, i as int) =~= self.payload@);
        MediaPacket { header: self.header, payload }
    }

    /// The datagram bytes of this packet: header then payload.
    pub fn encode(&self) -> (result: Result<Vec<u8>, PacketEncodeError>)
        ensures
            match result {
                Ok(bytes) => spec_encode_packet(self.header, self.payload@) == Ok::<
                    Seq<u8>,
                    PacketEncodeError,
                >(bytes@),
                Err(e) => spec_encode_packet(self.header, self.payload@) == Err::<
                    Seq<u8>,
                    PacketEncodeError,
                >(e),
            },
    {
        if self.payload.len() > 65535 {
            return Err(PacketEncodeError::PayloadTooLarge(self.payload.len()));
        }
        if self.header.payload_length as usize != self.payload.len() {
            return Err(
                PacketEncodeError::PayloadLengthMismatch {
                    header: self.header.payload_length as usize,
                    actual: self.payload.len(),
                },
            );
        }
        match self.header.validate() {
            Ok(()) => {},
            Err(e) => return Err(PacketEncodeError::InvalidHeader(e)),
        }
        let mut dst: Vec<u8> = Vec::new();
        self.header.encode(&mut dst);
        let mut i: usize = 0;
        while i < self.payload.len()
            invariant
                0 <= i <= self.payload@.len(),
                dst@ == header_bytes(self.header) + self.payload@.subrange(0, i as int),
            decreases self.payload@.len() - i,
        {
            dst.push(self.payload[i]);
            i += 1;
            assert(dst@ =~= header_bytes(self.header) + self.payload@.subrange(0, i as int));
        }
        assert(self.payload@.subrange(0, i as int) =~= self.payload@);
        Ok(dst)
    }

    /// Decodes one datagram; the payload must be exactly as long as the
    /// header says.
    pub fn decode(src: &[u8]) -> (result: Result<MediaPacket, PacketDecodeError>)
        ensures
            match result {
                Ok(packet) => spec_decode_packet(src@) == Ok::<
                    (MediaPacketHeader, Seq<u8>),
                    PacketDecodeError,
                >((packet.header, packet.payload@)),
                Err(e) => spec_decode_packet(src@) == Err::<
                    (MediaPacketHeader, Seq<u8>),
                    PacketDecodeError,
                >(e),
            },
    {
        let decoded = match MediaPacketHeader::decode(src) {
            Ok(d) => d,
            Err(e) => return Err(e),
        };
        let expected_len = decoded.payload_offset + decoded.header.payload_length as usize;
        if src.len() < expected_len {
            return Err(PacketDecodeError::PayloadTooShort { expected: expected_len, actual: src.len() });
        }
        if src.len() > expected_len {
            return Err(PacketDecodeError::TrailingBytes { expected: expected_len, actual: src.len() });
        }
        let mut payload: Vec<u8> = Vec::new();
        let mut i: usize = decoded.payload_offset;
        while i < expected_len
            invariant
                decoded.payload_offset <= i <= expected_len,
                expected_len == src@.len(),
                payload@ == src@.subrange(decoded.payload_offset as int, i as int),
            decreases expected_len - i,
        {
            payload.push(src[i]);
            i += 1;
            assert(payload@ =~= src@.subrange(decoded.payload_offset as int, i as int));
        }
        Ok(MediaPacket { header: decoded.header, payload })
    }
}

} // verus!
