//! Codec identifiers carried in media packets and stream descriptions.

use vstd::prelude::*;

verus! {

/// The codec of an encoded media stream; its wire value is the byte the
/// packet header carries.
#[derive(Debug, Clone, Copy, PartialEq, Eq, Structural)]
pub enum CodecId {
    H264,
    Av1,
    Hevc,
    Opus,
}

/// A codec byte that names no known codec.
#[derive(Debug, Clone, Copy, PartialEq, Eq, Structural)]
pub struct UnknownCodec(pub u8);

impl CodecId {
    /// The wire byte of a codec.
    pub open spec fn spec_wire(self) -> u8 {
        match self {
            CodecId::H264 => 1,
            CodecId::Av1 => 2,
            CodecId::Hevc => 3,
            CodecId::Opus => 16,
        }
    }

    /// The codec a wire byte names, if any.
    pub open spec fn spec_from_wire(value: u8) -> Option<CodecId> {
        if value == 1 {
            Some(CodecId::H264)
        } else if value == 2 {
            Some(CodecId::Av1)
        } else if value == 3 {
            Some(CodecId::Hevc)
        } else if value == 16 {
            Some(CodecId::Opus)
        } else {
            None
        }
    }

    pub fn to_wire(self) -> (value: u8)
        ensures
            value == self.spec_wire(),
    {
        match self {
            CodecId::H264 => 1,
            CodecId::Av1 => 2,
            CodecId::Hevc => 3,
            CodecId::Opus => 16,
        }
    }

    /// Reads a codec from its wire byte; unknown bytes are reported back.
    pub fn try_from_wire(value: u8) -> (result: Result<CodecId, UnknownCodec>)
        ensures
            match CodecId::spec_from_wire(value) {
                Some(codec) => result == Ok::<CodecId, UnknownCodec>(codec),
                None => result == Err::<CodecId, UnknownCodec>(UnknownCodec(value)),
            },
    {
        match value {
            1 => Ok(CodecId::H264),
            2 => Ok(CodecId::Av1),
            3 => Ok(CodecId::Hevc),
            16 => Ok(CodecId::Opus),
            other => Err(UnknownCodec(other)),
        }
    }

    /// The wire byte of a codec reads back as that codec.
    pub proof fn lemma_wire_round_trip(self)
        ensures
            CodecId::spec_from_wire(self.spec_wire()) == Some(self),
    {
    }
}

} // verus!
