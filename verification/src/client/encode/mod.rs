//! Video encoders and the frames they produce.

pub mod h264;

use vstd::prelude::*;

use crate::client::capture::CaptureFrame;
use crate::protocol::codec::CodecId;

verus! {

/// An encoded video frame as the encoder hands it over.
#[derive(Debug, Clone, PartialEq, Eq)]
pub struct EncodedFrame {
    pub codec: CodecId,
    pub frame_id: u32,
    pub is_keyframe: bool,
    pub capture_time_micros: u64,
    pub bytes: Vec<u8>,
}

/// A video encoder: turns captured frames into encoded frames of a stream,
/// takes keyframe requests and bitrate targets.
pub trait VideoEncoder {
    fn encode(&mut self, frame: CaptureFrame, stream_id: u32) -> Option<crate::protocol::frame::EncodedFrame>;

    fn request_keyframe(&mut self);

    fn update_bitrate(&mut self, bitrate_bps: u32);
}

} // verus!
