//! The stand-in H.264 encoder: an SPS-like start, a keyframe or delta NAL
//! start, the frame's id and size, padded to the configured payload size.

use vstd::prelude::*;

use crate::client::capture::CaptureFrame;
use crate::protocol::codec::CodecId;
use crate::protocol::frame::{EncodedFrame, FrameView};
use crate::protocol::wire::{le32, le64, put_le32, put_le64};

verus! {

#[derive(Debug, Clone, Copy, PartialEq, Eq, Structural)]
pub struct H264EncoderConfig {
    pub width: u32,
    pub height: u32,
    pub frames_per_second: u16,
    pub bitrate_bps: u32,
    pub synthetic_payload_bytes: usize,
}

impl Default for H264EncoderConfig {
    /// 1280x720 at 30 fps and 4 Mbit/s, 512-byte payloads.
    fn default() -> (config: H264EncoderConfig)
        ensures
            config == (H264EncoderConfig {
                width: 1280,
                height: 720,
                frames_per_second: 30,
                bitrate_bps: 4_000_000,
                synthetic_payload_bytes: 512,
            }),
    {
        H264EncoderConfig {
            width: 1280,
            height: 720,
            frames_per_second: 30,
            bitrate_bps: 4_000_000,
            synthetic_payload_bytes: 512,
        }
    }
}

#[derive(Debug)]
pub struct H264Encoder {
    pub config: H264EncoderConfig,
    pub keyframe_requested: bool,
}

impl Default for H264Encoder {
    fn default() -> (encoder: H264Encoder)
        ensures
            encoder.config == (H264EncoderConfig {
                width: 1280,
                height: 720,
                frames_per_second: 30,
                bitrate_bps: 4_000_000,
                synthetic_payload_bytes: 512,
            }),
            !encoder.keyframe_requested,
    {
        H264Encoder { config: H264EncoderConfig::default(), keyframe_requested: false }
    }
}

/// The start of every frame, then the NAL start of an IDR or a non-IDR
/// slice.
pub open spec fn h264_start(keyframe: bool) -> Seq<u8> {
    seq![0x00u8, 0x00u8, 0x00u8, 0x01u8, 0x67u8, 0x42u8, 0x00u8, 0x1fu8, 0x00u8, 0x00u8, 0x00u8, 0x01u8]
        + if keyframe {
        seq![0x65u8]
    } else {
        seq![0x41u8]
    }
}

/// The payload of a frame: start, id, width and height, then filler bytes
/// (the low byte of id plus position) up to the target, cut at the target.
pub open spec fn h264_payload(frame_id: u64, width: u32, height: u32, keyframe: bool, target: int) -> Seq<u8> {
    let head = h264_start(keyframe) + le64(frame_id) + le32(width) + le32(height);
    if head.len() >= target {
        head.take(target)
    } else {
        head + Seq::new(
            (target - head.len()) as nat,
            |j: int| ((frame_id as int % 256 + (head.len() + j) % 256) % 256) as u8,
        )
    }
}

impl H264Encoder {
    /// Encodes a frame: a keyframe when one was asked for or for the first
    /// frame; the request is then cleared.
    pub fn encode(&mut self, frame: CaptureFrame, stream_id: u32) -> (result: Option<EncodedFrame>)
        ensures
            final(self).config == old(self).config,
            !final(self).keyframe_requested,
            ({
                let keyframe = old(self).keyframe_requested || frame.frame_id == 1;
                result matches Some(f) && f@ == FrameView {
                    room_stream_id: stream_id,
                    frame_id: frame.frame_id as u32,
                    media_timestamp: if frame.frame_id * 3000 > u64::MAX { u64::MAX } else { (frame.frame_id * 3000) as u64 },
                    sender_capture_time_micros: frame.capture_time_micros,
                    sender_encode_done_time_micros: 0,
                    sender_send_time_micros: 0,
                    server_receive_time_micros: 0,
                    server_send_time_micros: 0,
                    codec: CodecId::H264,
                    is_keyframe: keyframe,
                    bytes: h264_payload(frame.frame_id, frame.width, frame.height, keyframe, old(self).config.synthetic_payload_bytes as int),
                }
            }),
    {
        let is_keyframe = self.keyframe_requested || frame.frame_id == 1;
        self.keyframe_requested = false;
        let mut bytes: Vec<u8> = Vec::new();
        bytes.push(0x00);
        bytes.push(0x00);
        bytes.push(0x00);
        bytes.push(0x01);
        bytes.push(0x67);
        bytes.push(0x42);
        bytes.push(0x00);
        bytes.push(0x1f);
        bytes.push(0x00);
        bytes.push(0x00);
        bytes.push(0x00);
        bytes.push(0x01);
        if is_keyframe {
            bytes.push(0x65);
        } else {
            bytes.push(0x41);
        }
        assert(bytes@ =~= h264_start(is_keyframe));
        put_le64(&mut bytes, frame.frame_id);
        put_le32(&mut bytes, frame.width);
        put_le32(&mut bytes, frame.height);
        let ghost head = bytes@;
        assert(head =~= h264_start(is_keyframe) + le64(frame.frame_id) + le32(frame.width) + le32(frame.height));
        let target = self.config.synthetic_payload_bytes;
        while bytes.len() < target
            invariant
                head.len() == 29,
                head.len() <= bytes@.len(),
                bytes@.len() <= target || bytes@ == head,
                bytes@ == head + Seq::new(
                    (bytes@.len() - head.len()) as nat,
                    |j: int| ((frame.frame_id as int % 256 + (head.len() + j) % 256) % 256) as u8,
                ),
            decreases target - bytes@.len(),
        {
            let position = bytes.len();
            let byte = (((frame.frame_id % 256) + (position % 256) as u64) % 256) as u8;
            bytes.push(byte);
            assert(bytes@ =~= head + Seq::new(
                (bytes@.len() - head.len()) as nat,
                |j: int| ((frame.frame_id as int % 256 + (head.len() + j) % 256) % 256) as u8,
            ));
        }
        bytes.truncate(target);
        proof {
            let expected = h264_payload(frame.frame_id, frame.width, frame.height, is_keyframe, target as int);
            assert(bytes@ =~= expected);
        }
        let media_timestamp: u64 = if frame.frame_id > u64::MAX / 3000 {
            u64::MAX
        } else {
            frame.frame_id * 3000
        };
        Some(
            EncodedFrame {
                room_stream_id: stream_id,
                frame_id: frame.frame_id as u32,
                media_timestamp,
                sender_capture_time_micros: frame.capture_time_micros,
                sender_encode_done_time_micros: 0,
                sender_send_time_micros: 0,
                server_receive_time_micros: 0,
                server_send_time_micros: 0,
                codec: CodecId::H264,
                is_keyframe,
                bytes,
            },
        )
    }

    /// The next frame will be a keyframe.
    pub fn request_keyframe(&mut self)
        ensures
            final(self).keyframe_requested,
            final(self).config == old(self).config,
    {
        self.keyframe_requested = true;
    }

    pub fn update_bitrate(&mut self, bitrate_bps: u32)
        ensures
            final(self).config == (H264EncoderConfig { bitrate_bps, ..old(self).config }),
            final(self).keyframe_requested == old(self).keyframe_requested,
    {
        self.config.bitrate_bps = bitrate_bps;
    }
}

impl crate::client::encode::VideoEncoder for H264Encoder {
    fn encode(&mut self, frame: CaptureFrame, stream_id: u32) -> (result: Option<EncodedFrame>)
        ensures
            final(self).config == old(self).config,
            !final(self).keyframe_requested,
            ({
                let keyframe = old(self).keyframe_requested || frame.frame_id == 1;
                result matches Some(f) && f@ == FrameView {
                    room_stream_id: stream_id,
                    frame_id: frame.frame_id as u32,
                    media_timestamp: if frame.frame_id * 3000 > u64::MAX { u64::MAX } else { (frame.frame_id * 3000) as u64 },
                    sender_capture_time_micros: frame.capture_time_micros,
                    sender_encode_done_time_micros: 0,
                    sender_send_time_micros: 0,
                    server_receive_time_micros: 0,
                    server_send_time_micros: 0,
                    codec: CodecId::H264,
                    is_keyframe: keyframe,
                    bytes: h264_payload(frame.frame_id, frame.width, frame.height, keyframe, old(self).config.synthetic_payload_bytes as int),
                }
            }),
    {
        H264Encoder::encode(self, frame, stream_id)
    }

    fn request_keyframe(&mut self)
        ensures
            final(self).keyframe_requested,
            final(self).config == old(self).config,
    {
        H264Encoder::request_keyframe(self)
    }

    fn update_bitrate(&mut self, bitrate_bps: u32)
        ensures
            final(self).config == (H264EncoderConfig { bitrate_bps, ..old(self).config }),
            final(self).keyframe_requested == old(self).keyframe_requested,
    {
        H264Encoder::update_bitrate(self, bitrate_bps)
    }
}

} // verus!
