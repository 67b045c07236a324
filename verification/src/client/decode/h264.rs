//! The stand-in H.264 decoder: any non-empty access unit yields a picture
//! of the default size.

use vstd::prelude::*;

use crate::client::decode::{DecodedFrame, DecodedPixelFormat};

verus! {

#[derive(Debug, Default)]
pub struct H264Decoder;

impl H264Decoder {
    /// Nothing for an empty input; otherwise a 1280x720 BGRA picture with no
    /// pixel data yet.
    pub fn decode(&mut self, encoded: &[u8]) -> (decoded: Option<DecodedFrame>)
        ensures
            encoded@.len() == 0 ==> decoded is None,
            encoded@.len() > 0 ==> (decoded matches Some(frame) && frame.frame_id == 0 && frame.width
                == 1280 && frame.height == 720 && frame.pixel_format == DecodedPixelFormat::Bgra8
                && frame.pixels@.len() == 0),
    {
        if encoded.len() == 0 {
            return None;
        }
        Some(
            DecodedFrame {
                frame_id: 0,
                width: 1280,
                height: 720,
                pixel_format: DecodedPixelFormat::Bgra8,
                pixels: Vec::new(),
            },
        )
    }
}

impl crate::client::decode::VideoDecoder for H264Decoder {
    fn decode(&mut self, encoded: &[u8]) -> (decoded: Option<DecodedFrame>)
        ensures
            encoded@.len() == 0 ==> decoded is None,
            encoded@.len() > 0 ==> (decoded matches Some(frame) && frame.frame_id == 0 && frame.width
                == 1280 && frame.height == 720 && frame.pixel_format == DecodedPixelFormat::Bgra8
                && frame.pixels@.len() == 0),
    {
        H264Decoder::decode(self, encoded)
    }
}

} // verus!
