//! Playback sinks for decoded pictures.

use vstd::prelude::*;

use crate::client::decode::{DecodedFrame, DecodedPixelFormat};
use crate::relay::metrics::unix_time_micros;

verus! {

#[derive(Debug, Clone, Copy, PartialEq, Eq, Structural)]
pub struct RenderedFrame {
    pub frame_id: u32,
    pub width: u32,
    pub height: u32,
    pub pixel_format: DecodedPixelFormat,
    pub pixel_bytes: usize,
    pub render_time_micros: u64,
}

/// Why a picture could not be shown.
#[derive(Debug, Clone, Copy, PartialEq, Eq, Structural)]
pub enum PlaybackError {
    DimensionsOverflow,
    PixelLengthMismatch { expected: usize, actual: usize },
}

/// A sink that keeps only a summary of the latest picture it showed.
#[derive(Debug)]
pub struct LatestFramePlayback {
    pub rendered_frames: u64,
    pub latest: Option<RenderedFrame>,
}

impl Default for LatestFramePlayback {
    fn default() -> (playback: LatestFramePlayback)
        ensures
            playback.rendered_frames == 0,
            playback.latest is None,
    {
        LatestFramePlayback { rendered_frames: 0, latest: None }
    }
}

impl LatestFramePlayback {
    pub fn new() -> (playback: LatestFramePlayback)
        ensures
            playback.rendered_frames == 0,
            playback.latest is None,
    {
        LatestFramePlayback { rendered_frames: 0, latest: None }
    }

    pub fn rendered_frames(&self) -> (rendered: u64)
        ensures
            rendered == self.rendered_frames,
    {
        self.rendered_frames
    }

    pub fn latest(&self) -> (latest: Option<&RenderedFrame>)
        ensures
            match latest {
                Some(r) => self.latest == Some(*r),
                None => self.latest is None,
            },
    {
        match &self.latest {
            Some(r) => Some(r),
            None => None,
        }
    }

    /// Shows a BGRA picture whose buffer holds exactly four bytes per pixel
    /// (the byte count must fit 32 bits), stamped `render_time_micros`.
    pub fn render_at(&mut self, frame: DecodedFrame, render_time_micros: u64) -> (result: Result<(), PlaybackError>)
        ensures
            frame.width * frame.height * 4 > u32::MAX ==> result == Err::<(), PlaybackError>(PlaybackError::DimensionsOverflow)
                && final(self).rendered_frames == old(self).rendered_frames && final(self).latest == old(self).latest,
            frame.width * frame.height * 4 <= u32::MAX && frame.pixels@.len() != frame.width * frame.height * 4
                ==> result == Err::<(), PlaybackError>(PlaybackError::PixelLengthMismatch {
                    expected: (frame.width * frame.height * 4) as usize,
                    actual: frame.pixels@.len() as usize,
                }) && final(self).rendered_frames == old(self).rendered_frames && final(self).latest == old(self).latest,
            frame.width * frame.height * 4 <= u32::MAX && frame.pixels@.len() == frame.width * frame.height * 4 ==> {
                &&& result == Ok::<(), PlaybackError>(())
                &&& final(self).rendered_frames == if old(self).rendered_frames == u64::MAX { u64::MAX } else { (old(self).rendered_frames + 1) as u64 }
                &&& final(self).latest == Some(RenderedFrame {
                    frame_id: frame.frame_id,
                    width: frame.width,
                    height: frame.height,
                    pixel_format: frame.pixel_format,
                    pixel_bytes: frame.pixels@.len() as usize,
                    render_time_micros,
                })
            },
    {
        assert((frame.width as int) * (frame.height as int) <= u32::MAX * u32::MAX) by (nonlinear_arith);
        let pixels = frame.width as u64 * frame.height as u64;
        if pixels > (u32::MAX / 4) as u64 {
            assert(frame.width * frame.height * 4 > u32::MAX);
            return Err(PlaybackError::DimensionsOverflow);
        }
        let expected = (pixels * 4) as usize;
        match frame.pixel_format {
            DecodedPixelFormat::Bgra8 => {},
        }
        if frame.pixels.len() != expected {
            return Err(PlaybackError::PixelLengthMismatch { expected, actual: frame.pixels.len() });
        }
        self.rendered_frames = self.rendered_frames.saturating_add(1);
        self.latest = Some(
            RenderedFrame {
                frame_id: frame.frame_id,
                width: frame.width,
                height: frame.height,
                pixel_format: frame.pixel_format,
                pixel_bytes: frame.pixels.len(),
                render_time_micros,
            },
        );
        Ok(())
    }

    /// Shows a picture stamped with the system clock.
    pub fn render(&mut self, frame: DecodedFrame) -> (result: Result<(), PlaybackError>)
        ensures
            frame.width * frame.height * 4 > u32::MAX ==> result == Err::<(), PlaybackError>(PlaybackError::DimensionsOverflow)
                && final(self).rendered_frames == old(self).rendered_frames && final(self).latest == old(self).latest,
            frame.width * frame.height * 4 <= u32::MAX && frame.pixels@.len() != frame.width * frame.height * 4
                ==> result == Err::<(), PlaybackError>(PlaybackError::PixelLengthMismatch {
                    expected: (frame.width * frame.height * 4) as usize,
                    actual: frame.pixels@.len() as usize,
                }) && final(self).rendered_frames == old(self).rendered_frames && final(self).latest == old(self).latest,
            frame.width * frame.height * 4 <= u32::MAX && frame.pixels@.len() == frame.width * frame.height * 4 ==> {
                &&& result == Ok::<(), PlaybackError>(())
                &&& final(self).rendered_frames == if old(self).rendered_frames == u64::MAX { u64::MAX } else { (old(self).rendered_frames + 1) as u64 }
                &&& final(self).latest matches Some(r) && r.frame_id == frame.frame_id && r.width == frame.width
                    && r.height == frame.height && r.pixel_format == frame.pixel_format && r.pixel_bytes == frame.pixels@.len()
            },
    {
        let now = unix_time_micros();
        self.render_at(frame, now)
    }
}

/// A sink that shows nothing.
#[derive(Debug, Default)]
pub struct NullPlayback;

impl NullPlayback {
    pub fn render(&mut self, frame: DecodedFrame) -> (result: Result<(), PlaybackError>)
        ensures
            result == Ok::<(), PlaybackError>(()),
    {
        Ok(())
    }
}

/// Where decoded pictures go to be shown.
pub trait VideoPlayback {
    fn render(&mut self, frame: DecodedFrame) -> Result<(), PlaybackError>;
}

impl VideoPlayback for LatestFramePlayback {
    fn render(&mut self, frame: DecodedFrame) -> (result: Result<(), PlaybackError>)
        ensures
            frame.width * frame.height * 4 > u32::MAX ==> result == Err::<(), PlaybackError>(PlaybackError::DimensionsOverflow)
                && final(self).rendered_frames == old(self).rendered_frames && final(self).latest == old(self).latest,
            frame.width * frame.height * 4 <= u32::MAX && frame.pixels@.len() != frame.width * frame.height * 4
                ==> result == Err::<(), PlaybackError>(PlaybackError::PixelLengthMismatch {
                    expected: (frame.width * frame.height * 4) as usize,
                    actual: frame.pixels@.len() as usize,
                }) && final(self).rendered_frames == old(self).rendered_frames && final(self).latest == old(self).latest,
            frame.width * frame.height * 4 <= u32::MAX && frame.pixels@.len() == frame.width * frame.height * 4 ==> {
                &&& result == Ok::<(), PlaybackError>(())
                &&& final(self).rendered_frames == if old(self).rendered_frames == u64::MAX { u64::MAX } else { (old(self).rendered_frames + 1) as u64 }
                &&& final(self).latest matches Some(r) && r.frame_id == frame.frame_id && r.width == frame.width
                    && r.height == frame.height && r.pixel_format == frame.pixel_format && r.pixel_bytes == frame.pixels@.len()
            },
    {
        LatestFramePlayback::render(self, frame)
    }
}

impl VideoPlayback for NullPlayback {
    fn render(&mut self, frame: DecodedFrame) -> (result: Result<(), PlaybackError>)
        ensures
            result == Ok::<(), PlaybackError>(()),
    {
        NullPlayback::render(self, frame)
    }
}

} // verus!
