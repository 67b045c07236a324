//! Screen capture frames and the queue that keeps only the newest of them.

pub mod monitors;
pub mod windows;

use std::collections::VecDeque;
use vstd::prelude::*;

verus! {

#[derive(Debug, Clone, PartialEq, Eq)]
pub struct CaptureFrame {
    pub frame_id: u64,
    pub width: u32,
    pub height: u32,
    pub capture_time_micros: u64,
    pub format: CapturePixelFormat,
    pub storage: CaptureFrameStorage,
}

#[derive(Debug, Clone, Copy, PartialEq, Eq, Structural)]
pub enum CapturePixelFormat {
    Bgra8,
    Nv12,
    Unknown,
}

#[derive(Debug, Clone, PartialEq, Eq)]
pub enum CaptureFrameStorage {
    MetadataOnly,
    CpuBytes(Vec<u8>),
    NativeHandle(u64),
}

/// Why a capture could not be described or made.
#[derive(Debug, Clone, Copy, PartialEq, Eq, Structural)]
pub enum CaptureError {
    InvalidSize { width: i32, height: i32 },
    BufferTooLarge,
    /// Screen capture does not run on this platform.
    Unsupported,
}

impl CaptureFrame {
    /// A BGRA frame that carries its size and time but no pixels.
    pub fn metadata_only(frame_id: u64, width: u32, height: u32, capture_time_micros: u64) -> (frame:
        CaptureFrame)
        ensures
            frame == (CaptureFrame {
                frame_id,
                width,
                height,
                capture_time_micros,
                format: CapturePixelFormat::Bgra8,
                storage: CaptureFrameStorage::MetadataOnly,
            }),
    {
        CaptureFrame {
            frame_id,
            width,
            height,
            capture_time_micros,
            format: CapturePixelFormat::Bgra8,
            storage: CaptureFrameStorage::MetadataOnly,
        }
    }

    /// Bytes of a BGRA image of this size: four per pixel, when that fits
    /// a `usize`.
    pub fn bgra_byte_len(width: u32, height: u32) -> (len: Result<usize, CaptureError>)
        ensures
            width * height * 4 <= usize::MAX ==> len == Ok::<usize, CaptureError>((width * height * 4) as usize),
            width * height * 4 > usize::MAX ==> len == Err::<usize, CaptureError>(CaptureError::BufferTooLarge),
    {
        assert((width as int) * (height as int) <= u32::MAX * u32::MAX) by (nonlinear_arith);
        let pixels = width as u64 * height as u64;
        if pixels > (usize::MAX / 4) as u64 {
            return Err(CaptureError::BufferTooLarge);
        }
        Ok(pixels as usize * 4)
    }
}

/// A capture size as the platform reports it: both sides must be positive.
pub fn validate_capture_dimensions(width: i32, height: i32) -> (size: Result<(u32, u32), CaptureError>)
    ensures
        (width <= 0 || height <= 0) ==> size == Err::<(u32, u32), CaptureError>(
            CaptureError::InvalidSize { width, height },
        ),
        (width > 0 && height > 0) ==> size == Ok::<(u32, u32), CaptureError>((width as u32, height as u32)),
{
    if width <= 0 || height <= 0 {
        return Err(CaptureError::InvalidSize { width, height });
    }
    Ok((width as u32, height as u32))
}

#[derive(Debug, Clone, PartialEq, Eq)]
pub enum CaptureSource {
    PrimaryMonitor,
    Monitor { id: String },
    Window { id: String, title: String },
}

#[derive(Debug, Clone, Copy, PartialEq, Eq, Structural)]
pub struct CaptureConfig {
    pub queue_capacity: usize,
    pub cursor_visible: bool,
}

impl Default for CaptureConfig {
    /// One queued frame, cursor shown.
    fn default() -> (config: CaptureConfig)
        ensures
            config == (CaptureConfig { queue_capacity: 1, cursor_visible: true }),
    {
        CaptureConfig { queue_capacity: 1, cursor_visible: true }
    }
}

/// A source of captured frames.
pub trait ScreenCapture {
    /// Whether the capture is in a state to hand out frames.
    spec fn capture_ready(&self) -> bool;

    fn next_frame(&mut self) -> (frame: Result<Option<CaptureFrame>, CaptureError>)
        requires
            old(self).capture_ready(),
        ensures
            final(self).capture_ready(),
    ;
}

/// `after` is `before` with `frame` pushed: appended while there is room,
/// else in place of the oldest frame, which counts as dropped.
pub open spec fn frame_pushed(before: LatestFrameQueue, after: LatestFrameQueue, frame: CaptureFrame) -> bool {
    &&& after.capacity() == before.capacity()
    &&& before.frames().len() < before.capacity() ==> after.frames() == before.frames().push(frame)
        && after.dropped() == before.dropped()
    &&& before.frames().len() == before.capacity() ==> after.frames() == before.frames().drop_first().push(
        frame,
    ) && after.dropped() == if before.dropped() == u64::MAX {
        u64::MAX
    } else {
        (before.dropped() + 1) as u64
    }
}

/// What a queue of `capacity` holds after the frames `pushed` went into it
/// empty: the newest of them, as many as fit, oldest first.
pub open spec fn newest_frames(pushed: Seq<CaptureFrame>, capacity: nat) -> Seq<CaptureFrame> {
    if pushed.len() <= capacity {
        pushed
    } else {
        pushed.skip(pushed.len() - capacity)
    }
}

/// Pushing frames one after another into an empty queue keeps the newest
/// of them, as many as fit, and counts every other one as dropped (below
/// `u64::MAX` pushes).
pub proof fn law_queue_keeps_newest_frames(states: Seq<LatestFrameQueue>, pushed: Seq<CaptureFrame>)
    requires
        states.len() == pushed.len() + 1,
        pushed.len() < u64::MAX,
        states[0].wf(),
        states[0].frames() == Seq::<CaptureFrame>::empty(),
        states[0].dropped() == 0,
        forall|i: int| 0 <= i < pushed.len() ==> #[trigger] frame_pushed(states[i], states[i + 1], pushed[i]),
    ensures
        states.last().frames() == newest_frames(pushed, states[0].capacity()),
        states.last().dropped() == pushed.len() - newest_frames(pushed, states[0].capacity()).len(),
    decreases pushed.len(),
{
    let n = pushed.len();
    if n > 0 {
        let ps = pushed.drop_last();
        let ss = states.drop_last();
        assert forall|i: int| 0 <= i < ps.len() implies #[trigger] frame_pushed(ss[i], ss[i + 1], ps[i]) by {
            assert(frame_pushed(states[i], states[i + 1], pushed[i]));
        }
        law_queue_keeps_newest_frames(ss, ps);
        let c = states[0].capacity();
        let last = n - 1;
        assert(frame_pushed(states[last], states[last + 1], pushed[last]));
        assert forall|i: int| 0 <= i <= n implies #[trigger] states[i].capacity() == c by {
            lemma_capacity_kept(states, pushed, i);
        }
        let before = states[n - 1];
        assert(before.frames() == newest_frames(ps, c));
        if ps.len() < c {
            assert(before.frames().len() < c);
            assert(newest_frames(pushed, c) =~= ps.push(pushed[n - 1]));
            assert(pushed =~= ps.push(pushed[n - 1]));
        } else {
            assert(before.frames().len() == c);
            assert(newest_frames(pushed, c) =~= newest_frames(ps, c).drop_first().push(pushed[n - 1]));
        }
    }
}

proof fn lemma_capacity_kept(states: Seq<LatestFrameQueue>, pushed: Seq<CaptureFrame>, i: int)
    requires
        states.len() == pushed.len() + 1,
        forall|j: int| 0 <= j < pushed.len() ==> #[trigger] frame_pushed(states[j], states[j + 1], pushed[j]),
        0 <= i <= pushed.len(),
    ensures
        states[i].capacity() == states[0].capacity(),
    decreases i,
{
    if i > 0 {
        lemma_capacity_kept(states, pushed, i - 1);
        let j = i - 1;
        assert(frame_pushed(states[j], states[j + 1], pushed[j]));
    }
}

/// A queue that drops its oldest frames to make room, so the encoder always
/// gets the newest picture and latency cannot build up.
#[derive(Debug)]
pub struct LatestFrameQueue {
    frames: VecDeque<CaptureFrame>,
    capacity: usize,
    dropped_frames: u64,
}

impl LatestFrameQueue {
    pub closed spec fn frames(&self) -> Seq<CaptureFrame> {
        self.frames@
    }

    pub closed spec fn capacity(&self) -> nat {
        self.capacity as nat
    }

    pub closed spec fn dropped(&self) -> u64 {
        self.dropped_frames
    }

    /// Never more frames than the capacity, which is at least one.
    pub open spec fn wf(&self) -> bool {
        1 <= self.capacity() && self.frames().len() <= self.capacity()
    }

    /// A queue of `capacity` frames; zero counts as one.
    pub fn new(capacity: usize) -> (queue: LatestFrameQueue)
        ensures
            queue.wf(),
            queue.frames() == Seq::<CaptureFrame>::empty(),
            queue.capacity() == if capacity == 0 { 1 } else { capacity as nat },
            queue.dropped() == 0,
    {
        LatestFrameQueue {
            frames: VecDeque::new(),
            capacity: if capacity == 0 { 1 } else { capacity },
            dropped_frames: 0,
        }
    }

    /// Adds a frame, dropping the oldest one when the queue is full.
    pub fn push(&mut self, frame: CaptureFrame)
        requires
            old(self).wf(),
        ensures
            final(self).wf(),
            frame_pushed(*old(self), *final(self), frame),
    {
        let ghost before = self.frames@;
        if self.frames.len() >= self.capacity {
            self.frames.pop_front();
            self.dropped_frames = self.dropped_frames.saturating_add(1);
            assert(self.frames@ =~= before.drop_first());
        }
        self.frames.push_back(frame);
    }

    /// The newest frame; the older ones are discarded.
    pub fn pop_latest(&mut self) -> (latest: Option<CaptureFrame>)
        requires
            old(self).wf(),
        ensures
            final(self).wf(),
            final(self).capacity() == old(self).capacity(),
            final(self).dropped() == old(self).dropped(),
            old(self).frames().len() == 0 ==> latest is None && final(self).frames() == old(self).frames(),
            old(self).frames().len() > 0 ==> latest == Some(old(self).frames().last())
                && final(self).frames() == Seq::<CaptureFrame>::empty(),
    {
        match self.frames.pop_back() {
            Some(latest) => {
                self.frames.clear();
                Some(latest)
            },
            None => None,
        }
    }

    pub fn len(&self) -> (len: usize)
        ensures
            len == self.frames().len(),
    {
        self.frames.len()
    }

    pub fn dropped_frames(&self) -> (dropped: u64)
        ensures
            dropped == self.dropped(),
    {
        self.dropped_frames
    }
}

} // verus!
