//! The Windows screen capture's queue of frames and how it names monitors;
//! pixels come from the platform outside this library.

use vstd::prelude::*;

use crate::client::capture::{
    CaptureConfig, CaptureError, CaptureFrame, CaptureFrameStorage, CapturePixelFormat, CaptureSource,
    LatestFrameQueue,
};

verus! {

/// Whether screen capture runs on `target_os`, named as Rust names target
/// operating systems: on Windows alone.
pub fn is_supported(target_os: &str) -> (supported: bool)
    ensures
        supported == (target_os@ == "windows"@),
{
    let name = target_os.to_owned();
    let windows = "windows".to_owned();
    name.eq(&windows)
}

/// Refuses screen capture where the platform has none.
pub fn ensure_supported(platform_supported: bool) -> (result: Result<(), CaptureError>)
    ensures
        result == if platform_supported {
            Ok::<(), CaptureError>(())
        } else {
            Err::<(), CaptureError>(CaptureError::Unsupported)
        },
{
    if platform_supported {
        Ok(())
    } else {
        Err(CaptureError::Unsupported)
    }
}

#[derive(Debug)]
pub struct WindowsGraphicsCapture {
    source: CaptureSource,
    config: CaptureConfig,
    queue: LatestFrameQueue,
    next_frame_id: u64,
}

impl WindowsGraphicsCapture {
    pub closed spec fn spec_source(&self) -> CaptureSource {
        self.source
    }

    pub closed spec fn spec_config(&self) -> CaptureConfig {
        self.config
    }

    pub closed spec fn spec_queue(&self) -> LatestFrameQueue {
        self.queue
    }

    pub closed spec fn next_id(&self) -> u64 {
        self.next_frame_id
    }

    pub open spec fn wf(&self) -> bool {
        self.spec_queue().wf()
    }

    /// A capture of `source` numbering frames from one, its queue sized by
    /// the config; refused where the platform has no screen capture.
    pub fn new(source: CaptureSource, config: CaptureConfig, platform_supported: bool) -> (result:
        Result<WindowsGraphicsCapture, CaptureError>)
        ensures
            !platform_supported ==> result == Err::<WindowsGraphicsCapture, CaptureError>(
                CaptureError::Unsupported,
            ),
            platform_supported ==> (result matches Ok(capture) && {
                &&& capture.wf()
                &&& capture.spec_source() == source
                &&& capture.spec_config() == config
                &&& capture.spec_queue().frames() == Seq::<CaptureFrame>::empty()
                &&& capture.spec_queue().capacity() == if config.queue_capacity == 0 { 1 } else { config.queue_capacity as nat }
                &&& capture.spec_queue().dropped() == 0
                &&& capture.next_id() == 1
            }),
    {
        if !platform_supported {
            return Err(CaptureError::Unsupported);
        }
        Ok(
            WindowsGraphicsCapture {
                source,
                config,
                queue: LatestFrameQueue::new(config.queue_capacity),
                next_frame_id: 1,
            },
        )
    }

    pub fn source(&self) -> (source: &CaptureSource)
        ensures
            *source == self.spec_source(),
    {
        &self.source
    }

    pub fn config(&self) -> (config: CaptureConfig)
        ensures
            config == self.spec_config(),
    {
        self.config
    }

    pub fn queue_dropped_frames(&self) -> (dropped: u64)
        ensures
            dropped == self.spec_queue().dropped(),
    {
        self.queue.dropped_frames()
    }

    /// Numbers and queues a captured frame.
    pub fn push_frame(&mut self, width: u32, height: u32, capture_time_micros: u64, format: CapturePixelFormat, storage: CaptureFrameStorage)
        requires
            old(self).wf(),
        ensures
            final(self).wf(),
            final(self).spec_source() == old(self).spec_source(),
            final(self).spec_config() == old(self).spec_config(),
            final(self).next_id() == if old(self).next_id() == u64::MAX { u64::MAX } else { (old(self).next_id() + 1) as u64 },
            final(self).spec_queue().capacity() == old(self).spec_queue().capacity(),
            ({
                let frame = CaptureFrame {
                    frame_id: old(self).next_id(),
                    width,
                    height,
                    capture_time_micros,
                    format,
                    storage,
                };
                let q = old(self).spec_queue();
                &&& q.frames().len() < q.capacity() ==> final(self).spec_queue().frames() == q.frames().push(frame)
                    && final(self).spec_queue().dropped() == q.dropped()
                &&& q.frames().len() == q.capacity() ==> final(self).spec_queue().frames() == q.frames().drop_first().push(frame)
                    && final(self).spec_queue().dropped() == if q.dropped() == u64::MAX { u64::MAX } else { (q.dropped() + 1) as u64 }
            }),
    {
        let frame = CaptureFrame {
            frame_id: self.next_frame_id,
            width,
            height,
            capture_time_micros,
            format,
            storage,
        };
        self.next_frame_id = self.next_frame_id.saturating_add(1);
        self.queue.push(frame);
    }

    /// Queues a frame with no pixels, as tests and dry runs do.
    pub fn push_test_frame(&mut self, width: u32, height: u32, capture_time_micros: u64)
        requires
            old(self).wf(),
        ensures
            final(self).wf(),
            test_frame_pushed(*old(self), *final(self), width, height, capture_time_micros),
    {
        self.push_frame(
            width,
            height,
            capture_time_micros,
            CapturePixelFormat::Bgra8,
            CaptureFrameStorage::MetadataOnly,
        );
    }

    /// The newest queued frame; `None` when the queue is empty and a live
    /// frame has to be captured.
    /// Takes the newest queued frame, emptying the queue.
    pub fn take_latest_frame(&mut self) -> (frame: Option<CaptureFrame>)
        requires
            old(self).wf(),
        ensures
            final(self).wf(),
            final(self).spec_source() == old(self).spec_source(),
            final(self).spec_config() == old(self).spec_config(),
            final(self).next_id() == old(self).next_id(),
            final(self).spec_queue().capacity() == old(self).spec_queue().capacity(),
            final(self).spec_queue().dropped() == old(self).spec_queue().dropped(),
            old(self).spec_queue().frames().len() == 0 ==> frame is None,
            old(self).spec_queue().frames().len() > 0 ==> frame == Some(old(self).spec_queue().frames().last())
                && final(self).spec_queue().frames() == Seq::<CaptureFrame>::empty(),
    {
        self.queue.pop_latest()
    }
}

impl CaptureFrame {
    pub open spec fn metadata_only_spec(frame_id: u64, width: u32, height: u32, capture_time_micros: u64) -> CaptureFrame {
        CaptureFrame {
            frame_id,
            width,
            height,
            capture_time_micros,
            format: CapturePixelFormat::Bgra8,
            storage: CaptureFrameStorage::MetadataOnly,
        }
    }
}

impl crate::client::capture::ScreenCapture for WindowsGraphicsCapture {
    open spec fn capture_ready(&self) -> bool {
        self.wf()
    }

    /// The newest queued frame; live frames come from outside the library.
    fn next_frame(&mut self) -> (result: Result<Option<CaptureFrame>, CaptureError>)
        ensures
            final(self).wf(),
            final(self).spec_source() == old(self).spec_source(),
            final(self).spec_config() == old(self).spec_config(),
            final(self).next_id() == old(self).next_id(),
            final(self).spec_queue().capacity() == old(self).spec_queue().capacity(),
            final(self).spec_queue().dropped() == old(self).spec_queue().dropped(),
            old(self).spec_queue().frames().len() == 0 ==> result == Ok::<Option<CaptureFrame>, CaptureError>(None),
            old(self).spec_queue().frames().len() > 0 ==> result == Ok::<Option<CaptureFrame>, CaptureError>(Some(old(self).spec_queue().frames().last()))
                && final(self).spec_queue().frames() == Seq::<CaptureFrame>::empty(),
    {
        Ok(self.take_latest_frame())
    }
}

/// `after` is `before` with a test frame of this size and time queued: the
/// frame takes the next id, which moves on by one (held at `u64::MAX`), and
/// joins the queue, in place of the oldest frame when it is full.
pub open spec fn test_frame_pushed(
    before: WindowsGraphicsCapture,
    after: WindowsGraphicsCapture,
    width: u32,
    height: u32,
    capture_time_micros: u64,
) -> bool {
    &&& after.spec_source() == before.spec_source()
    &&& after.spec_config() == before.spec_config()
    &&& after.next_id() == if before.next_id() == u64::MAX {
        u64::MAX
    } else {
        (before.next_id() + 1) as u64
    }
    &&& after.spec_queue().capacity() == before.spec_queue().capacity()
    &&& ({
        let frame = CaptureFrame::metadata_only_spec(before.next_id(), width, height, capture_time_micros);
        let q = before.spec_queue();
        &&& q.frames().len() < q.capacity() ==> after.spec_queue().frames() == q.frames().push(frame)
            && after.spec_queue().dropped() == q.dropped()
        &&& q.frames().len() == q.capacity() ==> after.spec_queue().frames() == q.frames().drop_first().push(
            frame,
        ) && after.spec_queue().dropped() == if q.dropped() == u64::MAX {
            u64::MAX
        } else {
            (q.dropped() + 1) as u64
        }
    })
}

/// Test frames are numbered in the order they are queued: from a capture
/// whose next id is one, the `i`-th test frame (counting from zero) gets id
/// `i + 1` and is the newest frame in the queue right after it is pushed
/// (below `u64::MAX` frames).
pub proof fn law_test_frames_numbered_from_one(
    states: Seq<WindowsGraphicsCapture>,
    widths: Seq<u32>,
    heights: Seq<u32>,
    times: Seq<u64>,
)
    requires
        states.len() == widths.len() + 1,
        heights.len() == widths.len(),
        times.len() == widths.len(),
        widths.len() < u64::MAX,
        states[0].next_id() == 1,
        forall|i: int| 0 <= i < states.len() ==> #[trigger] states[i].wf(),
        forall|i: int| 0 <= i < widths.len() ==> #[trigger] test_frame_pushed(
            states[i],
            states[i + 1],
            widths[i],
            heights[i],
            times[i],
        ),
    ensures
        forall|i: int| 0 <= i < states.len() ==> #[trigger] states[i].next_id() == i + 1,
        forall|i: int| 0 <= i < widths.len() ==> #[trigger] states[i + 1].spec_queue().frames().last()
            == CaptureFrame::metadata_only_spec((i + 1) as u64, widths[i], heights[i], times[i]),
    decreases widths.len(),
{
    let n = widths.len() as int;
    if n > 0 {
        let last = n - 1;
        assert forall|i: int| 0 <= i < states.drop_last().len() implies #[trigger] states.drop_last()[i].wf() by {
            assert(states[i].wf());
        }
        law_test_frames_numbered_from_one(
            states.drop_last(),
            widths.drop_last(),
            heights.drop_last(),
            times.drop_last(),
        );
        assert forall|i: int| 0 <= i < n - 1 implies #[trigger] test_frame_pushed(
            states.drop_last()[i],
            states.drop_last()[i + 1],
            widths.drop_last()[i],
            heights.drop_last()[i],
            times.drop_last()[i],
        ) by {
            assert(test_frame_pushed(states[i], states[i + 1], widths[i], heights[i], times[i]));
        }
        assert(test_frame_pushed(states[last], states[last + 1], widths[last], heights[last], times[last]));
        assert(states.drop_last()[last].next_id() == last + 1);
        assert forall|i: int| 0 <= i < states.len() implies #[trigger] states[i].next_id() == i + 1 by {
            if i < n {
                assert(states.drop_last()[i].next_id() == i + 1);
            }
        }
        assert forall|i: int| 0 <= i < n implies #[trigger] states[i + 1].spec_queue().frames().last()
            == CaptureFrame::metadata_only_spec((i + 1) as u64, widths[i], heights[i], times[i]) by {
            if i < last {
                assert(states.drop_last()[i + 1].spec_queue().frames().last()
                    == CaptureFrame::metadata_only_spec((i + 1) as u64, widths.drop_last()[i], heights.drop_last()[i], times.drop_last()[i]));
            } else {
                assert(states[last].wf());
                assert(states[last].next_id() == last + 1);
            }
        }
    }
}

} // verus!
