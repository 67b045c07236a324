//! Microphone capture: captured PCM frames and the queue that keeps only
//! the newest of them.

use std::collections::VecDeque;
use vstd::prelude::*;

use crate::client::audio::AudioError;

verus! {

#[derive(Debug, Clone, PartialEq, Eq)]
pub enum MicrophoneSource {
    Default,
    Device { id: String },
}

#[derive(Debug, Clone, PartialEq, Eq)]
pub struct MicrophoneSourceInfo {
    pub source: MicrophoneSource,
    pub label: String,
    pub sample_rate_hz: u32,
    pub channel_count: u16,
    pub is_default: bool,
}

#[derive(Debug, Clone, Copy, PartialEq, Eq, Structural)]
pub struct AudioCaptureConfig {
    pub sample_rate_hz: u32,
    pub channel_count: u16,
    pub frame_duration_ms: u16,
    pub queue_capacity: usize,
}

impl Default for AudioCaptureConfig {
    /// 48 kHz mono in 20 ms frames, keeping one frame.
    fn default() -> (config: AudioCaptureConfig)
        ensures
            config == (AudioCaptureConfig {
                sample_rate_hz: 48_000,
                channel_count: 1,
                frame_duration_ms: 20,
                queue_capacity: 1,
            }),
    {
        AudioCaptureConfig {
            sample_rate_hz: 48_000,
            channel_count: 1,
            frame_duration_ms: 20,
            queue_capacity: 1,
        }
    }
}

#[derive(Debug, Clone, PartialEq, Eq)]
pub struct CapturedAudioFrame {
    pub frame_id: u64,
    pub capture_time_micros: u64,
    pub sample_rate_hz: u32,
    pub channel_count: u16,
    pub samples: Vec<i16>,
}

/// Why PCM samples do not make a frame, if they do not.
pub open spec fn capture_layout_error(sample_rate_hz: u32, channel_count: u16, sample_len: nat) -> Option<AudioError> {
    if sample_rate_hz == 0 {
        Some(AudioError::ZeroSampleRate)
    } else if channel_count == 0 {
        Some(AudioError::ZeroChannelCount)
    } else if (sample_len as int) % (channel_count as int) != 0 {
        Some(AudioError::SamplesNotDivisible { sample_len: sample_len as usize, channel_count })
    } else {
        None
    }
}

impl CapturedAudioFrame {
    /// A frame of interleaved samples: the rate and channel count must be
    /// non-zero and the samples whole frames of `channel_count`.
    pub fn pcm_i16(
        frame_id: u64,
        capture_time_micros: u64,
        sample_rate_hz: u32,
        channel_count: u16,
        samples: Vec<i16>,
    ) -> (result: Result<CapturedAudioFrame, AudioError>)
        ensures
            match capture_layout_error(sample_rate_hz, channel_count, samples@.len()) {
                Some(e) => result == Err::<CapturedAudioFrame, AudioError>(e),
                None => result == Ok::<CapturedAudioFrame, AudioError>(
                    CapturedAudioFrame {
                        frame_id,
                        capture_time_micros,
                        sample_rate_hz,
                        channel_count,
                        samples,
                    },
                ),
            },
    {
        if sample_rate_hz == 0 {
            return Err(AudioError::ZeroSampleRate);
        }
        if channel_count == 0 {
            return Err(AudioError::ZeroChannelCount);
        }
        if samples.len() % (channel_count as usize) != 0 {
            return Err(
                AudioError::SamplesNotDivisible { sample_len: samples.len(), channel_count },
            );
        }
        Ok(CapturedAudioFrame { frame_id, capture_time_micros, sample_rate_hz, channel_count, samples })
    }

    /// Samples per channel, held at `u16::MAX`; a zero channel count counts
    /// as one.
    pub fn sample_count_per_channel(&self) -> (count: u16)
        ensures
            count == ({
                let per = (self.samples@.len() as int) / (if self.channel_count == 0 { 1 } else { self.channel_count as int });
                if per > u16::MAX { u16::MAX } else { per as u16 }
            }),
    {
        let channels: usize = if self.channel_count == 0 { 1 } else { self.channel_count as usize };
        let per = self.samples.len() / channels;
        if per > u16::MAX as usize {
            u16::MAX
        } else {
            per as u16
        }
    }
}

/// A queue that drops its oldest frames to make room, so a slow consumer
/// always gets the newest audio.
#[derive(Debug)]
pub struct LatestAudioCaptureQueue {
    frames: VecDeque<CapturedAudioFrame>,
    capacity: usize,
    dropped_frames: u64,
}

impl LatestAudioCaptureQueue {
    pub closed spec fn frames(&self) -> Seq<CapturedAudioFrame> {
        self.frames@
    }

    pub closed spec fn capacity(&self) -> nat {
        self.capacity as nat
    }

    pub closed spec fn dropped(&self) -> u64 {
        self.dropped_frames
    }

    /// Never more frames than the capacity, which is at least one.
    pub open spec fn wf(&self) -> bool {
        1 <= self.capacity() && self.frames().len() <= self.capacity()
    }

    /// A queue of `capacity` frames; zero counts as one.
    pub fn new(capacity: usize) -> (queue: LatestAudioCaptureQueue)
        ensures
            queue.wf(),
            queue.frames() == Seq::<CapturedAudioFrame>::empty(),
            queue.capacity() == if capacity == 0 { 1 } else { capacity as nat },
            queue.dropped() == 0,
    {
        LatestAudioCaptureQueue {
            frames: VecDeque::new(),
            capacity: if capacity == 0 { 1 } else { capacity },
            dropped_frames: 0,
        }
    }

    /// Adds a frame, dropping the oldest one when the queue is full.
    pub fn push(&mut self, frame: CapturedAudioFrame)
        requires
            old(self).wf(),
        ensures
            final(self).wf(),
            final(self).capacity() == old(self).capacity(),
            old(self).frames().len() < old(self).capacity() ==> final(self).frames() == old(self).frames().push(frame)
                && final(self).dropped() == old(self).dropped(),
            old(self).frames().len() == old(self).capacity() ==> final(self).frames() == old(self).frames().drop_first().push(frame)
                && final(self).dropped() == if old(self).dropped() == u64::MAX { u64::MAX } else { (old(self).dropped() + 1) as u64 },
    {
        let ghost before = self.frames@;
        if self.frames.len() >= self.capacity {
            self.frames.pop_front();
            self.dropped_frames = self.dropped_frames.saturating_add(1);
            assert(self.frames@ =~= before.drop_first());
        }
        self.frames.push_back(frame);
    }

    /// The newest frame; the older ones are discarded.
    pub fn pop_latest(&mut self) -> (latest: Option<CapturedAudioFrame>)
        requires
            old(self).wf(),
        ensures
            final(self).wf(),
            final(self).capacity() == old(self).capacity(),
            final(self).dropped() == old(self).dropped(),
            old(self).frames().len() == 0 ==> latest is None && final(self).frames() == old(self).frames(),
            old(self).frames().len() > 0 ==> latest == Some(old(self).frames().last())
                && final(self).frames() == Seq::<CapturedAudioFrame>::empty(),
    {
        match self.frames.pop_back() {
            Some(latest) => {
                self.frames.clear();
                Some(latest)
            },
            None => None,
        }
    }

    pub fn len(&self) -> (len: usize)
        ensures
            len == self.frames().len(),
    {
        self.frames.len()
    }

    pub fn dropped_frames(&self) -> (dropped: u64)
        ensures
            dropped == self.dropped(),
    {
        self.dropped_frames
    }
}

/// Samples per channel in one captured frame: rate times duration in
/// seconds (the product held at `u32::MAX`), at least one.
pub open spec fn silence_sample_count(sample_rate_hz: u32, frame_duration_ms: u16) -> int {
    let product = if sample_rate_hz * frame_duration_ms > u32::MAX {
        u32::MAX as int
    } else {
        sample_rate_hz * frame_duration_ms
    };
    if product / 1000 < 1 {
        1
    } else {
        product / 1000
    }
}

/// A source of captured audio frames.
pub trait MicrophoneCapture {
    /// Whether the capture is in a state to hand out frames.
    spec fn capture_ready(&self) -> bool;

    fn next_frame(&mut self) -> (frame: Result<Option<CapturedAudioFrame>, AudioError>)
        requires
            old(self).capture_ready(),
        ensures
            final(self).capture_ready(),
    ;
}

/// Whether microphone capture runs on `target_os`, named as Rust names
/// target operating systems: on Windows alone.
pub fn is_supported(target_os: &str) -> (supported: bool)
    ensures
        supported == (target_os@ == "windows"@),
{
    let name = target_os.to_owned();
    let windows = "windows".to_owned();
    name.eq(&windows)
}

/// Refuses microphone capture where the platform has none.
pub fn ensure_supported(platform_supported: bool) -> (result: Result<(), AudioError>)
    ensures
        result == if platform_supported {
            Ok::<(), AudioError>(())
        } else {
            Err::<(), AudioError>(AudioError::Unsupported)
        },
{
    if platform_supported {
        Ok(())
    } else {
        Err(AudioError::Unsupported)
    }
}

/// Capture from a Windows microphone into a latest-frame queue.
#[derive(Debug)]
pub struct WindowsMicrophoneCapture {
    source: MicrophoneSource,
    config: AudioCaptureConfig,
    queue: LatestAudioCaptureQueue,
    next_frame_id: u64,
}

impl WindowsMicrophoneCapture {
    pub closed spec fn spec_source(&self) -> MicrophoneSource {
        self.source
    }

    pub closed spec fn spec_config(&self) -> AudioCaptureConfig {
        self.config
    }

    pub closed spec fn spec_queue(&self) -> LatestAudioCaptureQueue {
        self.queue
    }

    pub closed spec fn next_id(&self) -> u64 {
        self.next_frame_id
    }

    pub open spec fn wf(&self) -> bool {
        self.spec_queue().wf()
    }

    /// A capture numbering frames from one, its queue sized by the config;
    /// refused where the platform has no microphone capture.
    pub fn new(source: MicrophoneSource, config: AudioCaptureConfig, platform_supported: bool) -> (result:
        Result<WindowsMicrophoneCapture, AudioError>)
        ensures
            !platform_supported ==> result == Err::<WindowsMicrophoneCapture, AudioError>(
                AudioError::Unsupported,
            ),
            platform_supported ==> (result matches Ok(capture) && {
                &&& capture.wf()
                &&& capture.spec_source() == source
                &&& capture.spec_config() == config
                &&& capture.spec_queue().frames() == Seq::<CapturedAudioFrame>::empty()
                &&& capture.spec_queue().capacity() == if config.queue_capacity == 0 { 1 } else { config.queue_capacity as nat }
                &&& capture.spec_queue().dropped() == 0
                &&& capture.next_id() == 1
            }),
    {
        if !platform_supported {
            return Err(AudioError::Unsupported);
        }
        Ok(
            WindowsMicrophoneCapture {
                source,
                config,
                queue: LatestAudioCaptureQueue::new(config.queue_capacity),
                next_frame_id: 1,
            },
        )
    }

    pub fn source(&self) -> (source: &MicrophoneSource)
        ensures
            *source == self.spec_source(),
    {
        &self.source
    }

    pub fn config(&self) -> (config: AudioCaptureConfig)
        ensures
            config == self.spec_config(),
    {
        self.config
    }

    pub fn queue_dropped_frames(&self) -> (dropped: u64)
        ensures
            dropped == self.spec_queue().dropped(),
    {
        self.queue.dropped_frames()
    }

    /// Queues a frame of silence of the configured layout, stamped with
    /// `capture_time_micros`.
    pub fn push_silence_frame(&mut self, capture_time_micros: u64) -> (result: Result<(), AudioError>)
        requires
            old(self).wf(),
        ensures
            final(self).wf(),
            final(self).spec_source() == old(self).spec_source(),
            final(self).spec_config() == old(self).spec_config(),
            ({
                let c = old(self).spec_config();
                let channels: int = if c.channel_count == 0 { 1 } else { c.channel_count as int };
                let total = silence_sample_count(c.sample_rate_hz, c.frame_duration_ms) * channels;
                match capture_layout_error(c.sample_rate_hz, c.channel_count, total as nat) {
                    Some(e) => result == Err::<(), AudioError>(e) && final(self).next_id() == old(self).next_id()
                        && final(self).spec_queue() == old(self).spec_queue(),
                    None => {
                        &&& result == Ok::<(), AudioError>(())
                        &&& final(self).next_id() == if old(self).next_id() == u64::MAX { u64::MAX } else { (old(self).next_id() + 1) as u64 }
                        &&& final(self).spec_queue().capacity() == old(self).spec_queue().capacity()
                        &&& final(self).spec_queue().frames().len() >= 1
                        &&& final(self).spec_queue().frames().last() == (CapturedAudioFrame {
                            frame_id: old(self).next_id(),
                            capture_time_micros,
                            sample_rate_hz: c.sample_rate_hz,
                            channel_count: c.channel_count,
                            samples: final(self).spec_queue().frames().last().samples,
                        })
                        &&& final(self).spec_queue().frames().last().samples@ == Seq::new(total as nat, |i: int| 0i16)
                        &&& old(self).spec_queue().frames().len() < old(self).spec_queue().capacity()
                            ==> final(self).spec_queue().frames().drop_last() == old(self).spec_queue().frames()
                        &&& old(self).spec_queue().frames().len() == old(self).spec_queue().capacity()
                            ==> final(self).spec_queue().frames().drop_last() == old(self).spec_queue().frames().drop_first()
                    },
                }
            }),
    {
        assert((self.config.sample_rate_hz as int) * (self.config.frame_duration_ms as int) <= u32::MAX * u16::MAX) by (nonlinear_arith);
        let product = self.config.sample_rate_hz as u64 * self.config.frame_duration_ms as u64;
        let saturated: u64 = if product > u32::MAX as u64 { u32::MAX as u64 } else { product };
        let per = saturated / 1000;
        let sample_count: u64 = if per < 1 { 1 } else { per };
        let channels: u64 = if self.config.channel_count == 0 { 1 } else { self.config.channel_count as u64 };
        assert(sample_count * channels <= 4294967 * 65535) by (nonlinear_arith)
            requires
                sample_count <= 4294967,
                channels <= 65535,
        ;
        let total = sample_count * channels;
        let mut samples: Vec<i16> = Vec::new();
        let mut i: u64 = 0;
        while i < total
            invariant
                0 <= i <= total,
                samples@ =~= Seq::new(i as nat, |k: int| 0i16),
            decreases total - i,
        {
            samples.push(0);
            i += 1;
            assert(samples@ =~= Seq::new(i as nat, |k: int| 0i16));
        }
        let frame = match CapturedAudioFrame::pcm_i16(
            self.next_frame_id,
            capture_time_micros,
            self.config.sample_rate_hz,
            self.config.channel_count,
            samples,
        ) {
            Ok(frame) => frame,
            Err(e) => {
                return Err(e);
            },
        };
        self.next_frame_id = self.next_frame_id.saturating_add(1);
        self.queue.push(frame);
        Ok(())
    }

    /// The newest captured frame, if any is queued.
    /// Takes the newest queued frame, emptying the queue.
    pub fn take_latest_frame(&mut self) -> (frame: Option<CapturedAudioFrame>)
        requires
            old(self).wf(),
        ensures
            final(self).wf(),
            final(self).spec_source() == old(self).spec_source(),
            final(self).spec_config() == old(self).spec_config(),
            final(self).next_id() == old(self).next_id(),
            final(self).spec_queue().capacity() == old(self).spec_queue().capacity(),
            final(self).spec_queue().dropped() == old(self).spec_queue().dropped(),
            old(self).spec_queue().frames().len() == 0 ==> frame is None,
            old(self).spec_queue().frames().len() > 0 ==> frame == Some(old(self).spec_queue().frames().last())
                && final(self).spec_queue().frames() == Seq::<CapturedAudioFrame>::empty(),
    {
        self.queue.pop_latest()
    }
}

/// UTF-16 decoding in which each unpaired surrogate becomes U+FFFD.
pub open spec fn utf16_lossy(units: Seq<u16>) -> Seq<char>
    decreases units.len(),
{
    if units.len() == 0 {
        Seq::empty()
    } else {
        let u = units[0];
        if 0xD800 <= u <= 0xDBFF && units.len() >= 2 && 0xDC00 <= units[1] <= 0xDFFF {
            seq![((u - 0xD800) * 0x400 + (units[1] - 0xDC00) + 0x10000) as char] + utf16_lossy(
                units.subrange(2, units.len() as int),
            )
        } else if 0xD800 <= u <= 0xDFFF {
            seq!['\u{FFFD}'] + utf16_lossy(units.drop_first())
        } else {
            seq![u as char] + utf16_lossy(units.drop_first())
        }
    }
}

/// `String::from_utf16_lossy`: per its documentation, decodes UTF-16 and
/// replaces invalid data, each unpaired surrogate, with U+FFFD. Trusted.
#[verifier::external_body]
fn decode_utf16_lossy(units: &[u16]) -> (text: String)
    ensures
        text@ == utf16_lossy(units@),
{
    String::from_utf16_lossy(units)
}

/// A device name from a fixed-size UTF-16 buffer: the units before the
/// first NUL, decoded.
pub fn wide_device_name(name: &[u16]) -> (text: String)
    ensures
        exists|end: int|
            #![trigger name@.subrange(0, end)]
            0 <= end <= name@.len() && (end < name@.len() ==> name@[end] == 0) && (forall|k: int|
                0 <= k < end ==> name@[k] != 0) && text@ == utf16_lossy(name@.subrange(0, end)),
{
    let mut units: Vec<u16> = Vec::new();
    let mut i: usize = 0;
    while i < name.len() && name[i] != 0
        invariant
            0 <= i <= name@.len(),
            units@ == name@.subrange(0, i as int),
            forall|k: int| 0 <= k < i ==> name@[k] != 0,
        decreases name@.len() - i,
    {
        units.push(name[i]);
        i += 1;
        assert(units@ =~= name@.subrange(0, i as int));
    }
    let text = decode_utf16_lossy(units.as_slice());
    let ghost end = i as int;
    assert(units@ == name@.subrange(0, end));
    assert(end < name@.len() ==> name@[end] == 0);
    assert(0 <= end <= name@.len() && (end < name@.len() ==> name@[end] == 0) && (forall|k: int|
        0 <= k < end ==> name@[k] != 0) && text@ == utf16_lossy(name@.subrange(0, end)));
    text
}

impl MicrophoneCapture for WindowsMicrophoneCapture {
    open spec fn capture_ready(&self) -> bool {
        self.wf()
    }

    /// The newest queued frame; live frames come from outside the library.
    fn next_frame(&mut self) -> (result: Result<Option<CapturedAudioFrame>, AudioError>)
        ensures
            final(self).wf(),
            final(self).spec_source() == old(self).spec_source(),
            final(self).spec_config() == old(self).spec_config(),
            final(self).next_id() == old(self).next_id(),
            final(self).spec_queue().capacity() == old(self).spec_queue().capacity(),
            final(self).spec_queue().dropped() == old(self).spec_queue().dropped(),
            old(self).spec_queue().frames().len() == 0 ==> result == Ok::<Option<CapturedAudioFrame>, AudioError>(None),
            old(self).spec_queue().frames().len() > 0 ==> result == Ok::<Option<CapturedAudioFrame>, AudioError>(Some(old(self).spec_queue().frames().last()))
                && final(self).spec_queue().frames() == Seq::<CapturedAudioFrame>::empty(),
    {
        Ok(self.take_latest_frame())
    }
}

} // verus!
