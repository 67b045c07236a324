//! The synthetic Opus-like voice codec: a fixed header with the frame's
//! audio layout and capture time, optionally followed by the PCM samples
//! themselves, padded to the configured payload size.

use vstd::prelude::*;

use crate::protocol::codec::CodecId;
use crate::protocol::frame::EncodedFrame;
use crate::protocol::wire::{
    get_le16, get_le32, get_le64, le16, le32, le64, lemma_le16_round_trip, lemma_le32_round_trip,
    lemma_le64_round_trip, put_le16, put_le32, put_le64, read_le16, read_le32, read_le64,
};
use crate::text::{prefixed_decimal, push_decimal, push_text, spec_decimal};

verus! {

/// "TVO1": the start of every synthetic voice frame.
pub open spec fn opus_magic() -> Seq<u8> {
    seq![84u8, 86u8, 79u8, 49u8]
}

/// "TVP1": the start of an embedded PCM block.
pub open spec fn pcm_magic() -> Seq<u8> {
    seq![84u8, 86u8, 80u8, 49u8]
}

fn push_opus_magic(dst: &mut Vec<u8>)
    ensures
        final(dst)@ == old(dst)@ + opus_magic(),
{
    dst.push(84);
    dst.push(86);
    dst.push(79);
    dst.push(49);
    assert(dst@ =~= old(dst)@ + opus_magic());
}

fn push_pcm_magic(dst: &mut Vec<u8>)
    ensures
        final(dst)@ == old(dst)@ + pcm_magic(),
{
    dst.push(84);
    dst.push(86);
    dst.push(80);
    dst.push(49);
    assert(dst@ =~= old(dst)@ + pcm_magic());
}

/// Why audio could not be encoded, decoded or played.
#[derive(Debug, Clone, Copy, PartialEq, Eq, Structural)]
pub enum AudioError {
    ZeroSampleRate,
    ZeroChannelCount,
    SamplesNotDivisible { sample_len: usize, channel_count: u16 },
    NoSamples,
    SampleCountTooLarge,
    PcmSizeOverflow,
    PcmPayloadTooLarge,
    EmbeddedPcmLengthMismatch { expected: usize, actual: usize },
    EmbeddedPcmTruncated,
    DecodedSampleCountOverflow,
    DecodedSampleLengthMismatch { expected: usize, actual: usize },
    /// Microphone capture does not run on this platform.
    Unsupported,
}

/// The sentence that describes an audio error.
pub open spec fn audio_error_text(error: AudioError) -> Seq<char> {
    match error {
        AudioError::ZeroSampleRate => "audio sample rate must be non-zero"@,
        AudioError::ZeroChannelCount => "audio channel count must be non-zero"@,
        AudioError::SamplesNotDivisible { sample_len, channel_count } =>
            "audio sample buffer length "@ + spec_decimal(sample_len as nat)
                + " is not divisible by channel count "@ + spec_decimal(channel_count as nat),
        AudioError::NoSamples => "audio sample count must be non-zero"@,
        AudioError::SampleCountTooLarge => "audio sample count exceeds protocol field"@,
        AudioError::PcmSizeOverflow => "audio PCM payload size overflow"@,
        AudioError::PcmPayloadTooLarge => "audio PCM payload exceeds protocol length field"@,
        AudioError::EmbeddedPcmLengthMismatch { expected, actual } =>
            "embedded PCM length mismatch: expected "@ + spec_decimal(expected as nat) + ", got "@
                + spec_decimal(actual as nat),
        AudioError::EmbeddedPcmTruncated => "embedded PCM payload is truncated"@,
        AudioError::DecodedSampleCountOverflow => "decoded audio sample count overflow"@,
        AudioError::DecodedSampleLengthMismatch { expected, actual } =>
            "decoded audio sample buffer length mismatch: expected "@ + spec_decimal(expected as nat)
                + ", got "@ + spec_decimal(actual as nat),
        AudioError::Unsupported => "microphone capture is only available on Windows"@,
    }
}

impl AudioError {
    /// The error as a sentence.
    pub fn message(&self) -> (text: String)
        ensures
            text@ == audio_error_text(*self),
    {
        match *self {
            AudioError::ZeroSampleRate => "audio sample rate must be non-zero".to_owned(),
            AudioError::ZeroChannelCount => "audio channel count must be non-zero".to_owned(),
            AudioError::SamplesNotDivisible { sample_len, channel_count } => {
                let mut text = prefixed_decimal("audio sample buffer length ", sample_len as u64);
                push_text(&mut text, " is not divisible by channel count ");
                push_decimal(&mut text, channel_count as u64);
                text
            },
            AudioError::NoSamples => "audio sample count must be non-zero".to_owned(),
            AudioError::SampleCountTooLarge => "audio sample count exceeds protocol field".to_owned(),
            AudioError::PcmSizeOverflow => "audio PCM payload size overflow".to_owned(),
            AudioError::PcmPayloadTooLarge => "audio PCM payload exceeds protocol length field".to_owned(),
            AudioError::EmbeddedPcmLengthMismatch { expected, actual } => {
                let mut text = prefixed_decimal("embedded PCM length mismatch: expected ", expected as u64);
                push_text(&mut text, ", got ");
                push_decimal(&mut text, actual as u64);
                text
            },
            AudioError::EmbeddedPcmTruncated => "embedded PCM payload is truncated".to_owned(),
            AudioError::DecodedSampleCountOverflow => "decoded audio sample count overflow".to_owned(),
            AudioError::DecodedSampleLengthMismatch { expected, actual } => {
                let mut text = prefixed_decimal("decoded audio sample buffer length mismatch: expected ", expected as u64);
                push_text(&mut text, ", got ");
                push_decimal(&mut text, actual as u64);
                text
            },
            AudioError::Unsupported => "microphone capture is only available on Windows".to_owned(),
        }
    }
}

/// The filler byte at `position`: the low byte of `frame_id * multiplier +
/// position`.
pub open spec fn pad_byte(frame_id: u32, multiplier: u32, position: int) -> u8 {
    (((frame_id as int % 256) * multiplier + position % 256) % 256) as u8
}

/// `bytes` filled up to `target` bytes with filler.
pub open spec fn padded(bytes: Seq<u8>, target: int, frame_id: u32, multiplier: u32) -> Seq<u8> {
    if bytes.len() >= target {
        bytes
    } else {
        bytes + Seq::new(
            (target - bytes.len()) as nat,
            |j: int| pad_byte(frame_id, multiplier, bytes.len() + j),
        )
    }
}

fn pad_to(bytes: &mut Vec<u8>, target: usize, frame_id: u32, multiplier: u32)
    requires
        multiplier < 256,
    ensures
        final(bytes)@ == padded(old(bytes)@, target as int, frame_id, multiplier),
{
    let ghost start = old(bytes)@;
    while bytes.len() < target
        invariant
            multiplier < 256,
            start.len() <= bytes@.len(),
            bytes@.len() <= target || bytes@ == start,
            bytes@ == start + Seq::new(
                (bytes@.len() - start.len()) as nat,
                |j: int| pad_byte(frame_id, multiplier, start.len() + j),
            ),
        decreases target - bytes@.len(),
    {
        let position = bytes.len();
        let low: u64 = (frame_id % 256) as u64;
        let m: u64 = multiplier as u64;
        assert(low * m <= 255 * 255) by (nonlinear_arith)
            requires
                low < 256,
                m < 256,
        ;
        let byte = ((low * m + (position % 256) as u64) % 256) as u8;
        bytes.push(byte);
        assert(bytes@ =~= start + Seq::new(
            (bytes@.len() - start.len()) as nat,
            |j: int| pad_byte(frame_id, multiplier, start.len() + j),
        ));
    }
    assert(bytes@ =~= padded(start, target as int, frame_id, multiplier));
}

/// The fixed header: magic, frame id, sample rate, channel count, samples
/// per channel and capture time, little-endian.
pub open spec fn audio_header(
    frame_id: u32,
    sample_rate_hz: u32,
    channel_count: u16,
    sample_count: u16,
    capture_time_micros: u64,
) -> Seq<u8> {
    opus_magic() + le32(frame_id) + le32(sample_rate_hz) + le16(channel_count) + le16(sample_count)
        + le64(capture_time_micros)
}

fn push_audio_header(
    dst: &mut Vec<u8>,
    frame_id: u32,
    sample_rate_hz: u32,
    channel_count: u16,
    sample_count: u16,
    capture_time_micros: u64,
)
    ensures
        final(dst)@ == old(dst)@ + audio_header(
            frame_id,
            sample_rate_hz,
            channel_count,
            sample_count,
            capture_time_micros,
        ),
{
    push_opus_magic(dst);
    put_le32(dst, frame_id);
    put_le32(dst, sample_rate_hz);
    put_le16(dst, channel_count);
    put_le16(dst, sample_count);
    put_le64(dst, capture_time_micros);
    assert(dst@ =~= old(dst)@ + audio_header(
        frame_id,
        sample_rate_hz,
        channel_count,
        sample_count,
        capture_time_micros,
    ));
}

/// Little-endian bytes of each sample in turn.
pub open spec fn pcm_bytes(samples: Seq<i16>) -> Seq<u8>
    decreases samples.len(),
{
    if samples.len() == 0 {
        Seq::empty()
    } else {
        pcm_bytes(samples.drop_last()) + le16(samples.last() as u16)
    }
}

pub proof fn lemma_pcm_bytes_len(samples: Seq<i16>)
    ensures
        pcm_bytes(samples).len() == 2 * samples.len(),
    decreases samples.len(),
{
    if samples.len() > 0 {
        lemma_pcm_bytes_len(samples.drop_last());
    }
}

#[derive(Debug, Clone, Copy, PartialEq, Eq, Structural)]
pub struct SyntheticOpusEncoderConfig {
    pub sample_rate_hz: u32,
    pub channel_count: u16,
    pub frame_duration_ms: u16,
    pub bitrate_bps: u32,
    pub synthetic_payload_bytes: usize,
}

impl Default for SyntheticOpusEncoderConfig {
    /// 48 kHz mono, 20 ms frames at 32 kbit/s, 96-byte payloads.
    fn default() -> (config: SyntheticOpusEncoderConfig)
        ensures
            config == (SyntheticOpusEncoderConfig {
                sample_rate_hz: 48_000,
                channel_count: 1,
                frame_duration_ms: 20,
                bitrate_bps: 32_000,
                synthetic_payload_bytes: 96,
            }),
    {
        SyntheticOpusEncoderConfig {
            sample_rate_hz: 48_000,
            channel_count: 1,
            frame_duration_ms: 20,
            bitrate_bps: 32_000,
            synthetic_payload_bytes: 96,
        }
    }
}

/// Samples per channel in one frame: rate times duration in seconds, held
/// at the field's range.
pub open spec fn spec_sample_count(sample_rate_hz: u32, frame_duration_ms: u16) -> u16 {
    let product = if sample_rate_hz * frame_duration_ms > u32::MAX {
        u32::MAX as int
    } else {
        sample_rate_hz * frame_duration_ms
    };
    if product / 1000 > u16::MAX {
        u16::MAX
    } else {
        (product / 1000) as u16
    }
}

/// The media timestamp of a frame: its id times its samples, held at
/// `u32::MAX`.
pub open spec fn audio_media_timestamp(frame_id: u32, sample_count: u16) -> u64 {
    if frame_id * sample_count > u32::MAX {
        u32::MAX as u64
    } else {
        (frame_id * sample_count) as u64
    }
}

/// Voice frames are stamped on the sample clock: a frame's media timestamp
/// is its id times the samples in a frame, so consecutive frames' stamps
/// are one frame's samples apart (below `u32::MAX`); at 48 kHz and 20 ms a
/// frame holds 960 samples.
pub proof fn law_voice_timestamps_count_samples(
    first: FrameView,
    next: FrameView,
    stream_id: u32,
    frame_id: u32,
    capture_time_micros: u64,
    next_capture_time_micros: u64,
    sample_count: u16,
    bytes: Seq<u8>,
    next_bytes: Seq<u8>,
)
    requires
        voice_frame(first, stream_id, frame_id, capture_time_micros, sample_count, bytes),
        voice_frame(next, stream_id, (frame_id + 1) as u32, next_capture_time_micros, sample_count, next_bytes),
        frame_id < u32::MAX,
        (frame_id + 1) * sample_count <= u32::MAX,
    ensures
        first.media_timestamp == frame_id * sample_count,
        next.media_timestamp == first.media_timestamp + sample_count,
        spec_sample_count(48_000, 20) == 960,
{
    assert(((frame_id + 1) as u32) as int == frame_id + 1);
    assert((frame_id + 1) * sample_count == frame_id * sample_count + sample_count) by (nonlinear_arith);
    assert(frame_id * sample_count <= (frame_id + 1) * sample_count) by (nonlinear_arith);
}

fn media_timestamp(frame_id: u32, sample_count: u16) -> (timestamp: u64)
    ensures
        timestamp == audio_media_timestamp(frame_id, sample_count),
{
    assert((frame_id as int) * (sample_count as int) <= u32::MAX * u16::MAX) by (nonlinear_arith);
    let product = frame_id as u64 * sample_count as u64;
    if product > u32::MAX as u64 {
        u32::MAX as u64
    } else {
        product
    }
}

/// Payload bytes per frame for a bitrate: bits per second over eight over
/// frames per second, at least 16.
pub open spec fn spec_synthetic_audio_payload_bytes(bitrate_bps: u32, frames_per_second: u16) -> usize {
    let fps: int = if frames_per_second == 0 { 1 } else { frames_per_second as int };
    let bytes: int = (bitrate_bps as int / 8) / fps;
    if bytes < 16 {
        16
    } else {
        bytes as usize
    }
}

pub fn synthetic_audio_payload_bytes(bitrate_bps: u32, frames_per_second: u16) -> (bytes: usize)
    ensures
        bytes == spec_synthetic_audio_payload_bytes(bitrate_bps, frames_per_second),
{
    let fps: u32 = if frames_per_second == 0 { 1 } else { frames_per_second as u32 };
    let bytes = (bitrate_bps / 8) / fps;
    if bytes < 16 {
        16
    } else {
        bytes as usize
    }
}

/// Whole milliseconds per frame at a frame rate, at least one.
pub open spec fn spec_frame_duration_ms(frames_per_second: u16) -> u16 {
    let fps: int = if frames_per_second == 0 { 1 } else { frames_per_second as int };
    if 1000int / fps < 1 {
        1
    } else {
        (1000int / fps) as u16
    }
}

pub fn frame_duration_ms(frames_per_second: u16) -> (duration: u16)
    ensures
        duration == spec_frame_duration_ms(frames_per_second),
{
    let fps: u16 = if frames_per_second == 0 { 1 } else { frames_per_second };
    let duration = 1000 / fps;
    if duration < 1 {
        1
    } else {
        duration
    }
}

#[derive(Debug)]
pub struct SyntheticOpusEncoder {
    pub config: SyntheticOpusEncoderConfig,
}

impl Default for SyntheticOpusEncoder {
    fn default() -> (encoder: SyntheticOpusEncoder)
        ensures
            encoder.config == (SyntheticOpusEncoderConfig {
                sample_rate_hz: 48_000,
                channel_count: 1,
                frame_duration_ms: 20,
                bitrate_bps: 32_000,
                synthetic_payload_bytes: 96,
            }),
    {
        SyntheticOpusEncoder { config: SyntheticOpusEncoderConfig::default() }
    }
}

/// The encoded frame a voice payload travels in.
pub open spec fn voice_frame(
    frame: FrameView,
    stream_id: u32,
    frame_id: u32,
    capture_time_micros: u64,
    sample_count: u16,
    bytes: Seq<u8>,
) -> bool {
    &&& frame.room_stream_id == stream_id
    &&& frame.frame_id == frame_id
    &&& frame.media_timestamp == audio_media_timestamp(frame_id, sample_count)
    &&& frame.sender_capture_time_micros == capture_time_micros
    &&& frame.sender_encode_done_time_micros == 0
    &&& frame.sender_send_time_micros == 0
    &&& frame.server_receive_time_micros == 0
    &&& frame.server_send_time_micros == 0
    &&& frame.codec == CodecId::Opus
    &&& !frame.is_keyframe
    &&& frame.bytes == bytes
}

/// The PCM bytes `encode_pcm_i16` embeds, or why it refuses the samples.
pub open spec fn pcm_layout_error(sample_rate_hz: u32, channel_count: u16, samples: Seq<i16>) -> Option<AudioError> {
    if sample_rate_hz == 0 {
        Some(AudioError::ZeroSampleRate)
    } else if channel_count == 0 {
        Some(AudioError::ZeroChannelCount)
    } else if (samples.len() as int) % (channel_count as int) != 0 {
        Some(
            AudioError::SamplesNotDivisible {
                sample_len: samples.len() as usize,
                channel_count,
            },
        )
    } else if (samples.len() as int) / (channel_count as int) == 0 {
        Some(AudioError::NoSamples)
    } else if (samples.len() as int) / (channel_count as int) > u16::MAX {
        Some(AudioError::SampleCountTooLarge)
    } else if samples.len() * 2 > usize::MAX {
        Some(AudioError::PcmSizeOverflow)
    } else if samples.len() * 2 > u32::MAX {
        Some(AudioError::PcmPayloadTooLarge)
    } else {
        None
    }
}

use crate::protocol::frame::FrameView;

impl SyntheticOpusEncoder {
    pub open spec fn spec_frames_per_second(self) -> u16 {
        let d: int = if self.config.frame_duration_ms == 0 { 1 } else { self.config.frame_duration_ms as int };
        if 1000int / d < 1 {
            1
        } else {
            (1000int / d) as u16
        }
    }

    /// A synthetic voice frame: the header alone, padded.
    pub fn encode(&self, frame_id: u32, capture_time_micros: u64, stream_id: u32) -> (result:
        Result<EncodedFrame, AudioError>)
        ensures
            result matches Ok(frame) && voice_frame(
                frame@,
                stream_id,
                frame_id,
                capture_time_micros,
                spec_sample_count(self.config.sample_rate_hz, self.config.frame_duration_ms),
                padded(
                    audio_header(
                        frame_id,
                        self.config.sample_rate_hz,
                        self.config.channel_count,
                        spec_sample_count(self.config.sample_rate_hz, self.config.frame_duration_ms),
                        capture_time_micros,
                    ),
                    self.config.synthetic_payload_bytes as int,
                    frame_id,
                    31,
                ),
            ),
    {
        let sample_count = self.sample_count_per_frame();
        let mut bytes: Vec<u8> = Vec::new();
        push_audio_header(
            &mut bytes,
            frame_id,
            self.config.sample_rate_hz,
            self.config.channel_count,
            sample_count,
            capture_time_micros,
        );
        assert(bytes@ =~= audio_header(
            frame_id,
            self.config.sample_rate_hz,
            self.config.channel_count,
            sample_count,
            capture_time_micros,
        ));
        pad_to(&mut bytes, self.config.synthetic_payload_bytes, frame_id, 31);
        Ok(
            EncodedFrame {
                room_stream_id: stream_id,
                frame_id,
                media_timestamp: media_timestamp(frame_id, sample_count),
                sender_capture_time_micros: capture_time_micros,
                sender_encode_done_time_micros: 0,
                sender_send_time_micros: 0,
                server_receive_time_micros: 0,
                server_send_time_micros: 0,
                codec: CodecId::Opus,
                is_keyframe: false,
                bytes,
            },
        )
    }

    /// A voice frame carrying the PCM samples: the header, then "TVP1", the
    /// PCM byte count and the samples little-endian, padded. The samples
    /// must come whole frames of `channel_count` at a time.
    pub fn encode_pcm_i16(
        &self,
        frame_id: u32,
        capture_time_micros: u64,
        sample_rate_hz: u32,
        channel_count: u16,
        samples: &[i16],
        stream_id: u32,
    ) -> (result: Result<EncodedFrame, AudioError>)
        ensures
            match pcm_layout_error(sample_rate_hz, channel_count, samples@) {
                Some(e) => result == Err::<EncodedFrame, AudioError>(e),
                None => {
                    let count = ((samples@.len() as int) / (channel_count as int)) as u16;
                    result matches Ok(frame) && voice_frame(
                        frame@,
                        stream_id,
                        frame_id,
                        capture_time_micros,
                        count,
                        padded(
                            audio_header(frame_id, sample_rate_hz, channel_count, count, capture_time_micros)
                                + pcm_magic() + le32((samples@.len() * 2) as u32) + pcm_bytes(samples@),
                            self.config.synthetic_payload_bytes as int,
                            frame_id,
                            17,
                        ),
                    )
                },
            },
    {
        if sample_rate_hz == 0 {
            return Err(AudioError::ZeroSampleRate);
        }
        if channel_count == 0 {
            return Err(AudioError::ZeroChannelCount);
        }
        if samples.len() % (channel_count as usize) != 0 {
            return Err(
                AudioError::SamplesNotDivisible { sample_len: samples.len(), channel_count },
            );
        }
        let per_channel = samples.len() / (channel_count as usize);
        if per_channel == 0 {
            return Err(AudioError::NoSamples);
        }
        if per_channel > u16::MAX as usize {
            return Err(AudioError::SampleCountTooLarge);
        }
        let sample_count = per_channel as u16;
        if samples.len() > usize::MAX / 2 {
            return Err(AudioError::PcmSizeOverflow);
        }
        let pcm_len = samples.len() * 2;
        if pcm_len > u32::MAX as usize {
            return Err(AudioError::PcmPayloadTooLarge);
        }
        let mut bytes: Vec<u8> = Vec::new();
        push_audio_header(
            &mut bytes,
            frame_id,
            sample_rate_hz,
            channel_count,
            sample_count,
            capture_time_micros,
        );
        push_pcm_magic(&mut bytes);
        put_le32(&mut bytes, pcm_len as u32);
        let ghost prefix = bytes@;
        let mut i: usize = 0;
        while i < samples.len()
            invariant
                0 <= i <= samples@.len(),
                bytes@ == prefix + pcm_bytes(samples@.subrange(0, i as int)),
            decreases samples@.len() - i,
        {
            put_le16(&mut bytes, samples[i] as u16);
            proof {
                let s = samples@.subrange(0, i + 1);
                assert(s.drop_last() =~= samples@.subrange(0, i as int));
                assert(s.last() == samples@[i as int]);
                assert(bytes@ =~= prefix + pcm_bytes(s));
            }
            i += 1;
        }
        proof {
            assert(samples@.subrange(0, i as int) =~= samples@);
            assert(bytes@ =~= audio_header(frame_id, sample_rate_hz, channel_count, sample_count, capture_time_micros)
                + pcm_magic() + le32(pcm_len as u32) + pcm_bytes(samples@));
        }
        pad_to(&mut bytes, self.config.synthetic_payload_bytes, frame_id, 17);
        Ok(
            EncodedFrame {
                room_stream_id: stream_id,
                frame_id,
                media_timestamp: media_timestamp(frame_id, sample_count),
                sender_capture_time_micros: capture_time_micros,
                sender_encode_done_time_micros: 0,
                sender_send_time_micros: 0,
                server_receive_time_micros: 0,
                server_send_time_micros: 0,
                codec: CodecId::Opus,
                is_keyframe: false,
                bytes,
            },
        )
    }

    /// Sets the bitrate and sizes payloads for it at the current frame
    /// rate.
    pub fn update_bitrate(&mut self, bitrate_bps: u32)
        ensures
            final(self).config == (SyntheticOpusEncoderConfig {
                bitrate_bps,
                synthetic_payload_bytes: spec_synthetic_audio_payload_bytes(
                    bitrate_bps,
                    old(self).spec_frames_per_second(),
                ),
                ..old(self).config
            }),
    {
        self.config.bitrate_bps = bitrate_bps;
        let fps = self.frames_per_second();
        self.config.synthetic_payload_bytes = synthetic_audio_payload_bytes(bitrate_bps, fps);
    }

    /// Sets the frame duration for a frame rate and resizes payloads.
    pub fn set_frames_per_second(&mut self, frames_per_second: u16)
        ensures
            final(self).config.frame_duration_ms == spec_frame_duration_ms(frames_per_second),
            final(self).config.synthetic_payload_bytes == spec_synthetic_audio_payload_bytes(
                old(self).config.bitrate_bps,
                final(self).spec_frames_per_second(),
            ),
            final(self).config.sample_rate_hz == old(self).config.sample_rate_hz,
            final(self).config.channel_count == old(self).config.channel_count,
            final(self).config.bitrate_bps == old(self).config.bitrate_bps,
    {
        self.config.frame_duration_ms = frame_duration_ms(frames_per_second);
        let fps = self.frames_per_second();
        self.config.synthetic_payload_bytes = synthetic_audio_payload_bytes(
            self.config.bitrate_bps,
            fps,
        );
    }

    pub fn frames_per_second(&self) -> (fps: u16)
        ensures
            fps == self.spec_frames_per_second(),
    {
        let d: u16 = if self.config.frame_duration_ms == 0 { 1 } else { self.config.frame_duration_ms };
        let fps = 1000 / d;
        if fps < 1 {
            1
        } else {
            fps
        }
    }

    fn sample_count_per_frame(&self) -> (count: u16)
        ensures
            count == spec_sample_count(self.config.sample_rate_hz, self.config.frame_duration_ms),
    {
        assert((self.config.sample_rate_hz as int) * (self.config.frame_duration_ms as int)
            <= u32::MAX * u16::MAX) by (nonlinear_arith);
        let product = self.config.sample_rate_hz as u64 * self.config.frame_duration_ms as u64;
        let saturated: u32 = if product > u32::MAX as u64 {
            u32::MAX
        } else {
            product as u32
        };
        let per = saturated / 1000;
        if per > u16::MAX as u32 {
            u16::MAX
        } else {
            per as u16
        }
    }
}

/// A decoded voice frame as values.
pub struct AudioFrameView {
    pub frame_id: u32,
    pub sample_rate_hz: u32,
    pub channel_count: u16,
    pub sample_count: u16,
    pub capture_time_micros: u64,
    pub pcm: Seq<i16>,
}

#[derive(Debug, Clone, PartialEq, Eq)]
pub struct DecodedAudioFrame {
    pub frame_id: u32,
    pub sample_rate_hz: u32,
    pub channel_count: u16,
    pub sample_count: u16,
    pub capture_time_micros: u64,
    pub pcm: Vec<i16>,
}

impl View for DecodedAudioFrame {
    type V = AudioFrameView;

    open spec fn view(&self) -> AudioFrameView {
        AudioFrameView {
            frame_id: self.frame_id,
            sample_rate_hz: self.sample_rate_hz,
            channel_count: self.channel_count,
            sample_count: self.sample_count,
            capture_time_micros: self.capture_time_micros,
            pcm: self.pcm@,
        }
    }
}

/// `x` taken modulo 2^32 and read as a 32-bit two's complement value.
#[verifier::opaque]
pub open spec fn as_signed32(x: int) -> int {
    let w = x % 0x1_0000_0000;
    if w < 0x8000_0000 {
        w
    } else {
        w - 0x1_0000_0000
    }
}

/// The `k`-th sample of the stand-in waveform of a frame without PCM:
/// (97 * frame + 13 * k) in wrapping 32-bit arithmetic, its remainder by
/// 1024 with the sign kept, less 512.
pub open spec fn spec_synthetic_sample(frame_id: u32, k: int) -> i16 {
    let phase = as_signed32(as_signed32(frame_id as int) * 97 + as_signed32(k) * 13);
    let r = if phase >= 0 {
        phase % 1024
    } else {
        -((-phase) % 1024)
    };
    (r - 512) as i16
}

pub open spec fn spec_synthetic_pcm(frame_id: u32, sample_count: u16, channel_count: u16) -> Seq<i16> {
    Seq::new((sample_count * channel_count) as nat, |k: int| spec_synthetic_sample(frame_id, k))
}

/// `x` in wrapping 32-bit two's complement arithmetic.
fn wrap_signed32(x: i64) -> (w: i64)
    requires
        -0x1_0000_0000_0000 <= x <= 0x1_0000_0000_0000,
    ensures
        w == as_signed32(x as int),
{
    reveal(as_signed32);
    let m: i64 = 0x1_0000_0000;
    let r: i64 = if x >= 0 {
        x % m
    } else {
        let back = (-x) % m;
        if back == 0 {
            0
        } else {
            m - back
        }
    };
    proof {
        let xi = x as int;
        let mi = 0x1_0000_0000int;
        if x < 0 {
            let b = (-xi) % mi;
            assert(r == if b == 0 { 0 } else { mi - b });
            assert(r == xi % mi) by (nonlinear_arith)
                requires
                    xi < 0,
                    mi == 0x1_0000_0000,
                    b == (-xi) % mi,
                    r == if b == 0 { 0 } else { mi - b },
            ;
        }
    }
    if r < 0x8000_0000 {
        r
    } else {
        r - m
    }
}

fn synthetic_pcm(frame_id: u32, sample_count: u16, channel_count: u16) -> (pcm: Vec<i16>)
    ensures
        pcm@ == spec_synthetic_pcm(frame_id, sample_count, channel_count),
{
    reveal(as_signed32);
    assert((sample_count as int) * (channel_count as int) <= 65535 * 65535) by (nonlinear_arith);
    let total: u64 = sample_count as u64 * channel_count as u64;
    let f: i64 = if frame_id < 0x8000_0000 {
        frame_id as i64
    } else {
        frame_id as i64 - 0x1_0000_0000
    };
    let mut pcm: Vec<i16> = Vec::new();
    let mut k: u64 = 0;
    while k < total
        invariant
            0 <= k <= total,
            total == sample_count * channel_count,
            total <= 65535 * 65535,
            f == as_signed32(frame_id as int),
            pcm@ =~= Seq::new(k as nat, |j: int| spec_synthetic_sample(frame_id, j)),
        decreases total - k,
    {
        proof {
            reveal(as_signed32);
        }
        let kk: i64 = if k < 0x8000_0000 {
            k as i64
        } else {
            k as i64 - 0x1_0000_0000
        };
        let phase: i64 = wrap_signed32(f * 97 + kk * 13);
        let r: i64 = if phase >= 0 {
            phase % 1024
        } else {
            -((-phase) % 1024)
        };
        pcm.push((r - 512) as i16);
        k += 1;
        assert(pcm@ =~= Seq::new(k as nat, |j: int| spec_synthetic_sample(frame_id, j)));
    }
    pcm
}

/// What the PCM block after a frame header holds: nothing when the bytes
/// do not start with "TVP1", the samples when its length is right and all
/// of them are there, otherwise why not.
pub open spec fn spec_embedded_pcm(payload: Seq<u8>, sample_count: u16, channel_count: u16) -> Result<Option<Seq<i16>>, AudioError> {
    if payload.len() < 8 || payload.subrange(0, 4) != pcm_magic() {
        Ok(None)
    } else {
        let length = read_le32(payload, 4);
        let expected = sample_count * channel_count * 2;
        if length != expected {
            Err(
                AudioError::EmbeddedPcmLengthMismatch {
                    expected: expected as usize,
                    actual: length as usize,
                },
            )
        } else if payload.len() < 8 + length {
            Err(AudioError::EmbeddedPcmTruncated)
        } else {
            Ok(
                Some(
                    Seq::new(
                        (sample_count * channel_count) as nat,
                        |i: int| read_le16(payload, 8 + 2 * i) as i16,
                    ),
                ),
            )
        }
    }
}

/// What decoding a voice payload gives: nothing for bytes that are not a
/// synthetic voice frame or that describe no audio; otherwise the frame,
/// with its embedded PCM or else the stand-in waveform.
pub open spec fn spec_decode_audio(bytes: Seq<u8>) -> Result<Option<AudioFrameView>, AudioError> {
    if bytes.len() < 24 || bytes.subrange(0, 4) != opus_magic() {
        Ok(None)
    } else {
        let frame_id = read_le32(bytes, 4);
        let sample_rate_hz = read_le32(bytes, 8);
        let channel_count = read_le16(bytes, 12);
        let sample_count = read_le16(bytes, 14);
        let capture_time_micros = read_le64(bytes, 16);
        if sample_rate_hz == 0 || channel_count == 0 || sample_count == 0 {
            Ok(None)
        } else {
            match spec_embedded_pcm(bytes.subrange(24, bytes.len() as int), sample_count, channel_count) {
                Err(e) => Err(e),
                Ok(embedded) => Ok(
                    Some(
                        AudioFrameView {
                            frame_id,
                            sample_rate_hz,
                            channel_count,
                            sample_count,
                            capture_time_micros,
                            pcm: match embedded {
                                Some(pcm) => pcm,
                                None => spec_synthetic_pcm(frame_id, sample_count, channel_count),
                            },
                        },
                    ),
                ),
            }
        }
    }
}

fn embedded_pcm(encoded: &[u8], sample_count: u16, channel_count: u16) -> (result: Result<Option<Vec<i16>>, AudioError>)
    requires
        encoded@.len() >= 24,
    ensures
        match spec_embedded_pcm(encoded@.subrange(24, encoded@.len() as int), sample_count, channel_count) {
            Ok(Some(pcm)) => result matches Ok(Some(v)) && v@ == pcm,
            Ok(None) => result matches Ok(None),
            Err(e) => result == Err::<Option<Vec<i16>>, AudioError>(e),
        },
{
    let ghost payload = encoded@.subrange(24, encoded@.len() as int);
    if encoded.len() < 32 {
        return Ok(None);
    }
    if !(encoded[24] == 84 && encoded[25] == 86 && encoded[26] == 80 && encoded[27] == 49) {
        proof {
            if payload.subrange(0, 4) == pcm_magic() {
                assert(payload.subrange(0, 4)[0] == 84u8);
                assert(payload.subrange(0, 4)[1] == 86u8);
                assert(payload.subrange(0, 4)[2] == 80u8);
                assert(payload.subrange(0, 4)[3] == 49u8);
            }
        }
        return Ok(None);
    }
    assert(payload.subrange(0, 4) =~= pcm_magic());
    let length = get_le32(encoded, 28);
    assert(length == read_le32(payload, 4));
    reveal(as_signed32);
    assert((sample_count as int) * (channel_count as int) <= 65535 * 65535) by (nonlinear_arith);
    let total: u64 = sample_count as u64 * channel_count as u64;
    let expected: u64 = total * 2;
    if length as u64 != expected {
        return Err(
            AudioError::EmbeddedPcmLengthMismatch { expected: expected as usize, actual: length as usize },
        );
    }
    if (encoded.len() as u64) < 32 + length as u64 {
        return Err(AudioError::EmbeddedPcmTruncated);
    }
    let mut pcm: Vec<i16> = Vec::new();
    let mut i: u64 = 0;
    while i < total
        invariant
            0 <= i <= total,
            total == sample_count * channel_count,
            total <= 65535 * 65535,
            32 + 2 * total <= encoded.len(),
            payload == encoded@.subrange(24, encoded@.len() as int),
            pcm@ =~= Seq::new(i as nat, |j: int| read_le16(payload, 8 + 2 * j) as i16),
        decreases total - i,
    {
        assert(32 + 2 * i + 2 <= encoded.len());
        let pos: usize = (32 + 2 * i) as usize;
        assert(pos == 32 + 2 * i);
        let x = get_le16(encoded, pos);
        assert(payload[8 + 2 * i] == encoded@[32 + 2 * i]);
        assert(payload[8 + 2 * i + 1] == encoded@[32 + 2 * i + 1]);
        assert(x == read_le16(payload, 8 + 2 * i));
        pcm.push(x as i16);
        i += 1;
        assert(pcm@ =~= Seq::new(i as nat, |j: int| read_le16(payload, 8 + 2 * j) as i16));
    }
    Ok(Some(pcm))
}

#[derive(Debug, Default)]
pub struct SyntheticOpusDecoder;

impl SyntheticOpusDecoder {
    pub fn decode(&mut self, encoded: &[u8]) -> (result: Result<Option<DecodedAudioFrame>, AudioError>)
        ensures
            match spec_decode_audio(encoded@) {
                Ok(Some(frame)) => result matches Ok(Some(f)) && f@ == frame,
                Ok(None) => result matches Ok(None),
                Err(e) => result == Err::<Option<DecodedAudioFrame>, AudioError>(e),
            },
    {
        if encoded.len() < 24 {
            return Ok(None);
        }
        if !(encoded[0] == 84 && encoded[1] == 86 && encoded[2] == 79 && encoded[3] == 49) {
            proof {
                if encoded@.subrange(0, 4) == opus_magic() {
                    assert(encoded@.subrange(0, 4)[0] == 84u8);
                    assert(encoded@.subrange(0, 4)[1] == 86u8);
                    assert(encoded@.subrange(0, 4)[2] == 79u8);
                    assert(encoded@.subrange(0, 4)[3] == 49u8);
                }
            }
            return Ok(None);
        }
        assert(encoded@.subrange(0, 4) =~= opus_magic());
        let frame_id = get_le32(encoded, 4);
        let sample_rate_hz = get_le32(encoded, 8);
        let channel_count = get_le16(encoded, 12);
        let sample_count = get_le16(encoded, 14);
        let capture_time_micros = get_le64(encoded, 16);
        if sample_rate_hz == 0 || channel_count == 0 || sample_count == 0 {
            return Ok(None);
        }
        let pcm = match embedded_pcm(encoded, sample_count, channel_count) {
            Ok(Some(pcm)) => pcm,
            Ok(None) => synthetic_pcm(frame_id, sample_count, channel_count),
            Err(e) => {
                return Err(e);
            },
        };
        Ok(
            Some(
                DecodedAudioFrame {
                    frame_id,
                    sample_rate_hz,
                    channel_count,
                    sample_count,
                    capture_time_micros,
                    pcm,
                },
            ),
        )
    }
}

/// What playback recorded of a frame.
#[derive(Debug, Clone, Copy, PartialEq, Eq, Structural)]
pub struct PlayedAudioFrame {
    pub frame_id: u32,
    pub sample_rate_hz: u32,
    pub channel_count: u16,
    pub sample_count: u16,
}

/// A playback sink that keeps only the latest frame it played.
#[derive(Debug)]
pub struct LatestAudioPlayback {
    pub played_frames: u64,
    pub latest: Option<PlayedAudioFrame>,
}

impl Default for LatestAudioPlayback {
    fn default() -> (playback: LatestAudioPlayback)
        ensures
            playback.played_frames == 0,
            playback.latest is None,
    {
        LatestAudioPlayback { played_frames: 0, latest: None }
    }
}

impl LatestAudioPlayback {
    /// Plays a frame whose buffer holds exactly `sample_count` samples per
    /// channel; the product must fit 16 bits.
    pub fn play(&mut self, frame: DecodedAudioFrame) -> (result: Result<(), AudioError>)
        ensures
            frame.sample_count * frame.channel_count > u16::MAX ==> result == Err::<(), AudioError>(
                AudioError::DecodedSampleCountOverflow,
            ) && final(self).played_frames == old(self).played_frames && final(self).latest == old(self).latest,
            frame.sample_count * frame.channel_count <= u16::MAX && frame.pcm@.len() != frame.sample_count
                * frame.channel_count ==> result == Err::<(), AudioError>(
                AudioError::DecodedSampleLengthMismatch {
                    expected: (frame.sample_count * frame.channel_count) as usize,
                    actual: frame.pcm@.len() as usize,
                },
            ) && final(self).played_frames == old(self).played_frames && final(self).latest == old(self).latest,
            frame.sample_count * frame.channel_count <= u16::MAX && frame.pcm@.len() == frame.sample_count
                * frame.channel_count ==> {
                &&& result == Ok::<(), AudioError>(())
                &&& final(self).played_frames == if old(self).played_frames == u64::MAX {
                    u64::MAX
                } else {
                    (old(self).played_frames + 1) as u64
                }
                &&& final(self).latest == Some(
                    PlayedAudioFrame {
                        frame_id: frame.frame_id,
                        sample_rate_hz: frame.sample_rate_hz,
                        channel_count: frame.channel_count,
                        sample_count: frame.sample_count,
                    },
                )
            },
    {
        assert((frame.sample_count as int) * (frame.channel_count as int) <= 65535 * 65535) by (nonlinear_arith);
        let product: u32 = frame.sample_count as u32 * frame.channel_count as u32;
        if product > u16::MAX as u32 {
            return Err(AudioError::DecodedSampleCountOverflow);
        }
        let expected = product as usize;
        if frame.pcm.len() != expected {
            return Err(
                AudioError::DecodedSampleLengthMismatch { expected, actual: frame.pcm.len() },
            );
        }
        self.played_frames = self.played_frames.saturating_add(1);
        self.latest = Some(
            PlayedAudioFrame {
                frame_id: frame.frame_id,
                sample_rate_hz: frame.sample_rate_hz,
                channel_count: frame.channel_count,
                sample_count: frame.sample_count,
            },
        );
        Ok(())
    }

    pub fn played_frames(&self) -> (played: u64)
        ensures
            played == self.played_frames,
    {
        self.played_frames
    }

    pub fn latest(&self) -> (latest: Option<&PlayedAudioFrame>)
        ensures
            match latest {
                Some(p) => self.latest == Some(*p),
                None => self.latest is None,
            },
    {
        match &self.latest {
            Some(p) => Some(p),
            None => None,
        }
    }
}

/// The two bytes of the `i`-th sample in the PCM block.
pub proof fn lemma_pcm_bytes_at(samples: Seq<i16>, i: int)
    requires
        0 <= i < samples.len(),
    ensures
        pcm_bytes(samples).len() == 2 * samples.len(),
        pcm_bytes(samples).subrange(2 * i, 2 * i + 2) == le16(samples[i] as u16),
    decreases samples.len(),
{
    lemma_pcm_bytes_len(samples);
    let prefix = samples.drop_last();
    lemma_pcm_bytes_len(prefix);
    if i < samples.len() - 1 {
        lemma_pcm_bytes_at(prefix, i);
        assert(pcm_bytes(samples).subrange(2 * i, 2 * i + 2) =~= pcm_bytes(prefix).subrange(2 * i, 2 * i + 2));
    } else {
        assert(pcm_bytes(samples).subrange(2 * i, 2 * i + 2) =~= le16(samples.last() as u16));
    }
}

/// A voice frame with embedded PCM decodes to the header values and the
/// very samples it was made from, whatever filler follows.
#[verifier::rlimit(50)]
#[verifier::spinoff_prover]
pub proof fn lemma_pcm_frame_round_trip(
    frame_id: u32,
    sample_rate_hz: u32,
    channel_count: u16,
    capture_time_micros: u64,
    samples: Seq<i16>,
    target: int,
)
    requires
        pcm_layout_error(sample_rate_hz, channel_count, samples) is None,
    ensures
        ({
            let count = ((samples.len() as int) / (channel_count as int)) as u16;
            spec_decode_audio(
                padded(
                    audio_header(frame_id, sample_rate_hz, channel_count, count, capture_time_micros)
                        + pcm_magic() + le32((samples.len() * 2) as u32) + pcm_bytes(samples),
                    target,
                    frame_id,
                    17,
                ),
            ) == Ok::<Option<AudioFrameView>, AudioError>(
                Some(
                    AudioFrameView {
                        frame_id,
                        sample_rate_hz,
                        channel_count,
                        sample_count: count,
                        capture_time_micros,
                        pcm: samples,
                    },
                ),
            )
        }),
{
    let n = samples.len() as int;
    let count = (n / (channel_count as int)) as u16;
    assert(n == (count as int) * (channel_count as int)) by (nonlinear_arith)
        requires
            n % (channel_count as int) == 0,
            channel_count > 0,
            count == n / (channel_count as int),
    ;
    let length = (n * 2) as u32;
    let header = audio_header(frame_id, sample_rate_hz, channel_count, count, capture_time_micros);
    let body = header + pcm_magic() + le32(length) + pcm_bytes(samples);
    lemma_pcm_bytes_len(samples);
    let bytes = padded(body, target, frame_id, 17);
    assert(bytes.subrange(0, body.len() as int) =~= body);
    assert forall|k: int| 0 <= k < body.len() implies #[trigger] bytes[k] == body[k] by {
        assert(bytes.subrange(0, body.len() as int)[k] == body[k]);
    }
    assert(bytes.subrange(0, 4) =~= opus_magic());
    assert(bytes.subrange(4, 8) =~= le32(frame_id));
    assert(bytes.subrange(8, 12) =~= le32(sample_rate_hz));
    assert(bytes.subrange(12, 14) =~= le16(channel_count));
    assert(bytes.subrange(14, 16) =~= le16(count));
    assert(bytes.subrange(16, 24) =~= le64(capture_time_micros));
    lemma_le32_round_trip(frame_id);
    lemma_le32_round_trip(sample_rate_hz);
    lemma_le16_round_trip(channel_count);
    lemma_le16_round_trip(count);
    lemma_le64_round_trip(capture_time_micros);
    let payload = bytes.subrange(24, bytes.len() as int);
    assert forall|k: int| 0 <= k < body.len() - 24 implies #[trigger] payload[k] == body[24 + k] by {}
    assert(payload.subrange(0, 4) =~= pcm_magic());
    assert(payload.subrange(4, 8) =~= le32(length));
    lemma_le32_round_trip(length);
    assert(read_le32(payload, 4) == length);
    let decoded = Seq::new((count * channel_count) as nat, |i: int| read_le16(payload, 8 + 2 * i) as i16);
    assert forall|i: int| 0 <= i < n implies #[trigger] decoded[i] == samples[i] by {
        lemma_pcm_bytes_at(samples, i);
        let x = samples[i] as u16;
        assert(payload.subrange(8 + 2 * i, 8 + 2 * i + 2) =~= pcm_bytes(samples).subrange(2 * i, 2 * i + 2));
        lemma_le16_round_trip(x);
        assert(read_le16(payload, 8 + 2 * i) == x);
        let v = samples[i];
        assert(((v as u16) as i16) == v) by (bit_vector);
    }
    assert(decoded =~= samples);
}

} // verus!
