//! Client-side statistics: what a viewer received, decoded and rendered, and
//! how long each broadcaster stage took.

use vstd::prelude::*;

use crate::protocol::control::{RoomId, StreamId, ViewerStatsReport};
use crate::protocol::packet::MediaPacket;
use crate::samples::{sample_recorded, spec_percentile, LatencySamples};

verus! {

/// Queue depths along the client's send pipeline.
#[derive(Debug, Clone, Copy, PartialEq, Eq, Default, Structural)]
pub struct ClientPipelineStats {
    pub capture_queue_len: u8,
    pub encode_queue_len: u8,
    pub network_queue_len: u16,
}

impl ClientPipelineStats {
    /// More than one frame waiting to be captured or encoded means latency
    /// is building up.
    pub fn is_accumulating_latency(self) -> (accumulating: bool)
        ensures
            accumulating == (self.capture_queue_len > 1 || self.encode_queue_len > 1),
    {
        self.capture_queue_len > 1 || self.encode_queue_len > 1
    }
}

/// Whole milliseconds, held at `u16::MAX`.
pub open spec fn spec_duration_to_millis(millis: u128) -> u16 {
    if millis > u16::MAX as u128 {
        u16::MAX
    } else {
        millis as u16
    }
}

pub fn duration_to_millis(millis: u128) -> (ms: u16)
    ensures
        ms == spec_duration_to_millis(millis),
{
    if millis > u16::MAX as u128 {
        u16::MAX
    } else {
        millis as u16
    }
}

#[derive(Debug, Clone, Copy, PartialEq, Eq, Default, Structural)]
pub struct BroadcasterTimingSnapshot {
    pub capture_ms_p50: u16,
    pub capture_ms_p95: u16,
    pub encode_ms_p50: u16,
    pub encode_ms_p95: u16,
    pub packetize_ms_p50: u16,
    pub packetize_ms_p95: u16,
    pub send_ms_p50: u16,
    pub send_ms_p95: u16,
}

/// Recent durations of the broadcaster's capture, encode, packetize and
/// send stages.
#[derive(Debug, Clone, Copy, PartialEq, Eq)]
pub struct ClientBroadcasterStats {
    capture_samples_ms: LatencySamples,
    encode_samples_ms: LatencySamples,
    packetize_samples_ms: LatencySamples,
    send_samples_ms: LatencySamples,
}

impl ClientBroadcasterStats {
    pub closed spec fn capture(self) -> LatencySamples {
        self.capture_samples_ms
    }

    pub closed spec fn encode(self) -> LatencySamples {
        self.encode_samples_ms
    }

    pub closed spec fn packetize(self) -> LatencySamples {
        self.packetize_samples_ms
    }

    pub closed spec fn send(self) -> LatencySamples {
        self.send_samples_ms
    }

    pub open spec fn wf(self) -> bool {
        self.capture().wf() && self.encode().wf() && self.packetize().wf() && self.send().wf()
    }

    pub fn new() -> (stats: ClientBroadcasterStats)
        ensures
            stats.wf(),
            stats.capture().samples() == Seq::<u16>::empty(),
            stats.encode().samples() == Seq::<u16>::empty(),
            stats.packetize().samples() == Seq::<u16>::empty(),
            stats.send().samples() == Seq::<u16>::empty(),
    {
        ClientBroadcasterStats {
            capture_samples_ms: LatencySamples::new(),
            encode_samples_ms: LatencySamples::new(),
            packetize_samples_ms: LatencySamples::new(),
            send_samples_ms: LatencySamples::new(),
        }
    }

    /// Records how long a capture took, given in whole milliseconds.
    pub fn record_capture_duration(&mut self, duration_ms: u128)
        requires
            old(self).wf(),
        ensures
            final(self).wf(),
            sample_recorded(old(self).capture(), final(self).capture(), spec_duration_to_millis(duration_ms)),
            final(self).encode() == old(self).encode(),
            final(self).packetize() == old(self).packetize(),
            final(self).send() == old(self).send(),
    {
        self.capture_samples_ms.push(duration_to_millis(duration_ms));
    }

    pub fn record_encode_duration(&mut self, duration_ms: u128)
        requires
            old(self).wf(),
        ensures
            final(self).wf(),
            sample_recorded(old(self).encode(), final(self).encode(), spec_duration_to_millis(duration_ms)),
            final(self).capture() == old(self).capture(),
            final(self).packetize() == old(self).packetize(),
            final(self).send() == old(self).send(),
    {
        self.encode_samples_ms.push(duration_to_millis(duration_ms));
    }

    pub fn record_packetize_duration(&mut self, duration_ms: u128)
        requires
            old(self).wf(),
        ensures
            final(self).wf(),
            sample_recorded(old(self).packetize(), final(self).packetize(), spec_duration_to_millis(duration_ms)),
            final(self).capture() == old(self).capture(),
            final(self).encode() == old(self).encode(),
            final(self).send() == old(self).send(),
    {
        self.packetize_samples_ms.push(duration_to_millis(duration_ms));
    }

    pub fn record_send_duration(&mut self, duration_ms: u128)
        requires
            old(self).wf(),
        ensures
            final(self).wf(),
            sample_recorded(old(self).send(), final(self).send(), spec_duration_to_millis(duration_ms)),
            final(self).capture() == old(self).capture(),
            final(self).encode() == old(self).encode(),
            final(self).packetize() == old(self).packetize(),
    {
        self.send_samples_ms.push(duration_to_millis(duration_ms));
    }

    /// The median and 95th percentile of each stage.
    pub fn timing_snapshot(self) -> (snapshot: BroadcasterTimingSnapshot)
        requires
            self.wf(),
        ensures
            snapshot == (BroadcasterTimingSnapshot {
                capture_ms_p50: spec_percentile(self.capture().samples(), 50),
                capture_ms_p95: spec_percentile(self.capture().samples(), 95),
                encode_ms_p50: spec_percentile(self.encode().samples(), 50),
                encode_ms_p95: spec_percentile(self.encode().samples(), 95),
                packetize_ms_p50: spec_percentile(self.packetize().samples(), 50),
                packetize_ms_p95: spec_percentile(self.packetize().samples(), 95),
                send_ms_p50: spec_percentile(self.send().samples(), 50),
                send_ms_p95: spec_percentile(self.send().samples(), 95),
            }),
    {
        BroadcasterTimingSnapshot {
            capture_ms_p50: self.capture_samples_ms.percentile(50),
            capture_ms_p95: self.capture_samples_ms.percentile(95),
            encode_ms_p50: self.encode_samples_ms.percentile(50),
            encode_ms_p95: self.encode_samples_ms.percentile(95),
            packetize_ms_p50: self.packetize_samples_ms.percentile(50),
            packetize_ms_p95: self.packetize_samples_ms.percentile(95),
            send_ms_p50: self.send_samples_ms.percentile(50),
            send_ms_p95: self.send_samples_ms.percentile(95),
        }
    }
}

impl Default for ClientBroadcasterStats {
    fn default() -> (stats: ClientBroadcasterStats)
        ensures
            stats.wf(),
            stats.capture().samples() == Seq::<u16>::empty(),
            stats.encode().samples() == Seq::<u16>::empty(),
            stats.packetize().samples() == Seq::<u16>::empty(),
            stats.send().samples() == Seq::<u16>::empty(),
    {
        ClientBroadcasterStats::new()
    }
}

/// What a viewer received, decoded and rendered of one stream.
#[derive(Debug, Clone, Copy, PartialEq, Eq)]
pub struct ClientMediaStats {
    pub received_packets: u64,
    pub lost_packets: u64,
    pub decoded_frames: u64,
    pub rendered_frames: u64,
    pub dropped_frames: u64,
    pub jitter_buffer_ms: u16,
    pub estimated_latency_ms: u16,
    pub last_sequence_number: Option<u32>,
    pub decode_samples_ms: LatencySamples,
    pub render_samples_ms: LatencySamples,
    pub first_render_time_micros: u64,
    pub last_render_time_micros: u64,
}

pub open spec fn sat_add(a: u64, b: int) -> u64 {
    if a + b > u64::MAX {
        u64::MAX
    } else {
        (a + b) as u64
    }
}

/// How far `to` is past `from` counting modulo 2^32.
pub open spec fn sequence_distance(from: u32, to: u32) -> int {
    if to >= from {
        to - from
    } else {
        to + 0x1_0000_0000 - from
    }
}

/// Renders per second between the first and last render: the intervals
/// rendered times 10^6 over the elapsed microseconds, held at `u16::MAX`;
/// zero with fewer than two renders or no time elapsed.
pub open spec fn spec_render_fps(rendered: u64, first_micros: u64, last_micros: u64) -> u16 {
    if rendered < 2 || last_micros <= first_micros {
        0
    } else {
        let scaled = if (rendered - 1) * 1_000_000 > u64::MAX {
            u64::MAX as int
        } else {
            (rendered - 1) * 1_000_000
        };
        let fps = scaled / ((last_micros - first_micros) as int);
        if fps > u16::MAX {
            u16::MAX
        } else {
            fps as u16
        }
    }
}

impl ClientMediaStats {
    pub open spec fn last_sequence(self) -> Option<u32> {
        self.last_sequence_number
    }

    pub open spec fn decode_samples(self) -> LatencySamples {
        self.decode_samples_ms
    }

    pub open spec fn render_samples(self) -> LatencySamples {
        self.render_samples_ms
    }

    pub open spec fn first_render_micros(self) -> u64 {
        self.first_render_time_micros
    }

    pub open spec fn last_render_micros(self) -> u64 {
        self.last_render_time_micros
    }

    pub open spec fn wf(self) -> bool {
        self.decode_samples().wf() && self.render_samples().wf()
    }

    pub fn new() -> (stats: ClientMediaStats)
        ensures
            stats.wf(),
            stats.received_packets == 0,
            stats.lost_packets == 0,
            stats.decoded_frames == 0,
            stats.rendered_frames == 0,
            stats.dropped_frames == 0,
            stats.jitter_buffer_ms == 0,
            stats.estimated_latency_ms == 0,
            stats.last_sequence() is None,
            stats.decode_samples().samples() == Seq::<u16>::empty(),
            stats.render_samples().samples() == Seq::<u16>::empty(),
            stats.first_render_micros() == 0,
            stats.last_render_micros() == 0,
    {
        ClientMediaStats {
            received_packets: 0,
            lost_packets: 0,
            decoded_frames: 0,
            rendered_frames: 0,
            dropped_frames: 0,
            jitter_buffer_ms: 0,
            estimated_latency_ms: 0,
            last_sequence_number: None,
            decode_samples_ms: LatencySamples::new(),
            render_samples_ms: LatencySamples::new(),
            first_render_time_micros: 0,
            last_render_time_micros: 0,
        }
    }

    /// Counts a received packet; a forward jump in sequence numbers (less
    /// than half the sequence space) counts the packets skipped as lost.
    /// Late or repeated packets are counted as received only.
    pub fn record_packet(&mut self, packet: &MediaPacket)
        ensures
            final(self).received_packets == sat_add(old(self).received_packets, 1),
            final(self).decoded_frames == old(self).decoded_frames,
            final(self).rendered_frames == old(self).rendered_frames,
            final(self).dropped_frames == old(self).dropped_frames,
            final(self).jitter_buffer_ms == old(self).jitter_buffer_ms,
            final(self).estimated_latency_ms == old(self).estimated_latency_ms,
            final(self).decode_samples() == old(self).decode_samples(),
            final(self).render_samples() == old(self).render_samples(),
            final(self).first_render_micros() == old(self).first_render_micros(),
            final(self).last_render_micros() == old(self).last_render_micros(),
            ({
                let s = packet.header.sequence_number;
                match old(self).last_sequence() {
                    None => final(self).last_sequence() == Some(s) && final(self).lost_packets
                        == old(self).lost_packets,
                    Some(previous) => {
                        let d = sequence_distance(previous, s);
                        if d > 0 && d < u32::MAX / 2 {
                            final(self).lost_packets == sat_add(old(self).lost_packets, d - 1)
                                && final(self).last_sequence() == Some(s)
                        } else {
                            final(self).lost_packets == old(self).lost_packets
                                && final(self).last_sequence() == old(self).last_sequence()
                        }
                    },
                }
            }),
    {
        self.received_packets = self.received_packets.saturating_add(1);
        let sequence_number = packet.header.sequence_number;
        match self.last_sequence_number {
            Some(previous) => {
                let distance: u32 = if sequence_number >= previous {
                    sequence_number - previous
                } else {
                    ((sequence_number as u64 + 0x1_0000_0000u64) - previous as u64) as u32
                };
                if distance > 0 && distance < u32::MAX / 2 {
                    self.lost_packets = self.lost_packets.saturating_add((distance - 1) as u64);
                    self.last_sequence_number = Some(sequence_number);
                }
            },
            None => {
                self.last_sequence_number = Some(sequence_number);
            },
        }
    }

    pub fn record_decoded_frame(&mut self)
        ensures
            *final(self) == (ClientMediaStats {
                decoded_frames: sat_add(old(self).decoded_frames, 1),
                ..*old(self)
            }),
    {
        self.decoded_frames = self.decoded_frames.saturating_add(1);
    }

    /// Records how long a decode took, given in whole milliseconds.
    pub fn record_decode_duration(&mut self, duration_ms: u128)
        requires
            old(self).wf(),
        ensures
            final(self).wf(),
            sample_recorded(old(self).decode_samples(), final(self).decode_samples(), spec_duration_to_millis(duration_ms)),
            final(self).received_packets == old(self).received_packets,
            final(self).lost_packets == old(self).lost_packets,
            final(self).decoded_frames == old(self).decoded_frames,
            final(self).rendered_frames == old(self).rendered_frames,
            final(self).dropped_frames == old(self).dropped_frames,
            final(self).jitter_buffer_ms == old(self).jitter_buffer_ms,
            final(self).estimated_latency_ms == old(self).estimated_latency_ms,
            final(self).last_sequence() == old(self).last_sequence(),
            final(self).render_samples() == old(self).render_samples(),
            final(self).first_render_micros() == old(self).first_render_micros(),
            final(self).last_render_micros() == old(self).last_render_micros(),
    {
        self.decode_samples_ms.push(duration_to_millis(duration_ms));
    }

    /// Records a render: its duration in whole milliseconds and when it
    /// happened; the first render's time is kept.
    pub fn record_render_duration(&mut self, duration_ms: u128, render_time_micros: u64)
        requires
            old(self).wf(),
        ensures
            final(self).wf(),
            final(self).rendered_frames == sat_add(old(self).rendered_frames, 1),
            sample_recorded(old(self).render_samples(), final(self).render_samples(), spec_duration_to_millis(duration_ms)),
            final(self).first_render_micros() == if old(self).first_render_micros() == 0 {
                render_time_micros
            } else {
                old(self).first_render_micros()
            },
            final(self).last_render_micros() == render_time_micros,
            final(self).received_packets == old(self).received_packets,
            final(self).lost_packets == old(self).lost_packets,
            final(self).decoded_frames == old(self).decoded_frames,
            final(self).dropped_frames == old(self).dropped_frames,
            final(self).jitter_buffer_ms == old(self).jitter_buffer_ms,
            final(self).estimated_latency_ms == old(self).estimated_latency_ms,
            final(self).last_sequence() == old(self).last_sequence(),
            final(self).decode_samples() == old(self).decode_samples(),
    {
        self.rendered_frames = self.rendered_frames.saturating_add(1);
        self.render_samples_ms.push(duration_to_millis(duration_ms));
        if self.first_render_time_micros == 0 {
            self.first_render_time_micros = render_time_micros;
        }
        self.last_render_time_micros = render_time_micros;
    }

    pub fn record_dropped_frame(&mut self)
        ensures
            *final(self) == (ClientMediaStats {
                dropped_frames: sat_add(old(self).dropped_frames, 1),
                ..*old(self)
            }),
    {
        self.dropped_frames = self.dropped_frames.saturating_add(1);
    }

    pub fn record_dropped_frames(&mut self, dropped_frames: u64)
        ensures
            *final(self) == (ClientMediaStats {
                dropped_frames: sat_add(old(self).dropped_frames, dropped_frames as int),
                ..*old(self)
            }),
    {
        self.dropped_frames = self.dropped_frames.saturating_add(dropped_frames);
    }

    /// Latency from the sender's capture time to receipt, in whole
    /// milliseconds held at `u16::MAX`; a missing or future capture time
    /// leaves the estimate as it was.
    pub fn record_estimated_latency(&mut self, sender_capture_time_micros: u64, receive_time_micros: u64)
        ensures
            *final(self) == if sender_capture_time_micros == 0 || receive_time_micros
                < sender_capture_time_micros {
                *old(self)
            } else {
                ClientMediaStats {
                    estimated_latency_ms: if (receive_time_micros - sender_capture_time_micros)
                        / 1000 > u16::MAX {
                        u16::MAX
                    } else {
                        ((receive_time_micros - sender_capture_time_micros) / 1000) as u16
                    },
                    ..*old(self)
                }
            },
    {
        if sender_capture_time_micros == 0 || receive_time_micros < sender_capture_time_micros {
            return ;
        }
        let latency = (receive_time_micros - sender_capture_time_micros) / 1_000;
        self.estimated_latency_ms = if latency > u16::MAX as u64 {
            u16::MAX
        } else {
            latency as u16
        };
    }

    pub fn render_fps(self) -> (fps: u16)
        ensures
            fps == spec_render_fps(
                self.rendered_frames,
                self.first_render_micros(),
                self.last_render_micros(),
            ),
    {
        if self.rendered_frames < 2 || self.last_render_time_micros <= self.first_render_time_micros {
            return 0;
        }
        let elapsed = self.last_render_time_micros - self.first_render_time_micros;
        let intervals = self.rendered_frames - 1;
        let scaled: u64 = if intervals > u64::MAX / 1_000_000 {
            u64::MAX
        } else {
            intervals * 1_000_000
        };
        let fps = scaled / elapsed;
        if fps > u16::MAX as u64 {
            u16::MAX
        } else {
            fps as u16
        }
    }

    /// The report a viewer sends the relay for a stream.
    pub fn to_viewer_report(self, room_id: RoomId, stream_id: StreamId) -> (report: ViewerStatsReport)
        requires
            self.wf(),
        ensures
            report == (ViewerStatsReport {
                room_id,
                stream_id,
                received_packets: self.received_packets,
                lost_packets: self.lost_packets,
                decoded_frames: self.decoded_frames,
                dropped_frames: self.dropped_frames,
                jitter_buffer_ms: self.jitter_buffer_ms,
                estimated_latency_ms: self.estimated_latency_ms,
                calibrated_latency_ms: 0,
                reassembly_ms_p50: 0,
                reassembly_ms_p95: 0,
                decode_ms_p50: spec_percentile(self.decode_samples().samples(), 50),
                decode_ms_p95: spec_percentile(self.decode_samples().samples(), 95),
                render_ms_p50: spec_percentile(self.render_samples().samples(), 50),
                render_ms_p95: spec_percentile(self.render_samples().samples(), 95),
                render_fps: spec_render_fps(
                    self.rendered_frames,
                    self.first_render_micros(),
                    self.last_render_micros(),
                ),
            }),
    {
        ViewerStatsReport {
            room_id,
            stream_id,
            received_packets: self.received_packets,
            lost_packets: self.lost_packets,
            decoded_frames: self.decoded_frames,
            dropped_frames: self.dropped_frames,
            jitter_buffer_ms: self.jitter_buffer_ms,
            estimated_latency_ms: self.estimated_latency_ms,
            calibrated_latency_ms: 0,
            reassembly_ms_p50: 0,
            reassembly_ms_p95: 0,
            decode_ms_p50: self.decode_samples_ms.percentile(50),
            decode_ms_p95: self.decode_samples_ms.percentile(95),
            render_ms_p50: self.render_samples_ms.percentile(50),
            render_ms_p95: self.render_samples_ms.percentile(95),
            render_fps: self.render_fps(),
        }
    }
}

impl Default for ClientMediaStats {
    fn default() -> (stats: ClientMediaStats)
        ensures
            stats.wf(),
            stats.received_packets == 0,
            stats.lost_packets == 0,
            stats.decoded_frames == 0,
            stats.rendered_frames == 0,
            stats.dropped_frames == 0,
            stats.jitter_buffer_ms == 0,
            stats.estimated_latency_ms == 0,
            stats.last_sequence() is None,
            stats.decode_samples().samples() == Seq::<u16>::empty(),
            stats.render_samples().samples() == Seq::<u16>::empty(),
            stats.first_render_micros() == 0,
            stats.last_render_micros() == 0,
    {
        ClientMediaStats::new()
    }
}

} // verus!
