//! Queue, transport and pipeline statistics shared by relay and clients.

use vstd::prelude::*;

verus! {

/// Occupancy and loss counters of one egress queue.
#[derive(Debug, Clone, Copy, PartialEq, Eq, Default, Structural)]
pub struct QueueStats {
    pub queued_packets: u32,
    pub queued_media_ms: u16,
    pub dropped_packets: u64,
    pub dropped_frames: u64,
}

impl QueueStats {
    /// A queue is over budget when it holds more media time than allowed.
    pub fn is_over_budget(self, max_media_ms: u16) -> (over: bool)
        ensures
            over == (self.queued_media_ms > max_media_ms),
    {
        self.queued_media_ms > max_media_ms
    }
}

#[derive(Debug, Clone, Copy, PartialEq, Eq, Default, Structural)]
pub struct TransportStats {
    pub rtt_ms: u16,
    pub send_bitrate_bps: u32,
    pub receive_bitrate_bps: u32,
    pub lost_packets: u64,
}

/// Per-stage latency of the capture-to-render pipeline, in milliseconds.
#[derive(Debug, Clone, Copy, PartialEq, Eq, Default, Structural)]
pub struct PipelineLatencyStats {
    pub capture_ms: u16,
    pub encode_ms: u16,
    pub server_route_ms: u16,
    pub jitter_buffer_ms: u16,
    pub decode_ms: u16,
    pub render_ms: u16,
}

/// `a + b`, held at `u16::MAX`.
pub open spec fn sat_add_u16(a: int, b: int) -> int {
    if a + b > u16::MAX {
        u16::MAX as int
    } else {
        a + b
    }
}

impl PipelineLatencyStats {
    /// The stage latencies added left to right, each step saturating.
    pub open spec fn spec_total(self) -> int {
        sat_add_u16(
            sat_add_u16(
                sat_add_u16(
                    sat_add_u16(
                        sat_add_u16(self.capture_ms as int, self.encode_ms as int),
                        self.server_route_ms as int,
                    ),
                    self.jitter_buffer_ms as int,
                ),
                self.decode_ms as int,
            ),
            self.render_ms as int,
        )
    }

    pub fn estimated_total_ms(self) -> (total: u16)
        ensures
            total == self.spec_total(),
            total == if self.capture_ms + self.encode_ms + self.server_route_ms
                + self.jitter_buffer_ms + self.decode_ms + self.render_ms > u16::MAX {
                u16::MAX as int
            } else {
                self.capture_ms + self.encode_ms + self.server_route_ms + self.jitter_buffer_ms
                    + self.decode_ms + self.render_ms
            },
    {
        self.capture_ms.saturating_add(self.encode_ms).saturating_add(
            self.server_route_ms,
        ).saturating_add(self.jitter_buffer_ms).saturating_add(self.decode_ms).saturating_add(
            self.render_ms,
        )
    }
}

} // verus!
