//! Relay-wide and per-stream forwarding counters.

use vstd::prelude::*;

use crate::protocol::control::{RoomId, StreamId, StreamMetricsSnapshot};
use crate::samples::{spec_percentile, LatencySamples};

verus! {

#[derive(Debug, Clone, Copy, PartialEq, Eq, Default, Structural)]
pub struct RelayMetrics {
    pub active_rooms: u64,
    pub active_sessions: u64,
    pub forwarded_packets: u64,
    pub dropped_packets: u64,
}

/// `a + b` held at `u64::MAX`.
pub open spec fn sat_add_u64(a: int, b: int) -> u64 {
    if a + b > u64::MAX {
        u64::MAX
    } else {
        (a + b) as u64
    }
}

/// `after` is `before` with one forwarded packet counted: its bytes, the
/// egress queueing and drops it caused, when it arrived, and its routing
/// time added to the recent samples (replacing the oldest once 64 are held).
pub open spec fn forwarding_recorded(
    before: StreamForwardingMetrics,
    after: StreamForwardingMetrics,
    ingress_bytes: usize,
    queued_packets: u32,
    dropped_packets: u32,
    received_at_micros: u64,
    server_route_ms: u16,
) -> bool {
    &&& after.wf()
    &&& after.ingress_packets == sat_add_u64(before.ingress_packets as int, 1)
    &&& after.ingress_bytes == sat_add_u64(before.ingress_bytes as int, ingress_bytes as int)
    &&& after.egress_queued_packets == sat_add_u64(
        before.egress_queued_packets as int,
        queued_packets as int,
    )
    &&& after.egress_dropped_packets == sat_add_u64(
        before.egress_dropped_packets as int,
        dropped_packets as int,
    )
    &&& after.last_ingress_time_micros == received_at_micros
    &&& before.server_route_samples.samples().len() < 64 ==> after.server_route_samples.samples()
        == before.server_route_samples.samples().push(server_route_ms)
    &&& before.server_route_samples.samples().len() == 64 ==> after.server_route_samples.samples()
        == before.server_route_samples.samples().update(
        before.server_route_samples.next_slot(),
        server_route_ms,
    )
}

/// Counters of a stream nothing was forwarded on yet.
pub open spec fn fresh_metrics(m: StreamForwardingMetrics) -> bool {
    &&& m.wf()
    &&& m.ingress_packets == 0
    &&& m.ingress_bytes == 0
    &&& m.egress_queued_packets == 0
    &&& m.egress_dropped_packets == 0
    &&& m.last_ingress_time_micros == 0
    &&& m.server_route_samples.samples() == Seq::<u16>::empty()
}

/// Ingress and egress counters of one published stream, with the recent
/// receive-to-route times.
#[derive(Debug, Clone, Copy, PartialEq, Eq)]
pub struct StreamForwardingMetrics {
    pub ingress_packets: u64,
    pub ingress_bytes: u64,
    pub egress_queued_packets: u64,
    pub egress_dropped_packets: u64,
    pub last_ingress_time_micros: u64,
    pub server_route_samples: LatencySamples,
}

impl StreamForwardingMetrics {
    pub open spec fn wf(self) -> bool {
        self.server_route_samples.wf()
    }

    pub fn new() -> (metrics: StreamForwardingMetrics)
        ensures
            fresh_metrics(metrics),
    {
        StreamForwardingMetrics {
            ingress_packets: 0,
            ingress_bytes: 0,
            egress_queued_packets: 0,
            egress_dropped_packets: 0,
            last_ingress_time_micros: 0,
            server_route_samples: LatencySamples::new(),
        }
    }

    /// Counts one forwarded ingress packet: its bytes, the egress queueing
    /// and drops it caused, when it arrived and how long routing took.
    pub fn record_forwarding(
        &mut self,
        ingress_bytes: usize,
        queued_packets: u32,
        dropped_packets: u32,
        received_at_micros: u64,
        server_route_ms: u16,
    )
        requires
            old(self).wf(),
        ensures
            forwarding_recorded(
                *old(self),
                *final(self),
                ingress_bytes,
                queued_packets,
                dropped_packets,
                received_at_micros,
                server_route_ms,
            ),
    {
        self.ingress_packets = self.ingress_packets.saturating_add(1);
        self.ingress_bytes = self.ingress_bytes.saturating_add(ingress_bytes as u64);
        self.egress_queued_packets = self.egress_queued_packets.saturating_add(
            queued_packets as u64,
        );
        self.egress_dropped_packets = self.egress_dropped_packets.saturating_add(
            dropped_packets as u64,
        );
        self.last_ingress_time_micros = received_at_micros;
        self.server_route_samples.push(server_route_ms);
    }

    /// The counters as the control plane reports them.
    pub fn snapshot(self, room_id: RoomId, stream_id: StreamId, subscriber_count: u32) -> (snapshot: StreamMetricsSnapshot)
        requires
            self.wf(),
        ensures
            snapshot == (StreamMetricsSnapshot {
                room_id,
                stream_id,
                ingress_packets: self.ingress_packets,
                ingress_bytes: self.ingress_bytes,
                egress_queued_packets: self.egress_queued_packets,
                egress_dropped_packets: self.egress_dropped_packets,
                egress_queue_packets: 0,
                egress_queue_media_ms: 0,
                subscriber_count,
                last_ingress_time_micros: self.last_ingress_time_micros,
                server_route_ms_p50: spec_percentile(self.server_route_samples.samples(), 50),
                server_route_ms_p95: spec_percentile(self.server_route_samples.samples(), 95),
            }),
    {
        StreamMetricsSnapshot {
            room_id,
            stream_id,
            ingress_packets: self.ingress_packets,
            ingress_bytes: self.ingress_bytes,
            egress_queued_packets: self.egress_queued_packets,
            egress_dropped_packets: self.egress_dropped_packets,
            egress_queue_packets: 0,
            egress_queue_media_ms: 0,
            subscriber_count,
            last_ingress_time_micros: self.last_ingress_time_micros,
            server_route_ms_p50: self.server_route_samples.percentile(50),
            server_route_ms_p95: self.server_route_samples.percentile(95),
        }
    }
}

impl Default for StreamForwardingMetrics {
    fn default() -> (metrics: StreamForwardingMetrics)
        ensures
            fresh_metrics(metrics),
    {
        StreamForwardingMetrics::new()
    }
}

/// The whole milliseconds from `start_micros` to `end_micros`: zero when the
/// end is not after the start, held at `u16::MAX`.
pub fn micros_delta_to_millis(start_micros: u64, end_micros: u64) -> (millis: u16)
    ensures
        millis == if end_micros <= start_micros {
            0
        } else if (end_micros - start_micros) / 1000 > u16::MAX {
            u16::MAX
        } else {
            ((end_micros - start_micros) / 1000) as u16
        },
{
    if end_micros <= start_micros {
        return 0;
    }
    let millis = (end_micros - start_micros) / 1000;
    if millis > u16::MAX as u64 {
        u16::MAX
    } else {
        millis as u16
    }
}

/// The system clock's time, `std::time::SystemTime`, carried through
/// unread.
#[verifier::external_type_specification]
#[verifier::external_body]
pub struct ExSystemTime(std::time::SystemTime);

/// `SystemTime::now()`: the system clock's reading. Trusted; nothing is
/// promised of it, as it is the machine's clock.
#[verifier::external_body]
fn system_time_now() -> (now: std::time::SystemTime) {
    std::time::SystemTime::now()
}

/// `SystemTime::duration_since(UNIX_EPOCH)`: how far `now` is past the Unix
/// epoch, `None` for a time before it. Trusted; nothing is stated of the
/// duration, an opaque value.
#[verifier::external_body]
fn since_unix_epoch(now: &std::time::SystemTime) -> (elapsed: Option<core::time::Duration>) {
    match now.duration_since(std::time::UNIX_EPOCH) {
        Ok(elapsed) => Some(elapsed),
        Err(_) => None,
    }
}

/// `Duration::as_micros`: the whole microseconds of a duration. Trusted;
/// nothing is stated, as the duration is opaque here.
#[verifier::external_body]
fn duration_micros(duration: &core::time::Duration) -> (micros: u128) {
    duration.as_micros()
}

/// A clock reading in microseconds past the Unix epoch as a `u64`: zero for
/// a clock before the epoch (`None`), held at `u64::MAX`.
pub open spec fn spec_clamp_clock_micros(reading: Option<u128>) -> u64 {
    match reading {
        Some(micros) => if micros > u64::MAX {
            u64::MAX
        } else {
            micros as u64
        },
        None => 0,
    }
}

pub fn clamp_clock_micros(reading: Option<u128>) -> (micros: u64)
    ensures
        micros == spec_clamp_clock_micros(reading),
{
    match reading {
        Some(micros) => if micros > u64::MAX as u128 {
            u64::MAX
        } else {
            micros as u64
        },
        None => 0,
    }
}

/// Microseconds since the Unix epoch by the system clock, zero for a clock
/// set before the epoch and held at `u64::MAX`.
pub fn unix_time_micros() -> (micros: u64) {
    let now = system_time_now();
    let reading = match since_unix_epoch(&now) {
        Some(elapsed) => Some(duration_micros(&elapsed)),
        None => None,
    };
    clamp_clock_micros(reading)
}

} // verus!
