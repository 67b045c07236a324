//! Publisher feedback: which viewers are struggling, and the media targets
//! the relay asks publishers for.

use vstd::prelude::*;

use std::collections::BTreeMap;

use crate::protocol::control::{
    KeyframeReason, PublisherFeedback, RoomId, ServerControl, SetTargetBitrate,
    SetTargetFramerate, StreamConfig, StreamId, UserId, ViewerStatsReport,
};
use crate::relay::control::requests::{publisher_control_error, unauthenticated, with_stream};
use crate::relay::control::{
    control_error, is_error, lemma_stream_room, ControlState, ControlView,
    DEFAULT_TARGET_BITRATE_BPS, DEFAULT_TARGET_FRAMES_PER_SECOND, DEGRADED_BITRATE_PERCENT,
    MAX_TARGET_BITRATE_BPS, MAX_TARGET_FRAMES_PER_SECOND, MAX_TARGET_HEIGHT, MAX_TARGET_WIDTH,
    MIN_TARGET_BITRATE_BPS, MIN_TARGET_FRAMES_PER_SECOND, MIN_TARGET_HEIGHT, MIN_TARGET_WIDTH,
};
use crate::relay::keys::{
    lemma_increasing_not_in_prefix_u64, lemma_prefix_step, map_keys_u64, strictly_increasing_u64,
};
use crate::relay::room::PublishedStream;
use crate::relay::session::Session;

verus! {

broadcast use {vstd::std_specs::btree::group_btree_axioms, vstd::laws_cmp::group_laws_cmp, vstd::set::group_set_axioms};

pub open spec fn spec_clamp(x: int, lo: int, hi: int) -> int {
    if x < lo {
        lo
    } else if x > hi {
        hi
    } else {
        x
    }
}

pub fn clamp_u16(x: u16, lo: u16, hi: u16) -> (r: u16)
    requires
        lo <= hi,
    ensures
        r == spec_clamp(x as int, lo as int, hi as int),
{
    if x < lo {
        lo
    } else if x > hi {
        hi
    } else {
        x
    }
}

pub fn clamp_u32(x: u32, lo: u32, hi: u32) -> (r: u32)
    requires
        lo <= hi,
    ensures
        r == spec_clamp(x as int, lo as int, hi as int),
{
    if x < lo {
        lo
    } else if x > hi {
        hi
    } else {
        x
    }
}

/// The latency a viewer reports: the clock-calibrated one when it has one.
pub open spec fn spec_viewer_latency_ms(report: ViewerStatsReport) -> u16 {
    if report.calibrated_latency_ms > 0 {
        report.calibrated_latency_ms
    } else {
        report.estimated_latency_ms
    }
}

pub fn viewer_latency_ms(report: &ViewerStatsReport) -> (latency: u16)
    ensures
        latency == spec_viewer_latency_ms(*report),
{
    if report.calibrated_latency_ms > 0 {
        report.calibrated_latency_ms
    } else {
        report.estimated_latency_ms
    }
}

/// A viewer is degraded when it loses packets or frames, buffers over
/// 120 ms, lags over 200 ms, reassembles slower than 80 ms or decodes or
/// renders slower than 40 ms at p95, or renders below 15 fps.
pub open spec fn spec_viewer_is_degraded(report: ViewerStatsReport) -> bool {
    ||| report.lost_packets > 0
    ||| report.dropped_frames > 0
    ||| report.jitter_buffer_ms > 120
    ||| spec_viewer_latency_ms(report) > 200
    ||| report.reassembly_ms_p95 > 80
    ||| report.decode_ms_p95 > 40
    ||| report.render_ms_p95 > 40
    ||| (report.render_fps > 0 && report.render_fps < 15)
}

pub fn viewer_is_degraded(report: &ViewerStatsReport) -> (degraded: bool)
    ensures
        degraded == spec_viewer_is_degraded(*report),
{
    report.lost_packets > 0 || report.dropped_frames > 0 || report.jitter_buffer_ms > 120
        || viewer_latency_ms(report) > 200 || report.reassembly_ms_p95 > 80
        || report.decode_ms_p95 > 40 || report.render_ms_p95 > 40 || (report.render_fps > 0
        && report.render_fps < 15)
}

/// A zero dimension means "unset" and clears both; otherwise each side is
/// held to the supported range.
pub open spec fn spec_clamp_target_resolution(width: u32, height: u32) -> (u32, u32) {
    if width == 0 || height == 0 {
        (0, 0)
    } else {
        (
            spec_clamp(width as int, MIN_TARGET_WIDTH as int, MAX_TARGET_WIDTH as int) as u32,
            spec_clamp(height as int, MIN_TARGET_HEIGHT as int, MAX_TARGET_HEIGHT as int) as u32,
        )
    }
}

pub fn clamp_target_resolution(width: u32, height: u32) -> (resolution: (u32, u32))
    ensures
        resolution == spec_clamp_target_resolution(width, height),
{
    if width == 0 || height == 0 {
        return (0, 0);
    }
    (
        clamp_u32(width, MIN_TARGET_WIDTH, MAX_TARGET_WIDTH),
        clamp_u32(height, MIN_TARGET_HEIGHT, MAX_TARGET_HEIGHT),
    )
}

pub open spec fn spec_min(a: int, b: int) -> int {
    if a < b {
        a
    } else {
        b
    }
}

pub open spec fn spec_max(a: int, b: int) -> int {
    if a > b {
        a
    } else {
        b
    }
}

/// One step down in resolution: the width to 80% (not below 320 nor above
/// the current width), the height scaled to keep the aspect ratio (not
/// below 180 nor above the current height), then clamped to the supported
/// range; unset or already minimal resolutions stay as they are.
pub open spec fn spec_reduce_resolution(width: u32, height: u32) -> (u32, u32) {
    if width == 0 || height == 0 {
        (width, height)
    } else {
        let reduced_width = spec_min(width * DEGRADED_BITRATE_PERCENT, u32::MAX as int) / 100;
        let w1 = spec_min(spec_max(reduced_width, MIN_TARGET_WIDTH as int), width as int);
        let h0 = w1 * height / (width as int);
        let h1 = spec_min(spec_max(h0, MIN_TARGET_HEIGHT as int), height as int);
        if h1 == height && w1 == width {
            (width, height)
        } else {
            let w2 = if h1 == height {
                spec_min(spec_max(h1 * width / (height as int), MIN_TARGET_WIDTH as int), width as int)
            } else {
                w1
            };
            spec_clamp_target_resolution(w2 as u32, h1 as u32)
        }
    }
}

pub fn reduce_resolution(width: u32, height: u32) -> (resolution: (u32, u32))
    ensures
        resolution == spec_reduce_resolution(width, height),
{
    if width == 0 || height == 0 {
        return (width, height);
    }
    assert((width as int) * 80 <= u32::MAX * 80) by (nonlinear_arith);
    let scaled_width = width as u64 * 80;
    let saturated_width: u32 = if scaled_width > u32::MAX as u64 {
        u32::MAX
    } else {
        scaled_width as u32
    };
    let reduced_width = saturated_width / 100;
    let mut new_width = if reduced_width > MIN_TARGET_WIDTH {
        reduced_width
    } else {
        MIN_TARGET_WIDTH
    };
    if new_width > width {
        new_width = width;
    }
    assert((new_width as int) * (height as int) <= (width as int) * (height as int))
        by (nonlinear_arith)
        requires
            new_width <= width,
    ;
    assert((width as int) * (height as int) <= u32::MAX * u32::MAX) by (nonlinear_arith);
    let product = new_width as u64 * height as u64;
    let scaled = product / width as u64;
    assert(scaled <= height) by (nonlinear_arith)
        requires
            product as int <= (width as int) * (height as int),
            scaled as int == (product as int) / (width as int),
            width > 0,
    ;
    let mut new_height = scaled as u32;
    if new_height < MIN_TARGET_HEIGHT {
        new_height = MIN_TARGET_HEIGHT;
    }
    if new_height > height {
        new_height = height;
    }
    if new_height == height && new_width == width {
        return (width, height);
    }
    if new_height == height {
        assert((height as int) * (width as int) <= u32::MAX * u32::MAX) by (nonlinear_arith);
        let w = (new_height as u64 * width as u64) / height as u64;
        assert(w == width) by (nonlinear_arith)
            requires
                w as int == (height as int) * (width as int) / (height as int),
                height > 0,
        ;
        new_width = w as u32;
        if new_width < MIN_TARGET_WIDTH {
            new_width = MIN_TARGET_WIDTH;
        }
        if new_width > width {
            new_width = width;
        }
    }
    clamp_target_resolution(new_width, new_height)
}

/// The media targets the relay holds for a stream.
#[derive(Debug, Clone, Copy, PartialEq, Eq, Structural)]
pub struct StreamTarget {
    pub bitrate_bps: u32,
    pub frames_per_second: u16,
    pub width: u32,
    pub height: u32,
}

/// A published stream's targets; an unknown stream reads as the defaults
/// with no resolution.
pub open spec fn spec_stream_target(v: ControlView, stream_id: StreamId) -> StreamTarget {
    match v.published(stream_id) {
        Some(p) => StreamTarget {
            bitrate_bps: p.target_bitrate_bps,
            frames_per_second: p.target_frames_per_second,
            width: p.target_width,
            height: p.target_height,
        },
        None => StreamTarget {
            bitrate_bps: DEFAULT_TARGET_BITRATE_BPS,
            frames_per_second: DEFAULT_TARGET_FRAMES_PER_SECOND,
            width: 0,
            height: 0,
        },
    }
}

/// The stream with new targets held to the supported ranges; a stored
/// configuration follows the new frame rate and resolution.
pub open spec fn retargeted(
    p: PublishedStream,
    bitrate_bps: u32,
    frames_per_second: u16,
    width: u32,
    height: u32,
) -> PublishedStream {
    let fps = spec_clamp(
        frames_per_second as int,
        MIN_TARGET_FRAMES_PER_SECOND as int,
        MAX_TARGET_FRAMES_PER_SECOND as int,
    ) as u16;
    let resolution = spec_clamp_target_resolution(width, height);
    PublishedStream {
        target_bitrate_bps: spec_clamp(
            bitrate_bps as int,
            MIN_TARGET_BITRATE_BPS as int,
            MAX_TARGET_BITRATE_BPS as int,
        ) as u32,
        target_frames_per_second: fps,
        target_width: resolution.0,
        target_height: resolution.1,
        config: match p.config {
            Some(c) => Some(
                StreamConfig { frames_per_second: fps, width: resolution.0, height: resolution.1, ..c },
            ),
            None => None,
        },
        ..p
    }
}

pub open spec fn spec_update_target(
    v: ControlView,
    stream_id: StreamId,
    bitrate_bps: u32,
    frames_per_second: u16,
    width: u32,
    height: u32,
) -> ControlView {
    match v.stream_room(stream_id) {
        Some(r) => with_stream(
            v,
            r,
            retargeted(v.rooms[r].streams[stream_id], bitrate_bps, frames_per_second, width, height),
        ),
        None => v,
    }
}

/// The reports viewers sent for a stream.
pub open spec fn stream_reports(v: ControlView, stream_id: StreamId) -> Map<UserId, ViewerStatsReport> {
    if v.viewer_stats.contains_key(stream_id) {
        v.viewer_stats[stream_id]
    } else {
        Map::empty()
    }
}

pub open spec fn degraded_viewers(v: ControlView, stream_id: StreamId) -> Set<UserId> {
    Set::new(
        |u: UserId|
            stream_reports(v, stream_id).contains_key(u) && spec_viewer_is_degraded(
                stream_reports(v, stream_id)[u],
            ),
    )
}

/// Whether some viewer reported lost packets or dropped frames.
pub open spec fn reports_loss(v: ControlView, stream_id: StreamId) -> bool {
    exists|u: UserId|
        #[trigger] stream_reports(v, stream_id).contains_key(u) && (stream_reports(
            v,
            stream_id,
        )[u].lost_packets > 0 || stream_reports(v, stream_id)[u].dropped_frames > 0)
}

/// The feedback a publisher gets: the stream's targets, how many viewers
/// watch it and how many of them are degraded, and whether a keyframe is
/// wanted (asked for, or some viewer lost data).
pub open spec fn spec_aggregate_feedback(v: ControlView, room_id: RoomId, stream_id: StreamId) -> PublisherFeedback {
    let t = spec_stream_target(v, stream_id);
    PublisherFeedback {
        room_id,
        stream_id,
        aggregate_available_bitrate_bps: t.bitrate_bps,
        target_frames_per_second: t.frames_per_second,
        target_width: t.width,
        target_height: t.height,
        degraded_viewer_count: spec_min(
            degraded_viewers(v, stream_id).len() as int,
            u32::MAX as int,
        ) as u32,
        total_viewer_count: v.subscribers(stream_id).len() as u32,
        keyframe_requested: v.pending_keyframes.contains_key(stream_id) || reports_loss(
            v,
            stream_id,
        ),
    }
}

/// Whether at least half of a stream's viewers are degraded.
pub open spec fn majority_degraded(f: PublisherFeedback) -> bool {
    f.total_viewer_count > 0 && spec_min(f.degraded_viewer_count * 2, u32::MAX as int)
        >= f.total_viewer_count
}

/// The targets one adaptation step moves to: the bitrate to 80% (not below
/// the minimum); once the bitrate is at its floor, the frame rate to 80%
/// (not below the minimum); once both are, one step down in resolution.
pub open spec fn adapted_targets(t: StreamTarget) -> StreamTarget {
    let bitrate = spec_max(
        spec_min(t.bitrate_bps * DEGRADED_BITRATE_PERCENT, u32::MAX as int) / 100,
        MIN_TARGET_BITRATE_BPS as int,
    );
    let fps = if bitrate == t.bitrate_bps && t.frames_per_second > MIN_TARGET_FRAMES_PER_SECOND {
        spec_max(
            spec_min(t.frames_per_second * 80, u16::MAX as int) / 100,
            MIN_TARGET_FRAMES_PER_SECOND as int,
        )
    } else {
        t.frames_per_second as int
    };
    let resolution = if bitrate == t.bitrate_bps && fps == t.frames_per_second {
        spec_reduce_resolution(t.width, t.height)
    } else {
        (t.width, t.height)
    };
    StreamTarget {
        bitrate_bps: bitrate as u32,
        frames_per_second: fps as u16,
        width: resolution.0,
        height: resolution.1,
    }
}

/// Feedback that adapts the targets when most viewers are degraded; a
/// resolution change asks the publisher for a keyframe.
pub open spec fn spec_adaptive_feedback(v: ControlView, room_id: RoomId, stream_id: StreamId) -> (
    ControlView,
    PublisherFeedback,
) {
    let f = spec_aggregate_feedback(v, room_id, stream_id);
    if majority_degraded(f) {
        let t = spec_stream_target(v, stream_id);
        let n = adapted_targets(t);
        let updated = spec_update_target(
            v,
            stream_id,
            n.bitrate_bps,
            n.frames_per_second,
            n.width,
            n.height,
        );
        let resized = n.width != t.width || n.height != t.height;
        (
            if resized {
                ControlView {
                    pending_keyframes: updated.pending_keyframes.insert(
                        stream_id,
                        KeyframeReason::StreamConfigChanged,
                    ),
                    ..updated
                }
            } else {
                updated
            },
            PublisherFeedback {
                aggregate_available_bitrate_bps: n.bitrate_bps,
                target_frames_per_second: n.frames_per_second,
                target_width: n.width,
                target_height: n.height,
                keyframe_requested: f.keyframe_requested || resized,
                ..f
            },
        )
    } else {
        (v, f)
    }
}

/// Feedback adapts when at least half of the stream's viewers are degraded:
/// the bitrate then drops to 80% of its target, not below the minimum; with
/// once the bitrate is at its floor, the frame rate steps down instead; with
/// fewer than half degraded, or no viewers, the feedback is the aggregate
/// one and nothing changes.
pub proof fn law_half_degraded_viewers_lower_the_bitrate(v: ControlView, room_id: RoomId, stream_id: StreamId)
    ensures
        ({
            let f = spec_aggregate_feedback(v, room_id, stream_id);
            let t = spec_stream_target(v, stream_id);
            let (w, feedback) = spec_adaptive_feedback(v, room_id, stream_id);
            &&& (f.total_viewer_count > 0 && 2 * f.degraded_viewer_count >= f.total_viewer_count
                && t.bitrate_bps * 80 <= u32::MAX) ==> feedback.aggregate_available_bitrate_bps == if t.bitrate_bps
                * 80 / 100 >= MIN_TARGET_BITRATE_BPS {
                t.bitrate_bps * 80 / 100
            } else {
                MIN_TARGET_BITRATE_BPS as int
            }
            &&& (f.total_viewer_count > 0 && 2 * f.degraded_viewer_count >= f.total_viewer_count
                && t.bitrate_bps == MIN_TARGET_BITRATE_BPS && t.frames_per_second > MIN_TARGET_FRAMES_PER_SECOND)
                ==> feedback.aggregate_available_bitrate_bps == MIN_TARGET_BITRATE_BPS
                && MIN_TARGET_FRAMES_PER_SECOND <= feedback.target_frames_per_second < t.frames_per_second
            &&& (f.total_viewer_count == 0 || 2 * f.degraded_viewer_count < f.total_viewer_count) ==> w == v
                && feedback == f
        }),
{
    let t = spec_stream_target(v, stream_id);
    assert(t.frames_per_second * 80 / 100 < t.frames_per_second || t.frames_per_second == 0) by (nonlinear_arith);
}

/// The answer to a poll for publisher feedback: only the stream's publisher
/// may poll; the poll adapts the targets and clears the pending keyframe
/// request.
pub open spec fn poll_feedback_reply(
    v: ControlView,
    user: Option<UserId>,
    room_id: RoomId,
    stream_id: StreamId,
    w: ControlView,
    reply: ServerControl,
) -> bool {
    match user {
        None => unauthenticated(reply) && w == v,
        Some(u) => if v.published(stream_id) matches Some(p) && p.publisher_id == u {
            let (adapted, feedback) = spec_adaptive_feedback(v, room_id, stream_id);
            &&& reply == ServerControl::PublisherFeedback(feedback)
            &&& w == (ControlView {
                pending_keyframes: adapted.pending_keyframes.remove(stream_id),
                ..adapted
            })
        } else {
            is_error(
                reply,
                "not_publisher"@,
                "only the stream publisher can poll publisher feedback"@,
            ) && w == v
        },
    }
}

/// The answer to a publisher setting a target bitrate.
pub open spec fn target_bitrate_reply(
    v: ControlView,
    user: Option<UserId>,
    target: SetTargetBitrate,
    w: ControlView,
    reply: ServerControl,
) -> bool {
    if v.rooms.contains_key(target.room_id) && user is Some && v.rooms[target.room_id].streams.contains_key(target.stream_id)
        && v.rooms[target.room_id].streams[target.stream_id].publisher_id == user->0 {
        let t = spec_stream_target(v, target.stream_id);
        let bitrate = spec_clamp(
            target.bitrate_bps as int,
            MIN_TARGET_BITRATE_BPS as int,
            MAX_TARGET_BITRATE_BPS as int,
        ) as u32;
        &&& w == spec_update_target(v, target.stream_id, bitrate, t.frames_per_second, t.width, t.height)
        &&& reply == ServerControl::PublisherFeedback(
            spec_aggregate_feedback(w, target.room_id, target.stream_id),
        )
    } else {
        w == v && publisher_control_error(v, user, target.room_id, target.stream_id, Some(reply))
    }
}

/// The answer to a publisher setting a target frame rate.
pub open spec fn target_framerate_reply(
    v: ControlView,
    user: Option<UserId>,
    target: SetTargetFramerate,
    w: ControlView,
    reply: ServerControl,
) -> bool {
    if v.rooms.contains_key(target.room_id) && user is Some && v.rooms[target.room_id].streams.contains_key(target.stream_id)
        && v.rooms[target.room_id].streams[target.stream_id].publisher_id == user->0 {
        let t = spec_stream_target(v, target.stream_id);
        let fps = spec_clamp(
            target.frames_per_second as int,
            MIN_TARGET_FRAMES_PER_SECOND as int,
            MAX_TARGET_FRAMES_PER_SECOND as int,
        ) as u16;
        &&& w == spec_update_target(v, target.stream_id, t.bitrate_bps, fps, t.width, t.height)
        &&& reply == ServerControl::PublisherFeedback(
            spec_aggregate_feedback(w, target.room_id, target.stream_id),
        )
    } else {
        w == v && publisher_control_error(v, user, target.room_id, target.stream_id, Some(reply))
    }
}

impl ControlState {
    pub(crate) fn stream_target(&self, stream_id: StreamId) -> (target: StreamTarget)
        requires
            self.wf(),
        ensures
            target == spec_stream_target(self@, stream_id),
    {
        match self.published_stream(stream_id) {
            Some(stream) => StreamTarget {
                bitrate_bps: stream.target_bitrate_bps,
                frames_per_second: stream.target_frames_per_second,
                width: stream.target_width,
                height: stream.target_height,
            },
            None => StreamTarget {
                bitrate_bps: DEFAULT_TARGET_BITRATE_BPS,
                frames_per_second: DEFAULT_TARGET_FRAMES_PER_SECOND,
                width: 0,
                height: 0,
            },
        }
    }

    pub(crate) fn update_stream_target(
        &mut self,
        stream_id: StreamId,
        bitrate_bps: u32,
        frames_per_second: u16,
        width: u32,
        height: u32,
    )
        requires
            old(self).wf(),
        ensures
            final(self).wf(),
            final(self)@ == spec_update_target(
                old(self)@,
                stream_id,
                bitrate_bps,
                frames_per_second,
                width,
                height,
            ),
    {
        let room_id = match self.room_of_stream(stream_id) {
            Some(r) => r,
            None => {
                return ;
            },
        };
        let stream = match self.rooms.get(&room_id) {
            Some(room) => match room.published_streams.get(&stream_id) {
                Some(stream) => *stream,
                None => {
                    return ;
                },
            },
            None => {
                return ;
            },
        };
        proof {
            let c = choose|q: RoomId| self@.has_stream(q, stream_id);
            assert(self@.has_stream(room_id, stream_id));
        }
        let fps = clamp_u16(frames_per_second, MIN_TARGET_FRAMES_PER_SECOND, MAX_TARGET_FRAMES_PER_SECOND);
        let (w, h) = clamp_target_resolution(width, height);
        let config = match stream.config {
            Some(c) => Some(StreamConfig { frames_per_second: fps, width: w, height: h, ..c }),
            None => None,
        };
        let updated = PublishedStream {
            target_bitrate_bps: clamp_u32(bitrate_bps, MIN_TARGET_BITRATE_BPS, MAX_TARGET_BITRATE_BPS),
            target_frames_per_second: fps,
            target_width: w,
            target_height: h,
            config,
            ..stream
        };
        proof {
            assert(stream.stream_id == stream_id);
        }
        self.replace_stream(room_id, updated);
    }

    pub(crate) fn aggregate_publisher_feedback(&self, room_id: RoomId, stream_id: StreamId) -> (feedback:
        PublisherFeedback)
        requires
            self.wf(),
        ensures
            feedback == spec_aggregate_feedback(self@, room_id, stream_id),
    {
        let target = self.stream_target(stream_id);
        let subscribers = self.subscribers_for_stream(stream_id);
        let total_viewer_count = subscribers.len() as u32;
        let mut degraded_viewer_count: u32 = 0;
        let mut keyframe_requested = self.pending_keyframe_requests.contains_key(&stream_id);
        let ghost v = self@;
        let ghost reports = stream_reports(v, stream_id);
        match self.viewer_stats.get(&stream_id) {
            Some(stream_viewer_stats) => {
                assert(stream_viewer_stats@ == reports);
                let keys = map_keys_u64(stream_viewer_stats);
                let mut i: usize = 0;
                assert(Set::new(|u: UserId| keys@.subrange(0, 0).contains(u) && reports.contains_key(u) && spec_viewer_is_degraded(reports[u])) =~= Set::<UserId>::empty());
                while i < keys.len()
                    invariant
                        0 <= i <= keys@.len(),
                        keys@.to_set() == reports.dom(),
                        strictly_increasing_u64(keys@),
                        stream_viewer_stats@ == reports,
                        Set::new(|u: UserId| keys@.subrange(0, i as int).contains(u) && reports.contains_key(u) && spec_viewer_is_degraded(reports[u])).finite(),
                        degraded_viewer_count == spec_min(
                            Set::new(|u: UserId| keys@.subrange(0, i as int).contains(u) && reports.contains_key(u) && spec_viewer_is_degraded(reports[u])).len() as int,
                            u32::MAX as int,
                        ),
                        keyframe_requested == (v.pending_keyframes.contains_key(stream_id)
                            || exists|u: UserId| keys@.subrange(0, i as int).contains(u) && #[trigger] reports.contains_key(u)
                                && (reports[u].lost_packets > 0 || reports[u].dropped_frames > 0)),
                    decreases keys@.len() - i,
                {
                    let u = keys[i];
                    assert(keys@.to_set().contains(u));
                    let ghost before = Set::new(|q: UserId| keys@.subrange(0, i as int).contains(q) && reports.contains_key(q) && spec_viewer_is_degraded(reports[q]));
                    let ghost after = Set::new(|q: UserId| keys@.subrange(0, i + 1).contains(q) && reports.contains_key(q) && spec_viewer_is_degraded(reports[q]));
                    proof {
                        lemma_prefix_step(keys@, i as int);
                        lemma_increasing_not_in_prefix_u64(keys@, i as int);
                    }
                    match stream_viewer_stats.get(&u) {
                        Some(report) => {
                            if viewer_is_degraded(report) {
                                degraded_viewer_count = degraded_viewer_count.saturating_add(1);
                                proof {
                                    assert(after =~= before.insert(u));
                                    assert(!before.contains(u));
                                }
                            } else {
                                proof {
                                    assert(after =~= before);
                                }
                            }
                            keyframe_requested = keyframe_requested || report.lost_packets > 0
                                || report.dropped_frames > 0;
                        },
                        None => {},
                    }
                    i += 1;
                }
                proof {
                    assert(keys@.subrange(0, keys@.len() as int) =~= keys@);
                    assert forall|u: UserId| reports.contains_key(u) implies #[trigger] keys@.contains(u) by {
                        assert(keys@.to_set().contains(u));
                    }
                    assert(Set::new(|u: UserId| keys@.subrange(0, i as int).contains(u) && reports.contains_key(u) && spec_viewer_is_degraded(reports[u])) =~= degraded_viewers(v, stream_id));
                }
            },
            None => {
                proof {
                    assert(reports =~= Map::<UserId, ViewerStatsReport>::empty());
                    assert(degraded_viewers(v, stream_id) =~= Set::<UserId>::empty());
                }
            },
        }
        PublisherFeedback {
            room_id,
            stream_id,
            aggregate_available_bitrate_bps: target.bitrate_bps,
            target_frames_per_second: target.frames_per_second,
            target_width: target.width,
            target_height: target.height,
            degraded_viewer_count,
            total_viewer_count,
            keyframe_requested,
        }
    }

    pub(crate) fn adaptive_publisher_feedback(&mut self, room_id: RoomId, stream_id: StreamId) -> (feedback:
        PublisherFeedback)
        requires
            old(self).wf(),
        ensures
            final(self).wf(),
            (final(self)@, feedback) == spec_adaptive_feedback(old(self)@, room_id, stream_id),
    {
        let mut feedback = self.aggregate_publisher_feedback(room_id, stream_id);
        let doubled = feedback.degraded_viewer_count as u64 * 2;
        let degraded_twice: u32 = if doubled > u32::MAX as u64 {
            u32::MAX
        } else {
            doubled as u32
        };
        if feedback.total_viewer_count > 0 && degraded_twice >= feedback.total_viewer_count {
            let target = self.stream_target(stream_id);
            assert((target.bitrate_bps as int) * 80 <= u32::MAX * 80) by (nonlinear_arith);
            let scaled_bitrate = target.bitrate_bps as u64 * 80;
            let saturated_bitrate: u32 = if scaled_bitrate > u32::MAX as u64 {
                u32::MAX
            } else {
                scaled_bitrate as u32
            };
            let reduced_bitrate = saturated_bitrate / 100;
            let new_bitrate = if reduced_bitrate > MIN_TARGET_BITRATE_BPS {
                reduced_bitrate
            } else {
                MIN_TARGET_BITRATE_BPS
            };
            let mut new_fps = target.frames_per_second;
            let mut new_width = target.width;
            let mut new_height = target.height;
            if new_bitrate == target.bitrate_bps && target.frames_per_second
                > MIN_TARGET_FRAMES_PER_SECOND {
                assert((target.frames_per_second as int) * 80 <= u16::MAX * 80) by (nonlinear_arith);
                let scaled_fps = target.frames_per_second as u32 * 80;
                let saturated_fps: u16 = if scaled_fps > u16::MAX as u32 {
                    u16::MAX
                } else {
                    scaled_fps as u16
                };
                new_fps = saturated_fps / 100;
                if new_fps < MIN_TARGET_FRAMES_PER_SECOND {
                    new_fps = MIN_TARGET_FRAMES_PER_SECOND;
                }
            }
            if new_bitrate == target.bitrate_bps && new_fps == target.frames_per_second {
                let (w, h) = reduce_resolution(target.width, target.height);
                new_width = w;
                new_height = h;
            }
            proof {
                let n = adapted_targets(target);
                assert(n.bitrate_bps == new_bitrate);
                assert(n.frames_per_second == new_fps);
                assert(n.width == new_width && n.height == new_height);
            }
            self.update_stream_target(stream_id, new_bitrate, new_fps, new_width, new_height);
            feedback.aggregate_available_bitrate_bps = new_bitrate;
            feedback.target_frames_per_second = new_fps;
            feedback.target_width = new_width;
            feedback.target_height = new_height;
            if new_width != target.width || new_height != target.height {
                self.register_keyframe_request(stream_id, KeyframeReason::StreamConfigChanged);
                feedback.keyframe_requested = true;
            }
        }
        feedback
    }

    pub(crate) fn poll_publisher_feedback(
        &mut self,
        session: &Session,
        room_id: RoomId,
        stream_id: StreamId,
    ) -> (reply: ServerControl)
        requires
            old(self).wf(),
        ensures
            final(self).wf(),
            poll_feedback_reply(old(self)@, session.user_id, room_id, stream_id, final(self)@, reply),
    {
        let user_id = match session.user_id {
            Some(u) => u,
            None => {
                return control_error("unauthenticated", "send Hello first");
            },
        };
        match self.publisher_for_stream(stream_id) {
            Some(publisher_id) => {
                if publisher_id == user_id {
                    let feedback = self.adaptive_publisher_feedback(room_id, stream_id);
                    let ghost mid = self@;
                    self.pending_keyframe_requests.remove(&stream_id);
                    proof {
                        crate::relay::control::lemma_valid_same_rooms(mid, self@);
                    }
                    return ServerControl::PublisherFeedback(feedback);
                }
            },
            None => {},
        }
        control_error("not_publisher", "only the stream publisher can poll publisher feedback")
    }

    pub(crate) fn set_target_bitrate(&mut self, session: &Session, target: SetTargetBitrate) -> (reply:
        ServerControl)
        requires
            old(self).wf(),
        ensures
            final(self).wf(),
            target_bitrate_reply(old(self)@, session.user_id, target, final(self)@, reply),
    {
        match self.validate_publisher_control(session, target.room_id, target.stream_id) {
            Some(error) => error,
            None => {
                let current = self.stream_target(target.stream_id);
                let bitrate_bps = clamp_u32(
                    target.bitrate_bps,
                    MIN_TARGET_BITRATE_BPS,
                    MAX_TARGET_BITRATE_BPS,
                );
                self.update_stream_target(
                    target.stream_id,
                    bitrate_bps,
                    current.frames_per_second,
                    current.width,
                    current.height,
                );
                ServerControl::PublisherFeedback(
                    self.aggregate_publisher_feedback(target.room_id, target.stream_id),
                )
            },
        }
    }

    pub(crate) fn set_target_framerate(&mut self, session: &Session, target: SetTargetFramerate) -> (reply:
        ServerControl)
        requires
            old(self).wf(),
        ensures
            final(self).wf(),
            target_framerate_reply(old(self)@, session.user_id, target, final(self)@, reply),
    {
        match self.validate_publisher_control(session, target.room_id, target.stream_id) {
            Some(error) => error,
            None => {
                let current = self.stream_target(target.stream_id);
                let frames_per_second = clamp_u16(
                    target.frames_per_second,
                    MIN_TARGET_FRAMES_PER_SECOND,
                    MAX_TARGET_FRAMES_PER_SECOND,
                );
                self.update_stream_target(
                    target.stream_id,
                    current.bitrate_bps,
                    frames_per_second,
                    current.width,
                    current.height,
                );
                ServerControl::PublisherFeedback(
                    self.aggregate_publisher_feedback(target.room_id, target.stream_id),
                )
            },
        }
    }
}

} // verus!
