//! Remote input: subscribed viewers of a screen stream queue input events
//! for its publisher, who polls them in batches. Each stream's queue holds
//! at most `MAX_QUEUED_REMOTE_INPUTS` events and drops the oldest.

use vstd::prelude::*;

use crate::protocol::control::{
    MediaKind, PollRemoteInput, RemoteInputBatch, RemoteInputEvent, RemoteInputQueued,
    SendRemoteInput, ServerControl, StreamId, UserId,
};
use crate::relay::control::requests::{room_not_found, stream_not_found, unauthenticated};
use crate::relay::control::{control_error, is_error, ControlState, ControlView};
use crate::relay::session::Session;

verus! {

broadcast use {vstd::std_specs::btree::group_btree_axioms, vstd::laws_cmp::group_laws_cmp};

/// How many input events wait for one stream's publisher at most.
pub const MAX_QUEUED_REMOTE_INPUTS: usize = 64;

/// The events waiting for a stream's publisher, oldest first.
pub open spec fn stream_inputs(v: ControlView, stream_id: StreamId) -> Seq<RemoteInputEvent> {
    if v.remote_inputs.contains_key(stream_id) {
        v.remote_inputs[stream_id]
    } else {
        Seq::empty()
    }
}

/// A queue with `event` added at the back, its oldest event dropped first
/// when it is full.
pub open spec fn enqueued_input(queue: Seq<RemoteInputEvent>, event: RemoteInputEvent) -> Seq<
    RemoteInputEvent,
> {
    if queue.len() >= MAX_QUEUED_REMOTE_INPUTS {
        queue.drop_first().push(event)
    } else {
        queue.push(event)
    }
}

/// The answer to a viewer sending input to a stream and the state after
/// it: the stream must be a screen stream of the room that the sender
/// watches; the event joins the publisher's queue.
pub open spec fn send_input_reply(
    v: ControlView,
    user: Option<UserId>,
    request: SendRemoteInput,
    w: ControlView,
    reply: ServerControl,
) -> bool {
    let r = request.room_id;
    let s = request.stream_id;
    match user {
        None => w == v && unauthenticated(reply),
        Some(u) => if !v.rooms.contains_key(r) {
            w == v && room_not_found(reply)
        } else if !v.rooms[r].streams.contains_key(s) {
            w == v && stream_not_found(reply)
        } else if v.rooms[r].streams[s].media_kind != MediaKind::Screen {
            w == v && is_error(
                reply,
                "not_screen_stream"@,
                "remote input goes to screen streams only"@,
            )
        } else if !(v.rooms[r].subscriptions.contains_key(s)
            && v.rooms[r].subscriptions[s].contains(u)) {
            w == v && is_error(
                reply,
                "not_subscribed"@,
                "subscribe to the stream before sending remote input"@,
            )
        } else {
            let queue = stream_inputs(v, s);
            let event = RemoteInputEvent {
                sender_user_id: u,
                sequence_number: request.sequence_number,
                event_time_micros: request.event_time_micros,
                kind: request.kind,
            };
            let queued = enqueued_input(queue, event);
            &&& w == ControlView { remote_inputs: v.remote_inputs.insert(s, queued), ..v }
            &&& reply == ServerControl::RemoteInputQueued(
                RemoteInputQueued {
                    room_id: r,
                    stream_id: s,
                    publisher_id: v.rooms[r].streams[s].publisher_id,
                    queued_events: queued.len() as u16,
                    dropped_events: if queue.len() >= MAX_QUEUED_REMOTE_INPUTS {
                        1
                    } else {
                        0
                    },
                },
            )
        },
    }
}

/// How many events a poll takes: as many as asked for, no more than wait.
pub open spec fn batch_len(queue_len: nat, max_events: u16) -> nat {
    if queue_len < max_events {
        queue_len
    } else {
        max_events as nat
    }
}

/// The answer to a publisher polling a stream's input and the state after
/// it: the oldest waiting events, up to `max_events`, leave the queue.
pub open spec fn poll_input_reply(
    v: ControlView,
    user: Option<UserId>,
    request: PollRemoteInput,
    w: ControlView,
    reply: ServerControl,
) -> bool {
    let r = request.room_id;
    let s = request.stream_id;
    match user {
        None => w == v && unauthenticated(reply),
        Some(u) => if !v.rooms.contains_key(r) {
            w == v && room_not_found(reply)
        } else if !v.rooms[r].streams.contains_key(s) {
            w == v && stream_not_found(reply)
        } else if v.rooms[r].streams[s].publisher_id != u {
            w == v && is_error(
                reply,
                "not_publisher"@,
                "only the stream publisher can poll remote input"@,
            )
        } else {
            let queue = stream_inputs(v, s);
            let n = batch_len(queue.len(), request.max_events);
            &&& w == ControlView {
                remote_inputs: v.remote_inputs.insert(s, queue.skip(n as int)),
                ..v
            }
            &&& reply matches ServerControl::RemoteInputBatch(batch) && batch.room_id == r
                && batch.stream_id == s && batch.events@ == queue.take(n as int)
        },
    }
}

impl ControlState {
    /// Takes `stream_id`'s queue out of the state, empty when it has none.
    fn take_input_queue(&mut self, stream_id: StreamId) -> (queue: Vec<RemoteInputEvent>)
        ensures
            queue@ == stream_inputs(old(self)@, stream_id),
            final(self)@ == (ControlView {
                remote_inputs: old(self)@.remote_inputs.remove(stream_id),
                ..old(self)@
            }),
            old(self).wf() ==> final(self).wf(),
    {
        let queue = match self.remote_inputs.remove(&stream_id) {
            Some(q) => q,
            None => Vec::new(),
        };
        proof {
            assert(self@.remote_inputs =~= old(self)@.remote_inputs.remove(stream_id));
            assert(self@.rooms =~= old(self)@.rooms);
            assert(self@.viewer_stats =~= old(self)@.viewer_stats);
            assert(self@.voice_states =~= old(self)@.voice_states);
            if old(self).wf() {
                crate::relay::control::lemma_valid_same_rooms(old(self)@, self@);
            }
        }
        queue
    }

    /// Puts `queue` back as `stream_id`'s queue.
    fn put_input_queue(&mut self, stream_id: StreamId, queue: Vec<RemoteInputEvent>)
        ensures
            final(self)@ == (ControlView {
                remote_inputs: old(self)@.remote_inputs.insert(stream_id, queue@),
                ..old(self)@
            }),
            old(self).wf() ==> final(self).wf(),
    {
        let ghost q = queue@;
        self.remote_inputs.insert(stream_id, queue);
        proof {
            assert(self@.remote_inputs =~= old(self)@.remote_inputs.insert(stream_id, q));
            assert(self@.rooms =~= old(self)@.rooms);
            assert(self@.viewer_stats =~= old(self)@.viewer_stats);
            assert(self@.voice_states =~= old(self)@.voice_states);
            if old(self).wf() {
                crate::relay::control::lemma_valid_same_rooms(old(self)@, self@);
            }
        }
    }

    /// Queues a viewer's input event for the stream's publisher.
    pub(crate) fn send_remote_input(&mut self, session: &Session, request: SendRemoteInput) -> (reply:
        ServerControl)
        requires
            old(self).wf(),
        ensures
            final(self).wf(),
            send_input_reply(old(self)@, session.user_id, request, final(self)@, reply),
    {
        let user_id = match session.user_id {
            Some(u) => u,
            None => {
                return control_error("unauthenticated", "send Hello first");
            },
        };
        let publisher_id = match self.room(request.room_id) {
            None => {
                return control_error("room_not_found", "room does not exist");
            },
            Some(room) => {
                let stream = match room.published_streams.get(&request.stream_id) {
                    Some(stream) => stream,
                    None => {
                        return control_error("stream_not_found", "stream does not exist");
                    },
                };
                match stream.media_kind {
                    MediaKind::Screen => {},
                    _ => {
                        return control_error(
                            "not_screen_stream",
                            "remote input goes to screen streams only",
                        );
                    },
                }
                let subscribed = match room.subscriptions.get(&request.stream_id) {
                    Some(subscribers) => subscribers.contains(&user_id),
                    None => false,
                };
                if !subscribed {
                    return control_error(
                        "not_subscribed",
                        "subscribe to the stream before sending remote input",
                    );
                }
                stream.publisher_id
            },
        };
        let ghost v0 = self@;
        let stream_id = request.stream_id;
        let mut queue = self.take_input_queue(stream_id);
        let dropped: u16 = if queue.len() >= MAX_QUEUED_REMOTE_INPUTS {
            queue.remove(0);
            1
        } else {
            0
        };
        queue.push(
            RemoteInputEvent {
                sender_user_id: user_id,
                sequence_number: request.sequence_number,
                event_time_micros: request.event_time_micros,
                kind: request.kind,
            },
        );
        let queued_events = queue.len() as u16;
        self.put_input_queue(stream_id, queue);
        proof {
            assert(self@.remote_inputs =~= v0.remote_inputs.insert(
                stream_id,
                enqueued_input(
                    stream_inputs(v0, stream_id),
                    RemoteInputEvent {
                        sender_user_id: user_id,
                        sequence_number: request.sequence_number,
                        event_time_micros: request.event_time_micros,
                        kind: request.kind,
                    },
                ),
            ));
        }
        ServerControl::RemoteInputQueued(
            RemoteInputQueued {
                room_id: request.room_id,
                stream_id,
                publisher_id,
                queued_events,
                dropped_events: dropped,
            },
        )
    }

    /// Hands the stream's publisher the oldest queued input events.
    pub(crate) fn poll_remote_input(&mut self, session: &Session, request: PollRemoteInput) -> (reply:
        ServerControl)
        requires
            old(self).wf(),
        ensures
            final(self).wf(),
            poll_input_reply(old(self)@, session.user_id, request, final(self)@, reply),
    {
        let user_id = match session.user_id {
            Some(u) => u,
            None => {
                return control_error("unauthenticated", "send Hello first");
            },
        };
        match self.room(request.room_id) {
            None => {
                return control_error("room_not_found", "room does not exist");
            },
            Some(room) => {
                match room.published_streams.get(&request.stream_id) {
                    Some(stream) => {
                        if stream.publisher_id != user_id {
                            return control_error(
                                "not_publisher",
                                "only the stream publisher can poll remote input",
                            );
                        }
                    },
                    None => {
                        return control_error("stream_not_found", "stream does not exist");
                    },
                }
            },
        }
        let ghost v0 = self@;
        let stream_id = request.stream_id;
        let mut events = self.take_input_queue(stream_id);
        let ghost queue = events@;
        let n: usize = if events.len() < request.max_events as usize {
            events.len()
        } else {
            request.max_events as usize
        };
        let rest = events.split_off(n);
        self.put_input_queue(stream_id, rest);
        proof {
            assert(n == batch_len(queue.len(), request.max_events));
            assert(self@.remote_inputs =~= v0.remote_inputs.insert(stream_id, queue.skip(n as int)));
            assert(events@ =~= queue.take(n as int));
        }
        ServerControl::RemoteInputBatch(
            RemoteInputBatch { room_id: request.room_id, stream_id, events },
        )
    }
}

} // verus!
