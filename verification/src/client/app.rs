//! The desktop client's view model: the channels found on the relay, the
//! channel in view, and the local voice and screen-share controls.

use vstd::prelude::*;

use crate::protocol::codec::CodecId;
use crate::protocol::control::{
    MediaKind, ParticipantSummary, RoomId, RoomSummary, StreamConfig, StreamId, StreamSummary,
    UserId,
};
use crate::text::{prefixed_decimal, push_text, spec_decimal};

verus! {

#[derive(Debug, Clone, Copy, PartialEq, Eq, Structural)]
pub enum ClientRole {
    Broadcaster,
    Viewer,
}

#[derive(Debug, Clone, Copy, PartialEq, Eq, Structural)]
pub enum ConnectionStatus {
    Disconnected,
    Connecting,
    Connected,
}

#[derive(Debug, Clone, PartialEq, Eq)]
pub struct ClientApp {
    pub role: ClientRole,
    pub connection: ConnectionStatus,
    pub relay_addr: String,
    pub selected_channel_id: Option<RoomId>,
    pub channels: Vec<ChannelView>,
    pub local_voice: VoiceControlState,
    pub local_screen_share: ScreenShareControlState,
    pub status_line: String,
}

#[derive(Debug, Clone, PartialEq, Eq)]
pub struct ChannelView {
    pub channel_id: RoomId,
    pub name: String,
    pub participant_count: u32,
    pub published_stream_count: u32,
    pub participants: Vec<ParticipantView>,
    pub screen_stream: Option<ScreenStreamView>,
    pub voice_stream: Option<VoiceStreamView>,
}

#[derive(Debug, Clone, PartialEq, Eq)]
pub struct ParticipantView {
    pub user_id: UserId,
    pub display_name: String,
    pub muted: bool,
    pub deafened: bool,
    pub push_to_talk: bool,
    pub speaking: bool,
    pub sharing_screen: bool,
}

#[derive(Debug, Clone, PartialEq, Eq)]
pub struct ScreenStreamView {
    pub stream_id: StreamId,
    pub publisher_id: UserId,
    pub codec: CodecId,
    pub title: String,
    pub width: u32,
    pub height: u32,
    pub frames_per_second: u16,
    pub subscribed: bool,
    pub rendered_frames: u64,
    pub dropped_frames: u64,
    pub latency_ms: u16,
    pub bitrate_bps: u32,
}

#[derive(Debug, Clone, Copy, PartialEq, Eq, Structural)]
pub struct VoiceStreamView {
    pub stream_id: StreamId,
    pub publisher_id: UserId,
    pub codec: CodecId,
    pub frames_per_second: u16,
    pub subscribed: bool,
    pub decoded_frames: u64,
    pub dropped_frames: u64,
    pub latency_ms: u16,
    pub bitrate_bps: u32,
}

#[derive(Debug, Clone, PartialEq, Eq)]
pub struct VoiceControlState {
    pub muted: bool,
    pub deafened: bool,
    pub push_to_talk: bool,
    pub ptt_active: bool,
    pub input_label: String,
    pub output_label: String,
}

#[derive(Debug, Clone, PartialEq, Eq)]
pub struct ScreenShareControlState {
    pub sharing: bool,
    pub stream_id: StreamId,
    pub source_label: String,
    pub target_width: u32,
    pub target_height: u32,
    pub target_fps: u16,
}

/// What the client learned from the relay, and the local controls, from
/// which the view model is built.
#[derive(Debug, Clone, Copy)]
pub struct ClientAppDiscovery<'a> {
    pub role: ClientRole,
    pub relay_addr: &'a str,
    pub selected_channel_id: Option<RoomId>,
    pub rooms: &'a [RoomSummary],
    pub streams: &'a [StreamSummary],
    pub stream_configs: &'a [StreamConfig],
    pub participants: &'a [ParticipantSummary],
    pub local_voice: &'a VoiceControlState,
    pub local_screen_share: &'a ScreenShareControlState,
}

/// The configuration sent for a stream: the first one for its room and id.
pub open spec fn config_for(stream: StreamSummary, configs: Seq<StreamConfig>) -> Option<
    StreamConfig,
>
    decreases configs.len(),
{
    if configs.len() == 0 {
        None
    } else if configs[0].room_id == stream.room_id && configs[0].stream_id == stream.stream_id {
        Some(configs[0])
    } else {
        config_for(stream, configs.drop_first())
    }
}

/// The index of the first stream of the room and kind with the lowest
/// stream id, if the room has one of that kind.
pub open spec fn first_min_stream(streams: Seq<StreamSummary>, room_id: RoomId, kind: MediaKind) -> Option<int>
    decreases streams.len(),
{
    if streams.len() == 0 {
        None
    } else {
        let rest = first_min_stream(streams.drop_last(), room_id, kind);
        let last = streams.last();
        if last.room_id == room_id && last.media_kind == kind && (rest is None || last.stream_id
            < streams[rest->0].stream_id) {
            Some(streams.len() - 1)
        } else {
            rest
        }
    }
}

/// Whether a participant publishes a screen stream among `streams`.
pub open spec fn shares_screen(user_id: UserId, streams: Seq<StreamSummary>) -> bool {
    exists|i: int|
        0 <= i < streams.len() && #[trigger] streams[i].publisher_id == user_id
            && streams[i].media_kind == MediaKind::Screen
}

pub open spec fn spec_participant_view(p: ParticipantSummary, streams: Seq<StreamSummary>) -> ParticipantView {
    ParticipantView {
        user_id: p.user_id,
        display_name: p.display_name,
        muted: p.muted,
        deafened: p.deafened,
        push_to_talk: p.push_to_talk,
        speaking: p.speaking,
        sharing_screen: shares_screen(p.user_id, streams),
    }
}

/// A screen stream as the client shows it: sized by its configuration if
/// one was sent, else unsized at its target frame rate.
pub open spec fn screen_view_of(v: ScreenStreamView, stream: StreamSummary, configs: Seq<StreamConfig>) -> bool {
    let config = config_for(stream, configs);
    &&& v.stream_id == stream.stream_id
    &&& v.publisher_id == stream.publisher_id
    &&& v.codec == stream.codec
    &&& v.title@ == "Screen stream "@ + spec_decimal(stream.stream_id as nat)
    &&& v.width == match config {
        Some(c) => c.width,
        None => 0,
    }
    &&& v.height == match config {
        Some(c) => c.height,
        None => 0,
    }
    &&& v.frames_per_second == match config {
        Some(c) => c.frames_per_second,
        None => stream.target_frames_per_second,
    }
    &&& !v.subscribed
    &&& v.rendered_frames == 0
    &&& v.dropped_frames == 0
    &&& v.latency_ms == 0
    &&& v.bitrate_bps == stream.target_bitrate_bps
}

pub open spec fn spec_voice_view(stream: StreamSummary, configs: Seq<StreamConfig>) -> VoiceStreamView {
    VoiceStreamView {
        stream_id: stream.stream_id,
        publisher_id: stream.publisher_id,
        codec: stream.codec,
        frames_per_second: match config_for(stream, configs) {
            Some(c) => c.frames_per_second,
            None => stream.target_frames_per_second,
        },
        subscribed: false,
        decoded_frames: 0,
        dropped_frames: 0,
        latency_ms: 0,
        bitrate_bps: stream.target_bitrate_bps,
    }
}

/// A room as a channel: its participants as listed (their count held at
/// `u32::MAX`, the room's own count when none are listed), and its lowest
/// numbered screen and voice streams.
pub open spec fn channel_of(
    c: ChannelView,
    room: RoomSummary,
    streams: Seq<StreamSummary>,
    configs: Seq<StreamConfig>,
    participants: Seq<ParticipantSummary>,
) -> bool {
    &&& c.channel_id == room.room_id
    &&& c.name == room.name
    &&& c.participant_count == if participants.len() == 0 {
        room.participant_count
    } else if participants.len() > u32::MAX {
        u32::MAX
    } else {
        participants.len() as u32
    }
    &&& c.published_stream_count == room.published_stream_count
    &&& c.participants@ == Seq::new(
        participants.len(),
        |i: int| spec_participant_view(participants[i], streams),
    )
    &&& match first_min_stream(streams, room.room_id, MediaKind::Screen) {
        Some(i) => c.screen_stream matches Some(s) && screen_view_of(s, streams[i], configs),
        None => c.screen_stream is None,
    }
    &&& c.voice_stream == match first_min_stream(streams, room.room_id, MediaKind::Voice) {
        Some(i) => Some(spec_voice_view(streams[i], configs)),
        None => None,
    }
}

pub open spec fn has_channel(channels: Seq<ChannelView>, channel_id: RoomId) -> bool {
    exists|i: int| 0 <= i < channels.len() && #[trigger] channels[i].channel_id == channel_id
}

/// The selection once a channel list is loaded: kept if still listed,
/// else the first channel, else none.
pub open spec fn selection_after_load(selected: Option<RoomId>, channels: Seq<ChannelView>) -> Option<RoomId> {
    if selected matches Some(id) && has_channel(channels, id) {
        selected
    } else if channels.len() > 0 {
        Some(channels[0].channel_id)
    } else {
        None
    }
}

/// The channel a discovery selects: the one asked for, else the first room.
pub open spec fn discovery_selection(d: ClientAppDiscovery) -> Option<RoomId> {
    match d.selected_channel_id {
        Some(id) => Some(id),
        None => if d.rooms@.len() > 0 {
            Some(d.rooms@[0].room_id)
        } else {
            None
        },
    }
}

/// The number of participants who speak unmuted.
pub open spec fn speaker_count(participants: Seq<ParticipantView>) -> nat
    decreases participants.len(),
{
    if participants.len() == 0 {
        0
    } else {
        speaker_count(participants.drop_last()) + if participants.last().speaking
            && !participants.last().muted {
            1nat
        } else {
            0nat
        }
    }
}

/// The active speakers are exactly the participants who speak and are not
/// muted: their count is the length of that selection, and a participant
/// who does not speak, or is muted, adds nothing to it.
pub proof fn law_active_speakers_speak_unmuted(participants: Seq<ParticipantView>, extra: ParticipantView)
    ensures
        speaker_count(participants) == participants.filter(|p: ParticipantView| p.speaking && !p.muted).len(),
        speaker_count(participants.push(extra)) == speaker_count(participants) + if extra.speaking
            && !extra.muted {
            1int
        } else {
            0int
        },
        speaker_count(participants) <= participants.len(),
    decreases participants.len(),
{
    reveal_with_fuel(Seq::filter, 2);
    let pred = |p: ParticipantView| p.speaking && !p.muted;
    assert(participants.push(extra).drop_last() =~= participants);
    if participants.len() > 0 {
        law_active_speakers_speak_unmuted(participants.drop_last(), participants.last());
    }
}

pub open spec fn default_voice(v: VoiceControlState) -> bool {
    &&& !v.muted
    &&& !v.deafened
    &&& !v.push_to_talk
    &&& !v.ptt_active
    &&& v.input_label@ == "Default microphone"@
    &&& v.output_label@ == "Default speaker"@
}

pub open spec fn default_screen_share(s: ScreenShareControlState) -> bool {
    &&& !s.sharing
    &&& s.stream_id == 1
    &&& s.source_label@ == "Primary monitor"@
    &&& s.target_width == 1280
    &&& s.target_height == 720
    &&& s.target_fps == 30
}

impl Default for VoiceControlState {
    fn default() -> (state: VoiceControlState)
        ensures
            default_voice(state),
    {
        VoiceControlState {
            muted: false,
            deafened: false,
            push_to_talk: false,
            ptt_active: false,
            input_label: "Default microphone".to_owned(),
            output_label: "Default speaker".to_owned(),
        }
    }
}

impl Default for ScreenShareControlState {
    fn default() -> (state: ScreenShareControlState)
        ensures
            default_screen_share(state),
    {
        ScreenShareControlState {
            sharing: false,
            stream_id: 1,
            source_label: "Primary monitor".to_owned(),
            target_width: 1280,
            target_height: 720,
            target_fps: 30,
        }
    }
}

impl VoiceControlState {
    /// An equal copy.
    pub fn duplicate(&self) -> (copy: VoiceControlState)
        ensures
            copy == *self,
    {
        VoiceControlState {
            muted: self.muted,
            deafened: self.deafened,
            push_to_talk: self.push_to_talk,
            ptt_active: self.ptt_active,
            input_label: self.input_label.clone(),
            output_label: self.output_label.clone(),
        }
    }
}

impl ScreenShareControlState {
    /// An equal copy.
    pub fn duplicate(&self) -> (copy: ScreenShareControlState)
        ensures
            copy == *self,
    {
        ScreenShareControlState {
            sharing: self.sharing,
            stream_id: self.stream_id,
            source_label: self.source_label.clone(),
            target_width: self.target_width,
            target_height: self.target_height,
            target_fps: self.target_fps,
        }
    }
}

fn stream_config_for(stream: &StreamSummary, configs: &[StreamConfig]) -> (config: Option<StreamConfig>)
    ensures
        config == config_for(*stream, configs@),
{
    let mut i: usize = 0;
    assert(configs@.skip(0) =~= configs@);
    while i < configs.len()
        invariant
            0 <= i <= configs@.len(),
            config_for(*stream, configs@) == config_for(*stream, configs@.skip(i as int)),
        decreases configs@.len() - i,
    {
        let config = configs[i];
        if config.room_id == stream.room_id && config.stream_id == stream.stream_id {
            return Some(config);
        }
        assert(configs@.skip(i as int).drop_first() =~= configs@.skip(i + 1));
        i += 1;
    }
    assert(configs@.skip(i as int) =~= Seq::<StreamConfig>::empty());
    None
}

fn lowest_stream(streams: &[StreamSummary], room_id: RoomId, kind: MediaKind) -> (index: Option<usize>)
    ensures
        match first_min_stream(streams@, room_id, kind) {
            Some(i) => index == Some(i as usize) && 0 <= i < streams@.len(),
            None => index is None,
        },
{
    let mut best: Option<usize> = None;
    let mut i: usize = 0;
    while i < streams.len()
        invariant
            0 <= i <= streams@.len(),
            match first_min_stream(streams@.take(i as int), room_id, kind) {
                Some(k) => best == Some(k as usize) && 0 <= k < i,
                None => best is None,
            },
        decreases streams@.len() - i,
    {
        let stream = streams[i];
        let ghost prefix = streams@.take(i + 1);
        proof {
            assert(prefix.drop_last() =~= streams@.take(i as int));
            assert(prefix.last() == stream);
        }
        if stream.room_id == room_id && stream.media_kind == kind {
            match best {
                Some(b) => {
                    assert(prefix[b as int] == streams@[b as int]);
                    if stream.stream_id < streams[b].stream_id {
                        best = Some(i);
                    }
                },
                None => {
                    best = Some(i);
                },
            }
        }
        i += 1;
    }
    assert(streams@.take(i as int) =~= streams@);
    best
}

fn publishes_screen(user_id: UserId, streams: &[StreamSummary]) -> (sharing: bool)
    ensures
        sharing == shares_screen(user_id, streams@),
{
    let mut i: usize = 0;
    while i < streams.len()
        invariant
            0 <= i <= streams@.len(),
            forall|j: int|
                0 <= j < i ==> !(#[trigger] streams@[j].publisher_id == user_id
                    && streams@[j].media_kind == MediaKind::Screen),
        decreases streams@.len() - i,
    {
        if streams[i].publisher_id == user_id && streams[i].media_kind == MediaKind::Screen {
            assert(streams@[i as int].publisher_id == user_id);
            return true;
        }
        i += 1;
    }
    false
}

impl ParticipantView {
    pub fn from_summary(participant: &ParticipantSummary, streams: &[StreamSummary]) -> (view: ParticipantView)
        ensures
            view == spec_participant_view(*participant, streams@),
    {
        ParticipantView {
            user_id: participant.user_id,
            display_name: participant.display_name.clone(),
            muted: participant.muted,
            deafened: participant.deafened,
            push_to_talk: participant.push_to_talk,
            speaking: participant.speaking,
            sharing_screen: publishes_screen(participant.user_id, streams),
        }
    }
}

impl ScreenStreamView {
    pub fn from_summary(stream: &StreamSummary, stream_configs: &[StreamConfig]) -> (view: ScreenStreamView)
        ensures
            screen_view_of(view, *stream, stream_configs@),
    {
        let config = stream_config_for(stream, stream_configs);
        let (width, height, frames_per_second) = match config {
            Some(c) => (c.width, c.height, c.frames_per_second),
            None => (0, 0, stream.target_frames_per_second),
        };
        ScreenStreamView {
            stream_id: stream.stream_id,
            publisher_id: stream.publisher_id,
            codec: stream.codec,
            title: prefixed_decimal("Screen stream ", stream.stream_id as u64),
            width,
            height,
            frames_per_second,
            subscribed: false,
            rendered_frames: 0,
            dropped_frames: 0,
            latency_ms: 0,
            bitrate_bps: stream.target_bitrate_bps,
        }
    }
}

impl VoiceStreamView {
    pub fn from_summary(stream: &StreamSummary, stream_configs: &[StreamConfig]) -> (view: VoiceStreamView)
        ensures
            view == spec_voice_view(*stream, stream_configs@),
    {
        let frames_per_second = match stream_config_for(stream, stream_configs) {
            Some(c) => c.frames_per_second,
            None => stream.target_frames_per_second,
        };
        VoiceStreamView {
            stream_id: stream.stream_id,
            publisher_id: stream.publisher_id,
            codec: stream.codec,
            frames_per_second,
            subscribed: false,
            decoded_frames: 0,
            dropped_frames: 0,
            latency_ms: 0,
            bitrate_bps: stream.target_bitrate_bps,
        }
    }
}

impl ChannelView {
    /// An empty channel.
    pub fn new(channel_id: RoomId, name: &str) -> (channel: ChannelView)
        ensures
            channel.channel_id == channel_id,
            channel.name@ == name@,
            channel.participant_count == 0,
            channel.published_stream_count == 0,
            channel.participants@ == Seq::<ParticipantView>::empty(),
            channel.screen_stream is None,
            channel.voice_stream is None,
    {
        ChannelView {
            channel_id,
            name: name.to_owned(),
            participant_count: 0,
            published_stream_count: 0,
            participants: Vec::new(),
            screen_stream: None,
            voice_stream: None,
        }
    }

    pub fn from_discovery(
        room: &RoomSummary,
        streams: &[StreamSummary],
        stream_configs: &[StreamConfig],
        participants: &[ParticipantSummary],
    ) -> (channel: ChannelView)
        ensures
            channel_of(channel, *room, streams@, stream_configs@, participants@),
    {
        let mut views: Vec<ParticipantView> = Vec::new();
        let mut i: usize = 0;
        while i < participants.len()
            invariant
                0 <= i <= participants@.len(),
                views@ == Seq::new(
                    i as nat,
                    |k: int| spec_participant_view(participants@[k], streams@),
                ),
            decreases participants@.len() - i,
        {
            let view = ParticipantView::from_summary(&participants[i], streams);
            views.push(view);
            i += 1;
            assert(views@ =~= Seq::new(
                i as nat,
                |k: int| spec_participant_view(participants@[k], streams@),
            ));
        }
        let participant_count: u32 = if participants.len() == 0 {
            room.participant_count
        } else if participants.len() > u32::MAX as usize {
            u32::MAX
        } else {
            participants.len() as u32
        };
        let screen_stream = match lowest_stream(streams, room.room_id, MediaKind::Screen) {
            Some(k) => Some(ScreenStreamView::from_summary(&streams[k], stream_configs)),
            None => None,
        };
        let voice_stream = match lowest_stream(streams, room.room_id, MediaKind::Voice) {
            Some(k) => Some(VoiceStreamView::from_summary(&streams[k], stream_configs)),
            None => None,
        };
        ChannelView {
            channel_id: room.room_id,
            name: room.name.clone(),
            participant_count,
            published_stream_count: room.published_stream_count,
            participants: views,
            screen_stream,
            voice_stream,
        }
    }

    /// How many participants speak unmuted.
    pub fn active_speaker_count(&self) -> (count: usize)
        ensures
            count == speaker_count(self.participants@),
    {
        let mut count: usize = 0;
        let mut i: usize = 0;
        while i < self.participants.len()
            invariant
                0 <= i <= self.participants@.len(),
                count == speaker_count(self.participants@.take(i as int)),
                count <= i,
            decreases self.participants@.len() - i,
        {
            proof {
                let next = self.participants@.take(i + 1);
                assert(next.drop_last() =~= self.participants@.take(i as int));
            }
            if self.participants[i].speaking && !self.participants[i].muted {
                count += 1;
            }
            i += 1;
        }
        assert(self.participants@.take(i as int) =~= self.participants@);
        count
    }

    /// Whether a screen is shared here: a screen stream, or a participant
    /// sharing one.
    pub fn screen_share_active(&self) -> (active: bool)
        ensures
            active == (self.screen_stream is Some || exists|i: int|
                0 <= i < self.participants@.len() && #[trigger] self.participants@[i].sharing_screen),
    {
        if self.screen_stream.is_some() {
            return true;
        }
        let mut i: usize = 0;
        while i < self.participants.len()
            invariant
                0 <= i <= self.participants@.len(),
                forall|j: int| 0 <= j < i ==> !#[trigger] self.participants@[j].sharing_screen,
            decreases self.participants@.len() - i,
        {
            if self.participants[i].sharing_screen {
                return true;
            }
            i += 1;
        }
        false
    }
}

fn find_channel(channels: &Vec<ChannelView>, channel_id: RoomId) -> (index: Option<usize>)
    ensures
        match index {
            Some(i) => i < channels@.len() && channels@[i as int].channel_id == channel_id
                && forall|j: int| 0 <= j < i ==> #[trigger] channels@[j].channel_id != channel_id,
            None => !has_channel(channels@, channel_id),
        },
{
    let mut i: usize = 0;
    while i < channels.len()
        invariant
            0 <= i <= channels@.len(),
            forall|j: int| 0 <= j < i ==> #[trigger] channels@[j].channel_id != channel_id,
        decreases channels@.len() - i,
    {
        if channels[i].channel_id == channel_id {
            return Some(i);
        }
        i += 1;
    }
    None
}

impl ClientApp {
    /// A disconnected client with no channels.
    pub fn new(role: ClientRole) -> (app: ClientApp)
        ensures
            app.role == role,
            app.connection == ConnectionStatus::Disconnected,
            app.relay_addr@ == "127.0.0.1:4433"@,
            app.selected_channel_id is None,
            app.channels@ == Seq::<ChannelView>::empty(),
            default_voice(app.local_voice),
            default_screen_share(app.local_screen_share),
            app.status_line@ == "Disconnected"@,
    {
        ClientApp {
            role,
            connection: ConnectionStatus::Disconnected,
            relay_addr: "127.0.0.1:4433".to_owned(),
            selected_channel_id: None,
            channels: Vec::new(),
            local_voice: VoiceControlState::default(),
            local_screen_share: ScreenShareControlState::default(),
            status_line: "Disconnected".to_owned(),
        }
    }

    /// The view model of a connected client: one channel per room, with
    /// the selected room's streams, configurations and participants; the
    /// room asked for is selected if listed, else the first.
    pub fn from_discovery(discovery: ClientAppDiscovery<'_>) -> (app: ClientApp)
        ensures
            app.role == discovery.role,
            app.connection == ConnectionStatus::Connected,
            app.relay_addr@ == discovery.relay_addr@,
            app.status_line@ == "Connected to "@ + discovery.relay_addr@,
            app.local_voice == *discovery.local_voice,
            app.local_screen_share == *discovery.local_screen_share,
            app.channels@.len() == discovery.rooms@.len(),
            forall|i: int|
                0 <= i < discovery.rooms@.len() ==> {
                    let room = #[trigger] discovery.rooms@[i];
                    if discovery_selection(discovery) == Some(room.room_id) {
                        channel_of(
                            app.channels@[i],
                            room,
                            discovery.streams@,
                            discovery.stream_configs@,
                            discovery.participants@,
                        )
                    } else {
                        channel_of(
                            app.channels@[i],
                            room,
                            Seq::empty(),
                            Seq::empty(),
                            Seq::empty(),
                        )
                    }
                },
            app.selected_channel_id == selection_after_load(
                discovery_selection(discovery),
                app.channels@,
            ),
    {
        let mut app = ClientApp::new(discovery.role);
        app.connection = ConnectionStatus::Connected;
        app.relay_addr = discovery.relay_addr.to_owned();
        let mut status = "Connected to ".to_owned();
        push_text(&mut status, discovery.relay_addr);
        app.status_line = status;
        app.local_voice = discovery.local_voice.duplicate();
        app.local_screen_share = discovery.local_screen_share.duplicate();
        let selected_channel_id = match discovery.selected_channel_id {
            Some(id) => Some(id),
            None => if discovery.rooms.len() > 0 {
                Some(discovery.rooms[0].room_id)
            } else {
                None
            },
        };
        let no_streams: Vec<StreamSummary> = Vec::new();
        let no_configs: Vec<StreamConfig> = Vec::new();
        let no_participants: Vec<ParticipantSummary> = Vec::new();
        let mut channels: Vec<ChannelView> = Vec::new();
        let mut i: usize = 0;
        while i < discovery.rooms.len()
            invariant
                0 <= i <= discovery.rooms@.len(),
                selected_channel_id == discovery_selection(discovery),
                no_streams@ == Seq::<StreamSummary>::empty(),
                no_configs@ == Seq::<StreamConfig>::empty(),
                no_participants@ == Seq::<ParticipantSummary>::empty(),
                channels@.len() == i,
                forall|k: int|
                    0 <= k < i ==> {
                        let room = #[trigger] discovery.rooms@[k];
                        if discovery_selection(discovery) == Some(room.room_id) {
                            channel_of(
                                channels@[k],
                                room,
                                discovery.streams@,
                                discovery.stream_configs@,
                                discovery.participants@,
                            )
                        } else {
                            channel_of(
                                channels@[k],
                                room,
                                Seq::empty(),
                                Seq::empty(),
                                Seq::empty(),
                            )
                        }
                    },
            decreases discovery.rooms@.len() - i,
        {
            let room = &discovery.rooms[i];
            let is_selected = match selected_channel_id {
                Some(id) => id == room.room_id,
                None => false,
            };
            let channel = if is_selected {
                ChannelView::from_discovery(
                    room,
                    discovery.streams,
                    discovery.stream_configs,
                    discovery.participants,
                )
            } else {
                ChannelView::from_discovery(
                    room,
                    no_streams.as_slice(),
                    no_configs.as_slice(),
                    no_participants.as_slice(),
                )
            };
            channels.push(channel);
            i += 1;
        }
        let ghost built = channels@;
        app.set_channels(channels);
        match selected_channel_id {
            Some(channel_id) => {
                app.select_channel(channel_id);
            },
            None => {},
        }
        proof {
            assert(app.channels@ == built);
        }
        app
    }

    /// Connecting to a relay.
    pub fn connecting(&mut self, relay_addr: &str)
        ensures
            final(self).connection == ConnectionStatus::Connecting,
            final(self).relay_addr@ == relay_addr@,
            final(self).status_line@ == "Connecting to "@ + relay_addr@,
            final(self).role == old(self).role,
            final(self).selected_channel_id == old(self).selected_channel_id,
            final(self).channels == old(self).channels,
            final(self).local_voice == old(self).local_voice,
            final(self).local_screen_share == old(self).local_screen_share,
    {
        self.connection = ConnectionStatus::Connecting;
        self.relay_addr = relay_addr.to_owned();
        let mut status = "Connecting to ".to_owned();
        push_text(&mut status, relay_addr);
        self.status_line = status;
    }

    pub fn connected(&mut self)
        ensures
            final(self).connection == ConnectionStatus::Connected,
            final(self).status_line@ == "Connected to "@ + old(self).relay_addr@,
            final(self).relay_addr == old(self).relay_addr,
            final(self).role == old(self).role,
            final(self).selected_channel_id == old(self).selected_channel_id,
            final(self).channels == old(self).channels,
            final(self).local_voice == old(self).local_voice,
            final(self).local_screen_share == old(self).local_screen_share,
    {
        self.connection = ConnectionStatus::Connected;
        let mut status = "Connected to ".to_owned();
        push_text(&mut status, self.relay_addr.as_str());
        self.status_line = status;
    }

    pub fn disconnected(&mut self)
        ensures
            final(self).connection == ConnectionStatus::Disconnected,
            final(self).selected_channel_id is None,
            final(self).status_line@ == "Disconnected"@,
            final(self).relay_addr == old(self).relay_addr,
            final(self).role == old(self).role,
            final(self).channels == old(self).channels,
            final(self).local_voice == old(self).local_voice,
            final(self).local_screen_share == old(self).local_screen_share,
    {
        self.connection = ConnectionStatus::Disconnected;
        self.selected_channel_id = None;
        self.status_line = "Disconnected".to_owned();
    }

    /// Loads a channel list: a selection no longer listed falls back to
    /// the first channel.
    pub fn set_channels(&mut self, channels: Vec<ChannelView>)
        ensures
            final(self).channels@ == channels@,
            final(self).selected_channel_id == selection_after_load(
                old(self).selected_channel_id,
                channels@,
            ),
            final(self).role == old(self).role,
            final(self).connection == old(self).connection,
            final(self).relay_addr == old(self).relay_addr,
            final(self).local_voice == old(self).local_voice,
            final(self).local_screen_share == old(self).local_screen_share,
            final(self).status_line == old(self).status_line,
    {
        self.channels = channels;
        match self.selected_channel_id {
            Some(selected) => {
                if find_channel(&self.channels, selected).is_none() {
                    self.selected_channel_id = None;
                }
            },
            None => {},
        }
        if self.selected_channel_id.is_none() {
            self.selected_channel_id = if self.channels.len() > 0 {
                Some(self.channels[0].channel_id)
            } else {
                None
            };
        }
    }

    /// Selects a listed channel; an unlisted one is refused.
    pub fn select_channel(&mut self, channel_id: RoomId) -> (selected: bool)
        ensures
            selected == has_channel(old(self).channels@, channel_id),
            final(self).selected_channel_id == if selected {
                Some(channel_id)
            } else {
                old(self).selected_channel_id
            },
            final(self).channels == old(self).channels,
            final(self).role == old(self).role,
            final(self).connection == old(self).connection,
            final(self).relay_addr == old(self).relay_addr,
            final(self).local_voice == old(self).local_voice,
            final(self).local_screen_share == old(self).local_screen_share,
            final(self).status_line == old(self).status_line,
    {
        match find_channel(&self.channels, channel_id) {
            Some(_) => {
                self.selected_channel_id = Some(channel_id);
                true
            },
            None => false,
        }
    }

    /// The first listed channel with the selected id.
    pub fn selected_channel(&self) -> (channel: Option<&ChannelView>)
        ensures
            match self.selected_channel_id {
                Some(id) => match channel {
                    Some(c) => exists|i: int|
                        0 <= i < self.channels@.len() && self.channels@[i] == *c
                            && c.channel_id == id && forall|j: int|
                            0 <= j < i ==> #[trigger] self.channels@[j].channel_id != id,
                    None => !has_channel(self.channels@, id),
                },
                None => channel is None,
            },
    {
        match self.selected_channel_id {
            Some(id) => match find_channel(&self.channels, id) {
                Some(i) => Some(&self.channels[i]),
                None => None,
            },
            None => None,
        }
    }

    pub fn set_muted(&mut self, muted: bool)
        ensures
            final(self).local_voice == (VoiceControlState {
                muted,
                ptt_active: if muted { false } else { old(self).local_voice.ptt_active },
                ..old(self).local_voice
            }),
            final(self).channels == old(self).channels,
            final(self).selected_channel_id == old(self).selected_channel_id,
    {
        self.local_voice.muted = muted;
        if muted {
            self.local_voice.ptt_active = false;
        }
    }

    /// Deafening also mutes.
    pub fn set_deafened(&mut self, deafened: bool)
        ensures
            final(self).local_voice == (VoiceControlState {
                deafened,
                muted: deafened || old(self).local_voice.muted,
                ptt_active: if deafened { false } else { old(self).local_voice.ptt_active },
                ..old(self).local_voice
            }),
            final(self).channels == old(self).channels,
            final(self).selected_channel_id == old(self).selected_channel_id,
    {
        self.local_voice.deafened = deafened;
        if deafened {
            self.set_muted(true);
        }
    }

    pub fn set_push_to_talk(&mut self, enabled: bool)
        ensures
            final(self).local_voice == (VoiceControlState {
                push_to_talk: enabled,
                ptt_active: if enabled { old(self).local_voice.ptt_active } else { false },
                ..old(self).local_voice
            }),
            final(self).channels == old(self).channels,
            final(self).selected_channel_id == old(self).selected_channel_id,
    {
        self.local_voice.push_to_talk = enabled;
        if !enabled {
            self.local_voice.ptt_active = false;
        }
    }

    /// The talk key counts only with push-to-talk on and the microphone
    /// unmuted.
    pub fn set_ptt_active(&mut self, active: bool)
        ensures
            final(self).local_voice == (VoiceControlState {
                ptt_active: active && old(self).local_voice.push_to_talk
                    && !old(self).local_voice.muted,
                ..old(self).local_voice
            }),
            final(self).channels == old(self).channels,
            final(self).selected_channel_id == old(self).selected_channel_id,
    {
        self.local_voice.ptt_active = active && self.local_voice.push_to_talk
            && !self.local_voice.muted;
    }

    /// The local user speaks when unmuted, and, with push-to-talk on, while
    /// the talk key is held.
    pub fn local_speaking(&self) -> (speaking: bool)
        ensures
            speaking == (!self.local_voice.muted && (!self.local_voice.push_to_talk
                || self.local_voice.ptt_active)),
    {
        !self.local_voice.muted && (!self.local_voice.push_to_talk || self.local_voice.ptt_active)
    }

    pub fn start_screen_share(&mut self, source_label: &str)
        ensures
            final(self).local_screen_share.sharing,
            final(self).local_screen_share.source_label@ == source_label@,
            final(self).local_screen_share.stream_id == old(self).local_screen_share.stream_id,
            final(self).local_screen_share.target_width == old(self).local_screen_share.target_width,
            final(self).local_screen_share.target_height == old(self).local_screen_share.target_height,
            final(self).local_screen_share.target_fps == old(self).local_screen_share.target_fps,
            final(self).local_voice == old(self).local_voice,
    {
        self.local_screen_share.sharing = true;
        self.local_screen_share.source_label = source_label.to_owned();
    }

    pub fn stop_screen_share(&mut self)
        ensures
            final(self).local_screen_share == (ScreenShareControlState {
                sharing: false,
                ..old(self).local_screen_share
            }),
            final(self).local_voice == old(self).local_voice,
    {
        self.local_screen_share.sharing = false;
    }
}

/// The talk key counts as held only with push-to-talk on and the
/// microphone unmuted.
pub open spec fn talk_key_consistent(v: VoiceControlState) -> bool {
    v.ptt_active ==> v.push_to_talk && !v.muted
}

/// A loaded selection is always a listed channel, and there is one exactly
/// when some channel is listed.
pub proof fn law_loaded_selection_is_listed(selected: Option<RoomId>, channels: Seq<ChannelView>)
    ensures
        selection_after_load(selected, channels) matches Some(id) ==> has_channel(channels, id),
        selection_after_load(selected, channels) is None <==> channels.len() == 0,
{
    if channels.len() > 0 {
        assert(channels[0].channel_id == channels[0].channel_id);
        assert(has_channel(channels, channels[0].channel_id));
    }
}

/// Every voice control keeps the talk key consistent: muting, deafening,
/// turning push-to-talk off and pressing the key never leave it held
/// without push-to-talk or while muted.
pub proof fn law_voice_controls_keep_talk_key_consistent(v: VoiceControlState, flag: bool)
    requires
        talk_key_consistent(v),
    ensures
        talk_key_consistent(
            VoiceControlState { muted: flag, ptt_active: if flag { false } else { v.ptt_active }, ..v },
        ),
        talk_key_consistent(
            VoiceControlState {
                deafened: flag,
                muted: flag || v.muted,
                ptt_active: if flag { false } else { v.ptt_active },
                ..v
            },
        ),
        talk_key_consistent(
            VoiceControlState { push_to_talk: flag, ptt_active: if flag { v.ptt_active } else { false }, ..v },
        ),
        talk_key_consistent(
            VoiceControlState { ptt_active: flag && v.push_to_talk && !v.muted, ..v },
        ),
{
}

} // verus!
