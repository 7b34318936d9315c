//! The agent that plays music in one channel: its playback state machine.
//!
//! The agent owns a playlist, the volume and the current playback state.
//! It does not touch the audio pipeline or the chat connection itself:
//! every handler takes what was observed and returns the [`Effect`]s to
//! carry out, in order. Where an effect fails, it is handed to
//! [`MusicBot::on_effect_failed`] together with the effects behind it, and
//! what comes back is carried out in their place. No failure ends the
//! agent.

use vstd::prelude::*;
use vstd::string::*;
use crate::bbcode::{bold, underline, wrapped};
use crate::command::{
    chat_line, parse_chat_line, ChatInput, ChatInputView, Command, CommandView, Direction, Seek,
    VolumeChange,
};
use crate::duration::{formatted_duration, TimeSpan};
use crate::playlist::Playlist;
use crate::text::{
    chars_of, decimal, join, joined, push_decimal, remove_all, starts_with, string_of, without,
};
use crate::track::{AudioLocation, AudioMetadata};
use crate::volume::{changed, percent_of, Volume, FULL_VOLUME};

verus! {

/// The prefix of the address of a local file.
pub open spec fn file_prefix() -> Seq<char> {
    "file://"@
}

/// What the pipeline is doing, as the agent last heard of it.
#[derive(Debug, PartialEq, Eq, Clone, Copy, Structural)]
pub enum State {
    Playing,
    Paused,
    Stopped,
    /// The track has ended. This is a signal, not a resting state: either
    /// the next track starts or the agent settles as stopped.
    EndOfStream,
}

impl State {
    /// The word that stands for the state in the agent's name.
    pub open spec fn word(self) -> Seq<char> {
        match self {
            State::Playing => "Playing"@,
            State::Paused => "Paused"@,
            State::Stopped | State::EndOfStream => "Stopped"@,
        }
    }

    /// The word that stands for the state.
    pub fn to_string(&self) -> (out: String)
        ensures
            out@ == self.word(),
    {
        match self {
            State::Playing => String::from_str("Playing"),
            State::Paused => String::from_str("Paused"),
            State::Stopped | State::EndOfStream => String::from_str("Stopped"),
        }
    }
}

/// To whom a chat message was sent.
#[derive(Debug, PartialEq, Eq, Clone, Copy, Structural)]
pub enum MessageTarget {
    Server,
    Channel,
    Client(u16),
    Poke(u16),
}

/// Who sent a chat message.
#[derive(Debug, PartialEq, Eq)]
pub struct Invoker {
    pub name: String,
    pub id: u16,
}

/// A chat message as it arrived.
#[derive(Debug, PartialEq, Eq)]
pub struct ChatMessage {
    pub target: MessageTarget,
    pub invoker: Invoker,
    pub text: String,
}

/// What can reach an agent.
#[derive(Debug, PartialEq, Eq)]
pub enum MusicBotMessage {
    TextMessage(ChatMessage),
    /// A client changed channels and left `old_channel`.
    ClientChannel { client: u16, old_channel: u64 },
    ChannelAdded(u64),
    ClientAdded(u16),
    /// A client left the server; it was last in `channel`.
    ClientDisconnected { id: u16, channel: u64 },
    /// The pipeline reports a state.
    StateChange(State),
}

/// One thing for the caller to carry out.
#[derive(Debug, PartialEq, Eq)]
pub enum Effect {
    /// Pipeline: end the current track as if it had run out.
    StopCurrent,
    /// Pipeline: play, or go on playing.
    Play,
    /// Pipeline: pause.
    Pause,
    /// Pipeline: drop the current track and fall back to idle.
    Reset,
    /// Pipeline: make this the current track.
    SetMetadata(AudioMetadata),
    /// Pipeline: jump in the current track, then report the outcome with
    /// [`MusicBot::on_seek_done`].
    Seek(Seek),
    /// Read the number of percent that the user wrote, then hand it to
    /// [`MusicBot::change_volume`]. A number that cannot be read ends the
    /// matter.
    ChangeVolume(VolumeChange),
    /// Pipeline: play at this volume.
    SetVolume(Volume),
    /// Connection: say this in the channel.
    SendMessage(String),
    /// Connection: say in the channel, behind a line break, the help that
    /// the command-line parser of the program prints for these words; where
    /// it prints none, say nothing.
    SendHelp(Vec<String>),
    /// Connection: show the name that [`MusicBot::display_name`] gives for
    /// this state.
    UpdateName(State),
    /// Connection: show this description.
    SetDescription(String),
    /// Connection: leave the server, giving this reason.
    Disconnect(String),
    /// Look the track up, then hand the outcome to [`MusicBot::add_audio`]
    /// or [`MusicBot::on_resolve_failed`].
    Resolve { location: AudioLocation, user: String },
    /// List the audio files below the music root, then hand the list to
    /// [`MusicBot::on_local_files`].
    ListLocalFiles { query: Vec<String>, user: String },
    /// Tell the supervisor that this agent is gone.
    InformMaster,
}

/// The mathematical content of an [`AudioLocation`].
pub enum LocationView {
    Url(Seq<char>),
    YoutubeSearch(Seq<char>),
    Path(Seq<char>),
}

impl View for AudioLocation {
    type V = LocationView;

    open spec fn view(&self) -> LocationView {
        match *self {
            AudioLocation::Url(url) => LocationView::Url(url@),
            AudioLocation::YoutubeSearch(words) => LocationView::YoutubeSearch(words@),
            AudioLocation::Path(path) => LocationView::Path(path@),
        }
    }
}

/// The mathematical content of an [`Effect`].
pub enum EffectView {
    StopCurrent,
    Play,
    Pause,
    Reset,
    SetMetadata(AudioMetadata),
    Seek { direction: Direction, nanos: nat },
    ChangeVolume { direction: Direction, percent: Seq<char> },
    /// The volume in millionths of full volume.
    SetVolume(nat),
    SendMessage(Seq<char>),
    SendHelp(Seq<Seq<char>>),
    UpdateName(State),
    SetDescription(Seq<char>),
    Disconnect(Seq<char>),
    Resolve { location: LocationView, user: Seq<char> },
    ListLocalFiles { query: Seq<Seq<char>>, user: Seq<char> },
    InformMaster,
}

impl View for Effect {
    type V = EffectView;

    open spec fn view(&self) -> EffectView {
        match *self {
            Effect::StopCurrent => EffectView::StopCurrent,
            Effect::Play => EffectView::Play,
            Effect::Pause => EffectView::Pause,
            Effect::Reset => EffectView::Reset,
            Effect::SetMetadata(track) => EffectView::SetMetadata(track),
            Effect::Seek(amount) => EffectView::Seek {
                direction: amount.direction(),
                nanos: amount.span()@,
            },
            Effect::ChangeVolume(change) => EffectView::ChangeVolume {
                direction: change.direction(),
                percent: change.percent(),
            },
            Effect::SetVolume(volume) => EffectView::SetVolume(volume@),
            Effect::SendMessage(text) => EffectView::SendMessage(text@),
            Effect::SendHelp(words) => EffectView::SendHelp(words.deep_view()),
            Effect::UpdateName(state) => EffectView::UpdateName(state),
            Effect::SetDescription(text) => EffectView::SetDescription(text@),
            Effect::Disconnect(reason) => EffectView::Disconnect(reason@),
            Effect::Resolve { location, user } => EffectView::Resolve {
                location: location@,
                user: user@,
            },
            Effect::ListLocalFiles { query, user } => EffectView::ListLocalFiles {
                query: query.deep_view(),
                user: user@,
            },
            Effect::InformMaster => EffectView::InformMaster,
        }
    }
}

impl EffectView {
    /// Whether the effect is a command to the audio pipeline.
    pub open spec fn is_pipeline(self) -> bool {
        ||| self is StopCurrent
        ||| self is Play
        ||| self is Pause
        ||| self is Reset
        ||| self is SetMetadata
        ||| self is Seek
        ||| self is SetVolume
    }

    /// Whether the effects behind this one are dropped when it fails. A
    /// description that cannot be shown is no reason to hold the music
    /// back; everything else is.
    pub open spec fn binding(self) -> bool {
        !(self is SetDescription)
    }

    /// What the channel is told when the effect fails: a short message for
    /// a command that the pipeline turned down, and nothing for a failure
    /// of the connection, which is only noted.
    pub open spec fn failure_text(self) -> Option<Seq<char>> {
        if self is Seek {
            Some("Failed to seek"@)
        } else if self.is_pipeline() {
            Some("AudioPlayer failed to change state"@)
        } else {
            None
        }
    }

    /// What is carried out in place of `rest`, the effects that stood
    /// behind this one, when it fails: the message about the failure, if
    /// there is one, and then the rest only where this effect does not
    /// bind it.
    pub open spec fn after_failure(self, rest: Seq<EffectView>) -> Seq<EffectView> {
        let report = match self.failure_text() {
            Some(text) => seq![EffectView::SendMessage(text)],
            None => Seq::empty(),
        };
        if self.binding() {
            report
        } else {
            report + rest
        }
    }
}

impl EffectView {
    /// A command that the pipeline turns down is reported to the channel
    /// in one short message, and what stood behind it is dropped.
    pub proof fn lemma_failed_command_is_reported(self, rest: Seq<EffectView>)
        requires
            self.is_pipeline(),
        ensures
            self.failure_text() is Some,
            self.after_failure(rest) == seq![EffectView::SendMessage(self.failure_text().unwrap())],
    {
    }

    /// A failure of the connection is passed over in silence: nothing is
    /// said about it, and no failure of a message can call for another
    /// message.
    pub proof fn lemma_failed_connection_is_silent(self, rest: Seq<EffectView>)
        requires
            !self.is_pipeline(),
        ensures
            self.failure_text() is None,
            self.binding() ==> self.after_failure(rest) == Seq::<EffectView>::empty(),
            !self.binding() ==> self.after_failure(rest) == rest,
            (self is SendMessage) ==> self.after_failure(rest).len() == 0,
    {
        assert(Seq::<EffectView>::empty() + rest =~= rest);
    }
}

impl Effect {
    /// Whether a failure of this effect ends the list it stands in.
    pub fn aborts_on_failure(&self) -> (aborts: bool)
        ensures
            aborts == self@.binding(),
    {
        match self {
            Effect::SetDescription(_) => false,
            _ => true,
        }
    }

    /// What the channel is told when this effect fails, if anything.
    pub fn failure_message(&self) -> (message: Option<String>)
        ensures
            crate::track::text_view(message) == self@.failure_text(),
    {
        match self {
            Effect::Seek(_) => Some(String::from_str("Failed to seek")),
            Effect::StopCurrent | Effect::Play | Effect::Pause | Effect::Reset => Some(
                String::from_str("AudioPlayer failed to change state"),
            ),
            Effect::SetMetadata(_) | Effect::SetVolume(_) => Some(
                String::from_str("AudioPlayer failed to change state"),
            ),
            _ => None,
        }
    }
}

/// The contents of a list of effects.
pub open spec fn effect_views(effects: Seq<Effect>) -> Seq<EffectView> {
    effects.map_values(|e: Effect| e@)
}

/// Whether the track is a local file.
pub open spec fn is_local(track: AudioMetadata) -> bool {
    file_prefix().is_prefix_of(track.uri@)
}

/// The length of a track in bold, between `open` and `)`; nothing for a
/// track of unknown length.
pub open spec fn length_note(duration: Option<TimeSpan>, open: Seq<char>) -> Seq<char> {
    match duration {
        Some(span) => open + wrapped("[B]"@, formatted_duration(span@), "[/B]"@) + ")"@,
        None => Seq::empty(),
    }
}

/// The announcement of a track that starts.
pub open spec fn playing_text(track: AudioMetadata) -> Seq<char> {
    let title = wrapped("[U]"@, track.title@, "[/U]"@);
    let note = length_note(track.duration, "("@);
    if is_local(track) {
        "Playing local file "@ + title + " "@ + note
    } else {
        "Playing "@ + title + " "@ + note
    }
}

/// The announcement of a track that was queued.
pub open spec fn added_text(track: AudioMetadata) -> Seq<char> {
    let title = wrapped("[U]"@, track.title@, "[/U]"@);
    let note = length_note(track.duration, " ("@);
    if is_local(track) {
        "Added local file "@ + title + note + " to playlist"@
    } else {
        "Added "@ + title + note + " to playlist"@
    }
}

/// The description an agent shows while a track plays.
pub open spec fn description_text(title: Seq<char>) -> Seq<char> {
    "Currently playing '"@ + title + "'"@
}

/// The name an agent shows: its own name, the state unless the track just
/// ended, and the volume in percent.
pub open spec fn name_text(name: Seq<char>, state: State, volume_percent: nat) -> Seq<char> {
    match state {
        State::EndOfStream => "🎵 "@ + name + " ("@ + decimal(volume_percent) + "%)"@,
        _ => "🎵 "@ + name + " - "@ + state.word() + " ("@ + decimal(volume_percent) + "%)"@,
    }
}

fn write_length_note(duration: &Option<TimeSpan>, open: &str) -> (out: String)
    ensures
        out@ == length_note(*duration, open@),
{
    match duration {
        Some(span) => {
            let time = span.format();
            let mut out = String::from_str(open);
            out.append(bold(time.as_str()).to_string().as_str());
            out.append(")");
            out
        },
        None => String::new(),
    }
}

fn is_local_uri(uri: &str) -> (local: bool)
    ensures
        local == file_prefix().is_prefix_of(uri@),
{
    let chars = chars_of(uri);
    starts_with(&chars, "file://")
}

/// The announcement of a track that starts.
pub fn playing_message(track: &AudioMetadata) -> (out: String)
    ensures
        out@ == playing_text(*track),
{
    let note = write_length_note(&track.duration, "(");
    let mut out = if is_local_uri(track.uri.as_str()) {
        String::from_str("Playing local file ")
    } else {
        String::from_str("Playing ")
    };
    out.append(underline(track.title.as_str()).to_string().as_str());
    out.append(" ");
    out.append(note.as_str());
    out
}

/// The announcement of a track that was queued.
pub fn added_message(track: &AudioMetadata) -> (out: String)
    ensures
        out@ == added_text(*track),
{
    let note = write_length_note(&track.duration, " (");
    let mut out = if is_local_uri(track.uri.as_str()) {
        String::from_str("Added local file ")
    } else {
        String::from_str("Added ")
    };
    out.append(underline(track.title.as_str()).to_string().as_str());
    out.append(note.as_str());
    out.append(" to playlist");
    out
}

/// The description an agent shows while the track with this title plays.
pub fn description(title: &str) -> (out: String)
    ensures
        out@ == description_text(title@),
{
    let mut out = String::from_str("Currently playing '");
    out.append(title);
    out.append("'");
    out
}

/// What was seen of the pipeline and of the server when a message arrived.
#[derive(Debug, PartialEq, Eq)]
pub struct Observed {
    /// Whether the pipeline has a track started, playing or paused.
    pub started: bool,
    /// The agent's own client id, if the connection could tell.
    pub my_id: Option<u16>,
    /// The channel the agent is in, if the connection could tell.
    pub current_channel: Option<u64>,
    /// How many clients are in that channel, the agent included, or why the
    /// connection could not tell.
    pub user_count: Result<u32, String>,
}

/// The agent of one channel.
pub struct MusicBot {
    name: String,
    music_root: Option<String>,
    supervised: bool,
    playlist: Playlist,
    state: State,
    volume: Volume,
}

/// The mathematical content of a [`MusicBot`].
pub struct AgentView {
    pub name: Seq<char>,
    /// Whether a directory of local music is configured.
    pub has_music_root: bool,
    /// Whether a supervisor waits to hear of the agent's end.
    pub supervised: bool,
    pub state: State,
    /// The queue, the next track first.
    pub playlist: Seq<AudioMetadata>,
    /// The volume in millionths of full volume.
    pub volume: nat,
}

/// An agent after a step, and the effects of the step.
pub struct Outcome {
    pub agent: AgentView,
    pub effects: Seq<EffectView>,
}

/// What starting a track takes: announce it, describe it, and hand it to a
/// freshly reset pipeline.
pub open spec fn start_playing(track: AudioMetadata) -> Seq<EffectView> {
    seq![
        EffectView::SendMessage(playing_text(track)),
        EffectView::SetDescription(description_text(track.title@)),
        EffectView::Reset,
        EffectView::SetMetadata(track),
        EffectView::Play,
    ]
}

/// What leaving takes: silence the pipeline, leave the server, and tell the
/// supervisor if that is asked for and there is one.
pub open spec fn quit_effects(reason: Seq<char>, inform: bool) -> Seq<EffectView> {
    if inform {
        seq![EffectView::Reset, EffectView::Disconnect(reason), EffectView::InformMaster]
    } else {
        seq![EffectView::Reset, EffectView::Disconnect(reason)]
    }
}

/// A user-supplied address without the link markup that chat clients wrap
/// around it.
pub open spec fn bare_url(url: Seq<char>) -> Seq<char> {
    without(without(url, "[URL]"@), "[/URL]"@)
}

/// Where the track behind an address is to be found.
pub open spec fn location_of(url: Seq<char>) -> LocationView {
    let bare = bare_url(url);
    if file_prefix().is_prefix_of(bare) {
        LocationView::Path(bare.skip(file_prefix().len() as int))
    } else {
        LocationView::Url(bare)
    }
}

impl AgentView {
    /// The agent with another state.
    pub open spec fn with_state(self, state: State) -> AgentView {
        AgentView { state, ..self }
    }

    /// The agent with another queue.
    pub open spec fn with_playlist(self, playlist: Seq<AudioMetadata>) -> AgentView {
        AgentView { playlist, ..self }
    }

    /// The agent with another volume.
    pub open spec fn with_volume(self, volume: nat) -> AgentView {
        AgentView { volume, ..self }
    }

    /// The number that the user wrote was read as `amount` millionths: the
    /// volume changes within its bounds, the pipeline is told, and the name
    /// shows the new volume.
    pub open spec fn change_volume(self, direction: Direction, amount: int) -> Outcome {
        let volume = changed(self.volume, direction, amount);
        Outcome {
            agent: self.with_volume(volume),
            effects: seq![EffectView::SetVolume(volume), EffectView::UpdateName(self.state)],
        }
    }

    /// The name the agent shows in `state`.
    pub open spec fn display_name(self, state: State) -> Seq<char> {
        name_text(self.name, state, percent_of(self.volume))
    }

    /// The state after the pipeline reported `new_state`: a report of
    /// stopping right after the end of a track is one and the same event,
    /// and leaves the state as it is.
    pub open spec fn state_after(self, new_state: State) -> State {
        if self.state == State::EndOfStream && new_state == State::Stopped {
            State::EndOfStream
        } else {
            new_state
        }
    }

    /// The pipeline reports a state. The end of a track is always acted on,
    /// whatever the state was: the next track starts, or the agent settles
    /// with an empty queue. Any other report counts only where it brings
    /// news.
    pub open spec fn on_state(self, new_state: State) -> Outcome {
        let settled = self.with_state(self.state_after(new_state));
        match new_state {
            State::EndOfStream => if self.playlist.len() > 0 {
                Outcome {
                    agent: settled.with_playlist(self.playlist.drop_first()),
                    effects: seq![EffectView::Reset] + start_playing(self.playlist[0]),
                }
            } else {
                Outcome {
                    agent: settled,
                    effects: seq![
                        EffectView::Reset,
                        EffectView::UpdateName(State::EndOfStream),
                        EffectView::SetDescription(Seq::empty()),
                    ],
                }
            },
            State::Stopped => if self.state != State::EndOfStream && self.state != State::Stopped {
                Outcome {
                    agent: settled,
                    effects: seq![
                        EffectView::UpdateName(State::Stopped),
                        EffectView::SetDescription(Seq::empty()),
                    ],
                }
            } else {
                Outcome { agent: settled, effects: Seq::empty() }
            },
            _ => if self.state == new_state {
                Outcome { agent: settled, effects: Seq::empty() }
            } else {
                Outcome { agent: settled, effects: seq![EffectView::UpdateName(new_state)] }
            },
        }
    }

    /// A resolved track arrives: it joins the queue, and if the pipeline
    /// has nothing started, the head of the queue starts at once.
    pub open spec fn add_audio(self, track: AudioMetadata, started: bool) -> Outcome {
        let queue = self.playlist.push(track);
        if !started {
            Outcome {
                agent: self.with_playlist(queue.drop_first()),
                effects: start_playing(queue[0]),
            }
        } else {
            Outcome {
                agent: self.with_playlist(queue),
                effects: seq![EffectView::SendMessage(added_text(track))],
            }
        }
    }

    /// A user gives a command.
    pub open spec fn on_command(self, command: CommandView, user: Seq<char>, started: bool) -> Outcome {
        match command {
            CommandView::Play => Outcome {
                agent: self,
                effects: if started {
                    seq![EffectView::Play]
                } else if self.playlist.len() > 0 {
                    seq![EffectView::StopCurrent]
                } else {
                    Seq::empty()
                },
            },
            CommandView::Add { url } => Outcome {
                agent: self,
                effects: seq![EffectView::Resolve { location: location_of(url), user }],
            },
            CommandView::Search { query } => Outcome {
                agent: self,
                effects: if self.has_music_root {
                    seq![EffectView::ListLocalFiles { query, user }]
                } else {
                    seq![
                        EffectView::Resolve {
                            location: LocationView::YoutubeSearch(joined(query, " "@)),
                            user,
                        },
                    ]
                },
            },
            CommandView::Pause => Outcome { agent: self, effects: seq![EffectView::Pause] },
            CommandView::Stop => Outcome { agent: self, effects: seq![EffectView::Reset] },
            CommandView::Seek { direction, nanos } => Outcome {
                agent: self,
                effects: seq![EffectView::Seek { direction, nanos }],
            },
            CommandView::Next => Outcome {
                agent: self,
                effects: if self.playlist.len() > 0 {
                    seq![EffectView::StopCurrent]
                } else {
                    seq![EffectView::Reset]
                },
            },
            CommandView::Clear => Outcome {
                agent: self.with_playlist(Seq::empty()),
                effects: seq![EffectView::SendMessage("Cleared playlist"@)],
            },
            CommandView::Volume { direction, percent } => Outcome {
                agent: self,
                effects: seq![EffectView::ChangeVolume { direction, percent }],
            },
            CommandView::Leave => Outcome {
                agent: self,
                effects: quit_effects("Leaving"@, self.supervised),
            },
        }
    }

    /// A line of chat arrives in the channel.
    pub open spec fn on_text(self, text: Seq<char>, user: Seq<char>, started: bool) -> Outcome {
        match chat_line(text) {
            ChatInputView::Command(command) => self.on_command(command, user, started),
            ChatInputView::Help(words) => Outcome {
                agent: self,
                effects: seq![EffectView::SendHelp(words)],
            },
            _ => Outcome { agent: self, effects: Seq::empty() },
        }
    }
}

/// Why an agent leaves after the client `id` left `old_channel`, if it
/// does: the agent leaves when it stays behind alone in its channel, and
/// when it cannot find out whether it does.
pub open spec fn leave_reason(id: u16, old_channel: u64, seen: Observed) -> Option<Seq<char>> {
    if seen.my_id is Some && seen.my_id != Some(id) && seen.current_channel == Some(old_channel) {
        match seen.user_count {
            Ok(count) => if count <= 1 {
                Some("Channel is empty"@)
            } else {
                None
            },
            Err(e) => Some("Error: "@ + e@),
        }
    } else {
        None
    }
}

fn start_playing_audio(track: AudioMetadata, effects: &mut Vec<Effect>)
    ensures
        effect_views(final(effects)@) == effect_views(old(effects)@) + start_playing(track),
{
    let ghost before = effect_views(effects@);
    let message = playing_message(&track);
    let text = description(track.title.as_str());
    effects.push(Effect::SendMessage(message));
    effects.push(Effect::SetDescription(text));
    effects.push(Effect::Reset);
    effects.push(Effect::SetMetadata(track));
    effects.push(Effect::Play);
    assert(effect_views(effects@) =~= before + start_playing(track));
}

fn push_quit(reason: String, inform: bool, effects: &mut Vec<Effect>)
    ensures
        effect_views(final(effects)@) == effect_views(old(effects)@) + quit_effects(reason@, inform),
{
    let ghost before = effect_views(effects@);
    effects.push(Effect::Reset);
    effects.push(Effect::Disconnect(reason));
    if inform {
        effects.push(Effect::InformMaster);
    }
    assert(effect_views(effects@) =~= before + quit_effects(reason@, inform));
}

fn locate(url: &str) -> (location: AudioLocation)
    ensures
        location@ == location_of(url@),
{
    let chars = chars_of(url);
    let open = chars_of("[URL]");
    let close = chars_of("[/URL]");
    let half = remove_all(&chars, &open);
    let bare = remove_all(&half, &close);
    proof {
        reveal_strlit("file://");
    }
    if starts_with(&bare, "file://") {
        let path = string_of(&bare, 7, bare.len());
        assert(bare@.subrange(7, bare@.len() as int) =~= bare@.skip(7));
        AudioLocation::Path(path)
    } else {
        let address = string_of(&bare, 0, bare.len());
        assert(bare@.subrange(0, bare@.len() as int) =~= bare@);
        AudioLocation::Url(address)
    }
}

impl View for MusicBot {
    type V = AgentView;

    closed spec fn view(&self) -> AgentView {
        AgentView {
            name: self.name@,
            has_music_root: self.music_root is Some,
            supervised: self.supervised,
            state: self.state,
            playlist: self.playlist@,
            volume: self.volume@,
        }
    }
}

impl AgentView {
    /// Stopping right after the end of a track is no change of state: the
    /// agent stays as it is and nothing is shown or sent, so that no idle
    /// name flickers up before the next track starts.
    pub proof fn lemma_stop_after_end_is_silent(self)
        requires
            self.state == State::EndOfStream,
        ensures
            self.on_state(State::Stopped).agent == self,
            self.on_state(State::Stopped).effects == Seq::<EffectView>::empty(),
    {
    }

    /// The end of a track is never passed over: whatever the state was,
    /// the pipeline is reset first and the state is the end of the stream;
    /// then the next track leaves the queue and is started, or, with an
    /// empty queue, the agent settles and nothing is played.
    pub proof fn lemma_end_of_stream_advances_or_settles(self)
        ensures
            self.on_state(State::EndOfStream).agent.state == State::EndOfStream,
            self.on_state(State::EndOfStream).effects[0] == EffectView::Reset,
            self.playlist.len() > 0 ==> self.on_state(State::EndOfStream).agent.playlist
                == self.playlist.drop_first() && self.on_state(State::EndOfStream).effects.last()
                == EffectView::Play && self.on_state(State::EndOfStream).effects.contains(
                EffectView::SetMetadata(self.playlist[0]),
            ),
            self.playlist.len() == 0 ==> self.on_state(State::EndOfStream).agent.playlist.len() == 0
                && !self.on_state(State::EndOfStream).effects.contains(EffectView::Play),
    {
        let effects = self.on_state(State::EndOfStream).effects;
        if self.playlist.len() > 0 {
            assert(effects[4] == EffectView::SetMetadata(self.playlist[0]));
        }
    }

    /// A play command to an agent whose pipeline has nothing started and
    /// whose queue is empty changes nothing and asks for nothing.
    pub proof fn lemma_play_on_empty_is_idle(self, user: Seq<char>)
        requires
            self.playlist.len() == 0,
        ensures
            self.on_command(CommandView::Play, user, false).agent == self,
            self.on_command(CommandView::Play, user, false).effects == Seq::<EffectView>::empty(),
    {
    }
}

impl MusicBot {
    /// A new agent with an empty queue. Its state is the end of a track, so
    /// that it starts to play as soon as something is queued.
    pub fn new(name: String, music_root: Option<String>, supervised: bool, volume: Volume) -> (bot:
        Self)
        ensures
            bot@ == (AgentView {
                name: name@,
                has_music_root: music_root is Some,
                supervised,
                state: State::EndOfStream,
                playlist: Seq::empty(),
                volume: volume@,
            }),
            bot.music_root_view() == crate::track::text_view(music_root),
    {
        MusicBot {
            name,
            music_root,
            supervised,
            playlist: Playlist::new(),
            state: State::EndOfStream,
            volume,
        }
    }

    /// The volume. It lies between silence and full volume, whatever
    /// changes were asked for.
    pub fn volume(&self) -> (volume: Volume)
        ensures
            volume@ == self@.volume,
            self@.volume <= FULL_VOLUME,
    {
        let level = self.volume.millionths();
        self.volume
    }

    /// Changes the volume by `amount` millionths of full volume, or to
    /// that amount. The new volume is kept within silence and full volume.
    pub fn change_volume(&mut self, direction: Direction, amount: i64) -> (effects: Vec<Effect>)
        ensures
            final(self)@ == old(self)@.change_volume(direction, amount as int).agent,
            effect_views(effects@) == old(self)@.change_volume(direction, amount as int).effects,
            final(self)@.volume <= FULL_VOLUME,
            final(self).music_root_view() == old(self).music_root_view(),
    {
        self.volume = self.volume.change(direction, amount);
        let mut effects: Vec<Effect> = Vec::new();
        effects.push(Effect::SetVolume(self.volume));
        effects.push(Effect::UpdateName(self.state));
        assert(effect_views(effects@) =~= seq![
            EffectView::SetVolume(self.volume@),
            EffectView::UpdateName(self.state),
        ]);
        effects
    }

    /// The configured directory of local music.
    pub closed spec fn music_root_view(&self) -> Option<Seq<char>> {
        crate::track::text_view(self.music_root)
    }

    /// The agent's own name.
    pub fn name(&self) -> (name: &str)
        ensures
            name@ == self@.name,
    {
        self.name.as_str()
    }

    /// The playback state.
    pub fn state(&self) -> (state: State)
        ensures
            state == self@.state,
    {
        self.state
    }

    /// The directory of local music, if one is configured.
    pub fn music_root(&self) -> (root: &Option<String>)
        ensures
            crate::track::text_view(*root) == self.music_root_view(),
            root is Some == self@.has_music_root,
    {
        &self.music_root
    }

    /// A copy of the queue, the next track first.
    pub fn playlist(&self) -> (tracks: Vec<AudioMetadata>)
        ensures
            tracks@ == self@.playlist,
    {
        self.playlist.to_vec()
    }

    /// The name to show in `state`: it tells the state and the volume.
    pub fn display_name(&self, state: State) -> (out: String)
        ensures
            out@ == self@.display_name(state),
    {
        let volume_percent = self.volume.percent();
        let mut out = String::from_str("🎵 ");
        out.append(self.name.as_str());
        match state {
            State::EndOfStream => {},
            _ => {
                out.append(" - ");
                out.append(state.to_string().as_str());
            },
        }
        out.append(" (");
        push_decimal(&mut out, volume_percent as u64);
        out.append("%)");
        out
    }

    /// Handles a state report from the pipeline.
    pub fn on_state(&mut self, new_state: State) -> (effects: Vec<Effect>)
        ensures
            final(self)@ == old(self)@.on_state(new_state).agent,
            effect_views(effects@) == old(self)@.on_state(new_state).effects,
            final(self).music_root_view() == old(self).music_root_view(),
    {
        let mut effects: Vec<Effect> = Vec::new();
        assert(effect_views(effects@) =~= Seq::<EffectView>::empty());
        match new_state {
            State::EndOfStream => {
                effects.push(Effect::Reset);
                assert(effect_views(effects@) =~= seq![EffectView::Reset]);
                match self.playlist.pop() {
                    Some(track) => {
                        start_playing_audio(track, &mut effects);
                    },
                    None => {
                        effects.push(Effect::UpdateName(new_state));
                        effects.push(Effect::SetDescription(String::new()));
                        assert(effect_views(effects@) =~= seq![
                            EffectView::Reset,
                            EffectView::UpdateName(State::EndOfStream),
                            EffectView::SetDescription(Seq::empty()),
                        ]);
                    },
                }
            },
            State::Stopped => {
                if self.state != State::EndOfStream && self.state != State::Stopped {
                    effects.push(Effect::UpdateName(new_state));
                    effects.push(Effect::SetDescription(String::new()));
                    assert(effect_views(effects@) =~= seq![
                        EffectView::UpdateName(State::Stopped),
                        EffectView::SetDescription(Seq::empty()),
                    ]);
                }
            },
            _ => {
                if self.state != new_state {
                    effects.push(Effect::UpdateName(new_state));
                    assert(effect_views(effects@) =~= seq![EffectView::UpdateName(new_state)]);
                }
            },
        }
        if !(self.state == State::EndOfStream && new_state == State::Stopped) {
            self.state = new_state;
        }
        effects
    }

    /// Takes a resolved track into the queue and starts it where nothing is
    /// started.
    pub fn add_audio(&mut self, metadata: AudioMetadata, started: bool) -> (effects: Vec<Effect>)
        ensures
            final(self)@ == old(self)@.add_audio(metadata, started).agent,
            effect_views(effects@) == old(self)@.add_audio(metadata, started).effects,
            final(self).music_root_view() == old(self).music_root_view(),
    {
        let mut effects: Vec<Effect> = Vec::new();
        assert(effect_views(effects@) =~= Seq::<EffectView>::empty());
        let message = added_message(&metadata);
        self.playlist.push(metadata);
        if !started {
            match self.playlist.pop() {
                Some(track) => {
                    start_playing_audio(track, &mut effects);
                    assert(Seq::<EffectView>::empty() + start_playing(track) =~= start_playing(
                        track,
                    ));
                },
                None => {},
            }
        } else {
            effects.push(Effect::SendMessage(message));
            assert(effect_views(effects@) =~= seq![EffectView::SendMessage(added_text(metadata))]);
        }
        effects
    }

    /// What to say when a track could not be resolved.
    pub fn on_resolve_failed(&self, error: &str) -> (effects: Vec<Effect>)
        ensures
            effect_views(effects@) == seq![EffectView::SendMessage("Failed to add: "@ + error@)],
    {
        let mut message = String::from_str("Failed to add: ");
        message.append(error);
        let mut effects: Vec<Effect> = Vec::new();
        effects.push(Effect::SendMessage(message));
        assert(effect_views(effects@) =~= seq![
            EffectView::SendMessage("Failed to add: "@ + error@),
        ]);
        effects
    }

    /// What to say when a seek has been tried: the new position, or that it
    /// failed.
    pub fn on_seek_done(&self, position: Option<TimeSpan>) -> (effects: Vec<Effect>)
        ensures
            effect_views(effects@) == seq![
                EffectView::SendMessage(
                    match position {
                        Some(span) => "New position: "@ + wrapped(
                            "[B]"@,
                            formatted_duration(span@),
                            "[/B]"@,
                        ),
                        None => "Failed to seek"@,
                    },
                ),
            ],
    {
        let message = match position {
            Some(span) => {
                let time = span.format();
                let mut message = String::from_str("New position: ");
                message.append(bold(time.as_str()).to_string().as_str());
                message
            },
            None => String::from_str("Failed to seek"),
        };
        let mut effects: Vec<Effect> = Vec::new();
        effects.push(Effect::SendMessage(message));
        assert(effect_views(effects@) =~= seq![EffectView::SendMessage(message@)]);
        effects
    }

    /// Leaves: resets the pipeline, disconnects, and informs the supervisor
    /// where that is asked for and the agent has one.
    pub fn quit(&self, reason: String, inform_master: bool) -> (effects: Vec<Effect>)
        ensures
            effect_views(effects@) == quit_effects(reason@, inform_master && self@.supervised),
    {
        let mut effects: Vec<Effect> = Vec::new();
        assert(effect_views(effects@) =~= Seq::<EffectView>::empty());
        push_quit(reason, inform_master && self.supervised, &mut effects);
        assert(Seq::<EffectView>::empty() + quit_effects(reason@, inform_master && self@.supervised)
            =~= quit_effects(reason@, inform_master && self@.supervised));
        effects
    }

    /// Handles the failure of an effect. `rest` are the effects that stood
    /// behind it in its list; the answer is what to carry out instead. The
    /// agent itself stays as it is and goes on: a pipeline that turned a
    /// command down is reported to the channel, a connection that failed is
    /// passed over.
    pub fn on_effect_failed(&self, failed: &Effect, rest: Vec<Effect>) -> (effects: Vec<Effect>)
        ensures
            effect_views(effects@) == failed@.after_failure(effect_views(rest@)),
    {
        let mut effects: Vec<Effect> = Vec::new();
        assert(effect_views(effects@) =~= Seq::<EffectView>::empty());
        match failed.failure_message() {
            Some(text) => {
                effects.push(Effect::SendMessage(text));
                assert(effect_views(effects@) =~= seq![EffectView::SendMessage(text@)]);
            },
            None => {},
        }
        if !failed.aborts_on_failure() {
            let ghost report = effect_views(effects@);
            let ghost behind = effect_views(rest@);
            let mut rest = rest;
            effects.append(&mut rest);
            assert(effect_views(effects@) =~= report + behind);
        }
        effects
    }

    /// Handles the supervisor's order to quit: the supervisor knows, so it
    /// is not informed.
    pub fn on_quit(&self, message: crate::master::Quit) -> (effects: Vec<Effect>)
        ensures
            effect_views(effects@) == quit_effects(message.0@, false),
    {
        self.quit(message.0, false)
    }

    /// Handles a command of the user `user`. `started` tells whether the
    /// pipeline has a track started.
    pub fn on_command(&mut self, command: Command, user: String, started: bool) -> (effects: Vec<
        Effect,
    >)
        ensures
            final(self)@ == old(self)@.on_command(command@, user@, started).agent,
            effect_views(effects@) == old(self)@.on_command(command@, user@, started).effects,
            final(self).music_root_view() == old(self).music_root_view(),
    {
        let mut effects: Vec<Effect> = Vec::new();
        assert(effect_views(effects@) =~= Seq::<EffectView>::empty());
        match command {
            Command::Play => {
                if !started {
                    if !self.playlist.is_empty() {
                        effects.push(Effect::StopCurrent);
                        assert(effect_views(effects@) =~= seq![EffectView::StopCurrent]);
                    }
                } else {
                    effects.push(Effect::Play);
                    assert(effect_views(effects@) =~= seq![EffectView::Play]);
                }
            },
            Command::Add { url } => {
                let location = locate(url.as_str());
                effects.push(Effect::Resolve { location, user });
                assert(effect_views(effects@) =~= seq![
                    EffectView::Resolve { location: location_of(url@), user: user@ },
                ]);
            },
            Command::Search { query } => {
                if self.music_root.is_some() {
                    effects.push(Effect::ListLocalFiles { query, user });
                    assert(effect_views(effects@) =~= seq![
                        EffectView::ListLocalFiles { query: query.deep_view(), user: user@ },
                    ]);
                } else {
                    let words = join(&query, " ");
                    effects.push(Effect::Resolve { location: AudioLocation::YoutubeSearch(words), user });
                    assert(effect_views(effects@) =~= seq![
                        EffectView::Resolve {
                            location: LocationView::YoutubeSearch(joined(query.deep_view(), " "@)),
                            user: user@,
                        },
                    ]);
                }
            },
            Command::Pause => {
                effects.push(Effect::Pause);
                assert(effect_views(effects@) =~= seq![EffectView::Pause]);
            },
            Command::Stop => {
                effects.push(Effect::Reset);
                assert(effect_views(effects@) =~= seq![EffectView::Reset]);
            },
            Command::Seek { amount } => {
                effects.push(Effect::Seek(amount));
                assert(effect_views(effects@) =~= seq![
                    EffectView::Seek { direction: amount.direction(), nanos: amount.span()@ },
                ]);
            },
            Command::Next => {
                if !self.playlist.is_empty() {
                    effects.push(Effect::StopCurrent);
                    assert(effect_views(effects@) =~= seq![EffectView::StopCurrent]);
                } else {
                    effects.push(Effect::Reset);
                    assert(effect_views(effects@) =~= seq![EffectView::Reset]);
                }
            },
            Command::Clear => {
                effects.push(Effect::SendMessage(String::from_str("Cleared playlist")));
                self.playlist.clear();
                assert(effect_views(effects@) =~= seq![
                    EffectView::SendMessage("Cleared playlist"@),
                ]);
            },
            Command::Volume { volume } => {
                effects.push(Effect::ChangeVolume(volume));
                assert(effect_views(effects@) =~= seq![
                    EffectView::ChangeVolume {
                        direction: volume.direction(),
                        percent: volume.percent(),
                    },
                ]);
            },
            Command::Leave => {
                push_quit(String::from_str("Leaving"), self.supervised, &mut effects);
                assert(Seq::<EffectView>::empty() + quit_effects("Leaving"@, self.supervised)
                    =~= quit_effects("Leaving"@, self.supervised));
            },
        }
        effects
    }

    /// Handles a line of chat that `user` wrote in the channel.
    pub fn on_text(&mut self, text: &str, user: String, started: bool) -> (effects: Vec<Effect>)
        ensures
            final(self)@ == old(self)@.on_text(text@, user@, started).agent,
            effect_views(effects@) == old(self)@.on_text(text@, user@, started).effects,
            final(self).music_root_view() == old(self).music_root_view(),
    {
        match parse_chat_line(text) {
            ChatInput::Command(command) => self.on_command(command, user, started),
            ChatInput::Help(words) => {
                let mut effects: Vec<Effect> = Vec::new();
                effects.push(Effect::SendHelp(words));
                assert(effect_views(effects@) =~= seq![EffectView::SendHelp(words.deep_view())]);
                effects
            },
            _ => {
                let effects: Vec<Effect> = Vec::new();
                assert(effect_views(effects@) =~= Seq::<EffectView>::empty());
                effects
            },
        }
    }

    /// Handles the list of local audio files that a search asked for: the
    /// best match is looked up as a local path, and where nothing matches,
    /// the words go to the remote search.
    pub fn on_local_files(&self, query: &Vec<String>, user: String, files: &Vec<String>) -> (effects:
        Vec<Effect>)
        ensures
            forall|index: int|
                crate::local::is_best_match(files.deep_view(), query.deep_view(), index)
                    ==> effect_views(effects@) == seq![
                    EffectView::Resolve {
                        location: LocationView::Path(files.deep_view()[index]),
                        user: user@,
                    },
                ],
            (forall|j: int|
                0 <= j < files.len() ==> crate::local::score(
                    #[trigger] files.deep_view()[j],
                    query.deep_view(),
                ) == 0) ==> effect_views(effects@) == seq![
                EffectView::Resolve {
                    location: LocationView::YoutubeSearch(joined(query.deep_view(), " "@)),
                    user: user@,
                },
            ],
    {
        let mut effects: Vec<Effect> = Vec::new();
        match crate::local::find_local_file(files, query) {
            Some(found) => {
                let path = files[found].clone();
                effects.push(Effect::Resolve { location: AudioLocation::Path(path), user });
                proof {
                    let paths = files.deep_view();
                    let words = query.deep_view();
                    assert(paths[found as int] == files@[found as int]@);
                    assert(effect_views(effects@) =~= seq![
                        EffectView::Resolve {
                            location: LocationView::Path(paths[found as int]),
                            user: user@,
                        },
                    ]);
                    assert forall|index: int|
                        crate::local::is_best_match(paths, words, index) implies index == found by {
                        if index < found {
                            assert(crate::local::score(paths[index], words) < crate::local::score(
                                paths[found as int],
                                words,
                            ));
                            assert(crate::local::score(paths[found as int], words)
                                <= crate::local::score(paths[index], words));
                        } else if index > found {
                            assert(crate::local::score(paths[found as int], words)
                                < crate::local::score(paths[index], words));
                            assert(crate::local::score(paths[index], words) <= crate::local::score(
                                paths[found as int],
                                words,
                            ));
                        }
                    }
                }
            },
            None => {
                let words = join(query, " ");
                effects.push(Effect::Resolve { location: AudioLocation::YoutubeSearch(words), user });
                proof {
                    assert(effect_views(effects@) =~= seq![
                        EffectView::Resolve {
                            location: LocationView::YoutubeSearch(joined(query.deep_view(), " "@)),
                            user: user@,
                        },
                    ]);
                    assert forall|index: int|
                        !crate::local::is_best_match(files.deep_view(), query.deep_view(), index) by {
                        if 0 <= index < files.len() {
                            assert(crate::local::score(files.deep_view()[index], query.deep_view())
                                == 0);
                        }
                    }
                }
            },
        }
        effects
    }

    /// Handles the departure of the client `id` from `old_channel`: the
    /// agent leaves too if it is left alone in its channel.
    pub fn on_client_left_channel(&self, id: u16, old_channel: u64, seen: &Observed) -> (effects:
        Vec<Effect>)
        ensures
            effect_views(effects@) == match leave_reason(id, old_channel, *seen) {
                Some(reason) => quit_effects(reason, self@.supervised),
                None => Seq::empty(),
            },
    {
        let mut effects: Vec<Effect> = Vec::new();
        assert(effect_views(effects@) =~= Seq::<EffectView>::empty());
        let me = match seen.my_id {
            Some(me) => me,
            None => {
                return effects;
            },
        };
        if me == id {
            return effects;
        }
        match seen.current_channel {
            Some(channel) => {
                if channel == old_channel {
                    let reason = match &seen.user_count {
                        Ok(count) => if *count <= 1 {
                            Some(String::from_str("Channel is empty"))
                        } else {
                            None
                        },
                        Err(e) => {
                            let mut reason = String::from_str("Error: ");
                            reason.append(e.as_str());
                            Some(reason)
                        },
                    };
                    match reason {
                        Some(reason) => {
                            push_quit(reason, self.supervised, &mut effects);
                            assert(Seq::<EffectView>::empty() + quit_effects(
                                reason@,
                                self@.supervised,
                            ) =~= quit_effects(reason@, self@.supervised));
                        },
                        None => {},
                    }
                }
            },
            None => {},
        }
        effects
    }

    /// Handles whatever reaches the agent. Chat is heeded only where it was
    /// said in the channel.
    pub fn on_message(&mut self, message: MusicBotMessage, seen: &Observed) -> (effects: Vec<Effect>)
        ensures
            match message {
                MusicBotMessage::TextMessage(chat) => if chat.target == MessageTarget::Channel {
                    let outcome = old(self)@.on_text(chat.text@, chat.invoker.name@, seen.started);
                    final(self)@ == outcome.agent && effect_views(effects@) == outcome.effects
                } else {
                    final(self)@ == old(self)@ && effects@.len() == 0
                },
                MusicBotMessage::ClientChannel { client, old_channel } => final(self)@ == old(self)@
                    && effect_views(effects@) == match leave_reason(client, old_channel, *seen) {
                    Some(reason) => quit_effects(reason, old(self)@.supervised),
                    None => Seq::empty(),
                },
                MusicBotMessage::ClientDisconnected { id, channel } => final(self)@ == old(self)@
                    && effect_views(effects@) == match leave_reason(id, channel, *seen) {
                    Some(reason) => quit_effects(reason, old(self)@.supervised),
                    None => Seq::empty(),
                },
                MusicBotMessage::StateChange(state) => final(self)@ == old(self)@.on_state(
                    state,
                ).agent && effect_views(effects@) == old(self)@.on_state(state).effects,
                _ => final(self)@ == old(self)@ && effects@.len() == 0,
            },
    {
        match message {
            MusicBotMessage::TextMessage(chat) => {
                if chat.target == MessageTarget::Channel {
                    self.on_text(chat.text.as_str(), chat.invoker.name, seen.started)
                } else {
                    Vec::new()
                }
            },
            MusicBotMessage::ClientChannel { client, old_channel } => self.on_client_left_channel(
                client,
                old_channel,
                seen,
            ),
            MusicBotMessage::ClientDisconnected { id, channel } => self.on_client_left_channel(
                id,
                channel,
                seen,
            ),
            MusicBotMessage::StateChange(state) => self.on_state(state),
            _ => Vec::new(),
        }
    }
}

} // verus!
