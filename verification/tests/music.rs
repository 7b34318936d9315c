use pokebot::command::{Command, Direction, Seek, VolumeChange};
use pokebot::duration::TimeSpan;
use pokebot::master::Quit;
use pokebot::music::{
    added_message, description, playing_message, ChatMessage, Effect, Invoker, MessageTarget,
    MusicBot, MusicBotMessage, Observed, State,
};
use pokebot::track::{AudioLocation, AudioMetadata};
use pokebot::volume::Volume;

fn track(title: &str) -> AudioMetadata {
    AudioMetadata {
        uri: format!("http://example.org/{}", title),
        webpage_url: None,
        title: title.to_string(),
        thumbnail: None,
        duration: None,
        added_by: String::from("tester"),
    }
}

fn bot() -> MusicBot {
    MusicBot::new(String::from("Alpha"), None, true, Volume::new(500_000))
}

fn bot_with_root() -> MusicBot {
    MusicBot::new(String::from("Alpha"), Some(String::from("/music")), true, Volume::new(500_000))
}

fn starting(track: AudioMetadata) -> Vec<Effect> {
    vec![
        Effect::SendMessage(format!("Playing [U]{}[/U] ", track.title)),
        Effect::SetDescription(format!("Currently playing '{}'", track.title)),
        Effect::Reset,
        Effect::SetMetadata(track),
        Effect::Play,
    ]
}

fn seen(started: bool) -> Observed {
    Observed { started, my_id: Some(1), current_channel: Some(5), user_count: Ok(2) }
}

fn user() -> String {
    String::from("tester")
}

#[test]
fn new_agent_waits_at_the_end_of_stream() {
    let b = bot_with_root();
    assert_eq!(b.state(), State::EndOfStream);
    assert_eq!(b.name(), "Alpha");
    assert_eq!(b.music_root(), &Some(String::from("/music")));
    assert_eq!(b.volume(), Volume::new(500_000));
    assert!(b.playlist().is_empty());
}

#[test]
fn play_on_an_idle_agent_with_empty_queue_does_nothing() {
    let mut b = bot();
    assert_eq!(b.on_text("!play", user(), false), Vec::new());
    assert_eq!(b.state(), State::EndOfStream);
    assert!(b.playlist().is_empty());
    b.on_state(State::Stopped);
    assert_eq!(b.on_command(Command::Play, user(), false), Vec::new());
}

#[test]
fn queue_advances_on_every_end_of_stream() {
    let mut b = bot();
    assert_eq!(b.add_audio(track("A"), true), vec![Effect::SendMessage(String::from(
        "Added [U]A[/U] to playlist"
    ))]);
    b.add_audio(track("B"), true);
    b.on_state(State::Playing);
    assert_eq!(b.playlist(), vec![track("A"), track("B")]);

    let mut first = vec![Effect::Reset];
    first.extend(starting(track("A")));
    assert_eq!(b.on_state(State::EndOfStream), first);
    assert_eq!(b.playlist(), vec![track("B")]);
    assert_eq!(b.state(), State::EndOfStream);

    b.on_state(State::Playing);
    let mut second = vec![Effect::Reset];
    second.extend(starting(track("B")));
    assert_eq!(b.on_state(State::EndOfStream), second);
    assert!(b.playlist().is_empty());

    b.on_state(State::Playing);
    assert_eq!(
        b.on_state(State::EndOfStream),
        vec![
            Effect::Reset,
            Effect::UpdateName(State::EndOfStream),
            Effect::SetDescription(String::new()),
        ]
    );
    assert_eq!(b.state(), State::EndOfStream);
    assert!(b.playlist().is_empty());
}

#[test]
fn stop_right_after_end_of_stream_is_swallowed() {
    let mut b = bot();
    b.on_state(State::Playing);
    assert_eq!(b.state(), State::Playing);
    b.on_state(State::EndOfStream);
    assert_eq!(b.state(), State::EndOfStream);
    assert_eq!(b.on_state(State::Stopped), Vec::new());
    assert_eq!(b.state(), State::EndOfStream);
}

#[test]
fn stop_after_playing_shows_the_idle_name() {
    let mut b = bot();
    b.on_state(State::Playing);
    assert_eq!(
        b.on_state(State::Stopped),
        vec![Effect::UpdateName(State::Stopped), Effect::SetDescription(String::new())]
    );
    assert_eq!(b.state(), State::Stopped);
}

#[test]
fn repeated_state_changes_nothing() {
    let mut b = bot();
    b.add_audio(track("A"), true);
    b.on_state(State::Paused);
    assert_eq!(b.on_state(State::Paused), Vec::new());
    assert_eq!(b.state(), State::Paused);
    b.on_state(State::Playing);
    assert_eq!(b.on_state(State::Playing), Vec::new());
    b.on_state(State::Stopped);
    assert_eq!(b.on_state(State::Stopped), Vec::new());
    assert_eq!(b.state(), State::Stopped);
    assert_eq!(b.playlist(), vec![track("A")]);
}

#[test]
fn end_of_stream_advances_whatever_the_state_was() {
    let mut b = bot();
    assert_eq!(b.state(), State::EndOfStream);
    b.add_audio(track("B"), true);
    assert_eq!(b.playlist(), vec![track("B")]);
    let mut expected = vec![Effect::Reset];
    expected.extend(starting(track("B")));
    assert_eq!(b.on_state(State::EndOfStream), expected);
    assert!(b.playlist().is_empty());
    assert_eq!(b.state(), State::EndOfStream);
}

#[test]
fn queue_advances_without_a_playing_report_between() {
    let mut b = bot();
    b.add_audio(track("A"), true);
    b.add_audio(track("B"), true);
    let mut first = vec![Effect::Reset];
    first.extend(starting(track("A")));
    assert_eq!(b.on_state(State::EndOfStream), first);
    let mut second = vec![Effect::Reset];
    second.extend(starting(track("B")));
    assert_eq!(b.on_state(State::EndOfStream), second);
    assert_eq!(
        b.on_state(State::EndOfStream),
        vec![
            Effect::Reset,
            Effect::UpdateName(State::EndOfStream),
            Effect::SetDescription(String::new()),
        ]
    );
    assert!(b.playlist().is_empty());
}

#[test]
fn new_agent_settles_on_its_first_end_of_stream() {
    let mut b = bot();
    assert_eq!(
        b.on_state(State::EndOfStream),
        vec![
            Effect::Reset,
            Effect::UpdateName(State::EndOfStream),
            Effect::SetDescription(String::new()),
        ]
    );
    assert_eq!(b.state(), State::EndOfStream);
}

#[test]
fn failed_pipeline_command_is_reported_to_the_channel() {
    let mut b = bot();
    b.add_audio(track("A"), true);
    b.on_state(State::Playing);
    let effects = b.on_command(Command::Pause, user(), true);
    assert_eq!(effects, vec![Effect::Pause]);
    assert_eq!(
        b.on_effect_failed(&effects[0], Vec::new()),
        vec![Effect::SendMessage(String::from("AudioPlayer failed to change state"))]
    );
    assert_eq!(b.state(), State::Playing);
    assert_eq!(b.playlist(), vec![track("A")]);
}

#[test]
fn failed_pipeline_command_drops_what_stood_behind_it() {
    let b = bot();
    let rest = vec![Effect::SetMetadata(track("A")), Effect::Play];
    assert_eq!(
        b.on_effect_failed(&Effect::Reset, rest),
        vec![Effect::SendMessage(String::from("AudioPlayer failed to change state"))]
    );
    for failed in [
        Effect::StopCurrent,
        Effect::Play,
        Effect::Pause,
        Effect::Reset,
        Effect::SetMetadata(track("A")),
        Effect::SetVolume(Volume::new(1)),
    ] {
        assert!(failed.aborts_on_failure());
        assert_eq!(
            failed.failure_message(),
            Some(String::from("AudioPlayer failed to change state"))
        );
    }
    assert_eq!(
        b.on_effect_failed(&Effect::Seek(Seek::Absolute(TimeSpan::from_secs(1))), vec![Effect::Play]),
        vec![Effect::SendMessage(String::from("Failed to seek"))]
    );
}

#[test]
fn failed_connection_is_passed_over() {
    let b = bot();
    for failed in [
        Effect::SendMessage(String::from("Added [U]A[/U] to playlist")),
        Effect::SendHelp(Vec::new()),
        Effect::UpdateName(State::Playing),
        Effect::Disconnect(String::from("Leaving")),
        Effect::InformMaster,
        Effect::ChangeVolume(VolumeChange::Absolute(String::from("x"))),
    ] {
        assert_eq!(failed.failure_message(), None);
        assert!(failed.aborts_on_failure());
        assert_eq!(b.on_effect_failed(&failed, vec![Effect::Play]), Vec::new());
    }
}

#[test]
fn failed_description_does_not_hold_the_music_back() {
    let b = bot();
    let failed = Effect::SetDescription(String::from("Currently playing 'A'"));
    assert!(!failed.aborts_on_failure());
    assert_eq!(failed.failure_message(), None);
    assert_eq!(
        b.on_effect_failed(&failed, vec![Effect::Reset, Effect::Play]),
        vec![Effect::Reset, Effect::Play]
    );
}

#[test]
fn playing_and_paused_update_the_name() {
    let mut b = bot();
    assert_eq!(b.on_state(State::Playing), vec![Effect::UpdateName(State::Playing)]);
    assert_eq!(b.on_state(State::Paused), vec![Effect::UpdateName(State::Paused)]);
    assert_eq!(b.state(), State::Paused);
}

#[test]
fn first_track_starts_at_once() {
    let mut b = bot();
    assert_eq!(b.add_audio(track("A"), false), starting(track("A")));
    assert!(b.playlist().is_empty());
}

#[test]
fn idle_agent_with_a_queue_starts_the_oldest_track() {
    let mut b = bot();
    b.add_audio(track("A"), true);
    assert_eq!(b.add_audio(track("B"), false), starting(track("A")));
    assert_eq!(b.playlist(), vec![track("B")]);
}

#[test]
fn play_resumes_or_kicks_the_queue() {
    let mut b = bot();
    assert_eq!(b.on_command(Command::Play, user(), true), vec![Effect::Play]);
    b.add_audio(track("A"), true);
    assert_eq!(b.on_command(Command::Play, user(), false), vec![Effect::StopCurrent]);
    assert_eq!(b.playlist(), vec![track("A")]);
}

#[test]
fn pause_and_stop_go_to_the_pipeline() {
    let mut b = bot();
    assert_eq!(b.on_command(Command::Pause, user(), true), vec![Effect::Pause]);
    assert_eq!(b.on_command(Command::Stop, user(), true), vec![Effect::Reset]);
}

#[test]
fn next_skips_or_resets() {
    let mut b = bot();
    assert_eq!(b.on_command(Command::Next, user(), true), vec![Effect::Reset]);
    b.add_audio(track("A"), true);
    assert_eq!(b.on_command(Command::Next, user(), true), vec![Effect::StopCurrent]);
}

#[test]
fn clear_empties_the_queue() {
    let mut b = bot();
    b.add_audio(track("A"), true);
    b.add_audio(track("B"), true);
    assert_eq!(
        b.on_command(Command::Clear, user(), true),
        vec![Effect::SendMessage(String::from("Cleared playlist"))]
    );
    assert!(b.playlist().is_empty());
}

#[test]
fn seek_is_passed_on() {
    let mut b = bot();
    let amount = Seek::Positive(TimeSpan::from_secs(10));
    assert_eq!(b.on_command(Command::Seek { amount }, user(), true), vec![Effect::Seek(amount)]);
}

#[test]
fn seek_outcome_is_announced() {
    let b = bot();
    assert_eq!(
        b.on_seek_done(Some(TimeSpan::from_secs(90))),
        vec![Effect::SendMessage(String::from("New position: [B]1m 30s[/B]"))]
    );
    assert_eq!(b.on_seek_done(None), vec![Effect::SendMessage(String::from("Failed to seek"))]);
}

#[test]
fn volume_command_asks_for_the_number_to_be_read() {
    let mut b = bot();
    let volume = VolumeChange::Positive(String::from("10"));
    assert_eq!(
        b.on_command(Command::Volume { volume: volume.clone() }, user(), true),
        vec![Effect::ChangeVolume(volume)]
    );
    assert_eq!(b.volume(), Volume::new(500_000));
}

#[test]
fn volume_changes_and_renames() {
    let mut b = bot();
    b.on_state(State::Playing);
    assert_eq!(
        b.change_volume(Direction::Positive, 100_000),
        vec![Effect::SetVolume(Volume::new(600_000)), Effect::UpdateName(State::Playing)]
    );
    assert_eq!(b.volume().millionths(), 600_000);
    assert_eq!(
        b.change_volume(Direction::Negative, 50_000),
        vec![Effect::SetVolume(Volume::new(550_000)), Effect::UpdateName(State::Playing)]
    );
    assert_eq!(
        b.change_volume(Direction::Absolute, 250_000),
        vec![Effect::SetVolume(Volume::new(250_000)), Effect::UpdateName(State::Playing)]
    );
    assert_eq!(b.display_name(State::Playing), "🎵 Alpha - Playing (25%)");
}

#[test]
fn volume_stays_between_silence_and_full() {
    let mut b = bot();
    for (direction, amount) in [
        (Direction::Positive, 2_000_000),
        (Direction::Positive, i64::MAX),
        (Direction::Negative, i64::MIN),
        (Direction::Absolute, i64::MAX),
    ] {
        b.change_volume(direction, amount);
        assert_eq!(b.volume().millionths(), 1_000_000, "{:?} {}", direction, amount);
    }
    for (direction, amount) in [
        (Direction::Negative, 2_000_000),
        (Direction::Negative, i64::MAX),
        (Direction::Positive, i64::MIN),
        (Direction::Absolute, -1),
        (Direction::Absolute, i64::MIN),
    ] {
        b.change_volume(Direction::Absolute, 700_000);
        b.change_volume(direction, amount);
        assert_eq!(b.volume().millionths(), 0, "{:?} {}", direction, amount);
    }
}

#[test]
fn leave_quits_and_informs() {
    let mut b = bot();
    assert_eq!(
        b.on_command(Command::Leave, user(), true),
        vec![Effect::Reset, Effect::Disconnect(String::from("Leaving")), Effect::InformMaster]
    );
    let mut alone = MusicBot::new(String::from("Solo"), None, false, Volume::new(0));
    assert_eq!(
        alone.on_command(Command::Leave, user(), true),
        vec![Effect::Reset, Effect::Disconnect(String::from("Leaving"))]
    );
}

#[test]
fn quit_informs_only_when_asked() {
    let b = bot();
    assert_eq!(
        b.quit(String::from("Channel is empty"), true),
        vec![
            Effect::Reset,
            Effect::Disconnect(String::from("Channel is empty")),
            Effect::InformMaster,
        ]
    );
    assert_eq!(
        b.quit(String::from("Stopping"), false),
        vec![Effect::Reset, Effect::Disconnect(String::from("Stopping"))]
    );
    assert_eq!(
        b.on_quit(Quit(String::from("Stopping"))),
        vec![Effect::Reset, Effect::Disconnect(String::from("Stopping"))]
    );
}

#[test]
fn add_strips_link_markup() {
    let mut b = bot();
    assert_eq!(
        b.on_text("!add [URL]https://example.org/v?x=1[/URL]", user(), true),
        vec![Effect::Resolve {
            location: AudioLocation::Url(String::from("https://example.org/v?x=1")),
            user: user(),
        }]
    );
}

#[test]
fn add_of_a_file_address_is_a_local_path() {
    let mut b = bot();
    assert_eq!(
        b.on_text("!add [URL]file://albums/a.mp3[/URL]", user(), true),
        vec![Effect::Resolve {
            location: AudioLocation::Path(String::from("albums/a.mp3")),
            user: user(),
        }]
    );
    assert_eq!(
        b.on_command(Command::Add { url: String::from("file://") }, user(), true),
        vec![Effect::Resolve { location: AudioLocation::Path(String::new()), user: user() }]
    );
}

#[test]
fn search_without_music_root_goes_remote() {
    let mut b = bot();
    assert_eq!(
        b.on_text("!search road trip", user(), true),
        vec![Effect::Resolve {
            location: AudioLocation::YoutubeSearch(String::from("road trip")),
            user: user(),
        }]
    );
}

#[test]
fn search_with_music_root_lists_files_first() {
    let mut b = bot_with_root();
    assert_eq!(
        b.on_text("!search road trip", user(), true),
        vec![Effect::ListLocalFiles {
            query: vec![String::from("road"), String::from("trip")],
            user: user(),
        }]
    );
}

#[test]
fn local_files_answer_a_search() {
    let b = bot_with_root();
    let query = vec![String::from("road"), String::from("trip")];
    let files = vec![String::from("a/RoadTrip.mp3"), String::from("b/Road.mp3")];
    assert_eq!(
        b.on_local_files(&query, user(), &files),
        vec![Effect::Resolve {
            location: AudioLocation::Path(String::from("a/RoadTrip.mp3")),
            user: user(),
        }]
    );
    assert_eq!(
        b.on_local_files(&query, user(), &vec![String::from("b/Road.mp3")]),
        vec![Effect::Resolve {
            location: AudioLocation::YoutubeSearch(String::from("road trip")),
            user: user(),
        }]
    );
}

#[test]
fn help_is_asked_of_the_parser() {
    let mut b = bot();
    assert_eq!(b.on_text("!help", user(), true), vec![Effect::SendHelp(Vec::new())]);
    assert_eq!(
        b.on_text("!help seek", user(), true),
        vec![Effect::SendHelp(vec![String::from("seek")])]
    );
}

#[test]
fn chatter_and_malformed_commands_are_passed_over() {
    let mut b = bot();
    b.add_audio(track("A"), true);
    assert_eq!(b.on_text("nice song", user(), true), Vec::new());
    assert_eq!(b.on_text("!dance", user(), true), Vec::new());
    assert_eq!(b.on_text("!seek sideways", user(), true), Vec::new());
    assert_eq!(b.playlist(), vec![track("A")]);
}

#[test]
fn failed_lookup_is_reported() {
    let b = bot();
    assert_eq!(
        b.on_resolve_failed("Invalid path"),
        vec![Effect::SendMessage(String::from("Failed to add: Invalid path"))]
    );
}

#[test]
fn display_name_shows_state_and_volume() {
    let mut b = bot();
    assert_eq!(b.display_name(State::Playing), "🎵 Alpha - Playing (50%)");
    b.change_volume(Direction::Absolute, 70_000);
    assert_eq!(b.display_name(State::Paused), "🎵 Alpha - Paused (7%)");
    b.change_volume(Direction::Absolute, 1_000_000);
    assert_eq!(b.display_name(State::Stopped), "🎵 Alpha - Stopped (100%)");
    b.change_volume(Direction::Absolute, 0);
    assert_eq!(b.display_name(State::EndOfStream), "🎵 Alpha (0%)");
}

#[test]
fn state_words() {
    assert_eq!(State::Playing.to_string(), "Playing");
    assert_eq!(State::Paused.to_string(), "Paused");
    assert_eq!(State::Stopped.to_string(), "Stopped");
    assert_eq!(State::EndOfStream.to_string(), "Stopped");
}

#[test]
fn announcements_name_local_files_and_lengths() {
    let mut t = track("Song");
    assert_eq!(playing_message(&t), "Playing [U]Song[/U] ");
    assert_eq!(added_message(&t), "Added [U]Song[/U] to playlist");
    t.duration = TimeSpan::new(185, 0);
    assert_eq!(playing_message(&t), "Playing [U]Song[/U] ([B]3m 5s[/B])");
    assert_eq!(added_message(&t), "Added [U]Song[/U] ([B]3m 5s[/B]) to playlist");
    t.uri = String::from("file:///music/song.mp3");
    assert_eq!(playing_message(&t), "Playing local file [U]Song[/U] ([B]3m 5s[/B])");
    assert_eq!(added_message(&t), "Added local file [U]Song[/U] ([B]3m 5s[/B]) to playlist");
    assert_eq!(description("Song"), "Currently playing 'Song'");
}

#[test]
fn agent_leaves_an_empty_channel() {
    let b = bot();
    let alone = Observed { started: true, my_id: Some(1), current_channel: Some(5), user_count: Ok(1) };
    assert_eq!(
        b.on_client_left_channel(2, 5, &alone),
        vec![
            Effect::Reset,
            Effect::Disconnect(String::from("Channel is empty")),
            Effect::InformMaster,
        ]
    );
    let nobody = Observed { user_count: Ok(0), ..seen(true) };
    assert_eq!(b.on_client_left_channel(2, 5, &nobody).len(), 3);
}

#[test]
fn agent_stays_while_someone_listens() {
    let b = bot();
    assert_eq!(b.on_client_left_channel(2, 5, &seen(true)), Vec::new());
}

#[test]
fn agent_ignores_other_channels_and_its_own_moves() {
    let b = bot();
    let alone = Observed { user_count: Ok(1), ..seen(true) };
    assert_eq!(b.on_client_left_channel(2, 6, &alone), Vec::new());
    assert_eq!(b.on_client_left_channel(1, 5, &alone), Vec::new());
    let blind = Observed { my_id: None, user_count: Ok(1), ..seen(true) };
    assert_eq!(b.on_client_left_channel(2, 5, &blind), Vec::new());
    let lost = Observed { current_channel: None, user_count: Ok(1), ..seen(true) };
    assert_eq!(b.on_client_left_channel(2, 5, &lost), Vec::new());
}

#[test]
fn agent_leaves_when_it_cannot_count() {
    let b = bot();
    let failing = Observed { user_count: Err(String::from("timeout")), ..seen(true) };
    assert_eq!(
        b.on_client_left_channel(2, 5, &failing),
        vec![
            Effect::Reset,
            Effect::Disconnect(String::from("Error: timeout")),
            Effect::InformMaster,
        ]
    );
}

#[test]
fn messages_are_dispatched() {
    let mut b = bot();
    let chat = |target, text: &str| {
        MusicBotMessage::TextMessage(ChatMessage {
            target,
            invoker: Invoker { name: user(), id: 2 },
            text: text.to_string(),
        })
    };
    assert_eq!(b.on_message(chat(MessageTarget::Channel, "!pause"), &seen(true)), vec![
        Effect::Pause
    ]);
    assert_eq!(b.on_message(chat(MessageTarget::Server, "!pause"), &seen(true)), Vec::new());
    assert_eq!(b.on_message(chat(MessageTarget::Client(1), "!pause"), &seen(true)), Vec::new());
    assert_eq!(b.on_message(chat(MessageTarget::Poke(1), "!pause"), &seen(true)), Vec::new());
    assert_eq!(
        b.on_message(MusicBotMessage::StateChange(State::Playing), &seen(true)),
        vec![Effect::UpdateName(State::Playing)]
    );
    assert_eq!(b.on_message(MusicBotMessage::ClientAdded(3), &seen(true)), Vec::new());
    assert_eq!(b.on_message(MusicBotMessage::ChannelAdded(3), &seen(true)), Vec::new());
    let alone = Observed { user_count: Ok(1), ..seen(true) };
    assert_eq!(
        b.on_message(MusicBotMessage::ClientChannel { client: 2, old_channel: 5 }, &alone).len(),
        3
    );
    assert_eq!(
        b.on_message(MusicBotMessage::ClientDisconnected { id: 2, channel: 5 }, &alone).len(),
        3
    );
    assert_eq!(
        b.on_message(MusicBotMessage::ClientDisconnected { id: 2, channel: 6 }, &alone),
        Vec::new()
    );
}

#[test]
fn chat_uses_the_observed_pipeline_state() {
    let mut b = bot();
    b.add_audio(track("A"), true);
    let chat = MusicBotMessage::TextMessage(ChatMessage {
        target: MessageTarget::Channel,
        invoker: Invoker { name: user(), id: 2 },
        text: String::from("!play"),
    });
    assert_eq!(b.on_message(chat, &seen(false)), vec![Effect::StopCurrent]);
}
