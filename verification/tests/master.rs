use pokebot::master::{
    poke_sender, BotCreationError, ConnectedBot, Invite, MasterBot, MasterConfig, MasterEffect,
    Quit, UserChannel,
};
use pokebot::music::{ChatMessage, Invoker, MessageTarget, MusicBotMessage, State};
use pokebot::volume::Volume;
use rand::rngs::SmallRng;
use rand::SeedableRng;

fn config() -> MasterConfig {
    MasterConfig {
        master_name: String::from("PokeBot"),
        music_root: Some(String::from("/music")),
        address: String::from("voice.example.org"),
        verbose: 1,
        volume: Volume::new(200_000),
    }
}

fn master(names: &[&str], identities: usize) -> MasterBot<u32> {
    MasterBot::new(
        config(),
        names.iter().map(|n| n.to_string()).collect(),
        (0..identities as u32).collect(),
        SmallRng::seed_from_u64(17),
    )
}

fn invite(user: Option<u64>, own: Option<u64>, bots: &[Option<u64>]) -> Invite {
    Invite {
        user_channel: user.map(|id| UserChannel { id, path: format!("Lobby/Room{}", id) }),
        own_channel: own,
        bot_channels: bots.to_vec(),
    }
}

#[test]
fn invitation_is_answered_with_an_agent() {
    let mut m = master(&["Alpha", "Beta"], 2);
    let args = m.spawn_bot_for_client(&invite(Some(5), Some(1), &[])).unwrap();
    assert!(args.name == "Alpha" || args.name == "Beta");
    assert_eq!(args.name, ["Alpha", "Beta"][args.name_index]);
    assert!(args.identity_index < 2);
    assert_eq!(args.channel, "Lobby/Room5");
    assert_eq!(args.address, "voice.example.org");
    assert_eq!(args.music_root, Some(String::from("/music")));
    assert_eq!(args.verbose, 1);
    assert_eq!(args.volume, Volume::new(200_000));
    assert!(!args.local);
    assert_eq!(m.bot_names(), vec![args.name.clone()]);
    assert_eq!(m.available_names(), 1);
    assert_eq!(m.available_identities(), 1);
    assert_eq!(m.identity(args.identity_index), Some(&(args.identity_index as u32)));
}

#[test]
fn vanished_user_is_not_found() {
    let mut m = master(&["Alpha"], 1);
    assert_eq!(
        m.spawn_bot_for_client(&invite(None, Some(1), &[])),
        Err(BotCreationError::UnfoundUser)
    );
    assert_eq!(m.available_names(), 1);
    assert_eq!(m.available_identities(), 1);
}

#[test]
fn own_channel_is_refused() {
    let mut m = master(&["Alpha"], 1);
    assert_eq!(
        m.spawn_bot_for_client(&invite(Some(1), Some(1), &[])),
        Err(BotCreationError::MasterChannel(String::from("PokeBot")))
    );
    assert_eq!(m.available_names(), 1);
    assert!(m.bot_names().is_empty());
}

#[test]
fn second_agent_in_a_channel_is_refused() {
    let mut m = master(&["Alpha", "Beta", "Gamma"], 3);
    let first = m.spawn_bot_for_client(&invite(Some(5), Some(1), &[])).unwrap();
    assert_eq!(
        m.spawn_bot_for_client(&invite(Some(5), Some(1), &[Some(5)])),
        Err(BotCreationError::MultipleBots(first.name.clone()))
    );
    assert_eq!(m.bot_names(), vec![first.name]);
    assert_eq!(m.available_names(), 2);
    assert_eq!(m.available_identities(), 2);
}

#[test]
fn occupied_channel_is_refused_whichever_agent_is_there() {
    let mut m = master(&["Alpha", "Beta", "Gamma"], 3);
    let first = m.spawn_bot_for_client(&invite(Some(5), Some(1), &[])).unwrap();
    let second = m.spawn_bot_for_client(&invite(Some(6), Some(1), &[Some(5)])).unwrap();
    assert_eq!(
        m.spawn_bot_for_client(&invite(Some(6), Some(1), &[Some(5), Some(6)])),
        Err(BotCreationError::MultipleBots(second.name.clone()))
    );
    assert_eq!(
        m.spawn_bot_for_client(&invite(Some(5), Some(1), &[Some(5), Some(6)])),
        Err(BotCreationError::MultipleBots(first.name.clone()))
    );
    assert_eq!(
        m.spawn_bot_for_client(&invite(Some(6), Some(1), &[Some(6), Some(6)])),
        Err(BotCreationError::MultipleBots(first.name))
    );
    assert_eq!(m.available_names(), 1);
}

#[test]
fn agent_of_unknown_channel_does_not_block() {
    let mut m = master(&["Alpha", "Beta"], 2);
    m.spawn_bot_for_client(&invite(Some(5), Some(1), &[])).unwrap();
    assert!(m.spawn_bot_for_client(&invite(Some(5), Some(1), &[None])).is_ok());
}

#[test]
fn reports_beyond_the_connected_agents_are_ignored() {
    let mut m = master(&["Alpha", "Beta"], 2);
    assert!(m.spawn_bot_for_client(&invite(Some(5), Some(1), &[Some(5), Some(5)])).is_ok());
}

#[test]
fn own_channel_is_checked_before_occupancy() {
    let mut m = master(&["Alpha", "Beta"], 2);
    m.spawn_bot_for_client(&invite(Some(5), Some(1), &[])).unwrap();
    assert_eq!(
        m.spawn_bot_for_client(&invite(Some(5), Some(5), &[Some(5)])),
        Err(BotCreationError::MasterChannel(String::from("PokeBot")))
    );
}

#[test]
fn names_run_out() {
    let mut m = master(&["Alpha"], 3);
    m.spawn_bot_for_client(&invite(Some(5), Some(1), &[])).unwrap();
    assert_eq!(
        m.spawn_bot_for_client(&invite(Some(6), Some(1), &[Some(5)])),
        Err(BotCreationError::OutOfNames)
    );
    assert_eq!(m.available_names(), 0);
    assert_eq!(m.available_identities(), 2);
}

#[test]
fn name_is_returned_when_identities_run_out() {
    let mut m = master(&["Alpha", "Beta", "Gamma"], 1);
    m.spawn_bot_for_client(&invite(Some(5), Some(1), &[])).unwrap();
    assert_eq!(m.available_names(), 2);
    assert_eq!(
        m.spawn_bot_for_client(&invite(Some(6), Some(1), &[Some(5)])),
        Err(BotCreationError::OutOfIdentities)
    );
    assert_eq!(m.available_names(), 2);
    assert_eq!(m.available_identities(), 0);
    assert_eq!(m.bot_names().len(), 1);
}

#[test]
fn out_of_names_comes_before_out_of_identities() {
    let mut m = master(&[], 0);
    assert_eq!(
        m.spawn_bot_for_client(&invite(Some(6), Some(1), &[])),
        Err(BotCreationError::OutOfNames)
    );
}

#[test]
fn disconnect_returns_name_and_identity() {
    let mut m = master(&["Alpha", "Beta"], 2);
    let first = m.spawn_bot_for_client(&invite(Some(5), Some(1), &[])).unwrap();
    let second = m.spawn_bot_for_client(&invite(Some(6), Some(1), &[Some(5)])).unwrap();
    assert_eq!(m.available_names(), 0);
    let gone = m.on_bot_disconnect(&first.name);
    assert_eq!(
        gone,
        Some(ConnectedBot { name_index: first.name_index, identity_index: first.identity_index })
    );
    assert_eq!(m.bot_names(), vec![second.name]);
    assert_eq!(m.available_names(), 1);
    assert_eq!(m.available_identities(), 1);
    let again = m.spawn_bot_for_client(&invite(Some(5), Some(1), &[Some(6)])).unwrap();
    assert_eq!(again.name_index, first.name_index);
    assert_eq!(again.identity_index, first.identity_index);
}

#[test]
fn disconnect_of_a_stranger_changes_nothing() {
    let mut m = master(&["Alpha", "Beta"], 2);
    let first = m.spawn_bot_for_client(&invite(Some(5), Some(1), &[])).unwrap();
    assert_eq!(m.on_bot_disconnect("Nobody"), None);
    let free = if first.name == "Alpha" { "Beta" } else { "Alpha" };
    assert_eq!(m.on_bot_disconnect(free), None);
    assert_eq!(m.bot_names(), vec![first.name.clone()]);
    assert_eq!(m.available_names(), 1);
    assert!(m.on_bot_disconnect(&first.name).is_some());
    assert_eq!(m.on_bot_disconnect(&first.name), None);
    assert_eq!(m.available_names(), 2);
    assert_eq!(m.available_identities(), 2);
}

#[test]
fn poke_spawns_an_agent() {
    let mut m = master(&["Alpha"], 1);
    let effects = m.on_poke(9, &invite(Some(5), Some(1), &[]));
    assert_eq!(effects.len(), 1);
    match &effects[0] {
        MasterEffect::Spawn(args) => {
            assert_eq!(args.name, "Alpha");
            assert_eq!(args.channel, "Lobby/Room5");
        }
        other => panic!("unexpected effect {:?}", other),
    }
    assert_eq!(m.bot_names(), vec![String::from("Alpha")]);
}

#[test]
fn refused_poke_tells_the_user() {
    let mut m = master(&["Alpha"], 1);
    assert_eq!(
        m.on_poke(9, &invite(Some(1), Some(1), &[])),
        vec![MasterEffect::SendMessageToUser {
            client: 9,
            text: String::from("Joining the channel of \"PokeBot\" is not allowed"),
        }]
    );
    m.on_poke(9, &invite(Some(5), Some(1), &[]));
    assert_eq!(
        m.on_poke(10, &invite(Some(7), Some(1), &[Some(5)])),
        vec![MasterEffect::SendMessageToUser {
            client: 10,
            text: String::from("Out of names. Too many bots are already connected!"),
        }]
    );
}

#[test]
fn errors_read_as_sentences() {
    assert_eq!(
        BotCreationError::UnfoundUser.to_string(),
        "I can't find you in the channel list, either I am not subscribed to your channel or this is a bug."
    );
    assert_eq!(
        BotCreationError::MasterChannel(String::from("Boss")).to_string(),
        "Joining the channel of \"Boss\" is not allowed"
    );
    assert_eq!(
        BotCreationError::MultipleBots(String::from("Alpha")).to_string(),
        "\"Alpha\" is already in this channel. Multiple bots in one channel are not allowed."
    );
    assert_eq!(
        BotCreationError::OutOfNames.to_string(),
        "Out of names. Too many bots are already connected!"
    );
    assert_eq!(
        BotCreationError::OutOfIdentities.to_string(),
        "Out of identities. Too many bots are already connected!"
    );
}

#[test]
fn supervisor_greets_when_it_has_arrived() {
    let m = master(&["Alpha"], 1);
    assert_eq!(
        m.on_client_added(4, Some(4)),
        vec![MasterEffect::SetDescription(String::from("Poke me if you want a music bot!"))]
    );
    assert_eq!(m.on_client_added(4, Some(5)), Vec::new());
    assert_eq!(m.on_client_added(4, None), Vec::new());
}

#[test]
fn quit_tells_every_agent_then_leaves() {
    let mut m = master(&["Alpha", "Beta"], 2);
    let first = m.spawn_bot_for_client(&invite(Some(5), Some(1), &[])).unwrap();
    let second = m.spawn_bot_for_client(&invite(Some(6), Some(1), &[Some(5)])).unwrap();
    assert_eq!(
        m.quit("Stopping"),
        vec![
            MasterEffect::QuitBot { name: first.name, message: Quit(String::from("Stopping")) },
            MasterEffect::QuitBot { name: second.name, message: Quit(String::from("Stopping")) },
            MasterEffect::Disconnect(String::from("Stopping")),
        ]
    );
}

#[test]
fn quit_without_agents_only_leaves() {
    let m = master(&["Alpha"], 1);
    assert_eq!(m.quit("bye"), vec![MasterEffect::Disconnect(String::from("bye"))]);
    assert_eq!(m.config(), &config());
}

#[test]
fn only_pokes_are_invitations() {
    let chat = |target| {
        MusicBotMessage::TextMessage(ChatMessage {
            target,
            invoker: Invoker { name: String::from("user"), id: 3 },
            text: String::from("hi"),
        })
    };
    assert_eq!(poke_sender(&chat(MessageTarget::Poke(3))), Some(3));
    assert_eq!(poke_sender(&chat(MessageTarget::Channel)), None);
    assert_eq!(poke_sender(&chat(MessageTarget::Client(3))), None);
    assert_eq!(poke_sender(&chat(MessageTarget::Server)), None);
    assert_eq!(poke_sender(&MusicBotMessage::ClientAdded(3)), None);
    assert_eq!(poke_sender(&MusicBotMessage::StateChange(State::Playing)), None);
}
