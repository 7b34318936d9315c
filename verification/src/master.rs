//! The supervisor: it answers invitations by sending an agent into the
//! inviting user's channel, and takes the agent's name and identity back
//! when the agent is gone.

use vstd::prelude::*;
use vstd::string::*;
use rand::rngs::SmallRng;
use crate::music::{MessageTarget, MusicBotMessage};
use crate::pool::{PoolView, ResourcePool};
use crate::volume::Volume;

verus! {

/// Why an invitation was turned down.
#[derive(Debug, PartialEq, Eq)]
pub enum BotCreationError {
    /// The user who invited cannot be found in any channel.
    UnfoundUser,
    /// The user sits in the supervisor's own channel; the name is the
    /// supervisor's.
    MasterChannel(String),
    /// The user's channel has an agent already; the name is that agent's.
    MultipleBots(String),
    OutOfNames,
    OutOfIdentities,
}

/// What a user reads who cannot be found.
pub open spec fn unfound_user_text() -> Seq<char> {
    "I can't find you in the channel list, either I am not subscribed to your channel or this is a bug."@
}

/// What a user reads who sits in the channel of the supervisor `name`.
pub open spec fn master_channel_text(name: Seq<char>) -> Seq<char> {
    "Joining the channel of \""@ + name + "\" is not allowed"@
}

/// What a user reads whose channel has the agent `name` already.
pub open spec fn multiple_bots_text(name: Seq<char>) -> Seq<char> {
    "\""@ + name + "\" is already in this channel. Multiple bots in one channel are not allowed."@
}

/// What a user reads when no name is free.
pub open spec fn out_of_names_text() -> Seq<char> {
    "Out of names. Too many bots are already connected!"@
}

/// What a user reads when no identity is free.
pub open spec fn out_of_identities_text() -> Seq<char> {
    "Out of identities. Too many bots are already connected!"@
}

impl BotCreationError {
    /// The refusal in the words that the user gets to read.
    pub open spec fn text(self) -> Seq<char> {
        match self {
            BotCreationError::UnfoundUser => unfound_user_text(),
            BotCreationError::MasterChannel(name) => master_channel_text(name@),
            BotCreationError::MultipleBots(name) => multiple_bots_text(name@),
            BotCreationError::OutOfNames => out_of_names_text(),
            BotCreationError::OutOfIdentities => out_of_identities_text(),
        }
    }

    /// The refusal in the words that the user gets to read.
    pub fn to_string(&self) -> (out: String)
        ensures
            out@ == self.text(),
    {
        match self {
            BotCreationError::UnfoundUser => String::from_str(
                "I can't find you in the channel list, either I am not subscribed to your channel or this is a bug.",
            ),
            BotCreationError::MasterChannel(name) => {
                let mut out = String::from_str("Joining the channel of \"");
                out.append(name.as_str());
                out.append("\" is not allowed");
                out
            },
            BotCreationError::MultipleBots(name) => {
                let mut out = String::from_str("\"");
                out.append(name.as_str());
                out.append(
                    "\" is already in this channel. Multiple bots in one channel are not allowed.",
                );
                out
            },
            BotCreationError::OutOfNames => String::from_str(
                "Out of names. Too many bots are already connected!",
            ),
            BotCreationError::OutOfIdentities => String::from_str(
                "Out of identities. Too many bots are already connected!",
            ),
        }
    }
}

/// What every agent of a supervisor is started with.
#[derive(Debug, PartialEq, Eq)]
pub struct MasterConfig {
    pub master_name: String,
    pub music_root: Option<String>,
    pub address: String,
    pub verbose: u8,
    /// The volume at which a new agent starts.
    pub volume: Volume,
}

impl MasterConfig {
    /// Whether `args` carry what this configuration gives to every agent:
    /// the music root, the address of the server, the verbosity and the
    /// volume to start with.
    pub open spec fn equips(self, args: MusicBotArgs) -> bool {
        &&& args.music_root == self.music_root
        &&& args.address == self.address
        &&& args.verbose == self.verbose
        &&& args.volume == self.volume
    }
}

/// What a new agent is started with.
#[derive(Debug, PartialEq, Eq)]
pub struct MusicBotArgs {
    pub name: String,
    /// The position of the name in the pool.
    pub name_index: usize,
    /// The position of the agent's identity in the pool.
    pub identity_index: usize,
    pub music_root: Option<String>,
    pub local: bool,
    pub address: String,
    /// The path of the channel to join.
    pub channel: String,
    pub verbose: u8,
    /// The volume to start with.
    pub volume: Volume,
}

/// The message that tells an agent, or the supervisor, to leave; it carries
/// the reason.
#[derive(Debug, PartialEq, Eq)]
pub struct Quit(pub String);

/// The name and the identity that one agent holds, by their positions in
/// the pool.
#[derive(Clone, Copy, Debug, PartialEq, Eq, Structural)]
pub struct ConnectedBot {
    pub name_index: usize,
    pub identity_index: usize,
}

/// The channel of the user who invited.
#[derive(Debug, PartialEq, Eq)]
pub struct UserChannel {
    pub id: u64,
    /// The names of the channel and of the channels above it, joined by `/`.
    pub path: String,
}

/// An invitation, with what the server told about it.
#[derive(Debug, PartialEq, Eq)]
pub struct Invite {
    /// Where the inviting user is, if the user can still be found.
    pub user_channel: Option<UserChannel>,
    /// Where the supervisor itself is, if the connection could tell.
    pub own_channel: Option<u64>,
    /// For each connected agent, in the order of
    /// [`MasterBot::bot_names`], the channel it is in, if it could tell.
    pub bot_channels: Vec<Option<u64>>,
}

/// One thing for the caller of the supervisor to carry out. The effects of
/// a list are independent of each other: where one fails, the others are
/// carried out all the same.
#[derive(Debug, PartialEq, Eq)]
pub enum MasterEffect {
    /// Start an agent with these arguments. The agent is entered as
    /// connected already: where it cannot be started, it is to be reported
    /// as gone with [`MasterBot::on_bot_disconnect`], which frees its name
    /// and identity.
    Spawn(MusicBotArgs),
    /// Tell the user with this client id why no agent comes.
    SendMessageToUser { client: u16, text: String },
    /// Show this description.
    SetDescription(String),
    /// Hand the message to the agent of this name.
    QuitBot { name: String, message: Quit },
    /// Leave the server, giving this reason.
    Disconnect(String),
}

/// The mathematical content of a [`MasterEffect`].
pub enum MasterEffectView {
    Spawn(MusicBotArgs),
    SendMessageToUser { client: u16, text: Seq<char> },
    SetDescription(Seq<char>),
    QuitBot { name: Seq<char>, reason: Seq<char> },
    Disconnect(Seq<char>),
}

impl View for MasterEffect {
    type V = MasterEffectView;

    open spec fn view(&self) -> MasterEffectView {
        match *self {
            MasterEffect::Spawn(args) => MasterEffectView::Spawn(args),
            MasterEffect::SendMessageToUser { client, text } => MasterEffectView::SendMessageToUser {
                client,
                text: text@,
            },
            MasterEffect::SetDescription(text) => MasterEffectView::SetDescription(text@),
            MasterEffect::QuitBot { name, message } => MasterEffectView::QuitBot {
                name: name@,
                reason: message.0@,
            },
            MasterEffect::Disconnect(reason) => MasterEffectView::Disconnect(reason@),
        }
    }
}

/// The contents of a list of effects.
pub open spec fn master_effect_views(effects: Seq<MasterEffect>) -> Seq<MasterEffectView> {
    effects.map_values(|e: MasterEffect| e@)
}

/// The user who invited with this message, if it is an invitation: a poke.
pub open spec fn poked_by(message: MusicBotMessage) -> Option<u16> {
    match message {
        MusicBotMessage::TextMessage(chat) => match chat.target {
            MessageTarget::Poke(user) => Some(user),
            _ => None,
        },
        _ => None,
    }
}

/// The user who invited with this message, if it is an invitation.
pub fn poke_sender(message: &MusicBotMessage) -> (user: Option<u16>)
    ensures
        user == poked_by(*message),
{
    match message {
        MusicBotMessage::TextMessage(chat) => match chat.target {
            MessageTarget::Poke(user) => Some(user),
            _ => None,
        },
        _ => None,
    }
}

/// Whether one of the agents holds the name at `index`.
pub open spec fn holds_name(bots: Seq<ConnectedBot>, index: usize) -> bool {
    exists|k: int| 0 <= k < bots.len() && (#[trigger] bots[k]).name_index == index
}

/// Whether one of the agents holds the identity at `index`.
pub open spec fn holds_identity(bots: Seq<ConnectedBot>, index: usize) -> bool {
    exists|k: int| 0 <= k < bots.len() && (#[trigger] bots[k]).identity_index == index
}

/// The first agent at or after `from` that reported to be in `channel`.
pub open spec fn first_occupant(
    channels: Seq<Option<u64>>,
    count: int,
    channel: u64,
    from: int,
) -> Option<int>
    decreases count - from,
{
    if from < 0 || from >= count || from >= channels.len() {
        None
    } else if channels[from] == Some(channel) {
        Some(from)
    } else {
        first_occupant(channels, count, channel, from + 1)
    }
}

/// What the rules say of an invitation before any name is lent.
pub enum Verdict {
    /// The user is gone.
    UnfoundUser,
    /// The user is in the supervisor's own channel.
    MasterChannel,
    /// The agent at this position is in the user's channel already.
    MultipleBots(int),
    /// An agent may come, if the pool has a name and an identity left.
    Welcome,
}

/// The mathematical content of a [`MasterBot`].
pub struct MasterView {
    pub master_name: Seq<char>,
    /// The names of the pool, by position.
    pub names: Seq<Seq<char>>,
    pub pool: PoolView,
    /// The connected agents, in the order in which they came.
    pub bots: Seq<ConnectedBot>,
}

impl MasterView {
    /// The names and identities that are lent out are those that the
    /// connected agents hold, and no two agents hold the same.
    pub open spec fn wf(self) -> bool {
        &&& self.pool.wf()
        &&& self.names.len() == self.pool.name_count
        &&& forall|i: usize| holds_name(self.bots, i) <==> self.pool.name_lent(i)
        &&& forall|i: usize| holds_identity(self.bots, i) <==> self.pool.identity_lent(i)
        &&& forall|j: int, k: int|
            0 <= j < k < self.bots.len() ==> (#[trigger] self.bots[j]).name_index
                != (#[trigger] self.bots[k]).name_index && self.bots[j].identity_index
                != self.bots[k].identity_index
    }

    /// The name of the agent at position `k`.
    pub open spec fn bot_name(self, k: int) -> Seq<char> {
        self.names[self.bots[k].name_index as int]
    }

    /// The names of the connected agents, in the order in which they came.
    pub open spec fn bot_names(self) -> Seq<Seq<char>> {
        Seq::new(self.bots.len(), |k: int| self.bot_name(k))
    }

    /// What the rules say of an invitation: the user must be found, must not
    /// sit with the supervisor, and must not have an agent in the channel
    /// already.
    pub open spec fn verdict(self, invite: Invite) -> Verdict {
        match invite.user_channel {
            None => Verdict::UnfoundUser,
            Some(channel) => if invite.own_channel == Some(channel.id) {
                Verdict::MasterChannel
            } else {
                match first_occupant(invite.bot_channels@, self.bots.len() as int, channel.id, 0) {
                    Some(k) => Verdict::MultipleBots(k),
                    None => Verdict::Welcome,
                }
            },
        }
    }

    /// Why an invitation is refused, in the words for the user, or `None`
    /// where an agent comes.
    pub open spec fn refusal(self, invite: Invite) -> Option<Seq<char>> {
        match self.verdict(invite) {
            Verdict::UnfoundUser => Some(unfound_user_text()),
            Verdict::MasterChannel => Some(master_channel_text(self.master_name)),
            Verdict::MultipleBots(k) => Some(multiple_bots_text(self.bot_name(k))),
            Verdict::Welcome => if self.pool.free_names.len() == 0 {
                Some(out_of_names_text())
            } else if self.pool.free_identities.len() == 0 {
                Some(out_of_identities_text())
            } else {
                None
            },
        }
    }

    /// Whether an agent that is started with `args` answers the invitation
    /// and leaves the supervisor as `after`: the agent got a name and an
    /// identity that were free, goes by that name into the user's channel,
    /// and is entered as the last of the connected agents.
    pub open spec fn welcomes(self, invite: Invite, args: MusicBotArgs, after: MasterView) -> bool {
        let bot = ConnectedBot { name_index: args.name_index, identity_index: args.identity_index };
        &&& invite.user_channel is Some
        &&& self.pool.free_names.contains(args.name_index)
        &&& self.pool.free_identities.contains(args.identity_index)
        &&& after == self.with_bot(bot)
        &&& args.name@ == self.names[args.name_index as int]
        &&& args.channel@ == invite.user_channel.unwrap().path@
        &&& !args.local
    }

    /// The supervisor after an agent came that holds `bot`.
    pub open spec fn with_bot(self, bot: ConnectedBot) -> MasterView {
        MasterView {
            pool: self.pool.lend_name(bot.name_index).lend_identity(bot.identity_index),
            bots: self.bots.push(bot),
            ..self
        }
    }

    /// The supervisor after the agent at position `k` went.
    pub open spec fn without_bot(self, k: int) -> MasterView {
        MasterView {
            pool: self.pool.release(self.bots[k].name_index, self.bots[k].identity_index),
            bots: self.bots.remove(k),
            ..self
        }
    }

    /// The first connected agent called `name`, if there is one.
    pub open spec fn first_named(self, name: Seq<char>, from: int) -> Option<int>
        decreases self.bots.len() - from,
    {
        if from < 0 || from >= self.bots.len() {
            None
        } else if self.bot_name(from) == name {
            Some(from)
        } else {
            self.first_named(name, from + 1)
        }
    }

    proof fn lemma_first_occupant(channels: Seq<Option<u64>>, count: int, channel: u64, from: int)
        requires
            0 <= from,
        ensures
            match first_occupant(channels, count, channel, from) {
                Some(k) => from <= k < count && k < channels.len() && channels[k] == Some(channel)
                    && forall|j: int| from <= j < k ==> channels[j] != Some(channel),
                None => forall|j: int|
                    from <= j < count && j < channels.len() ==> channels[j] != Some(channel),
            },
        decreases count - from,
    {
        if from < count && from < channels.len() && channels[from] != Some(channel) {
            Self::lemma_first_occupant(channels, count, channel, from + 1);
        }
    }

    /// One agent per channel: an invitation into a channel in which a
    /// connected agent reported to be is refused, naming an agent that is
    /// there, whatever else the invitation holds and whenever it comes.
    pub proof fn lemma_occupied_channel_refused(self, invite: Invite, k: int)
        requires
            invite.user_channel is Some,
            invite.own_channel != Some(invite.user_channel.unwrap().id),
            0 <= k < self.bots.len(),
            k < invite.bot_channels@.len(),
            invite.bot_channels@[k] == Some(invite.user_channel.unwrap().id),
        ensures
            self.verdict(invite) matches Verdict::MultipleBots(j) && 0 <= j <= k
                && invite.bot_channels@[j] == Some(invite.user_channel.unwrap().id),
    {
        Self::lemma_first_occupant(
            invite.bot_channels@,
            self.bots.len() as int,
            invite.user_channel.unwrap().id,
            0,
        );
    }

    /// An agent that comes and goes again leaves the pool as it was: what
    /// its arrival lent is what its departure releases.
    pub proof fn lemma_come_and_go(self, bot: ConnectedBot)
        requires
            self.wf(),
            self.pool.free_names.contains(bot.name_index),
            self.pool.free_identities.contains(bot.identity_index),
        ensures
            self.with_bot(bot).wf(),
            self.with_bot(bot).without_bot(self.bots.len() as int) == self,
    {
        self.lemma_with_bot(bot);
        let after = self.with_bot(bot).without_bot(self.bots.len() as int);
        assert(after.bots =~= self.bots);
        assert(after.pool.free_names =~= self.pool.free_names);
        assert(after.pool.free_identities =~= self.pool.free_identities);
    }

    proof fn lemma_with_bot(self, bot: ConnectedBot)
        requires
            self.wf(),
            self.pool.free_names.contains(bot.name_index),
            self.pool.free_identities.contains(bot.identity_index),
        ensures
            self.with_bot(bot).wf(),
    {
        let after = self.with_bot(bot);
        let n = self.bots.len() as int;
        assert(after.bots[n] == bot);
        assert forall|i: usize| holds_name(after.bots, i) <==> after.pool.name_lent(i) by {
            if holds_name(after.bots, i) {
                let k = choose|k: int|
                    0 <= k < after.bots.len() && (#[trigger] after.bots[k]).name_index == i;
                if k < n {
                    assert(self.bots[k].name_index == i);
                    assert(holds_name(self.bots, i));
                }
            }
            if after.pool.name_lent(i) && i != bot.name_index {
                assert(self.pool.name_lent(i));
                assert(holds_name(self.bots, i));
                let k = choose|k: int|
                    0 <= k < self.bots.len() && (#[trigger] self.bots[k]).name_index == i;
                assert(after.bots[k].name_index == i);
            }
        }
        assert forall|i: usize| holds_identity(after.bots, i) <==> after.pool.identity_lent(i) by {
            if holds_identity(after.bots, i) {
                let k = choose|k: int|
                    0 <= k < after.bots.len() && (#[trigger] after.bots[k]).identity_index == i;
                if k < n {
                    assert(self.bots[k].identity_index == i);
                    assert(holds_identity(self.bots, i));
                }
            }
            if after.pool.identity_lent(i) && i != bot.identity_index {
                assert(self.pool.identity_lent(i));
                assert(holds_identity(self.bots, i));
                let k = choose|k: int|
                    0 <= k < self.bots.len() && (#[trigger] self.bots[k]).identity_index == i;
                assert(after.bots[k].identity_index == i);
            }
        }
        assert forall|j: int, k: int| 0 <= j < k < after.bots.len() implies (#[trigger] after.bots[j])
            .name_index != (#[trigger] after.bots[k]).name_index && after.bots[j].identity_index
            != after.bots[k].identity_index by {
            if k == n {
                assert(self.bots[j] == after.bots[j]);
                assert(holds_name(self.bots, self.bots[j].name_index));
                assert(holds_identity(self.bots, self.bots[j].identity_index));
            } else {
                assert(self.bots[j] == after.bots[j]);
                assert(self.bots[k] == after.bots[k]);
            }
        }
    }

    proof fn lemma_without_bot(self, k: int)
        requires
            self.wf(),
            0 <= k < self.bots.len(),
        ensures
            self.without_bot(k).wf(),
            self.pool.name_lent(self.bots[k].name_index),
            self.pool.identity_lent(self.bots[k].identity_index),
    {
        let after = self.without_bot(k);
        let gone = self.bots[k];
        assert(holds_name(self.bots, gone.name_index));
        assert(holds_identity(self.bots, gone.identity_index));
        assert forall|j: int| 0 <= j < after.bots.len() implies #[trigger] after.bots[j] == self.bots[if j
            < k {
            j
        } else {
            j + 1
        }] by {}
        assert forall|i: usize| holds_name(after.bots, i) <==> after.pool.name_lent(i) by {
            if holds_name(after.bots, i) {
                let j = choose|j: int|
                    0 <= j < after.bots.len() && (#[trigger] after.bots[j]).name_index == i;
                let j0 = if j < k { j } else { j + 1 };
                assert(self.bots[j0].name_index == i);
                assert(holds_name(self.bots, i));
                if j0 < k {
                    assert(self.bots[j0].name_index != self.bots[k].name_index);
                } else {
                    assert(self.bots[k].name_index != self.bots[j0].name_index);
                }
            }
            if after.pool.name_lent(i) {
                assert(self.pool.name_lent(i));
                assert(holds_name(self.bots, i));
                let j0 = choose|j: int|
                    0 <= j < self.bots.len() && (#[trigger] self.bots[j]).name_index == i;
                assert(j0 != k);
                let j = if j0 < k { j0 } else { j0 - 1 };
                assert(after.bots[j].name_index == i);
            }
        }
        assert forall|i: usize| holds_identity(after.bots, i) <==> after.pool.identity_lent(i) by {
            if holds_identity(after.bots, i) {
                let j = choose|j: int|
                    0 <= j < after.bots.len() && (#[trigger] after.bots[j]).identity_index == i;
                let j0 = if j < k { j } else { j + 1 };
                assert(self.bots[j0].identity_index == i);
                assert(holds_identity(self.bots, i));
                if j0 < k {
                    assert(self.bots[j0].identity_index != self.bots[k].identity_index);
                } else {
                    assert(self.bots[k].identity_index != self.bots[j0].identity_index);
                }
            }
            if after.pool.identity_lent(i) {
                assert(self.pool.identity_lent(i));
                assert(holds_identity(self.bots, i));
                let j0 = choose|j: int|
                    0 <= j < self.bots.len() && (#[trigger] self.bots[j]).identity_index == i;
                assert(j0 != k);
                let j = if j0 < k { j0 } else { j0 - 1 };
                assert(after.bots[j].identity_index == i);
            }
        }
        assert forall|a: int, b: int| 0 <= a < b < after.bots.len() implies (#[trigger] after.bots[a])
            .name_index != (#[trigger] after.bots[b]).name_index && after.bots[a].identity_index
            != after.bots[b].identity_index by {
            let a0 = if a < k { a } else { a + 1 };
            let b0 = if b < k { b } else { b + 1 };
            assert(self.bots[a0] == after.bots[a]);
            assert(self.bots[b0] == after.bots[b]);
        }
    }
}

/// The supervisor.
pub struct MasterBot<I> {
    config: MasterConfig,
    pool: ResourcePool<I>,
    /// The connected agents in the order in which they came, so that what
    /// is known of them can be told by position. An agent is found by its
    /// name; [`MasterView::wf`] says that no two hold the same name or the
    /// same identity.
    connected_bots: Vec<ConnectedBot>,
}

impl<I> View for MasterBot<I> {
    type V = MasterView;

    closed spec fn view(&self) -> MasterView {
        MasterView {
            master_name: self.config.master_name@,
            names: Seq::new(self.pool.names().len(), |i: int| self.pool.names()[i]@),
            pool: self.pool@,
            bots: self.connected_bots@,
        }
    }
}

impl<I> MasterBot<I> {
    /// The pool is in order, and what it has lent out is what the connected
    /// agents hold.
    pub closed spec fn wf(&self) -> bool {
        self.pool.wf() && self@.wf()
    }

    /// A well-formed supervisor has a well-formed view.
    pub proof fn lemma_view(&self)
        requires
            self.wf(),
        ensures
            self@.wf(),
    {
    }

    /// The identities of the pool, by position.
    pub closed spec fn identities(&self) -> Seq<I> {
        self.pool.identities()
    }

    /// The configuration that the supervisor was made with.
    pub closed spec fn config_view(&self) -> MasterConfig {
        self.config
    }

    /// A supervisor without agents; every name and identity is free.
    pub fn new(config: MasterConfig, names: Vec<String>, identities: Vec<I>, rng: SmallRng) -> (master:
        Self)
        ensures
            master.wf(),
            master.config_view() == config,
            master@.master_name == config.master_name@,
            master@.names == names.deep_view(),
            master@.bots == Seq::<ConnectedBot>::empty(),
            master@.pool.name_count == names@.len(),
            master@.pool.identity_count == identities@.len(),
            forall|i: usize| i < names@.len() <==> master@.pool.free_names.contains(i),
            forall|i: usize| i < identities@.len() <==> master@.pool.free_identities.contains(i),
            master.identities() == identities@,
    {
        let ghost name_views = names.deep_view();
        let pool = ResourcePool::new(names, identities, rng);
        let master = MasterBot { config, pool, connected_bots: Vec::new() };
        proof {
            master.pool.lemma_view();
            assert(master@.names =~= name_views);
            assert forall|i: usize| !holds_name(master@.bots, i) by {}
            assert forall|i: usize| !holds_identity(master@.bots, i) by {}
        }
        master
    }

    /// The supervisor's configuration.
    pub fn config(&self) -> (config: &MasterConfig)
        ensures
            *config == self.config_view(),
            config.master_name@ == self@.master_name,
    {
        &self.config
    }

    /// The identity at `index` of the pool, if there is one.
    pub fn identity(&self, index: usize) -> (identity: Option<&I>)
        ensures
            index < self.identities().len() ==> identity == Some(&self.identities()[index as int]),
            index >= self.identities().len() ==> identity is None,
    {
        self.pool.identity(index)
    }

    /// How many names are free.
    pub fn available_names(&self) -> (count: usize)
        requires
            self.wf(),
        ensures
            count == self@.pool.free_names.len(),
    {
        self.pool.available_names()
    }

    /// How many identities are free.
    pub fn available_identities(&self) -> (count: usize)
        requires
            self.wf(),
        ensures
            count == self@.pool.free_identities.len(),
    {
        self.pool.available_identities()
    }

    /// The names of the connected agents, in the order in which they came.
    pub fn bot_names(&self) -> (names: Vec<String>)
        requires
            self.wf(),
        ensures
            names.deep_view() == self@.bot_names(),
    {
        let mut names: Vec<String> = Vec::new();
        let mut k: usize = 0;
        while k < self.connected_bots.len()
            invariant
                self.wf(),
                0 <= k <= self.connected_bots.len(),
                names.deep_view() =~= self@.bot_names().take(k as int),
            decreases self.connected_bots.len() - k,
        {
            let name = self.name_of(k);
            let ghost before = names.deep_view();
            names.push(name);
            assert(names.deep_view() =~= before.push(name@));
            k += 1;
        }
        assert(self@.bot_names().take(k as int) =~= self@.bot_names());
        names
    }

    fn name_of(&self, k: usize) -> (name: String)
        requires
            self.wf(),
            k < self.connected_bots.len(),
        ensures
            name@ == self@.bot_name(k as int),
    {
        proof {
            self.pool.lemma_view();
            assert(holds_name(self@.bots, self@.bots[k as int].name_index));
        }
        match self.pool.name(self.connected_bots[k].name_index) {
            Some(name) => name.clone(),
            None => String::new(),
        }
    }

    fn find_occupant(&self, channels: &Vec<Option<u64>>, channel: u64) -> (found: Option<usize>)
        ensures
            match first_occupant(channels@, self@.bots.len() as int, channel, 0) {
                Some(k) => found is Some && found.unwrap() as int == k && 0 <= k
                    < self@.bots.len(),
                None => found is None,
            },
    {
        let mut k: usize = 0;
        while k < self.connected_bots.len() && k < channels.len()
            invariant
                0 <= k <= self.connected_bots.len(),
                first_occupant(channels@, self@.bots.len() as int, channel, 0) == first_occupant(
                    channels@,
                    self@.bots.len() as int,
                    channel,
                    k as int,
                ),
            decreases self.connected_bots.len() - k,
        {
            match channels[k] {
                Some(c) => {
                    if c == channel {
                        return Some(k);
                    }
                },
                None => {},
            }
            k += 1;
        }
        None
    }

    fn find_named(&self, name: &str) -> (found: Option<usize>)
        requires
            self.wf(),
        ensures
            match self@.first_named(name@, 0) {
                Some(k) => found is Some && found.unwrap() as int == k && 0 <= k
                    < self@.bots.len(),
                None => found is None,
            },
    {
        let mut k: usize = 0;
        while k < self.connected_bots.len()
            invariant
                self.wf(),
                0 <= k <= self.connected_bots.len(),
                self@.first_named(name@, 0) == self@.first_named(name@, k as int),
            decreases self.connected_bots.len() - k,
        {
            let candidate = self.name_of(k);
            if crate::text::same_text(candidate.as_str(), name) {
                return Some(k);
            }
            k += 1;
        }
        None
    }

    /// Answers an invitation. The rules are tried in this order: the user
    /// must be found; must not sit in the supervisor's own channel; must not
    /// have an agent in the channel already; a name must be free; an
    /// identity must be free. Where all hold, a name and an identity are
    /// lent and the new agent is entered as connected. A refusal leaves
    /// everything as it was: a name that was lent before the identities ran
    /// out is taken back.
    pub fn spawn_bot_for_client(&mut self, invite: &Invite) -> (spawned: Result<
        MusicBotArgs,
        BotCreationError,
    >)
        requires
            old(self).wf(),
        ensures
            final(self).wf(),
            final(self).identities() == old(self).identities(),
            final(self).config_view() == old(self).config_view(),
            spawned matches Ok(args) ==> old(self).config_view().equips(args),
            match old(self)@.verdict(*invite) {
                Verdict::UnfoundUser => spawned matches Err(BotCreationError::UnfoundUser)
                    && final(self)@ == old(self)@,
                Verdict::MasterChannel => spawned matches Err(BotCreationError::MasterChannel(name))
                    && name@ == old(self)@.master_name && final(self)@ == old(self)@,
                Verdict::MultipleBots(k) => spawned matches Err(BotCreationError::MultipleBots(name))
                    && name@ == old(self)@.bot_name(k) && final(self)@ == old(self)@,
                Verdict::Welcome => if old(self)@.pool.free_names.len() == 0 {
                    spawned matches Err(BotCreationError::OutOfNames) && final(self)@ == old(self)@
                } else if old(self)@.pool.free_identities.len() == 0 {
                    spawned matches Err(BotCreationError::OutOfIdentities) && final(self)@ == old(self)@
                } else {
                    spawned matches Ok(args) && old(self)@.welcomes(*invite, args, final(self)@)
                },
            },
    {
        let channel = match &invite.user_channel {
            Some(channel) => channel,
            None => {
                return Err(BotCreationError::UnfoundUser);
            },
        };
        match invite.own_channel {
            Some(own) => {
                if own == channel.id {
                    return Err(BotCreationError::MasterChannel(self.config.master_name.clone()));
                }
            },
            None => {},
        }
        match self.find_occupant(&invite.bot_channels, channel.id) {
            Some(k) => {
                return Err(BotCreationError::MultipleBots(self.name_of(k)));
            },
            None => {},
        }
        let ghost before = self@;
        proof {
            self.pool.lemma_view();
        }
        let name_index = match self.pool.allocate_name() {
            Ok(index) => index,
            Err(_) => {
                assert(self@ == before);
                return Err(BotCreationError::OutOfNames);
            },
        };
        let identity_index = match self.pool.allocate_identity() {
            Ok(index) => index,
            Err(_) => {
                self.pool.release_name(name_index);
                proof {
                    before.pool.lemma_lend_then_return(name_index);
                    assert(self@ == before);
                }
                return Err(BotCreationError::OutOfIdentities);
            },
        };
        let bot = ConnectedBot { name_index, identity_index };
        self.connected_bots.push(bot);
        proof {
            before.lemma_with_bot(bot);
            assert(self@.pool == before.with_bot(bot).pool);
            assert(self@ == before.with_bot(bot));
        }
        let name = match self.pool.name(name_index) {
            Some(name) => name.clone(),
            None => String::new(),
        };
        Ok(
            MusicBotArgs {
                name,
                name_index,
                identity_index,
                music_root: self.config.music_root.clone(),
                local: false,
                address: self.config.address.clone(),
                channel: channel.path.clone(),
                verbose: self.config.verbose,
                volume: self.config.volume,
            },
        )
    }

    /// Answers the poke of the user with client id `user`: an agent is to be
    /// started, or the user is told why none comes.
    pub fn on_poke(&mut self, user: u16, invite: &Invite) -> (effects: Vec<MasterEffect>)
        requires
            old(self).wf(),
        ensures
            final(self).wf(),
            final(self).identities() == old(self).identities(),
            final(self).config_view() == old(self).config_view(),
            effects@.len() == 1,
            effects@[0] matches MasterEffect::Spawn(args) ==> old(self).config_view().equips(args),
            match old(self)@.refusal(*invite) {
                Some(text) => effects@[0]@ == (MasterEffectView::SendMessageToUser {
                    client: user,
                    text,
                }) && final(self)@ == old(self)@,
                None => effects@[0] matches MasterEffect::Spawn(args) && old(self)@.welcomes(
                    *invite,
                    args,
                    final(self)@,
                ),
            },
    {
        let mut effects: Vec<MasterEffect> = Vec::new();
        match self.spawn_bot_for_client(invite) {
            Ok(args) => {
                effects.push(MasterEffect::Spawn(args));
            },
            Err(e) => {
                effects.push(MasterEffect::SendMessageToUser { client: user, text: e.to_string() });
            },
        }
        effects
    }

    /// Greets on arrival: when the client that was added is the supervisor
    /// itself, it shows how to invite it.
    pub fn on_client_added(&self, id: u16, my_id: Option<u16>) -> (effects: Vec<MasterEffect>)
        ensures
            master_effect_views(effects@) == if my_id == Some(id) {
                seq![MasterEffectView::SetDescription("Poke me if you want a music bot!"@)]
            } else {
                Seq::empty()
            },
    {
        let mut effects: Vec<MasterEffect> = Vec::new();
        assert(master_effect_views(effects@) =~= Seq::<MasterEffectView>::empty());
        match my_id {
            Some(me) => {
                if me == id {
                    effects.push(
                        MasterEffect::SetDescription(
                            String::from_str("Poke me if you want a music bot!"),
                        ),
                    );
                    assert(master_effect_views(effects@) =~= seq![
                        MasterEffectView::SetDescription("Poke me if you want a music bot!"@),
                    ]);
                }
            },
            None => {},
        }
        effects
    }

    /// Shuts down: every connected agent is told to quit, then the
    /// supervisor leaves the server itself.
    pub fn quit(&self, reason: &str) -> (effects: Vec<MasterEffect>)
        requires
            self.wf(),
        ensures
            master_effect_views(effects@) == Seq::new(
                self@.bots.len(),
                |k: int| MasterEffectView::QuitBot { name: self@.bot_name(k), reason: reason@ },
            ).push(MasterEffectView::Disconnect(reason@)),
    {
        let mut effects: Vec<MasterEffect> = Vec::new();
        let mut k: usize = 0;
        let ghost told = Seq::new(
            self@.bots.len(),
            |k: int| MasterEffectView::QuitBot { name: self@.bot_name(k), reason: reason@ },
        );
        while k < self.connected_bots.len()
            invariant
                self.wf(),
                0 <= k <= self.connected_bots.len(),
                told.len() == self.connected_bots.len(),
                forall|j: int|
                    0 <= j < told.len() ==> told[j] == (MasterEffectView::QuitBot {
                        name: self@.bot_name(j),
                        reason: reason@,
                    }),
                master_effect_views(effects@) =~= told.take(k as int),
            decreases self.connected_bots.len() - k,
        {
            let name = self.name_of(k);
            let ghost before = master_effect_views(effects@);
            effects.push(MasterEffect::QuitBot { name, message: Quit(String::from_str(reason)) });
            assert(master_effect_views(effects@) =~= before.push(told[k as int]));
            k += 1;
        }
        let ghost before = master_effect_views(effects@);
        effects.push(MasterEffect::Disconnect(String::from_str(reason)));
        assert(told.take(k as int) =~= told);
        assert(master_effect_views(effects@) =~= before.push(
            MasterEffectView::Disconnect(reason@),
        ));
        effects
    }

    /// Takes note that the agent called `name` is gone: the agent is struck
    /// from the connected ones and its name and identity are free again.
    /// The answer is what the agent held; a name that no connected agent
    /// bears changes nothing.
    pub fn on_bot_disconnect(&mut self, name: &str) -> (gone: Option<ConnectedBot>)
        requires
            old(self).wf(),
        ensures
            final(self).wf(),
            final(self).identities() == old(self).identities(),
            final(self).config_view() == old(self).config_view(),
            match old(self)@.first_named(name@, 0) {
                Some(k) => gone == Some(old(self)@.bots[k]) && final(self)@ == old(self)@.without_bot(k),
                None => gone is None && final(self)@ == old(self)@,
            },
    {
        match self.find_named(name) {
            Some(k) => {
                let ghost before = self@;
                proof {
                    before.lemma_without_bot(k as int);
                }
                let bot = self.connected_bots.remove(k);
                assert(bot == before.bots[k as int]);
                self.pool.release(bot.name_index, bot.identity_index);
                proof {
                    assert(self@ == before.without_bot(k as int));
                }
                Some(bot)
            },
            None => None,
        }
    }
}

} // verus!
