//! The chat commands an agent understands, and how a chat line is read.
//!
//! A command line starts with `!`; the rest is split at white space into a
//! command name and its arguments:
//!
//! ```text
//! !add <url>
//! !search <query words...>
//! !play
//! !pause
//! !stop
//! !seek <[+|-]duration>
//! !next | !skip
//! !clear
//! !volume <[+|-]percent>
//! !leave
//! !help [words...]
//! ```
//!
//! A request for help is recognised here; its answer is the text of the
//! program's command-line parser and is fetched where the effect is carried
//! out.

use vstd::prelude::*;
use vstd::string::*;
use crate::duration::{parse_outcome, SpanParseError, TimeSpan};
use crate::text::{chars_of, same_text, split_words, string_of, words_after, words_from};

verus! {

/// How an amount relates to the current value: added to it, taken from it,
/// or replacing it.
#[derive(Clone, Copy, Debug, PartialEq, Eq, Structural)]
pub enum Direction {
    Positive,
    Negative,
    Absolute,
}

/// The direction that the first character of an amount gives.
pub open spec fn direction_of(text: Seq<char>) -> Direction {
    if text.len() > 0 && text[0] == '+' {
        Direction::Positive
    } else if text.len() > 0 && text[0] == '-' {
        Direction::Negative
    } else {
        Direction::Absolute
    }
}

/// The amount without its sign.
pub open spec fn magnitude_of(text: Seq<char>) -> Seq<char> {
    if direction_of(text) == Direction::Absolute {
        text
    } else {
        text.drop_first()
    }
}

/// Splits an amount into its direction and the text behind the sign.
pub fn split_sign(amount: &str) -> (parts: (Direction, String))
    ensures
        parts.0 == direction_of(amount@),
        parts.1@ == magnitude_of(amount@),
{
    let chars = chars_of(amount);
    if chars.len() > 0 && chars[0] == '+' {
        let rest = string_of(&chars, 1, chars.len());
        assert(chars@.subrange(1, chars@.len() as int) =~= chars@.drop_first());
        (Direction::Positive, rest)
    } else if chars.len() > 0 && chars[0] == '-' {
        let rest = string_of(&chars, 1, chars.len());
        assert(chars@.subrange(1, chars@.len() as int) =~= chars@.drop_first());
        (Direction::Negative, rest)
    } else {
        let rest = string_of(&chars, 0, chars.len());
        assert(chars@.subrange(0, chars@.len() as int) =~= chars@);
        (Direction::Absolute, rest)
    }
}

/// A jump in the current track: forward, backward, or to a position.
#[derive(Clone, Copy, Debug, PartialEq, Eq, Structural)]
pub enum Seek {
    Positive(TimeSpan),
    Negative(TimeSpan),
    Absolute(TimeSpan),
}

impl Seek {
    pub open spec fn direction(self) -> Direction {
        match self {
            Seek::Positive(_) => Direction::Positive,
            Seek::Negative(_) => Direction::Negative,
            Seek::Absolute(_) => Direction::Absolute,
        }
    }

    pub open spec fn span(self) -> TimeSpan {
        match self {
            Seek::Positive(span) => span,
            Seek::Negative(span) => span,
            Seek::Absolute(span) => span,
        }
    }

    /// Reads a seek amount: a span in human form, with `+` or `-` in front
    /// of it for a relative jump.
    pub fn from_str(amount: &str) -> (parsed: Result<Seek, SpanParseError>)
        ensures
            match parse_outcome(magnitude_of(amount@)) {
                Ok(nanos) => parsed is Ok && parsed.unwrap().direction() == direction_of(amount@)
                    && parsed.unwrap().span()@ == nanos,
                Err(e) => parsed == Err::<Seek, SpanParseError>(e),
            },
    {
        let (direction, rest) = split_sign(amount);
        match TimeSpan::parse(rest.as_str()) {
            Ok(span) => match direction {
                Direction::Positive => Ok(Seek::Positive(span)),
                Direction::Negative => Ok(Seek::Negative(span)),
                Direction::Absolute => Ok(Seek::Absolute(span)),
            },
            Err(e) => Err(e),
        }
    }
}

/// A change of the volume: the direction and, as the user wrote it, the
/// number of percent. The number is read where the volume is kept.
#[derive(Debug, PartialEq, Eq)]
pub enum VolumeChange {
    Positive(String),
    Negative(String),
    Absolute(String),
}

impl Clone for VolumeChange {
    fn clone(&self) -> (copy: Self)
        ensures
            copy == *self,
    {
        match self {
            VolumeChange::Positive(text) => VolumeChange::Positive(text.clone()),
            VolumeChange::Negative(text) => VolumeChange::Negative(text.clone()),
            VolumeChange::Absolute(text) => VolumeChange::Absolute(text.clone()),
        }
    }
}

impl VolumeChange {
    pub open spec fn direction(self) -> Direction {
        match self {
            VolumeChange::Positive(_) => Direction::Positive,
            VolumeChange::Negative(_) => Direction::Negative,
            VolumeChange::Absolute(_) => Direction::Absolute,
        }
    }

    pub open spec fn percent(self) -> Seq<char> {
        match self {
            VolumeChange::Positive(text) => text@,
            VolumeChange::Negative(text) => text@,
            VolumeChange::Absolute(text) => text@,
        }
    }

    /// The direction of the change and the number as the user wrote it.
    pub fn parts(&self) -> (parts: (Direction, &String))
        ensures
            parts.0 == self.direction(),
            parts.1@ == self.percent(),
    {
        match self {
            VolumeChange::Positive(text) => (Direction::Positive, text),
            VolumeChange::Negative(text) => (Direction::Negative, text),
            VolumeChange::Absolute(text) => (Direction::Absolute, text),
        }
    }

    /// Reads a volume amount: `+` or `-` in front makes it relative.
    pub fn from_str(amount: &str) -> (change: VolumeChange)
        ensures
            change.direction() == direction_of(amount@),
            change.percent() == magnitude_of(amount@),
    {
        let (direction, rest) = split_sign(amount);
        match direction {
            Direction::Positive => VolumeChange::Positive(rest),
            Direction::Negative => VolumeChange::Negative(rest),
            Direction::Absolute => VolumeChange::Absolute(rest),
        }
    }
}

/// A command to an agent.
#[derive(Debug, PartialEq, Eq)]
pub enum Command {
    /// Adds url to playlist
    Add { url: String },
    /// Adds the first video found on YouTube
    Search { query: Vec<String> },
    /// Starts audio playback
    Play,
    /// Pauses audio playback
    Pause,
    /// Seeks by a specified amount
    Seek { amount: Seek },
    /// Stops audio playback
    Stop,
    /// Switches to the next playlist entry
    Next,
    /// Clears the playback queue
    Clear,
    /// Changes the volume to the specified value
    Volume { volume: VolumeChange },
    /// Leaves the channel
    Leave,
}

/// The mathematical content of a [`Command`].
pub enum CommandView {
    Add { url: Seq<char> },
    Search { query: Seq<Seq<char>> },
    Play,
    Pause,
    Seek { direction: Direction, nanos: nat },
    Stop,
    Next,
    Clear,
    Volume { direction: Direction, percent: Seq<char> },
    Leave,
}

impl View for Command {
    type V = CommandView;

    open spec fn view(&self) -> CommandView {
        match *self {
            Command::Add { url } => CommandView::Add { url: url@ },
            Command::Search { query } => CommandView::Search { query: query.deep_view() },
            Command::Play => CommandView::Play,
            Command::Pause => CommandView::Pause,
            Command::Seek { amount } => CommandView::Seek {
                direction: amount.direction(),
                nanos: amount.span()@,
            },
            Command::Stop => CommandView::Stop,
            Command::Next => CommandView::Next,
            Command::Clear => CommandView::Clear,
            Command::Volume { volume } => CommandView::Volume {
                direction: volume.direction(),
                percent: volume.percent(),
            },
            Command::Leave => CommandView::Leave,
        }
    }
}

/// What a chat line turned out to be.
#[derive(Debug, PartialEq, Eq)]
pub enum ChatInput {
    /// Ordinary chat, not meant for the agent.
    Chatter,
    /// A well-formed command.
    Command(Command),
    /// A request for help; the words are those behind `help`.
    Help(Vec<String>),
    /// A line that starts like a command and is none. It is passed over in
    /// silence.
    Malformed,
}

/// The mathematical content of a [`ChatInput`].
pub enum ChatInputView {
    Chatter,
    Command(CommandView),
    Help(Seq<Seq<char>>),
    Malformed,
}

impl View for ChatInput {
    type V = ChatInputView;

    open spec fn view(&self) -> ChatInputView {
        match *self {
            ChatInput::Chatter => ChatInputView::Chatter,
            ChatInput::Command(command) => ChatInputView::Command(command@),
            ChatInput::Help(words) => ChatInputView::Help(words.deep_view()),
            ChatInput::Malformed => ChatInputView::Malformed,
        }
    }
}

/// A command that stands alone, if `name` is one.
pub open spec fn bare_command(name: Seq<char>) -> Option<CommandView> {
    if name == "play"@ {
        Some(CommandView::Play)
    } else if name == "pause"@ {
        Some(CommandView::Pause)
    } else if name == "stop"@ {
        Some(CommandView::Stop)
    } else if name == "next"@ || name == "skip"@ {
        Some(CommandView::Next)
    } else if name == "clear"@ {
        Some(CommandView::Clear)
    } else if name == "leave"@ {
        Some(CommandView::Leave)
    } else {
        None
    }
}

/// The grammar of commands: what the words behind the `!` mean. The first
/// word names the command, case-sensitively; the others are its arguments.
pub open spec fn grammar(words: Seq<Seq<char>>) -> ChatInputView {
    if words.len() == 0 {
        ChatInputView::Malformed
    } else {
        let name = words[0];
        let args = words.drop_first();
        if name == "help"@ {
            ChatInputView::Help(args)
        } else if name == "search"@ {
            ChatInputView::Command(CommandView::Search { query: args })
        } else if name == "add"@ {
            if args.len() == 1 {
                ChatInputView::Command(CommandView::Add { url: args[0] })
            } else {
                ChatInputView::Malformed
            }
        } else if name == "seek"@ {
            if args.len() == 1 {
                match parse_outcome(magnitude_of(args[0])) {
                    Ok(nanos) => ChatInputView::Command(
                        CommandView::Seek { direction: direction_of(args[0]), nanos },
                    ),
                    Err(_) => ChatInputView::Malformed,
                }
            } else {
                ChatInputView::Malformed
            }
        } else if name == "volume"@ {
            if args.len() == 1 {
                ChatInputView::Command(
                    CommandView::Volume {
                        direction: direction_of(args[0]),
                        percent: magnitude_of(args[0]),
                    },
                )
            } else {
                ChatInputView::Malformed
            }
        } else {
            match bare_command(name) {
                Some(command) => if args.len() == 0 {
                    ChatInputView::Command(command)
                } else {
                    ChatInputView::Malformed
                },
                None => ChatInputView::Malformed,
            }
        }
    }
}

/// What a chat line means: a line that does not start with `!` is chatter,
/// any other is read by the [`grammar`].
pub open spec fn chat_line(text: Seq<char>) -> ChatInputView {
    if text.len() > 0 && text[0] == '!' {
        grammar(words_from(text, 1))
    } else {
        ChatInputView::Chatter
    }
}

fn parse_bare(name: &str) -> (command: Option<Command>)
    ensures
        match bare_command(name@) {
            Some(view) => command is Some && command.unwrap()@ == view,
            None => command is None,
        },
{
    if same_text(name, "play") {
        Some(Command::Play)
    } else if same_text(name, "pause") {
        Some(Command::Pause)
    } else if same_text(name, "stop") {
        Some(Command::Stop)
    } else if same_text(name, "next") || same_text(name, "skip") {
        Some(Command::Next)
    } else if same_text(name, "clear") {
        Some(Command::Clear)
    } else if same_text(name, "leave") {
        Some(Command::Leave)
    } else {
        None
    }
}

/// Reads a command from its words.
pub fn parse_command(words: &Vec<String>) -> (parsed: ChatInput)
    ensures
        parsed@ == grammar(words.deep_view()),
{
    if words.len() == 0 {
        return ChatInput::Malformed;
    }
    let name = words[0].as_str();
    let argc = words.len() - 1;
    proof {
        assert(words.deep_view()[0] == name@);
        assert(words.deep_view().drop_first().len() == argc);
        if argc == 1 {
            assert(words.deep_view().drop_first()[0] == words@[1]@);
        }
    }
    assert(words.deep_view().skip(1) =~= words.deep_view().drop_first());
    if same_text(name, "help") {
        ChatInput::Help(words_after(words, 1))
    } else if same_text(name, "search") {
        let query = words_after(words, 1);
        ChatInput::Command(Command::Search { query })
    } else if same_text(name, "add") {
        if argc == 1 {
            ChatInput::Command(Command::Add { url: words[1].clone() })
        } else {
            ChatInput::Malformed
        }
    } else if same_text(name, "seek") {
        if argc == 1 {
            match Seek::from_str(words[1].as_str()) {
                Ok(amount) => ChatInput::Command(Command::Seek { amount }),
                Err(_) => ChatInput::Malformed,
            }
        } else {
            ChatInput::Malformed
        }
    } else if same_text(name, "volume") {
        if argc == 1 {
            ChatInput::Command(Command::Volume { volume: VolumeChange::from_str(words[1].as_str()) })
        } else {
            ChatInput::Malformed
        }
    } else {
        match parse_bare(name) {
            Some(command) => if argc == 0 {
                ChatInput::Command(command)
            } else {
                ChatInput::Malformed
            },
            None => ChatInput::Malformed,
        }
    }
}

/// Reads one line of chat.
pub fn parse_chat_line(text: &str) -> (parsed: ChatInput)
    ensures
        parsed@ == chat_line(text@),
{
    let chars = chars_of(text);
    if chars.len() > 0 && chars[0] == '!' {
        let words = split_words(&chars, 1);
        parse_command(&words)
    } else {
        ChatInput::Chatter
    }
}

} // verus!
