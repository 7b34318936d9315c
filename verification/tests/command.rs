use pokebot::command::{
    parse_chat_line, parse_command, split_sign, ChatInput, Command, Direction, Seek, VolumeChange,
};
use pokebot::duration::{SpanParseError, TimeSpan};

fn span(secs: u64) -> TimeSpan {
    TimeSpan::from_secs(secs)
}

fn words(list: &[&str]) -> Vec<String> {
    list.iter().map(|w| w.to_string()).collect()
}

#[test]
fn chatter_is_no_command() {
    assert_eq!(parse_chat_line("hello there"), ChatInput::Chatter);
    assert_eq!(parse_chat_line(""), ChatInput::Chatter);
    assert_eq!(parse_chat_line(" !play"), ChatInput::Chatter);
}

#[test]
fn bare_commands_are_read() {
    assert_eq!(parse_chat_line("!play"), ChatInput::Command(Command::Play));
    assert_eq!(parse_chat_line("!pause"), ChatInput::Command(Command::Pause));
    assert_eq!(parse_chat_line("!stop"), ChatInput::Command(Command::Stop));
    assert_eq!(parse_chat_line("!next"), ChatInput::Command(Command::Next));
    assert_eq!(parse_chat_line("!skip"), ChatInput::Command(Command::Next));
    assert_eq!(parse_chat_line("!clear"), ChatInput::Command(Command::Clear));
    assert_eq!(parse_chat_line("!leave"), ChatInput::Command(Command::Leave));
}

#[test]
fn space_around_a_command_is_ignored() {
    assert_eq!(parse_chat_line("!  play  "), ChatInput::Command(Command::Play));
    assert_eq!(parse_chat_line("!\tpause\n"), ChatInput::Command(Command::Pause));
}

#[test]
fn command_names_are_case_sensitive() {
    assert_eq!(parse_chat_line("!Play"), ChatInput::Malformed);
    assert_eq!(parse_chat_line("!PAUSE"), ChatInput::Malformed);
}

#[test]
fn bare_commands_take_no_arguments() {
    assert_eq!(parse_chat_line("!play now"), ChatInput::Malformed);
    assert_eq!(parse_chat_line("!leave please"), ChatInput::Malformed);
}

#[test]
fn unknown_and_empty_commands_are_malformed() {
    assert_eq!(parse_chat_line("!"), ChatInput::Malformed);
    assert_eq!(parse_chat_line("!   "), ChatInput::Malformed);
    assert_eq!(parse_chat_line("!dance"), ChatInput::Malformed);
    assert_eq!(parse_chat_line("!!play"), ChatInput::Malformed);
}

#[test]
fn add_takes_one_url() {
    assert_eq!(
        parse_chat_line("!add https://example.org/a"),
        ChatInput::Command(Command::Add { url: String::from("https://example.org/a") })
    );
    assert_eq!(parse_chat_line("!add"), ChatInput::Malformed);
    assert_eq!(parse_chat_line("!add one two"), ChatInput::Malformed);
}

#[test]
fn search_takes_any_number_of_words() {
    assert_eq!(
        parse_chat_line("!search road trip"),
        ChatInput::Command(Command::Search { query: words(&["road", "trip"]) })
    );
    assert_eq!(
        parse_chat_line("!search"),
        ChatInput::Command(Command::Search { query: Vec::new() })
    );
}

#[test]
fn seek_reads_sign_and_span() {
    assert_eq!(
        parse_chat_line("!seek 1m30s"),
        ChatInput::Command(Command::Seek { amount: Seek::Absolute(span(90)) })
    );
    assert_eq!(
        parse_chat_line("!seek +10s"),
        ChatInput::Command(Command::Seek { amount: Seek::Positive(span(10)) })
    );
    assert_eq!(
        parse_chat_line("!seek -5s"),
        ChatInput::Command(Command::Seek { amount: Seek::Negative(span(5)) })
    );
}

#[test]
fn seek_without_a_span_is_malformed() {
    assert_eq!(parse_chat_line("!seek"), ChatInput::Malformed);
    assert_eq!(parse_chat_line("!seek far"), ChatInput::Malformed);
    assert_eq!(parse_chat_line("!seek 10"), ChatInput::Malformed);
    assert_eq!(parse_chat_line("!seek +"), ChatInput::Malformed);
    assert_eq!(parse_chat_line("!seek 1m 30s"), ChatInput::Malformed);
    assert_eq!(parse_chat_line("!seek 123456789012s"), ChatInput::Malformed);
    assert_eq!(
        parse_chat_line("!seek 000000000000090s"),
        ChatInput::Command(Command::Seek { amount: Seek::Absolute(span(90)) })
    );
}

#[test]
fn volume_reads_sign_and_percent() {
    assert_eq!(
        parse_chat_line("!volume 50"),
        ChatInput::Command(Command::Volume { volume: VolumeChange::Absolute(String::from("50")) })
    );
    assert_eq!(
        parse_chat_line("!volume +10"),
        ChatInput::Command(Command::Volume { volume: VolumeChange::Positive(String::from("10")) })
    );
    assert_eq!(
        parse_chat_line("!volume -5"),
        ChatInput::Command(Command::Volume { volume: VolumeChange::Negative(String::from("5")) })
    );
    assert_eq!(parse_chat_line("!volume"), ChatInput::Malformed);
    assert_eq!(parse_chat_line("!volume 1 2"), ChatInput::Malformed);
}

#[test]
fn help_is_recognised() {
    assert_eq!(parse_chat_line("!help"), ChatInput::Help(Vec::new()));
    assert_eq!(parse_chat_line("!help seek"), ChatInput::Help(words(&["seek"])));
    assert_eq!(parse_chat_line("!help  a  b "), ChatInput::Help(words(&["a", "b"])));
    assert_eq!(parse_chat_line("!Help"), ChatInput::Malformed);
}

#[test]
fn parse_command_reads_words() {
    assert_eq!(parse_command(&words(&[])), ChatInput::Malformed);
    assert_eq!(parse_command(&words(&["next"])), ChatInput::Command(Command::Next));
    assert_eq!(
        parse_command(&words(&["add", "x"])),
        ChatInput::Command(Command::Add { url: String::from("x") })
    );
}

#[test]
fn split_sign_takes_one_sign_off() {
    assert_eq!(split_sign("+10"), (Direction::Positive, String::from("10")));
    assert_eq!(split_sign("-10"), (Direction::Negative, String::from("10")));
    assert_eq!(split_sign("10"), (Direction::Absolute, String::from("10")));
    assert_eq!(split_sign(""), (Direction::Absolute, String::new()));
    assert_eq!(split_sign("+-3"), (Direction::Positive, String::from("-3")));
    assert_eq!(split_sign("-"), (Direction::Negative, String::new()));
}

#[test]
fn seek_from_str_parses_each_direction() {
    assert_eq!(Seek::from_str("30s"), Ok(Seek::Absolute(span(30))));
    assert_eq!(Seek::from_str("+1m"), Ok(Seek::Positive(span(60))));
    assert_eq!(Seek::from_str("-1h"), Ok(Seek::Negative(span(3600))));
}

#[test]
fn seek_from_str_reports_each_error() {
    assert_eq!(Seek::from_str("+"), Err(SpanParseError::Invalid));
    assert_eq!(Seek::from_str("--5s"), Err(SpanParseError::Invalid));
    assert_eq!(Seek::from_str("+123456789012s"), Err(SpanParseError::TooManyDigits));
}

#[test]
fn volume_from_str_keeps_the_number_as_written() {
    assert_eq!(VolumeChange::from_str("33.5"), VolumeChange::Absolute(String::from("33.5")));
    assert_eq!(VolumeChange::from_str("+abc"), VolumeChange::Positive(String::from("abc")));
    assert_eq!(VolumeChange::from_str("-"), VolumeChange::Negative(String::new()));
    let change = VolumeChange::from_str("+7");
    assert_eq!(change.clone(), change);
    assert_eq!(change.parts(), (Direction::Positive, &String::from("7")));
    assert_eq!(VolumeChange::from_str("-7").parts().0, Direction::Negative);
    assert_eq!(VolumeChange::from_str("7").parts().0, Direction::Absolute);
}
