use pokebot::command::Seek;
use pokebot::duration::TimeSpan;
use pokebot::music::State;
use pokebot::player::PipelineState::{Null, Paused, Playing, Ready, VoidPending};
use pokebot::player::{is_started, lifecycle_event, seek_target, BusMessage, PipelineState};

const ALL: [PipelineState; 5] = [
    PipelineState::VoidPending,
    PipelineState::Null,
    PipelineState::Ready,
    PipelineState::Paused,
    PipelineState::Playing,
];

fn changed(old: PipelineState, current: PipelineState, pending: PipelineState) -> BusMessage {
    BusMessage::StateChanged { foreign: false, old, current, pending }
}

fn span(secs: u64) -> TimeSpan {
    TimeSpan::from_secs(secs)
}

#[test]
fn end_of_stream_and_errors_end_the_track() {
    assert_eq!(lifecycle_event(&BusMessage::Eos), Some(State::EndOfStream));
    assert_eq!(lifecycle_event(&BusMessage::Error), Some(State::EndOfStream));
    assert_eq!(lifecycle_event(&BusMessage::Warning), None);
    assert_eq!(lifecycle_event(&BusMessage::Other), None);
}

#[test]
fn pipeline_transitions_become_states() {
    assert_eq!(lifecycle_event(&changed(Paused, Playing, VoidPending)), Some(State::Playing));
    assert_eq!(lifecycle_event(&changed(Playing, Paused, VoidPending)), Some(State::Paused));
    assert_eq!(lifecycle_event(&changed(Paused, Ready, Null)), Some(State::Stopped));
    assert_eq!(lifecycle_event(&changed(Ready, Null, VoidPending)), Some(State::Stopped));
    assert_eq!(lifecycle_event(&changed(Null, Null, VoidPending)), Some(State::Stopped));
}

#[test]
fn other_transitions_are_no_events() {
    assert_eq!(lifecycle_event(&changed(Null, Ready, Paused)), None);
    assert_eq!(lifecycle_event(&changed(Ready, Paused, Playing)), None);
    assert_eq!(lifecycle_event(&changed(Ready, Paused, VoidPending)), None);
    assert_eq!(lifecycle_event(&changed(Paused, Playing, Paused)), None);
    assert_eq!(lifecycle_event(&changed(Playing, Playing, VoidPending)), None);
    assert_eq!(lifecycle_event(&changed(Playing, Ready, VoidPending)), None);
}

#[test]
fn foreign_transitions_are_dropped() {
    for old in ALL {
        for current in ALL {
            for pending in ALL {
                let message = BusMessage::StateChanged { foreign: true, old, current, pending };
                assert_eq!(lifecycle_event(&message), None);
            }
        }
    }
}

#[test]
fn started_means_neither_idle_nor_going_down() {
    assert!(!is_started(Null, VoidPending));
    assert!(!is_started(Ready, VoidPending));
    for current in ALL {
        assert!(!is_started(current, Null));
    }
    assert!(is_started(Playing, VoidPending));
    assert!(is_started(Paused, VoidPending));
    assert!(is_started(Ready, Paused));
    assert!(is_started(Null, Ready));
    assert!(is_started(Paused, Playing));
    assert!(is_started(VoidPending, VoidPending));
}

#[test]
fn absolute_seek_needs_no_position() {
    assert_eq!(seek_target(Seek::Absolute(span(90)), None), Some(span(90)));
    assert_eq!(seek_target(Seek::Absolute(span(90)), Some(span(5))), Some(span(90)));
}

#[test]
fn relative_seek_needs_a_position() {
    assert_eq!(seek_target(Seek::Positive(span(10)), None), None);
    assert_eq!(seek_target(Seek::Negative(span(10)), None), None);
}

#[test]
fn relative_seek_moves_from_the_position() {
    assert_eq!(seek_target(Seek::Positive(span(10)), Some(span(60))), Some(span(70)));
    assert_eq!(seek_target(Seek::Negative(span(10)), Some(span(60))), Some(span(50)));
}

#[test]
fn seek_backwards_stops_at_the_start() {
    assert_eq!(seek_target(Seek::Negative(span(61)), Some(span(60))), Some(span(0)));
    assert_eq!(seek_target(Seek::Negative(span(60)), Some(span(60))), Some(span(0)));
}

#[test]
fn seek_forwards_beyond_the_range_fails() {
    assert_eq!(seek_target(Seek::Positive(span(1)), Some(span(u64::MAX))), None);
}
