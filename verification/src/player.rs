//! What the agent makes of the audio pipeline: which of the pipeline's
//! reports are playback events, when a track counts as started, and where a
//! seek leads.

use vstd::prelude::*;
use crate::command::{Direction, Seek};
use crate::duration::{max_span, TimeSpan};
use crate::music::State;

verus! {

/// A state of the pipeline, or the absence of a pending one.
#[derive(Debug, PartialEq, Eq, Clone, Copy, Structural)]
pub enum PipelineState {
    VoidPending,
    Null,
    Ready,
    Paused,
    Playing,
}

/// A report on the pipeline's bus.
#[derive(Debug, PartialEq, Eq, Clone, Copy, Structural)]
pub enum BusMessage {
    /// A change of state. `foreign` tells that the report names a source
    /// and that the source is not the pipeline itself.
    StateChanged { foreign: bool, old: PipelineState, current: PipelineState, pending: PipelineState },
    /// The stream has run out.
    Eos,
    Warning,
    Error,
    /// Any other report.
    Other,
}

/// The playback event that a report stands for, if it stands for one.
/// Changes of state count only where they are the pipeline's own. An error
/// ends the track as the end of the stream does.
pub open spec fn lifecycle(message: BusMessage) -> Option<State> {
    match message {
        BusMessage::StateChanged { foreign, old, current, pending } => if foreign {
            None
        } else if old == PipelineState::Paused && current == PipelineState::Playing && pending
            == PipelineState::VoidPending {
            Some(State::Playing)
        } else if old == PipelineState::Playing && current == PipelineState::Paused && pending
            == PipelineState::VoidPending {
            Some(State::Paused)
        } else if current == PipelineState::Ready && pending == PipelineState::Null {
            Some(State::Stopped)
        } else if current == PipelineState::Null && pending == PipelineState::VoidPending {
            Some(State::Stopped)
        } else {
            None
        },
        BusMessage::Eos => Some(State::EndOfStream),
        BusMessage::Error => Some(State::EndOfStream),
        BusMessage::Warning => None,
        BusMessage::Other => None,
    }
}

/// Turns a report of the pipeline into a playback event.
pub fn lifecycle_event(message: &BusMessage) -> (event: Option<State>)
    ensures
        event == lifecycle(*message),
{
    match message {
        BusMessage::StateChanged { foreign, old, current, pending } => {
            if *foreign {
                return None;
            }
            match (old, current, pending) {
                (PipelineState::Paused, PipelineState::Playing, PipelineState::VoidPending) => Some(
                    State::Playing,
                ),
                (PipelineState::Playing, PipelineState::Paused, PipelineState::VoidPending) => Some(
                    State::Paused,
                ),
                (_, PipelineState::Ready, PipelineState::Null) => Some(State::Stopped),
                (_, PipelineState::Null, PipelineState::VoidPending) => Some(State::Stopped),
                _ => None,
            }
        },
        BusMessage::Eos => Some(State::EndOfStream),
        BusMessage::Error => Some(State::EndOfStream),
        BusMessage::Warning => None,
        BusMessage::Other => None,
    }
}

/// Whether a pipeline in state `current`, on its way to `pending`, has a
/// track started: it is neither idle nor on its way to being torn down.
pub open spec fn started(current: PipelineState, pending: PipelineState) -> bool {
    !(pending == PipelineState::Null || (pending == PipelineState::VoidPending && (current
        == PipelineState::Null || current == PipelineState::Ready)))
}

/// Whether the pipeline has a track started.
pub fn is_started(current: PipelineState, pending: PipelineState) -> (b: bool)
    ensures
        b == started(current, pending),
{
    match (current, pending) {
        (PipelineState::Null, PipelineState::VoidPending) => false,
        (_, PipelineState::Null) => false,
        (PipelineState::Ready, PipelineState::VoidPending) => false,
        _ => true,
    }
}

/// Where a seek leads, in nanoseconds from the start of the track. A
/// relative seek needs the current position; a seek backwards stops at the
/// start; a seek forwards beyond the longest span leads nowhere.
pub open spec fn target(direction: Direction, amount: nat, position: Option<nat>) -> Option<nat> {
    match direction {
        Direction::Absolute => Some(amount),
        Direction::Positive => match position {
            Some(base) => if base + amount <= max_span() {
                Some(base + amount)
            } else {
                None
            },
            None => None,
        },
        Direction::Negative => match position {
            Some(base) => Some(
                if amount > base {
                    0
                } else {
                    (base - amount) as nat
                },
            ),
            None => None,
        },
    }
}

/// Computes the position that a seek asks for. `position` is where the
/// pipeline is in the track, if it knows.
pub fn seek_target(seek: Seek, position: Option<TimeSpan>) -> (found: Option<TimeSpan>)
    ensures
        crate::track::span_view(found) == target(
            seek.direction(),
            seek.span()@,
            crate::track::span_view(position),
        ),
{
    match seek {
        Seek::Absolute(span) => Some(span),
        Seek::Positive(span) => match position {
            Some(base) => base.checked_add(span),
            None => None,
        },
        Seek::Negative(span) => match position {
            Some(base) => Some(base.saturating_sub(span)),
            None => None,
        },
    }
}

} // verus!
