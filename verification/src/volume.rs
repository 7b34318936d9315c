//! The volume of an agent, in millionths of full volume.
//!
//! Whole numbers stand for the fraction between 0 and 1: the caller reads
//! the user's number and rounds it to a millionth, everything after that is
//! exact.

use vstd::prelude::*;
use crate::command::Direction;

verus! {

/// Full volume, in millionths.
pub const FULL_VOLUME: u32 = 1_000_000;

/// A volume between silence and full volume, both included.
#[derive(Clone, Copy, Debug, PartialEq, Eq, Structural)]
pub struct Volume {
    millionths: u32,
}

impl View for Volume {
    type V = nat;

    /// The volume in millionths of full volume.
    closed spec fn view(&self) -> nat {
        self.millionths as nat
    }
}

/// The level that lies nearest to `level` between silence and full volume.
pub open spec fn clamped(level: int) -> nat {
    if level < 0 {
        0
    } else if level > FULL_VOLUME {
        FULL_VOLUME as nat
    } else {
        level as nat
    }
}

/// The level after a change by `amount` millionths: up, down, or to that
/// amount, and never beyond silence or full volume.
pub open spec fn changed(current: nat, direction: Direction, amount: int) -> nat {
    match direction {
        Direction::Positive => clamped(current + amount),
        Direction::Negative => clamped(current - amount),
        Direction::Absolute => clamped(amount),
    }
}

/// The level in whole percent, halves rounded up.
pub open spec fn percent_of(level: nat) -> nat {
    (level + 5_000) / 10_000
}

impl Volume {
    #[verifier::type_invariant]
    spec fn in_range(self) -> bool {
        self.millionths <= FULL_VOLUME
    }

    /// The volume nearest to `millionths`.
    pub fn new(millionths: i64) -> (volume: Volume)
        ensures
            volume@ == clamped(millionths as int),
            volume@ <= FULL_VOLUME,
    {
        if millionths < 0 {
            Volume { millionths: 0 }
        } else if millionths > FULL_VOLUME as i64 {
            Volume { millionths: FULL_VOLUME }
        } else {
            Volume { millionths: millionths as u32 }
        }
    }

    /// The volume in millionths. It never exceeds full volume.
    pub fn millionths(&self) -> (level: u32)
        ensures
            level == self@,
            level <= FULL_VOLUME,
    {
        proof {
            use_type_invariant(self);
        }
        self.millionths
    }

    /// The volume after a change by `amount` millionths. Whatever the
    /// amount, the result lies between silence and full volume.
    pub fn change(self, direction: Direction, amount: i64) -> (volume: Volume)
        ensures
            volume@ == changed(self@, direction, amount as int),
            volume@ <= FULL_VOLUME,
    {
        proof {
            use_type_invariant(self);
        }
        let current: i128 = self.millionths as i128;
        let level: i128 = match direction {
            Direction::Positive => current + amount as i128,
            Direction::Negative => current - amount as i128,
            Direction::Absolute => amount as i128,
        };
        if level < 0 {
            Volume { millionths: 0 }
        } else if level > FULL_VOLUME as i128 {
            Volume { millionths: FULL_VOLUME }
        } else {
            Volume { millionths: level as u32 }
        }
    }

    /// The volume in whole percent.
    pub fn percent(&self) -> (percent: u32)
        ensures
            percent == percent_of(self@),
            percent <= 100,
    {
        proof {
            use_type_invariant(self);
        }
        (self.millionths + 5_000) / 10_000
    }
}

} // verus!
