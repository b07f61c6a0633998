//! What an operation asks of the hardware, and what the hardware answers.

use vstd::prelude::*;
use crate::level::{Level, TriggerDirection};
use crate::time::Timestamp;

verus! {

/// The mode in which a pin is held for the length of one operation.
#[derive(Clone, Copy, Debug, PartialEq, Eq, Structural)]
pub enum PinMode {
    Input,
    Output,
}

/// One thing to do with the hardware. An operation asks for one action at a
/// time and decides on the next only when it has the answer.
#[derive(Clone, Copy, Debug, PartialEq, Eq, Structural)]
pub enum Action {
    /// Take the pin in the given mode and keep it until the operation ends.
    Acquire { pin: u8, mode: PinMode },
    /// Set the pin's edge trigger to `direction`, replacing any earlier one,
    /// and block until a matching edge occurs or `timeout_ms` milliseconds
    /// have passed.
    WaitForEdge { pin: u8, direction: TriggerDirection, timeout_ms: u64 },
    /// Read the level that the input pin has now.
    ReadLevel { pin: u8 },
    /// Drive the output pin to `level`.
    SetLevel { pin: u8, level: Level },
    /// Let `nanos` nanoseconds pass.
    Sleep { nanos: u64 },
    /// Read the wall clock.
    ReadClock,
}

/// What came of an action.
#[derive(Debug, PartialEq, Eq)]
pub enum Event {
    /// An edge wait saw a matching edge; carries the level after the edge.
    Edge(Level),
    /// An edge wait ran into its timeout.
    NoEdge,
    /// The level read from an input pin.
    Level(Level),
    /// The reading of the wall clock.
    Time(Timestamp),
    /// An acquisition, a level change or a sleep was carried out.
    Done,
    /// The action failed; carries the diagnostic of the underlying driver.
    Failed(String),
}

impl Action {
    /// Whether `event` is a possible answer to this action.
    pub open spec fn answered_by(self, event: Event) -> bool {
        match event {
            Event::Failed(_) => true,
            Event::Edge(_) | Event::NoEdge => self is WaitForEdge,
            Event::Level(_) => self is ReadLevel,
            Event::Time(_) => self is ReadClock,
            Event::Done => self is Acquire || self is SetLevel || self is Sleep,
        }
    }
}

/// No clock reading among `events` is earlier than one that precedes it.
pub open spec fn clock_never_steps_back(events: Seq<Event>) -> bool {
    forall|i: int, j: int|
        0 <= i < j < events.len() ==> (#[trigger] events[i] matches Event::Time(earlier) ==> (
        #[trigger] events[j] matches Event::Time(later) ==> earlier.nanos <= later.nanos))
}

} // verus!
