//! The edge wait that the capture and transmit protocols are built on: one
//! input pin, one trigger direction, one timeout.

use vstd::prelude::*;
use crate::action::{Action, Event, PinMode};
use crate::error::{DriverError, InvalidArgument};
use crate::level::{Level, TriggerDirection, TRIGGER_BOTH_EDGES};
use crate::protocol::{law_run_one_more, run, Protocol, Step};

verus! {

/// A level is its own model, also where it stands in a result.
impl DeepView for Level {
    type V = Level;

    open spec fn deep_view(&self) -> Level {
        *self
    }
}

/// What an edge wait is busy with.
#[derive(Clone, Copy, Debug, PartialEq, Eq, Structural)]
pub enum WaitPhase {
    /// Taking the pin.
    Acquire,
    /// Blocked until an edge or the timeout.
    Wait,
}

/// An edge wait in progress. It is its own model.
#[derive(Clone, Copy, Debug, PartialEq, Eq, Structural)]
pub struct InterruptWaiter {
    pub pin: u8,
    pub timeout_ms: u64,
    pub direction: TriggerDirection,
    pub phase: WaitPhase,
}

impl View for InterruptWaiter {
    type V = InterruptWaiter;

    open spec fn view(&self) -> InterruptWaiter {
        *self
    }
}

impl InterruptWaiter {
    /// The state in which a wait begins.
    pub open spec fn initial(pin: u8, timeout_ms: u64, direction: TriggerDirection) -> InterruptWaiter {
        InterruptWaiter { pin, timeout_ms, direction, phase: WaitPhase::Acquire }
    }

    /// The action that is due.
    pub open spec fn spec_action(self) -> Action {
        match self.phase {
            WaitPhase::Acquire => Action::Acquire { pin: self.pin, mode: PinMode::Input },
            WaitPhase::Wait => Action::WaitForEdge {
                pin: self.pin,
                direction: self.direction,
                timeout_ms: self.timeout_ms,
            },
        }
    }

    /// What the wait returns when the hardware reports an edge that left the
    /// pin at `level`: that level, unless the trigger is disabled, which
    /// reports no edge at all.
    pub open spec fn reported(self, level: Level) -> Option<Level> {
        if self.direction is Disabled {
            None
        } else {
            Some(level)
        }
    }

    /// The step that `event` causes.
    pub open spec fn spec_step(self, event: Event) -> Step<InterruptWaiter, Option<Level>> {
        match (self.phase, event) {
            (_, Event::Failed(diagnostic)) => Step::Finished(
                Err(DriverError::Hardware(diagnostic)),
            ),
            (WaitPhase::Acquire, Event::Done) => Step::Continue(
                InterruptWaiter { phase: WaitPhase::Wait, ..self },
            ),
            (WaitPhase::Wait, Event::Edge(level)) => Step::Finished(Ok(self.reported(level))),
            (WaitPhase::Wait, Event::NoEdge) => Step::Finished(Ok(None)),
            _ => Step::Finished(
                Err(DriverError::InvalidArgument(InvalidArgument::UnexpectedEvent)),
            ),
        }
    }

    /// Begins a wait for an edge of `direction` on `pin`, which gives up
    /// after `timeout_ms` milliseconds.
    pub fn new(pin: u8, timeout_ms: u64, direction: TriggerDirection) -> (waiter: InterruptWaiter)
        ensures
            waiter == InterruptWaiter::initial(pin, timeout_ms, direction),
    {
        InterruptWaiter { pin, timeout_ms, direction, phase: WaitPhase::Acquire }
    }
}

/// Begins a wait for an edge on `pin`, with the trigger direction given by
/// its code. An unknown code is rejected here, before anything is asked of
/// the hardware.
pub fn wait_for_interrupt(pin: u8, timeout_ms: u64, direction: u8) -> (r: Result<
    InterruptWaiter,
    DriverError,
>)
    ensures
        direction <= TRIGGER_BOTH_EDGES ==> r == Ok::<InterruptWaiter, DriverError>(
            InterruptWaiter::initial(pin, timeout_ms, TriggerDirection::of_code(direction)),
        ),
        direction > TRIGGER_BOTH_EDGES ==> r == Err::<InterruptWaiter, DriverError>(
            DriverError::InvalidArgument(InvalidArgument::TriggerDirection(direction)),
        ),
{
    match TriggerDirection::from_code(direction) {
        Ok(trigger) => Ok(InterruptWaiter::new(pin, timeout_ms, trigger)),
        Err(error) => Err(error),
    }
}

impl Protocol for InterruptWaiter {
    type Output = Option<Level>;

    open spec fn model_action(model: InterruptWaiter) -> Action {
        model.spec_action()
    }

    open spec fn model_step(model: InterruptWaiter, event: Event) -> Step<
        InterruptWaiter,
        Option<Level>,
    > {
        model.spec_step(event)
    }

    fn action(&self) -> (a: Action) {
        match self.phase {
            WaitPhase::Acquire => Action::Acquire { pin: self.pin, mode: PinMode::Input },
            WaitPhase::Wait => Action::WaitForEdge {
                pin: self.pin,
                direction: self.direction,
                timeout_ms: self.timeout_ms,
            },
        }
    }

    fn step(self, event: &Event) -> (r: Step<InterruptWaiter, Option<Level>>) {
        match (self.phase, event) {
            (_, Event::Failed(diagnostic)) => Step::Finished(
                Err(DriverError::Hardware(diagnostic.clone())),
            ),
            (WaitPhase::Acquire, Event::Done) => Step::Continue(
                InterruptWaiter { phase: WaitPhase::Wait, ..self },
            ),
            (WaitPhase::Wait, Event::Edge(level)) => {
                match self.direction {
                    TriggerDirection::Disabled => Step::Finished(Ok(None)),
                    _ => Step::Finished(Ok(Some(*level))),
                }
            },
            (WaitPhase::Wait, Event::NoEdge) => Step::Finished(Ok(None)),
            _ => Step::Finished(
                Err(DriverError::InvalidArgument(InvalidArgument::UnexpectedEvent)),
            ),
        }
    }

    proof fn law_failure_surfaces(model: InterruptWaiter, diagnostic: String) {
    }

    proof fn law_stray_event_is_rejected(model: InterruptWaiter, event: Event) {
    }
}

/// A wait with the trigger disabled always times out: whatever the pin does
/// while the wait lasts, and whether or not the hardware reports an edge,
/// the wait ends with no level, and not in an error.
pub proof fn law_disabled_wait_times_out(
    pin: u8,
    timeout_ms: u64,
    events: Seq<Event>,
    answer: Event,
)
    requires
        run::<InterruptWaiter>(
            InterruptWaiter::initial(pin, timeout_ms, TriggerDirection::Disabled),
            events,
        ) matches Step::Continue(waiting) && waiting.phase is Wait,
        answer is Edge || answer is NoEdge,
    ensures
        run::<InterruptWaiter>(
            InterruptWaiter::initial(pin, timeout_ms, TriggerDirection::Disabled),
            events.push(answer),
        ) == Step::<InterruptWaiter, Option<Level>>::Finished(Ok(None)),
{
    let start = InterruptWaiter::initial(pin, timeout_ms, TriggerDirection::Disabled);
    lemma_direction_is_kept(start, events);
    law_run_one_more::<InterruptWaiter>(start, events, answer);
}

/// A wait keeps the trigger direction that it began with.
proof fn lemma_direction_is_kept(waiter: InterruptWaiter, events: Seq<Event>)
    ensures
        run::<InterruptWaiter>(waiter, events) matches Step::Continue(reached)
            ==> reached.direction == waiter.direction,
    decreases events.len(),
{
    if events.len() > 0 {
        match waiter.spec_step(events[0]) {
            Step::Continue(next) => {
                lemma_direction_is_kept(next, events.subrange(1, events.len() as int));
            },
            Step::Finished(_) => {},
        }
    }
}

} // verus!
