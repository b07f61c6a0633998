//! Clock-synchronous transmit: the peer drives a clock, and each bit goes
//! out between a falling and a rising edge of it.

use vstd::prelude::*;
use crate::action::{Action, Event, PinMode};
use crate::bits::{bit_level, msb_first};
use crate::error::{DriverError, InvalidArgument};
use crate::level::{Level, TriggerDirection};
use crate::protocol::{requests, run, Protocol, Step};

verus! {

/// How long the data line is held low before the first clock edge is waited
/// for, in nanoseconds.
pub const SETTLE_NANOS: u64 = 10_000_000;

/// How long a clock edge is waited for, in milliseconds.
pub const CLOCK_TIMEOUT_MS: u64 = 1000;

/// What a clock-synchronous transmit is busy with.
#[derive(Clone, Copy, Debug, PartialEq, Eq, Structural)]
pub enum SyncWritePhase {
    /// Taking the data pin.
    AcquireData,
    /// Driving the data line low: the idle state.
    Idle,
    /// Letting the idle state settle.
    Settle,
    /// Taking the clock pin.
    AcquireClock,
    /// Waiting for the clock to fall: the peer is ready for the next bit.
    AwaitFalling,
    /// Driving the data line to the next bit.
    Drive,
    /// Waiting for the clock to rise: the peer has sampled the bit.
    AwaitRising,
}

/// The model of a clock-synchronous transmit in progress.
pub struct SyncWriterModel {
    pub clock_pin: u8,
    pub data_pin: u8,
    pub data: Seq<u8>,
    /// The bits that the peer has sampled.
    pub sent: nat,
    pub phase: SyncWritePhase,
}

impl SyncWriterModel {
    /// The state in which a transmit begins.
    pub open spec fn initial(clock_pin: u8, data_pin: u8, data: Seq<u8>) -> SyncWriterModel {
        SyncWriterModel { clock_pin, data_pin, data, sent: 0, phase: SyncWritePhase::AcquireData }
    }

    /// The wait for an edge of the clock in `direction`.
    pub open spec fn clock_wait(self, direction: TriggerDirection) -> Action {
        Action::WaitForEdge { pin: self.clock_pin, direction, timeout_ms: CLOCK_TIMEOUT_MS }
    }

    /// The action that is due.
    pub open spec fn action(self) -> Action {
        match self.phase {
            SyncWritePhase::AcquireData => Action::Acquire {
                pin: self.data_pin,
                mode: PinMode::Output,
            },
            SyncWritePhase::Idle => Action::SetLevel { pin: self.data_pin, level: Level::Low },
            SyncWritePhase::Settle => Action::Sleep { nanos: SETTLE_NANOS },
            SyncWritePhase::AcquireClock => Action::Acquire {
                pin: self.clock_pin,
                mode: PinMode::Input,
            },
            SyncWritePhase::AwaitFalling => self.clock_wait(TriggerDirection::FallingEdge),
            SyncWritePhase::Drive => Action::SetLevel {
                pin: self.data_pin,
                level: msb_first(self.data, self.sent),
            },
            SyncWritePhase::AwaitRising => self.clock_wait(TriggerDirection::RisingEdge),
        }
    }

    /// The same state in another phase.
    pub open spec fn at(self, phase: SyncWritePhase) -> SyncWriterModel {
        SyncWriterModel { phase, ..self }
    }

    /// The failure for a clock edge in `direction` that did not come.
    pub open spec fn clock_timeout(self, direction: TriggerDirection) -> DriverError {
        DriverError::Timeout { pin: self.clock_pin, direction }
    }

    /// The step that `event` causes.
    pub open spec fn step(self, event: Event) -> Step<SyncWriterModel, ()> {
        match (self.phase, event) {
            (_, Event::Failed(diagnostic)) => Step::Finished(
                Err(DriverError::Hardware(diagnostic)),
            ),
            (SyncWritePhase::AcquireData, Event::Done) => Step::Continue(
                self.at(SyncWritePhase::Idle),
            ),
            (SyncWritePhase::Idle, Event::Done) => Step::Continue(self.at(SyncWritePhase::Settle)),
            (SyncWritePhase::Settle, Event::Done) => Step::Continue(
                self.at(SyncWritePhase::AcquireClock),
            ),
            (SyncWritePhase::AcquireClock, Event::Done) => if self.data.len() == 0 {
                Step::Finished(Ok(()))
            } else {
                Step::Continue(self.at(SyncWritePhase::AwaitFalling))
            },
            (SyncWritePhase::AwaitFalling, Event::Edge(_)) => Step::Continue(
                self.at(SyncWritePhase::Drive),
            ),
            (SyncWritePhase::AwaitFalling, Event::NoEdge) => Step::Finished(
                Err(self.clock_timeout(TriggerDirection::FallingEdge)),
            ),
            (SyncWritePhase::Drive, Event::Done) => Step::Continue(
                self.at(SyncWritePhase::AwaitRising),
            ),
            (SyncWritePhase::AwaitRising, Event::Edge(_)) => if self.sent + 1 >= 8
                * self.data.len() {
                Step::Finished(Ok(()))
            } else {
                Step::Continue(
                    SyncWriterModel {
                        sent: self.sent + 1,
                        phase: SyncWritePhase::AwaitFalling,
                        ..self
                    },
                )
            },
            (SyncWritePhase::AwaitRising, Event::NoEdge) => Step::Finished(
                Err(self.clock_timeout(TriggerDirection::RisingEdge)),
            ),
            _ => Step::Finished(
                Err(DriverError::InvalidArgument(InvalidArgument::UnexpectedEvent)),
            ),
        }
    }

    /// How many actions the transmit has behind it.
    pub open spec fn position(self) -> nat {
        match self.phase {
            SyncWritePhase::AcquireData => 0,
            SyncWritePhase::Idle => 1,
            SyncWritePhase::Settle => 2,
            SyncWritePhase::AcquireClock => 3,
            SyncWritePhase::AwaitFalling => 4 + 3 * self.sent,
            SyncWritePhase::Drive => 5 + 3 * self.sent,
            SyncWritePhase::AwaitRising => 6 + 3 * self.sent,
        }
    }

    /// What holds of every state that a transmit passes through: a bit is
    /// left to send whenever one is being sent.
    pub open spec fn consistent(self) -> bool {
        match self.phase {
            SyncWritePhase::AwaitFalling | SyncWritePhase::Drive | SyncWritePhase::AwaitRising =>
                self.sent < 8 * self.data.len(),
            _ => self.sent == 0,
        }
    }
}

/// Everything that a transmit of `data` asks for when nothing fails and the
/// clock keeps running, in order: the data pin as an output, the line low,
/// the settle delay, the clock pin as an input; then for each bit, the bytes
/// in their order and the bits of each from the most significant down, a
/// wait for the clock to fall, the bit's level on the data pin, and a wait
/// for the clock to rise.
pub open spec fn schedule(clock_pin: u8, data_pin: u8, data: Seq<u8>) -> Seq<Action> {
    Seq::new(
        4 + 24 * data.len(),
        |i: int|
            if i == 0 {
                Action::Acquire { pin: data_pin, mode: PinMode::Output }
            } else if i == 1 {
                Action::SetLevel { pin: data_pin, level: Level::Low }
            } else if i == 2 {
                Action::Sleep { nanos: SETTLE_NANOS }
            } else if i == 3 {
                Action::Acquire { pin: clock_pin, mode: PinMode::Input }
            } else if (i - 4) % 3 == 0 {
                Action::WaitForEdge {
                    pin: clock_pin,
                    direction: TriggerDirection::FallingEdge,
                    timeout_ms: CLOCK_TIMEOUT_MS,
                }
            } else if (i - 4) % 3 == 1 {
                Action::SetLevel { pin: data_pin, level: msb_first(data, ((i - 4) / 3) as nat) }
            } else {
                Action::WaitForEdge {
                    pin: clock_pin,
                    direction: TriggerDirection::RisingEdge,
                    timeout_ms: CLOCK_TIMEOUT_MS,
                }
            },
    )
}

/// Whether `event` says that `action` was carried out: an edge for a wait,
/// completion for anything else.
pub open spec fn carried_out(action: Action, event: Event) -> bool {
    if action is WaitForEdge {
        event is Edge
    } else {
        event is Done
    }
}

/// A clock-synchronous transmit in progress.
#[derive(Debug, PartialEq, Eq)]
pub struct SyncWriter {
    clock_pin: u8,
    data_pin: u8,
    data: Vec<u8>,
    byte_index: usize,
    bit_index: u8,
    phase: SyncWritePhase,
}

impl View for SyncWriter {
    type V = SyncWriterModel;

    closed spec fn view(&self) -> SyncWriterModel {
        SyncWriterModel {
            clock_pin: self.clock_pin,
            data_pin: self.data_pin,
            data: self.data@,
            sent: (8 * self.byte_index + self.bit_index) as nat,
            phase: self.phase,
        }
    }
}

impl SyncWriter {
    /// The place in the stream is a bit of a byte that exists.
    #[verifier::type_invariant]
    spec fn in_stream(self) -> bool {
        &&& self.bit_index < 8
        &&& if self.phase is AwaitFalling || self.phase is Drive || self.phase is AwaitRising {
            self.byte_index < self.data@.len()
        } else {
            self.byte_index == 0 && self.bit_index == 0
        }
    }

    /// The same transmit in another phase, with as many bits out.
    fn at(self, phase: SyncWritePhase) -> (next: SyncWriter)
        requires
            (phase is AwaitFalling || phase is Drive || phase is AwaitRising) ==> self@.sent < 8
                * self@.data.len(),
            !(phase is AwaitFalling || phase is Drive || phase is AwaitRising) ==> self@.sent
                == 0,
        ensures
            next@ == self@.at(phase),
    {
        proof {
            use_type_invariant(&self);
        }
        SyncWriter { phase, ..self }
    }
}

/// Begins a transmit of `data` on `data_pin`, paced by the clock that the
/// peer drives on `clock_pin`.
pub fn synchronous_serial_write(clock_pin: u8, data_pin: u8, data: Vec<u8>) -> (writer:
    SyncWriter)
    ensures
        writer@ == SyncWriterModel::initial(clock_pin, data_pin, data@),
{
    SyncWriter {
        clock_pin,
        data_pin,
        data,
        byte_index: 0,
        bit_index: 0,
        phase: SyncWritePhase::AcquireData,
    }
}

impl Protocol for SyncWriter {
    type Output = ();

    open spec fn model_action(model: SyncWriterModel) -> Action {
        model.action()
    }

    open spec fn model_step(model: SyncWriterModel, event: Event) -> Step<SyncWriterModel, ()> {
        model.step(event)
    }

    fn action(&self) -> (a: Action) {
        proof {
            use_type_invariant(self);
        }
        match self.phase {
            SyncWritePhase::AcquireData => Action::Acquire {
                pin: self.data_pin,
                mode: PinMode::Output,
            },
            SyncWritePhase::Idle => Action::SetLevel { pin: self.data_pin, level: Level::Low },
            SyncWritePhase::Settle => Action::Sleep { nanos: SETTLE_NANOS },
            SyncWritePhase::AcquireClock => Action::Acquire {
                pin: self.clock_pin,
                mode: PinMode::Input,
            },
            SyncWritePhase::AwaitFalling => Action::WaitForEdge {
                pin: self.clock_pin,
                direction: TriggerDirection::FallingEdge,
                timeout_ms: CLOCK_TIMEOUT_MS,
            },
            SyncWritePhase::Drive => Action::SetLevel {
                pin: self.data_pin,
                level: bit_level(self.data[self.byte_index], 7 - self.bit_index),
            },
            SyncWritePhase::AwaitRising => Action::WaitForEdge {
                pin: self.clock_pin,
                direction: TriggerDirection::RisingEdge,
                timeout_ms: CLOCK_TIMEOUT_MS,
            },
        }
    }

    fn step(self, event: &Event) -> (r: Step<SyncWriter, ()>) {
        proof {
            use_type_invariant(&self);
        }
        let len: usize = self.data.len();
        match (self.phase, event) {
            (_, Event::Failed(diagnostic)) => Step::Finished(
                Err(DriverError::Hardware(diagnostic.clone())),
            ),
            (SyncWritePhase::AcquireData, Event::Done) => Step::Continue(
                self.at(SyncWritePhase::Idle),
            ),
            (SyncWritePhase::Idle, Event::Done) => Step::Continue(self.at(SyncWritePhase::Settle)),
            (SyncWritePhase::Settle, Event::Done) => Step::Continue(
                self.at(SyncWritePhase::AcquireClock),
            ),
            (SyncWritePhase::AcquireClock, Event::Done) => if len == 0 {
                Step::Finished(Ok(()))
            } else {
                Step::Continue(self.at(SyncWritePhase::AwaitFalling))
            },
            (SyncWritePhase::AwaitFalling, Event::Edge(_)) => Step::Continue(
                self.at(SyncWritePhase::Drive),
            ),
            (SyncWritePhase::AwaitFalling, Event::NoEdge) => Step::Finished(
                Err(
                    DriverError::Timeout {
                        pin: self.clock_pin,
                        direction: TriggerDirection::FallingEdge,
                    },
                ),
            ),
            (SyncWritePhase::Drive, Event::Done) => Step::Continue(
                self.at(SyncWritePhase::AwaitRising),
            ),
            (SyncWritePhase::AwaitRising, Event::Edge(_)) => if self.bit_index < 7 {
                Step::Continue(
                    SyncWriter {
                        bit_index: self.bit_index + 1,
                        phase: SyncWritePhase::AwaitFalling,
                        ..self
                    },
                )
            } else if self.byte_index + 1 < len {
                Step::Continue(
                    SyncWriter {
                        byte_index: self.byte_index + 1,
                        bit_index: 0,
                        phase: SyncWritePhase::AwaitFalling,
                        ..self
                    },
                )
            } else {
                Step::Finished(Ok(()))
            },
            (SyncWritePhase::AwaitRising, Event::NoEdge) => Step::Finished(
                Err(
                    DriverError::Timeout {
                        pin: self.clock_pin,
                        direction: TriggerDirection::RisingEdge,
                    },
                ),
            ),
            _ => Step::Finished(
                Err(DriverError::InvalidArgument(InvalidArgument::UnexpectedEvent)),
            ),
        }
    }

    proof fn law_failure_surfaces(model: SyncWriterModel, diagnostic: String) {
    }

    proof fn law_stray_event_is_rejected(model: SyncWriterModel, event: Event) {
    }
}

/// From any state on the way, a transmit in which every action is carried
/// out asks for the rest of the schedule and ends well.
proof fn lemma_rest_of_schedule(model: SyncWriterModel, events: Seq<Event>)
    requires
        model.consistent(),
        events.len() == 4 + 24 * model.data.len() - model.position(),
        forall|i: int|
            0 <= i < events.len() ==> carried_out(
                schedule(model.clock_pin, model.data_pin, model.data)[model.position() + i],
                #[trigger] events[i],
            ),
    ensures
        run::<SyncWriter>(model, events) == Step::<SyncWriterModel, ()>::Finished(Ok(())),
        requests::<SyncWriter>(model, events) == schedule(
            model.clock_pin,
            model.data_pin,
            model.data,
        ).subrange(model.position() as int, 4 + 24 * model.data.len() as int),
    decreases events.len(),
{
    let total = 4 + 24 * model.data.len();
    let whole = schedule(model.clock_pin, model.data_pin, model.data);
    let rest = events.subrange(1, events.len() as int);
    assert(whole[model.position() as int] == model.action());
    assert(carried_out(whole[model.position() + 0int], events[0]));
    match model.step(events[0]) {
        Step::Continue(next) => {
            assert forall|i: int| 0 <= i < rest.len() implies carried_out(
                whole[next.position() + i],
                #[trigger] rest[i],
            ) by {
                assert(rest[i] == events[i + 1]);
            }
            lemma_rest_of_schedule(next, rest);
            assert(seq![model.action()] + whole.subrange(next.position() as int, total as int)
                == whole.subrange(model.position() as int, total as int));
        },
        Step::Finished(_) => {
            assert(seq![model.action()] + Seq::<Action>::empty() == whole.subrange(
                model.position() as int,
                total as int,
            ));
        },
    }
}

/// A transmit in which every action is carried out asks for exactly its
/// schedule and ends well: the line is idled low and left to settle before
/// the clock is looked at, and the bits go out in the order of the bytes,
/// those of each byte from the most significant down, each between a falling
/// and a rising edge of the clock.
pub proof fn law_transmit_follows_schedule(
    clock_pin: u8,
    data_pin: u8,
    data: Seq<u8>,
    events: Seq<Event>,
)
    requires
        events.len() == 4 + 24 * data.len(),
        forall|i: int|
            0 <= i < events.len() ==> carried_out(
                schedule(clock_pin, data_pin, data)[i],
                #[trigger] events[i],
            ),
    ensures
        run::<SyncWriter>(SyncWriterModel::initial(clock_pin, data_pin, data), events)
            == Step::<SyncWriterModel, ()>::Finished(Ok(())),
        requests::<SyncWriter>(SyncWriterModel::initial(clock_pin, data_pin, data), events)
            == schedule(clock_pin, data_pin, data),
{
    let start = SyncWriterModel::initial(clock_pin, data_pin, data);
    assert forall|i: int| 0 <= i < events.len() implies carried_out(
        schedule(clock_pin, data_pin, data)[start.position() + i],
        #[trigger] events[i],
    ) by {}
    lemma_rest_of_schedule(start, events);
    let whole = schedule(clock_pin, data_pin, data);
    assert(whole.subrange(0, 4 + 24 * data.len() as int) == whole);
}

} // verus!
