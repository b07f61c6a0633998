//! Asynchronous transmit: the data line is driven at a fixed bit period,
//! with no clock but the sender's own.

use vstd::prelude::*;
use crate::action::{Action, Event, PinMode};
use crate::bits::{bit_level, lsb_first};
use crate::error::{DriverError, InvalidArgument};
use crate::protocol::{requests, run, Protocol, Step};

verus! {

/// Twice the nanoseconds in one second.
pub const TWO_SECONDS_NANOS: u64 = 2_000_000_000;

/// The bit period at `baudrate` bits per second, in nanoseconds: the whole
/// number nearest to a second divided by the rate, the upper one of two that
/// are equally near. A rate of zero has no bit period; zero stands for it.
pub open spec fn spec_bit_period_nanos(baudrate: u32) -> u64 {
    if baudrate == 0 {
        0
    } else {
        ((TWO_SECONDS_NANOS + baudrate) / (2 * baudrate)) as u64
    }
}

/// The bit period at `baudrate` bits per second, in nanoseconds: the whole
/// number nearest to a second divided by the rate.
pub fn bit_period_nanos(baudrate: u32) -> (period: u64)
    requires
        baudrate > 0,
    ensures
        period == spec_bit_period_nanos(baudrate),
        2 * period * baudrate - baudrate <= TWO_SECONDS_NANOS < 2 * period * baudrate + baudrate,
{
    let rate: u64 = baudrate as u64;
    let period: u64 = (TWO_SECONDS_NANOS + rate) / (2 * rate);
    proof {
        let numerator = (TWO_SECONDS_NANOS + rate) as int;
        let divisor = (2 * rate) as int;
        assert(numerator == divisor * (numerator / divisor) + numerator % divisor
            && 0 <= numerator % divisor < divisor) by (nonlinear_arith)
            requires
                divisor > 0,
        ;
        assert(2 * period * baudrate == divisor * (numerator / divisor)) by (nonlinear_arith)
            requires
                period == numerator / divisor,
                divisor == 2 * baudrate,
        ;
    }
    period
}

/// What an asynchronous transmit is busy with.
#[derive(Clone, Copy, Debug, PartialEq, Eq, Structural)]
pub enum AsyncWritePhase {
    /// Taking the data pin.
    Acquire,
    /// Letting one bit period pass.
    Sleep,
    /// Driving the data line to the next bit.
    Drive,
}

/// The model of an asynchronous transmit in progress.
pub struct AsyncWriterModel {
    pub data_pin: u8,
    pub period_nanos: u64,
    pub data: Seq<u8>,
    /// The bits that are out.
    pub sent: nat,
    pub phase: AsyncWritePhase,
}

impl AsyncWriterModel {
    /// The state in which a transmit begins.
    pub open spec fn initial(data_pin: u8, baudrate: u32, data: Seq<u8>) -> AsyncWriterModel {
        AsyncWriterModel {
            data_pin,
            period_nanos: spec_bit_period_nanos(baudrate),
            data,
            sent: 0,
            phase: AsyncWritePhase::Acquire,
        }
    }

    /// The action that is due.
    pub open spec fn action(self) -> Action {
        match self.phase {
            AsyncWritePhase::Acquire => Action::Acquire {
                pin: self.data_pin,
                mode: PinMode::Output,
            },
            AsyncWritePhase::Sleep => Action::Sleep { nanos: self.period_nanos },
            AsyncWritePhase::Drive => Action::SetLevel {
                pin: self.data_pin,
                level: lsb_first(self.data, self.sent),
            },
        }
    }

    /// The step that `event` causes.
    pub open spec fn step(self, event: Event) -> Step<AsyncWriterModel, ()> {
        match (self.phase, event) {
            (_, Event::Failed(diagnostic)) => Step::Finished(
                Err(DriverError::Hardware(diagnostic)),
            ),
            (AsyncWritePhase::Acquire, Event::Done) => if self.data.len() == 0 {
                Step::Finished(Ok(()))
            } else {
                Step::Continue(AsyncWriterModel { phase: AsyncWritePhase::Sleep, ..self })
            },
            (AsyncWritePhase::Sleep, Event::Done) => Step::Continue(
                AsyncWriterModel { phase: AsyncWritePhase::Drive, ..self },
            ),
            (AsyncWritePhase::Drive, Event::Done) => if self.sent + 1 >= 8 * self.data.len() {
                Step::Finished(Ok(()))
            } else {
                Step::Continue(
                    AsyncWriterModel { sent: self.sent + 1, phase: AsyncWritePhase::Sleep, ..self },
                )
            },
            _ => Step::Finished(
                Err(DriverError::InvalidArgument(InvalidArgument::UnexpectedEvent)),
            ),
        }
    }

    /// How many actions the transmit has behind it.
    pub open spec fn position(self) -> nat {
        match self.phase {
            AsyncWritePhase::Acquire => 0,
            AsyncWritePhase::Sleep => 1 + 2 * self.sent,
            AsyncWritePhase::Drive => 2 + 2 * self.sent,
        }
    }

    /// What holds of every state that a transmit passes through: a bit is
    /// left to send whenever one is being sent.
    pub open spec fn consistent(self) -> bool {
        match self.phase {
            AsyncWritePhase::Acquire => self.sent == 0,
            _ => self.sent < 8 * self.data.len(),
        }
    }
}

/// Everything that a transmit of `data` asks for when nothing fails, in
/// order: the data pin as an output, then for each bit, the bytes in their
/// order and the bits of each from the least significant up, first a sleep
/// of one bit period and only then the bit's level on the pin.
pub open spec fn schedule(data_pin: u8, period_nanos: u64, data: Seq<u8>) -> Seq<Action> {
    Seq::new(
        1 + 16 * data.len(),
        |i: int|
            if i == 0 {
                Action::Acquire { pin: data_pin, mode: PinMode::Output }
            } else if i % 2 == 1 {
                Action::Sleep { nanos: period_nanos }
            } else {
                Action::SetLevel { pin: data_pin, level: lsb_first(data, ((i - 2) / 2) as nat) }
            },
    )
}

/// An asynchronous transmit in progress.
#[derive(Debug, PartialEq, Eq)]
pub struct AsyncWriter {
    data_pin: u8,
    period_nanos: u64,
    data: Vec<u8>,
    byte_index: usize,
    bit_index: u8,
    phase: AsyncWritePhase,
}

impl View for AsyncWriter {
    type V = AsyncWriterModel;

    closed spec fn view(&self) -> AsyncWriterModel {
        AsyncWriterModel {
            data_pin: self.data_pin,
            period_nanos: self.period_nanos,
            data: self.data@,
            sent: (8 * self.byte_index + self.bit_index) as nat,
            phase: self.phase,
        }
    }
}

impl AsyncWriter {
    /// The place in the stream is a bit of a byte that exists.
    #[verifier::type_invariant]
    spec fn in_stream(self) -> bool {
        &&& self.bit_index < 8
        &&& if self.phase is Acquire {
            self.byte_index == 0 && self.bit_index == 0
        } else {
            self.byte_index < self.data@.len()
        }
    }
}

/// Begins a transmit of `data` on `data_pin` at `baudrate` bits per second.
/// No framing is added: what goes out is the bits of `data` and nothing
/// else. A rate of zero has no bit period, so it goes with no data only.
pub fn asynchronous_serial_write(data_pin: u8, baudrate: u32, data: Vec<u8>) -> (writer:
    AsyncWriter)
    requires
        baudrate > 0 || data@.len() == 0,
    ensures
        writer@ == AsyncWriterModel::initial(data_pin, baudrate, data@),
{
    let period_nanos: u64 = if baudrate > 0 {
        bit_period_nanos(baudrate)
    } else {
        0
    };
    AsyncWriter {
        data_pin,
        period_nanos,
        data,
        byte_index: 0,
        bit_index: 0,
        phase: AsyncWritePhase::Acquire,
    }
}

impl Protocol for AsyncWriter {
    type Output = ();

    open spec fn model_action(model: AsyncWriterModel) -> Action {
        model.action()
    }

    open spec fn model_step(model: AsyncWriterModel, event: Event) -> Step<AsyncWriterModel, ()> {
        model.step(event)
    }

    fn action(&self) -> (a: Action) {
        proof {
            use_type_invariant(self);
        }
        match self.phase {
            AsyncWritePhase::Acquire => Action::Acquire {
                pin: self.data_pin,
                mode: PinMode::Output,
            },
            AsyncWritePhase::Sleep => Action::Sleep { nanos: self.period_nanos },
            AsyncWritePhase::Drive => Action::SetLevel {
                pin: self.data_pin,
                level: bit_level(self.data[self.byte_index], self.bit_index),
            },
        }
    }

    fn step(self, event: &Event) -> (r: Step<AsyncWriter, ()>) {
        proof {
            use_type_invariant(&self);
        }
        let len: usize = self.data.len();
        match (self.phase, event) {
            (_, Event::Failed(diagnostic)) => Step::Finished(
                Err(DriverError::Hardware(diagnostic.clone())),
            ),
            (AsyncWritePhase::Acquire, Event::Done) => if len == 0 {
                Step::Finished(Ok(()))
            } else {
                Step::Continue(AsyncWriter { phase: AsyncWritePhase::Sleep, ..self })
            },
            (AsyncWritePhase::Sleep, Event::Done) => Step::Continue(
                AsyncWriter { phase: AsyncWritePhase::Drive, ..self },
            ),
            (AsyncWritePhase::Drive, Event::Done) => if self.bit_index < 7 {
                Step::Continue(
                    AsyncWriter {
                        bit_index: self.bit_index + 1,
                        phase: AsyncWritePhase::Sleep,
                        ..self
                    },
                )
            } else if self.byte_index + 1 < len {
                Step::Continue(
                    AsyncWriter {
                        byte_index: self.byte_index + 1,
                        bit_index: 0,
                        phase: AsyncWritePhase::Sleep,
                        ..self
                    },
                )
            } else {
                Step::Finished(Ok(()))
            },
            _ => Step::Finished(
                Err(DriverError::InvalidArgument(InvalidArgument::UnexpectedEvent)),
            ),
        }
    }

    proof fn law_failure_surfaces(model: AsyncWriterModel, diagnostic: String) {
    }

    proof fn law_stray_event_is_rejected(model: AsyncWriterModel, event: Event) {
    }
}

/// From any state on the way, a transmit in which nothing fails asks for
/// the rest of the schedule and ends well.
proof fn lemma_rest_of_schedule(model: AsyncWriterModel, events: Seq<Event>)
    requires
        model.consistent(),
        events.len() == 1 + 16 * model.data.len() - model.position(),
        forall|i: int| 0 <= i < events.len() ==> #[trigger] events[i] is Done,
    ensures
        run::<AsyncWriter>(model, events) == Step::<AsyncWriterModel, ()>::Finished(Ok(())),
        requests::<AsyncWriter>(model, events) == schedule(
            model.data_pin,
            model.period_nanos,
            model.data,
        ).subrange(model.position() as int, 1 + 16 * model.data.len() as int),
    decreases events.len(),
{
    let total = 1 + 16 * model.data.len();
    let whole = schedule(model.data_pin, model.period_nanos, model.data);
    let rest = events.subrange(1, events.len() as int);
    assert(events[0] is Done);
    assert(whole[model.position() as int] == model.action());
    match model.step(events[0]) {
        Step::Continue(next) => {
            assert forall|i: int| 0 <= i < rest.len() implies #[trigger] rest[i] is Done by {
                assert(rest[i] == events[i + 1]);
            }
            lemma_rest_of_schedule(next, rest);
            assert(seq![model.action()] + whole.subrange(next.position() as int, total as int)
                == whole.subrange(model.position() as int, total as int));
        },
        Step::Finished(_) => {
            assert(seq![model.action()] + Seq::<Action>::empty() == whole.subrange(
                model.position() as int,
                total as int,
            ));
        },
    }
}

/// A transmit in which nothing fails asks for exactly its schedule and ends
/// well: the bits go out in the order of the bytes, those of each byte from
/// the least significant up, and each is preceded by a sleep of one bit
/// period, the first one too.
pub proof fn law_transmit_follows_schedule(
    data_pin: u8,
    baudrate: u32,
    data: Seq<u8>,
    events: Seq<Event>,
)
    requires
        events.len() == 1 + 16 * data.len(),
        forall|i: int| 0 <= i < events.len() ==> #[trigger] events[i] is Done,
    ensures
        run::<AsyncWriter>(AsyncWriterModel::initial(data_pin, baudrate, data), events)
            == Step::<AsyncWriterModel, ()>::Finished(Ok(())),
        requests::<AsyncWriter>(AsyncWriterModel::initial(data_pin, baudrate, data), events)
            == schedule(data_pin, spec_bit_period_nanos(baudrate), data),
{
    let start = AsyncWriterModel::initial(data_pin, baudrate, data);
    lemma_rest_of_schedule(start, events);
    let whole = schedule(data_pin, spec_bit_period_nanos(baudrate), data);
    assert(whole.subrange(0, 1 + 16 * data.len() as int) == whole);
}

} // verus!
