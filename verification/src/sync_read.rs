//! Clock-synchronous capture: the data line is sampled on every rising edge
//! of a clock that the peer drives, until a run of identical bits ends the
//! frame.

use vstd::prelude::*;
use crate::action::{Action, Event, PinMode};
use crate::error::{DriverError, InvalidArgument};
use crate::level::{Level, TriggerDirection};
use crate::protocol::{run, Protocol, Step};
use crate::time::Timestamp;

verus! {

/// The bit that a run continues after the samples `bits`: the last of them,
/// or 1 where there is none, since a capture starts on a rising data line.
pub open spec fn last_bit(bits: Seq<u8>) -> u8 {
    if bits.len() == 0 {
        1
    } else {
        bits.last()
    }
}

/// The length of the run of identical bits that the samples `bits` end in.
/// The start condition counts as a first high bit, so that a capture that
/// has seen only high samples is in a run one longer than itself.
pub open spec fn run_length(bits: Seq<u8>) -> nat
    decreases bits.len(),
{
    if bits.len() == 0 {
        1
    } else if bits.last() == last_bit(bits.drop_last()) {
        run_length(bits.drop_last()) + 1
    } else {
        1
    }
}

/// The record of a clock-synchronous capture.
#[derive(Debug, PartialEq, Eq)]
pub struct CapturedBits {
    start_capture: Timestamp,
    end_capture: Timestamp,
    bits: Vec<u8>,
}

/// What a [`CapturedBits`] holds.
pub struct CapturedBitsView {
    /// The clock reading taken when the start condition was seen.
    pub start_capture: Timestamp,
    /// The clock reading taken when the closing run was complete.
    pub end_capture: Timestamp,
    /// The samples, in the order of the clock edges.
    pub bits: Seq<u8>,
}

impl CapturedBitsView {
    /// Every sample is a bit.
    pub open spec fn binary(self) -> bool {
        forall|i: int| 0 <= i < self.bits.len() ==> self.bits[i] <= 1
    }

    /// The capture ended on the very sample that completed a run of `n`: the
    /// samples end in such a run, and no shorter capture did.
    pub open spec fn closed_by_run(self, n: u8) -> bool {
        &&& self.bits.len() > 0
        &&& run_length(self.bits) == n
        &&& forall|k: int| 0 < k < self.bits.len() ==> run_length(#[trigger] self.bits.take(k)) != n
    }

    /// Some sample is low.
    pub open spec fn has_low(self) -> bool {
        exists|i: int| 0 <= i < self.bits.len() && self.bits[i] == 0
    }

    /// The last `n` samples are equal, and they are the whole of a run: the
    /// sample before them, if there is one, differs.
    pub open spec fn ends_in_run_of(self, n: u8) -> bool {
        let len = self.bits.len() as int;
        &&& n <= len
        &&& forall|i: int| len - n <= i < len ==> #[trigger] self.bits[i] == self.bits.last()
        &&& n < len ==> self.bits[len - n - 1] != self.bits.last()
    }
}

impl View for CapturedBits {
    type V = CapturedBitsView;

    closed spec fn view(&self) -> CapturedBitsView {
        CapturedBitsView {
            start_capture: self.start_capture,
            end_capture: self.end_capture,
            bits: self.bits@,
        }
    }
}

impl DeepView for CapturedBits {
    type V = CapturedBitsView;

    open spec fn deep_view(&self) -> CapturedBitsView {
        self@
    }
}

impl CapturedBits {
    /// The clock reading taken when the start condition was seen.
    pub fn get_start_capture(&self) -> (t: Timestamp)
        ensures
            t == self@.start_capture,
    {
        self.start_capture
    }

    /// The clock reading taken when the closing run was complete.
    pub fn get_end_capture(&self) -> (t: Timestamp)
        ensures
            t == self@.end_capture,
    {
        self.end_capture
    }

    /// The samples, in the order of the clock edges.
    pub fn get_bits(&self) -> (bits: Vec<u8>)
        ensures
            bits@ == self@.bits,
    {
        self.bits.clone()
    }
}

/// What a clock-synchronous capture is busy with.
#[derive(Clone, Copy, Debug, PartialEq, Eq, Structural)]
pub enum SyncReadPhase {
    /// Taking the data pin.
    AcquireData,
    /// Taking the clock pin.
    AcquireClock,
    /// Waiting for the data line to rise: the start condition.
    AwaitStart,
    /// Reading the clock for the start of the capture.
    ReadStart,
    /// Waiting for the next rising edge of the clock.
    AwaitClock,
    /// Reading the data line.
    Sample,
    /// Reading the clock for the end of the capture.
    ReadEnd,
}

/// The model of a clock-synchronous capture in progress.
pub struct SyncReaderModel {
    pub clock_pin: u8,
    pub data_pin: u8,
    pub timeout_ms: u64,
    pub max_same_bits: u8,
    pub phase: SyncReadPhase,
    pub start_capture: Timestamp,
    pub bits: Seq<u8>,
}

impl SyncReaderModel {
    /// The state in which a capture begins.
    pub open spec fn initial(
        clock_pin: u8,
        data_pin: u8,
        timeout_ms: u64,
        max_same_bits: u8,
    ) -> SyncReaderModel {
        SyncReaderModel {
            clock_pin,
            data_pin,
            timeout_ms,
            max_same_bits,
            phase: SyncReadPhase::AcquireData,
            start_capture: Timestamp { nanos: 0 },
            bits: Seq::empty(),
        }
    }

    /// The action that is due.
    pub open spec fn action(self) -> Action {
        match self.phase {
            SyncReadPhase::AcquireData => Action::Acquire {
                pin: self.data_pin,
                mode: PinMode::Input,
            },
            SyncReadPhase::AcquireClock => Action::Acquire {
                pin: self.clock_pin,
                mode: PinMode::Input,
            },
            SyncReadPhase::AwaitStart => Action::WaitForEdge {
                pin: self.data_pin,
                direction: TriggerDirection::RisingEdge,
                timeout_ms: self.timeout_ms,
            },
            SyncReadPhase::AwaitClock => Action::WaitForEdge {
                pin: self.clock_pin,
                direction: TriggerDirection::RisingEdge,
                timeout_ms: self.timeout_ms,
            },
            SyncReadPhase::Sample => Action::ReadLevel { pin: self.data_pin },
            SyncReadPhase::ReadStart | SyncReadPhase::ReadEnd => Action::ReadClock,
        }
    }

    /// The same state in another phase.
    pub open spec fn at(self, phase: SyncReadPhase) -> SyncReaderModel {
        SyncReaderModel { phase, ..self }
    }

    /// The state after the sample `level`: the sample is recorded, and the
    /// capture closes if it completes a run of the configured length.
    pub open spec fn sampled(self, level: Level) -> SyncReaderModel {
        let bits = self.bits.push(level.code());
        SyncReaderModel {
            bits,
            phase: if run_length(bits) == self.max_same_bits {
                SyncReadPhase::ReadEnd
            } else {
                SyncReadPhase::AwaitClock
            },
            ..self
        }
    }

    /// What holds of every state that a capture passes through: the samples
    /// are bits, no run of the configured length was complete before the last
    /// sample, and one is complete now just when the capture is closing.
    pub open spec fn consistent(self) -> bool {
        let n = self.max_same_bits;
        &&& forall|i: int| 0 <= i < self.bits.len() ==> self.bits[i] <= 1
        &&& forall|k: int| 0 < k < self.bits.len() ==> run_length(#[trigger] self.bits.take(k)) != n
        &&& if self.phase is ReadEnd {
            self.bits.len() > 0 && run_length(self.bits) == n
        } else {
            self.bits.len() > 0 ==> run_length(self.bits) != n
        }
    }

    /// The step that `event` causes.
    pub open spec fn step(self, event: Event) -> Step<SyncReaderModel, CapturedBitsView> {
        match (self.phase, event) {
            (_, Event::Failed(diagnostic)) => Step::Finished(
                Err(DriverError::Hardware(diagnostic)),
            ),
            (SyncReadPhase::AcquireData, Event::Done) => Step::Continue(
                self.at(SyncReadPhase::AcquireClock),
            ),
            (SyncReadPhase::AcquireClock, Event::Done) => Step::Continue(
                self.at(SyncReadPhase::AwaitStart),
            ),
            (SyncReadPhase::AwaitStart, Event::Edge(_)) => Step::Continue(
                self.at(SyncReadPhase::ReadStart),
            ),
            (SyncReadPhase::AwaitStart, Event::NoEdge) => Step::Finished(
                Err(
                    DriverError::Timeout {
                        pin: self.data_pin,
                        direction: TriggerDirection::RisingEdge,
                    },
                ),
            ),
            (SyncReadPhase::ReadStart, Event::Time(now)) => Step::Continue(
                SyncReaderModel { start_capture: now, phase: SyncReadPhase::AwaitClock, ..self },
            ),
            (SyncReadPhase::AwaitClock, Event::Edge(_)) => Step::Continue(
                self.at(SyncReadPhase::Sample),
            ),
            (SyncReadPhase::AwaitClock, Event::NoEdge) => Step::Finished(
                Err(
                    DriverError::Timeout {
                        pin: self.clock_pin,
                        direction: TriggerDirection::RisingEdge,
                    },
                ),
            ),
            (SyncReadPhase::Sample, Event::Level(level)) => Step::Continue(self.sampled(level)),
            (SyncReadPhase::ReadEnd, Event::Time(now)) => Step::Finished(
                Ok(
                    CapturedBitsView {
                        start_capture: self.start_capture,
                        end_capture: now,
                        bits: self.bits,
                    },
                ),
            ),
            _ => Step::Finished(
                Err(DriverError::InvalidArgument(InvalidArgument::UnexpectedEvent)),
            ),
        }
    }
}

/// A clock-synchronous capture in progress.
#[derive(Debug, PartialEq, Eq)]
pub struct SyncReader {
    clock_pin: u8,
    data_pin: u8,
    timeout_ms: u64,
    max_same_bits: u8,
    phase: SyncReadPhase,
    start_capture: Timestamp,
    bits: Vec<u8>,
    /// The bit that the current run is made of.
    last_bit: u8,
    /// The length of the current run; wide enough for a capture of any
    /// length.
    same_bits: u128,
}

impl View for SyncReader {
    type V = SyncReaderModel;

    closed spec fn view(&self) -> SyncReaderModel {
        SyncReaderModel {
            clock_pin: self.clock_pin,
            data_pin: self.data_pin,
            timeout_ms: self.timeout_ms,
            max_same_bits: self.max_same_bits,
            phase: self.phase,
            start_capture: self.start_capture,
            bits: self.bits@,
        }
    }
}

impl SyncReader {
    /// The two counters say of the samples what the model computes of them.
    #[verifier::type_invariant]
    spec fn counters_agree(self) -> bool {
        &&& self.last_bit == last_bit(self.bits@)
        &&& self.same_bits == run_length(self.bits@)
    }
}

/// A run is never longer than the samples and the start condition together.
proof fn lemma_run_length_bounds(bits: Seq<u8>)
    ensures
        1 <= run_length(bits) <= bits.len() + 1,
    decreases bits.len(),
{
    if bits.len() > 0 {
        lemma_run_length_bounds(bits.drop_last());
    }
}

/// Begins a clock-synchronous capture from the data line `data_pin`, paced
/// by `clock_pin`. Each wait gives up after `timeout_ms` milliseconds. The
/// capture closes on the sample that completes a run of `max_same_bits`
/// identical bits, the start condition counted as a first high bit. No run
/// has a length of zero, so with `max_same_bits` at zero the capture lasts
/// until a wait gives up or the hardware fails.
pub fn synchronous_serial_read(
    clock_pin: u8,
    data_pin: u8,
    timeout_ms: u64,
    max_same_bits: u8,
) -> (reader: SyncReader)
    ensures
        reader@ == SyncReaderModel::initial(clock_pin, data_pin, timeout_ms, max_same_bits),
{
    SyncReader {
        clock_pin,
        data_pin,
        timeout_ms,
        max_same_bits,
        phase: SyncReadPhase::AcquireData,
        start_capture: Timestamp { nanos: 0 },
        bits: Vec::new(),
        last_bit: 1,
        same_bits: 1,
    }
}

impl SyncReader {
    /// The same capture in another phase.
    fn at(self, phase: SyncReadPhase) -> (next: SyncReader)
        ensures
            next@ == self@.at(phase),
    {
        proof {
            use_type_invariant(&self);
        }
        SyncReader { phase, ..self }
    }

    /// Records one sample.
    fn sampled(self, level: Level) -> (next: SyncReader)
        ensures
            next@ == self@.sampled(level),
    {
        proof {
            use_type_invariant(&self);
            lemma_run_length_bounds(self.bits@);
            assert(self.bits@.len() == self.bits.len());
        }
        let bit: u8 = level.code();
        let same_bits: u128 = if bit == self.last_bit {
            self.same_bits + 1
        } else {
            1
        };
        let phase = if same_bits == self.max_same_bits as u128 {
            SyncReadPhase::ReadEnd
        } else {
            SyncReadPhase::AwaitClock
        };
        let mut bits = self.bits;
        let ghost before = bits@;
        bits.push(bit);
        proof {
            assert(bits@.drop_last() == before);
        }
        SyncReader {
            clock_pin: self.clock_pin,
            data_pin: self.data_pin,
            timeout_ms: self.timeout_ms,
            max_same_bits: self.max_same_bits,
            phase,
            start_capture: self.start_capture,
            bits,
            last_bit: bit,
            same_bits,
        }
    }
}

impl Protocol for SyncReader {
    type Output = CapturedBits;

    open spec fn model_action(model: SyncReaderModel) -> Action {
        model.action()
    }

    open spec fn model_step(model: SyncReaderModel, event: Event) -> Step<
        SyncReaderModel,
        CapturedBitsView,
    > {
        model.step(event)
    }

    fn action(&self) -> (a: Action) {
        match self.phase {
            SyncReadPhase::AcquireData => Action::Acquire {
                pin: self.data_pin,
                mode: PinMode::Input,
            },
            SyncReadPhase::AcquireClock => Action::Acquire {
                pin: self.clock_pin,
                mode: PinMode::Input,
            },
            SyncReadPhase::AwaitStart => Action::WaitForEdge {
                pin: self.data_pin,
                direction: TriggerDirection::RisingEdge,
                timeout_ms: self.timeout_ms,
            },
            SyncReadPhase::AwaitClock => Action::WaitForEdge {
                pin: self.clock_pin,
                direction: TriggerDirection::RisingEdge,
                timeout_ms: self.timeout_ms,
            },
            SyncReadPhase::Sample => Action::ReadLevel { pin: self.data_pin },
            SyncReadPhase::ReadStart | SyncReadPhase::ReadEnd => Action::ReadClock,
        }
    }

    fn step(self, event: &Event) -> (r: Step<SyncReader, CapturedBits>) {
        proof {
            use_type_invariant(&self);
        }
        match (self.phase, event) {
            (_, Event::Failed(diagnostic)) => Step::Finished(
                Err(DriverError::Hardware(diagnostic.clone())),
            ),
            (SyncReadPhase::AcquireData, Event::Done) => Step::Continue(
                self.at(SyncReadPhase::AcquireClock),
            ),
            (SyncReadPhase::AcquireClock, Event::Done) => Step::Continue(
                self.at(SyncReadPhase::AwaitStart),
            ),
            (SyncReadPhase::AwaitStart, Event::Edge(_)) => Step::Continue(
                self.at(SyncReadPhase::ReadStart),
            ),
            (SyncReadPhase::AwaitStart, Event::NoEdge) => Step::Finished(
                Err(
                    DriverError::Timeout {
                        pin: self.data_pin,
                        direction: TriggerDirection::RisingEdge,
                    },
                ),
            ),
            (SyncReadPhase::ReadStart, Event::Time(now)) => Step::Continue(
                SyncReader { start_capture: *now, phase: SyncReadPhase::AwaitClock, ..self },
            ),
            (SyncReadPhase::AwaitClock, Event::Edge(_)) => Step::Continue(
                self.at(SyncReadPhase::Sample),
            ),
            (SyncReadPhase::AwaitClock, Event::NoEdge) => Step::Finished(
                Err(
                    DriverError::Timeout {
                        pin: self.clock_pin,
                        direction: TriggerDirection::RisingEdge,
                    },
                ),
            ),
            (SyncReadPhase::Sample, Event::Level(level)) => Step::Continue(self.sampled(*level)),
            (SyncReadPhase::ReadEnd, Event::Time(now)) => Step::Finished(
                Ok(
                    CapturedBits {
                        start_capture: self.start_capture,
                        end_capture: *now,
                        bits: self.bits,
                    },
                ),
            ),
            _ => Step::Finished(
                Err(DriverError::InvalidArgument(InvalidArgument::UnexpectedEvent)),
            ),
        }
    }

    proof fn law_failure_surfaces(model: SyncReaderModel, diagnostic: String) {
    }

    proof fn law_stray_event_is_rejected(model: SyncReaderModel, event: Event) {
    }
}

/// How a run lies in the samples: either every sample is high and the run
/// is the start condition and all of them, or the run is made of the last
/// samples alone and the sample before it differs.
proof fn lemma_run_shape(bits: Seq<u8>)
    requires
        forall|i: int| 0 <= i < bits.len() ==> bits[i] <= 1,
    ensures
        ({
            let len = bits.len() as int;
            let r = run_length(bits) as int;
            ||| r == len + 1 && forall|i: int| 0 <= i < len ==> bits[i] == 1
            ||| {
                &&& 1 <= r <= len
                &&& forall|i: int| len - r <= i < len ==> #[trigger] bits[i] == bits.last()
                &&& r < len ==> bits[len - r - 1] != bits.last()
                &&& r == len ==> bits[0] == 0
            }
        }),
    decreases bits.len(),
{
    if bits.len() > 0 {
        let prev = bits.drop_last();
        lemma_run_shape(prev);
        assert(forall|i: int| 0 <= i < prev.len() ==> prev[i] == bits[i]);
    }
}

/// A step leads from one consistent state to another, and a capture that
/// it hands out closed on the sample that completed the run.
pub proof fn law_step_keeps_consistency(model: SyncReaderModel, event: Event)
    requires
        model.consistent(),
    ensures
        match model.step(event) {
            Step::Continue(next) => next.consistent() && next.max_same_bits
                == model.max_same_bits,
            Step::Finished(Ok(capture)) => capture.binary() && capture.closed_by_run(
                model.max_same_bits,
            ),
            Step::Finished(Err(_)) => true,
        },
{
    match (model.phase, event) {
        (SyncReadPhase::Sample, Event::Level(level)) => {
            let next = model.sampled(level);
            assert(next.bits.take(model.bits.len() as int) == model.bits);
            assert forall|k: int| 0 < k < next.bits.len() implies run_length(
                #[trigger] next.bits.take(k),
            ) != model.max_same_bits by {
                if k < model.bits.len() {
                    assert(next.bits.take(k) == model.bits.take(k));
                }
            }
        },
        _ => {},
    }
}

/// Consistency lasts through any number of steps.
proof fn lemma_run_keeps_consistency(model: SyncReaderModel, events: Seq<Event>)
    requires
        model.consistent(),
    ensures
        match run::<SyncReader>(model, events) {
            Step::Continue(next) => next.consistent() && next.max_same_bits
                == model.max_same_bits,
            Step::Finished(Ok(capture)) => capture.binary() && capture.closed_by_run(
                model.max_same_bits,
            ),
            Step::Finished(Err(_)) => true,
        },
    decreases events.len(),
{
    if events.len() > 0 {
        law_step_keeps_consistency(model, events[0]);
        match model.step(events[0]) {
            Step::Continue(next) => {
                lemma_run_keeps_consistency(next, events.subrange(1, events.len() as int));
            },
            _ => {},
        }
    }
}

/// Whatever the hardware answers, a capture that succeeds ended on exactly
/// the sample that completed a run of `max_same_bits` identical bits, the
/// start condition counted as a first high bit: its samples end in such a
/// run, and the samples before the last did not.
pub proof fn law_capture_closes_on_completing_sample(
    clock_pin: u8,
    data_pin: u8,
    timeout_ms: u64,
    max_same_bits: u8,
    events: Seq<Event>,
)
    ensures
        match run::<SyncReader>(
            SyncReaderModel::initial(clock_pin, data_pin, timeout_ms, max_same_bits),
            events,
        ) {
            Step::Finished(Ok(capture)) => capture.binary() && capture.closed_by_run(
                max_same_bits,
            ),
            _ => true,
        },
{
    let start = SyncReaderModel::initial(clock_pin, data_pin, timeout_ms, max_same_bits);
    assert(start.consistent());
    lemma_run_keeps_consistency(start, events);
}

/// A capture that is to close on a run of zero never succeeds, whatever the
/// hardware answers: every run holds one bit at least.
pub proof fn law_run_of_zero_never_closes(
    clock_pin: u8,
    data_pin: u8,
    timeout_ms: u64,
    events: Seq<Event>,
)
    ensures
        !(run::<SyncReader>(SyncReaderModel::initial(clock_pin, data_pin, timeout_ms, 0), events)
            matches Step::Finished(Ok(_))),
{
    law_capture_closes_on_completing_sample(clock_pin, data_pin, timeout_ms, 0, events);
    match run::<SyncReader>(SyncReaderModel::initial(clock_pin, data_pin, timeout_ms, 0), events) {
        Step::Finished(Ok(capture)) => {
            lemma_run_length_bounds(capture.bits);
        },
        _ => {},
    }
}

/// A capture that closed on a run of `n` and holds a low sample is at least
/// `n` samples long, its last `n` samples are equal, and the sample before
/// them, if there is one, differs.
pub proof fn law_final_samples_equal(capture: CapturedBitsView, n: u8)
    requires
        capture.binary(),
        run_length(capture.bits) == n,
        capture.has_low(),
    ensures
        capture.ends_in_run_of(n),
{
    lemma_run_shape(capture.bits);
}

/// A capture that closed on a run of `n` and holds no low sample is one
/// sample short of `n`: the start condition made up the run.
pub proof fn law_all_high_capture_is_short(capture: CapturedBitsView, n: u8)
    requires
        capture.binary(),
        run_length(capture.bits) == n,
        !capture.has_low(),
    ensures
        capture.bits.len() + 1 == n,
        forall|i: int| 0 <= i < capture.bits.len() ==> capture.bits[i] == 1,
{
    lemma_run_shape(capture.bits);
    let len = capture.bits.len() as int;
    if run_length(capture.bits) <= len {
        if run_length(capture.bits) == len {
            assert(capture.bits[0] == 0);
        } else {
            let before = len - run_length(capture.bits) - 1;
            assert(capture.bits[before] <= 1 && capture.bits.last() <= 1);
            assert(capture.bits[before] == 0 || capture.bits.last() == 0);
        }
    }
}

/// The bits that the samples `samples` are recorded as: 1 for a high data
/// line, 0 for a low one.
pub open spec fn codes(samples: Seq<Level>) -> Seq<u8> {
    Seq::new(samples.len(), |i: int| samples[i].code())
}

/// The record of a capture that began at `start`, took the samples
/// `samples` and ended at `end`.
pub open spec fn record(start: Timestamp, samples: Seq<Level>, end: Timestamp) -> CapturedBitsView {
    CapturedBitsView { start_capture: start, end_capture: end, bits: codes(samples) }
}

/// What the hardware answers in a capture in which nothing fails and no wait
/// runs out, where the clock reads `start` at the start condition, the data
/// line shows `samples` at the rising edges of the clock, and the clock
/// reads `end` after the last of them.
pub open spec fn script(start: Timestamp, samples: Seq<Level>, end: Timestamp) -> Seq<Event> {
    Seq::new(
        5 + 2 * samples.len(),
        |i: int|
            if i < 2 {
                Event::Done
            } else if i == 2 {
                Event::Edge(Level::High)
            } else if i == 3 {
                Event::Time(start)
            } else if i == 4 + 2 * samples.len() {
                Event::Time(end)
            } else if (i - 4) % 2 == 0 {
                Event::Edge(Level::High)
            } else {
                Event::Level(samples[(i - 4) / 2])
            },
    )
}

impl SyncReaderModel {
    /// How many answers the capture has taken in, where none made it fail.
    pub open spec fn position(self) -> nat {
        match self.phase {
            SyncReadPhase::AcquireData => 0,
            SyncReadPhase::AcquireClock => 1,
            SyncReadPhase::AwaitStart => 2,
            SyncReadPhase::ReadStart => 3,
            SyncReadPhase::AwaitClock | SyncReadPhase::ReadEnd => 4 + 2 * self.bits.len(),
            SyncReadPhase::Sample => 5 + 2 * self.bits.len(),
        }
    }

    /// Whether this state lies on the way of the capture that is answered by
    /// `script(start, samples, end)`.
    pub open spec fn on_the_way(self, start: Timestamp, samples: Seq<Level>) -> bool {
        &&& self.bits.len() <= samples.len()
        &&& self.bits == codes(samples).take(self.bits.len() as int)
        &&& match self.phase {
            SyncReadPhase::AcquireData
            | SyncReadPhase::AcquireClock
            | SyncReadPhase::AwaitStart
            | SyncReadPhase::ReadStart => self.bits.len() == 0,
            SyncReadPhase::AwaitClock | SyncReadPhase::Sample => self.start_capture == start
                && self.bits.len() < samples.len(),
            SyncReadPhase::ReadEnd => self.start_capture == start && self.bits.len()
                == samples.len(),
        }
    }
}

/// From any state on the way, the rest of the script leads to the capture of
/// all the samples.
proof fn lemma_rest_of_capture(
    model: SyncReaderModel,
    start: Timestamp,
    samples: Seq<Level>,
    end: Timestamp,
    events: Seq<Event>,
)
    requires
        record(start, samples, end).closed_by_run(model.max_same_bits),
        model.on_the_way(start, samples),
        events == script(start, samples, end).subrange(
            model.position() as int,
            5 + 2 * samples.len() as int,
        ),
    ensures
        run::<SyncReader>(model, events) == Step::<SyncReaderModel, CapturedBitsView>::Finished(
            Ok(record(start, samples, end)),
        ),
    decreases events.len(),
{
    let whole = script(start, samples, end);
    let total = 5 + 2 * samples.len();
    let taken = model.bits.len() as int;
    assert(events[0] == whole[model.position() as int]);
    match model.step(events[0]) {
        Step::Continue(next) => {
            assert(next.max_same_bits == model.max_same_bits);
            if model.phase is Sample {
                assert(next.bits == codes(samples).take(taken + 1));
                if taken + 1 == samples.len() {
                    assert(codes(samples).take(taken + 1) == codes(samples));
                }
            }
            assert(next.on_the_way(start, samples));
            assert(events.subrange(1, events.len() as int) == whole.subrange(
                next.position() as int,
                total as int,
            ));
            lemma_rest_of_capture(
                next,
                start,
                samples,
                end,
                events.subrange(1, events.len() as int),
            );
        },
        Step::Finished(_) => {
            assert(model.bits == codes(samples));
        },
    }
}

/// Success is owed to every capture in which nothing fails and no wait runs
/// out, as soon as the samples end in a run of `max_same_bits` for the first
/// time: the record holds the two clock readings and all the samples up to
/// there, in the order of the clock edges.
pub proof fn law_samples_make_the_capture(
    clock_pin: u8,
    data_pin: u8,
    timeout_ms: u64,
    max_same_bits: u8,
    start: Timestamp,
    samples: Seq<Level>,
    end: Timestamp,
)
    requires
        record(start, samples, end).closed_by_run(max_same_bits),
    ensures
        run::<SyncReader>(
            SyncReaderModel::initial(clock_pin, data_pin, timeout_ms, max_same_bits),
            script(start, samples, end),
        ) == Step::<SyncReaderModel, CapturedBitsView>::Finished(
            Ok(record(start, samples, end)),
        ),
{
    let begin = SyncReaderModel::initial(clock_pin, data_pin, timeout_ms, max_same_bits);
    let whole = script(start, samples, end);
    assert(begin.bits == codes(samples).take(0));
    assert(whole == whole.subrange(0, 5 + 2 * samples.len() as int));
    lemma_rest_of_capture(begin, start, samples, end, whole);
}

} // verus!
