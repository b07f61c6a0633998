//! Asynchronous capture: while a carrier-sense line is high, every edge of
//! the data line is recorded with the time at which it was seen.

use vstd::prelude::*;
use crate::action::{clock_never_steps_back, Action, Event, PinMode};
use crate::error::{DriverError, InvalidArgument};
use crate::level::{Level, TriggerDirection};
use crate::protocol::{law_run_one_more, run, Protocol, Step};
use crate::time::Timestamp;

verus! {

/// The record of an asynchronous capture.
#[derive(Debug, PartialEq, Eq)]
pub struct CapturedTransitions {
    start_capture: Timestamp,
    end_capture: Timestamp,
    transitions: Vec<(Timestamp, Level)>,
}

/// What a [`CapturedTransitions`] holds.
pub struct CapturedTransitionsView {
    /// The clock reading taken when the carrier was sensed.
    pub start_capture: Timestamp,
    /// The clock reading taken when the carrier was found gone.
    pub end_capture: Timestamp,
    /// The edges of the data line in the order in which they were seen, each
    /// with the clock reading taken for it and the level after it.
    pub transitions: Seq<(Timestamp, Level)>,
}

impl CapturedTransitionsView {
    /// The edges are in ascending order of time, none is earlier than the
    /// start of the capture or later than its end, and the capture does not
    /// end before it starts.
    pub open spec fn well_ordered(self) -> bool {
        &&& self.start_capture.nanos <= self.end_capture.nanos
        &&& forall|i: int|
            0 <= i < self.transitions.len() ==> self.start_capture.nanos <= (
            #[trigger] self.transitions[i]).0.nanos <= self.end_capture.nanos
        &&& forall|i: int, j: int|
            0 <= i <= j < self.transitions.len() ==> (#[trigger] self.transitions[i]).0.nanos <= (
            #[trigger] self.transitions[j]).0.nanos
    }
}

impl View for CapturedTransitions {
    type V = CapturedTransitionsView;

    closed spec fn view(&self) -> CapturedTransitionsView {
        CapturedTransitionsView {
            start_capture: self.start_capture,
            end_capture: self.end_capture,
            transitions: self.transitions@,
        }
    }
}

impl DeepView for CapturedTransitions {
    type V = CapturedTransitionsView;

    open spec fn deep_view(&self) -> CapturedTransitionsView {
        self@
    }
}

impl CapturedTransitions {
    /// The clock reading taken when the carrier was sensed.
    pub fn get_start_capture(&self) -> (t: Timestamp)
        ensures
            t == self@.start_capture,
    {
        self.start_capture
    }

    /// The clock reading taken when the carrier was found gone.
    pub fn get_end_capture(&self) -> (t: Timestamp)
        ensures
            t == self@.end_capture,
    {
        self.end_capture
    }

    /// The edges of the data line, in the order in which they were seen.
    pub fn get_transitions(&self) -> (transitions: Vec<(Timestamp, Level)>)
        ensures
            transitions@ == self@.transitions,
    {
        let mut transitions: Vec<(Timestamp, Level)> = Vec::new();
        let mut i: usize = 0;
        while i < self.transitions.len()
            invariant
                i <= self.transitions.len(),
                transitions@ == self.transitions@.take(i as int),
            decreases self.transitions.len() - i,
        {
            transitions.push(self.transitions[i]);
            i = i + 1;
        }
        transitions
    }
}

/// What an asynchronous capture is busy with.
#[derive(Clone, Copy, Debug, PartialEq, Eq, Structural)]
pub enum AsyncReadPhase {
    /// Taking the carrier-sense pin.
    AcquireThreshold,
    /// Taking the data pin.
    AcquireData,
    /// Waiting for the carrier-sense line to rise.
    AwaitThreshold,
    /// Reading the clock for the start of the capture.
    ReadStart,
    /// Reading the carrier-sense line: is the signal still there?
    CheckThreshold,
    /// Waiting for the next edge of the data line.
    AwaitData,
    /// Reading the clock for an edge that left the data line at this level.
    Stamp(Level),
    /// Reading the clock for the end of the capture.
    ReadEnd,
}

/// The model of an asynchronous capture in progress.
pub struct AsyncReaderModel {
    pub threshold_pin: u8,
    pub data_pin: u8,
    pub timeout_ms: u64,
    pub phase: AsyncReadPhase,
    pub start_capture: Timestamp,
    pub transitions: Seq<(Timestamp, Level)>,
}

impl AsyncReaderModel {
    /// The state in which a capture begins.
    pub open spec fn initial(threshold_pin: u8, data_pin: u8, timeout_ms: u64) -> AsyncReaderModel {
        AsyncReaderModel {
            threshold_pin,
            data_pin,
            timeout_ms,
            phase: AsyncReadPhase::AcquireThreshold,
            start_capture: Timestamp { nanos: 0 },
            transitions: Seq::empty(),
        }
    }

    /// The action that is due.
    pub open spec fn action(self) -> Action {
        match self.phase {
            AsyncReadPhase::AcquireThreshold => Action::Acquire {
                pin: self.threshold_pin,
                mode: PinMode::Input,
            },
            AsyncReadPhase::AcquireData => Action::Acquire {
                pin: self.data_pin,
                mode: PinMode::Input,
            },
            AsyncReadPhase::AwaitThreshold => Action::WaitForEdge {
                pin: self.threshold_pin,
                direction: TriggerDirection::RisingEdge,
                timeout_ms: self.timeout_ms,
            },
            AsyncReadPhase::CheckThreshold => Action::ReadLevel { pin: self.threshold_pin },
            AsyncReadPhase::AwaitData => Action::WaitForEdge {
                pin: self.data_pin,
                direction: TriggerDirection::BothEdges,
                timeout_ms: self.timeout_ms,
            },
            AsyncReadPhase::ReadStart | AsyncReadPhase::Stamp(_) | AsyncReadPhase::ReadEnd =>
                Action::ReadClock,
        }
    }

    /// The same state in another phase.
    pub open spec fn at(self, phase: AsyncReadPhase) -> AsyncReaderModel {
        AsyncReaderModel { phase, ..self }
    }

    /// The step that `event` causes.
    pub open spec fn step(self, event: Event) -> Step<
        AsyncReaderModel,
        Option<CapturedTransitionsView>,
    > {
        match (self.phase, event) {
            (_, Event::Failed(diagnostic)) => Step::Finished(
                Err(DriverError::Hardware(diagnostic)),
            ),
            (AsyncReadPhase::AcquireThreshold, Event::Done) => Step::Continue(
                self.at(AsyncReadPhase::AcquireData),
            ),
            (AsyncReadPhase::AcquireData, Event::Done) => Step::Continue(
                self.at(AsyncReadPhase::AwaitThreshold),
            ),
            (AsyncReadPhase::AwaitThreshold, Event::Edge(_)) => Step::Continue(
                self.at(AsyncReadPhase::ReadStart),
            ),
            (AsyncReadPhase::AwaitThreshold, Event::NoEdge) => Step::Finished(Ok(None)),
            (AsyncReadPhase::ReadStart, Event::Time(now)) => Step::Continue(
                AsyncReaderModel {
                    start_capture: now,
                    phase: AsyncReadPhase::CheckThreshold,
                    ..self
                },
            ),
            (AsyncReadPhase::CheckThreshold, Event::Level(Level::Low)) => Step::Continue(
                self.at(AsyncReadPhase::ReadEnd),
            ),
            (AsyncReadPhase::CheckThreshold, Event::Level(Level::High)) => Step::Continue(
                self.at(AsyncReadPhase::AwaitData),
            ),
            (AsyncReadPhase::AwaitData, Event::Edge(level)) => Step::Continue(
                self.at(AsyncReadPhase::Stamp(level)),
            ),
            (AsyncReadPhase::AwaitData, Event::NoEdge) => Step::Finished(Ok(None)),
            (AsyncReadPhase::Stamp(level), Event::Time(now)) => Step::Continue(
                AsyncReaderModel {
                    transitions: self.transitions.push((now, level)),
                    phase: AsyncReadPhase::CheckThreshold,
                    ..self
                },
            ),
            (AsyncReadPhase::ReadEnd, Event::Time(now)) => Step::Finished(
                Ok(
                    Some(
                        CapturedTransitionsView {
                            start_capture: self.start_capture,
                            end_capture: now,
                            transitions: self.transitions,
                        },
                    ),
                ),
            ),
            _ => Step::Finished(
                Err(DriverError::InvalidArgument(InvalidArgument::UnexpectedEvent)),
            ),
        }
    }

    /// Whether the clock has been read for the start of the capture.
    pub open spec fn started(self) -> bool {
        !(self.phase is AcquireThreshold || self.phase is AcquireData
            || self.phase is AwaitThreshold || self.phase is ReadStart)
    }

    /// The latest clock reading that a started capture holds.
    pub open spec fn latest(self) -> Timestamp {
        if self.transitions.len() == 0 {
            self.start_capture
        } else {
            self.transitions.last().0
        }
    }

    /// What holds of a capture as long as its clock readings came in
    /// ascending order: before its start it holds no edge, after it the
    /// edges are in ascending order of time and none is earlier than the
    /// start.
    pub open spec fn ordered(self) -> bool {
        &&& !self.started() ==> self.transitions.len() == 0
        &&& forall|i: int|
            0 <= i < self.transitions.len() ==> self.start_capture.nanos <= (
            #[trigger] self.transitions[i]).0.nanos
        &&& forall|i: int, j: int|
            0 <= i <= j < self.transitions.len() ==> (#[trigger] self.transitions[i]).0.nanos <= (
            #[trigger] self.transitions[j]).0.nanos
    }
}

/// An asynchronous capture in progress.
#[derive(Debug, PartialEq, Eq)]
pub struct AsyncReader {
    threshold_pin: u8,
    data_pin: u8,
    timeout_ms: u64,
    phase: AsyncReadPhase,
    start_capture: Timestamp,
    transitions: Vec<(Timestamp, Level)>,
}

impl View for AsyncReader {
    type V = AsyncReaderModel;

    closed spec fn view(&self) -> AsyncReaderModel {
        AsyncReaderModel {
            threshold_pin: self.threshold_pin,
            data_pin: self.data_pin,
            timeout_ms: self.timeout_ms,
            phase: self.phase,
            start_capture: self.start_capture,
            transitions: self.transitions@,
        }
    }
}

/// Begins an asynchronous capture of the data line `data_pin`, gated by the
/// carrier-sense line `threshold_pin`. Each wait gives up after `timeout_ms`
/// milliseconds.
pub fn asynchronous_serial_read(threshold_pin: u8, data_pin: u8, timeout_ms: u64) -> (reader:
    AsyncReader)
    ensures
        reader@ == AsyncReaderModel::initial(threshold_pin, data_pin, timeout_ms),
{
    AsyncReader {
        threshold_pin,
        data_pin,
        timeout_ms,
        phase: AsyncReadPhase::AcquireThreshold,
        start_capture: Timestamp { nanos: 0 },
        transitions: Vec::new(),
    }
}

impl AsyncReader {
    /// The same capture in another phase.
    fn at(self, phase: AsyncReadPhase) -> (next: AsyncReader)
        ensures
            next@ == self@.at(phase),
    {
        AsyncReader { phase, ..self }
    }
}

impl Protocol for AsyncReader {
    type Output = Option<CapturedTransitions>;

    open spec fn model_action(model: AsyncReaderModel) -> Action {
        model.action()
    }

    open spec fn model_step(model: AsyncReaderModel, event: Event) -> Step<
        AsyncReaderModel,
        Option<CapturedTransitionsView>,
    > {
        model.step(event)
    }

    fn action(&self) -> (a: Action) {
        match self.phase {
            AsyncReadPhase::AcquireThreshold => Action::Acquire {
                pin: self.threshold_pin,
                mode: PinMode::Input,
            },
            AsyncReadPhase::AcquireData => Action::Acquire {
                pin: self.data_pin,
                mode: PinMode::Input,
            },
            AsyncReadPhase::AwaitThreshold => Action::WaitForEdge {
                pin: self.threshold_pin,
                direction: TriggerDirection::RisingEdge,
                timeout_ms: self.timeout_ms,
            },
            AsyncReadPhase::CheckThreshold => Action::ReadLevel { pin: self.threshold_pin },
            AsyncReadPhase::AwaitData => Action::WaitForEdge {
                pin: self.data_pin,
                direction: TriggerDirection::BothEdges,
                timeout_ms: self.timeout_ms,
            },
            AsyncReadPhase::ReadStart | AsyncReadPhase::Stamp(_) | AsyncReadPhase::ReadEnd =>
                Action::ReadClock,
        }
    }

    fn step(self, event: &Event) -> (r: Step<AsyncReader, Option<CapturedTransitions>>) {
        match (self.phase, event) {
            (_, Event::Failed(diagnostic)) => Step::Finished(
                Err(DriverError::Hardware(diagnostic.clone())),
            ),
            (AsyncReadPhase::AcquireThreshold, Event::Done) => Step::Continue(
                self.at(AsyncReadPhase::AcquireData),
            ),
            (AsyncReadPhase::AcquireData, Event::Done) => Step::Continue(
                self.at(AsyncReadPhase::AwaitThreshold),
            ),
            (AsyncReadPhase::AwaitThreshold, Event::Edge(_)) => Step::Continue(
                self.at(AsyncReadPhase::ReadStart),
            ),
            (AsyncReadPhase::AwaitThreshold, Event::NoEdge) => Step::Finished(Ok(None)),
            (AsyncReadPhase::ReadStart, Event::Time(now)) => Step::Continue(
                AsyncReader { start_capture: *now, phase: AsyncReadPhase::CheckThreshold, ..self },
            ),
            (AsyncReadPhase::CheckThreshold, Event::Level(Level::Low)) => Step::Continue(
                self.at(AsyncReadPhase::ReadEnd),
            ),
            (AsyncReadPhase::CheckThreshold, Event::Level(Level::High)) => Step::Continue(
                self.at(AsyncReadPhase::AwaitData),
            ),
            (AsyncReadPhase::AwaitData, Event::Edge(level)) => Step::Continue(
                self.at(AsyncReadPhase::Stamp(*level)),
            ),
            (AsyncReadPhase::AwaitData, Event::NoEdge) => Step::Finished(Ok(None)),
            (AsyncReadPhase::Stamp(level), Event::Time(now)) => {
                let mut transitions = self.transitions;
                transitions.push((*now, level));
                Step::Continue(
                    AsyncReader {
                        threshold_pin: self.threshold_pin,
                        data_pin: self.data_pin,
                        timeout_ms: self.timeout_ms,
                        phase: AsyncReadPhase::CheckThreshold,
                        start_capture: self.start_capture,
                        transitions,
                    },
                )
            },
            (AsyncReadPhase::ReadEnd, Event::Time(now)) => Step::Finished(
                Ok(
                    Some(
                        CapturedTransitions {
                            start_capture: self.start_capture,
                            end_capture: *now,
                            transitions: self.transitions,
                        },
                    ),
                ),
            ),
            _ => Step::Finished(
                Err(DriverError::InvalidArgument(InvalidArgument::UnexpectedEvent)),
            ),
        }
    }

    proof fn law_failure_surfaces(model: AsyncReaderModel, diagnostic: String) {
    }

    proof fn law_stray_event_is_rejected(model: AsyncReaderModel, event: Event) {
    }
}

/// Where the carrier-sense line does not rise in time, the capture ends
/// empty, and not in an error: whatever the timeout, and however the capture
/// came to wait for that edge.
pub proof fn law_silent_threshold_is_empty(
    threshold_pin: u8,
    data_pin: u8,
    timeout_ms: u64,
    events: Seq<Event>,
)
    requires
        run::<AsyncReader>(
            AsyncReaderModel::initial(threshold_pin, data_pin, timeout_ms),
            events,
        ) matches Step::Continue(waiting) && waiting.phase is AwaitThreshold,
    ensures
        run::<AsyncReader>(
            AsyncReaderModel::initial(threshold_pin, data_pin, timeout_ms),
            events.push(Event::NoEdge),
        ) == Step::<AsyncReaderModel, Option<CapturedTransitionsView>>::Finished(Ok(None)),
{
    law_run_one_more::<AsyncReader>(
        AsyncReaderModel::initial(threshold_pin, data_pin, timeout_ms),
        events,
        Event::NoEdge,
    );
}

/// Where the data line shows no edge in time while the carrier is sensed,
/// the capture ends empty: the edges recorded up to there, however many, are
/// dropped and never handed out as a partial record.
pub proof fn law_silent_data_line_is_empty(
    threshold_pin: u8,
    data_pin: u8,
    timeout_ms: u64,
    events: Seq<Event>,
)
    requires
        run::<AsyncReader>(
            AsyncReaderModel::initial(threshold_pin, data_pin, timeout_ms),
            events,
        ) matches Step::Continue(waiting) && waiting.phase is AwaitData,
    ensures
        run::<AsyncReader>(
            AsyncReaderModel::initial(threshold_pin, data_pin, timeout_ms),
            events.push(Event::NoEdge),
        ) == Step::<AsyncReaderModel, Option<CapturedTransitionsView>>::Finished(Ok(None)),
{
    law_run_one_more::<AsyncReader>(
        AsyncReaderModel::initial(threshold_pin, data_pin, timeout_ms),
        events,
        Event::NoEdge,
    );
}

/// Order lasts through any number of steps, as long as no clock reading is
/// earlier than one taken before it.
proof fn lemma_run_keeps_order(model: AsyncReaderModel, events: Seq<Event>)
    requires
        model.ordered(),
        clock_never_steps_back(events),
        model.started() ==> forall|k: int|
            0 <= k < events.len() ==> (#[trigger] events[k] matches Event::Time(now)
                ==> model.latest().nanos <= now.nanos),
    ensures
        run::<AsyncReader>(model, events) matches Step::Finished(Ok(Some(capture)))
            ==> capture.well_ordered(),
    decreases events.len(),
{
    if events.len() > 0 {
        let rest = events.subrange(1, events.len() as int);
        assert forall|k: int| 0 <= k < rest.len() implies #[trigger] rest[k] == events[k + 1] by {}
        assert(clock_never_steps_back(rest)) by {
            assert forall|i: int, j: int| 0 <= i < j < rest.len() implies (#[trigger] rest[i]
                matches Event::Time(earlier) ==> (#[trigger] rest[j] matches Event::Time(later)
                ==> earlier.nanos <= later.nanos)) by {
                assert(rest[i] == events[i + 1]);
                assert(rest[j] == events[j + 1]);
            }
        }
        match model.step(events[0]) {
            Step::Continue(next) => {
                assert(next.ordered());
                assert(next.started() ==> forall|k: int|
                    0 <= k < rest.len() ==> (#[trigger] rest[k] matches Event::Time(now)
                        ==> next.latest().nanos <= now.nanos)) by {
                    if next.started() {
                        assert forall|k: int| 0 <= k < rest.len() implies (#[trigger] rest[k]
                            matches Event::Time(now) ==> next.latest().nanos <= now.nanos) by {
                            assert(rest[k] == events[k + 1]);
                        }
                    }
                }
                lemma_run_keeps_order(next, rest);
            },
            Step::Finished(_) => {},
        }
    }
}

/// As long as no clock reading is earlier than one taken before it, a
/// capture that succeeds holds its edges in ascending order of time, each of
/// them between the start and the end of the capture.
pub proof fn law_capture_is_well_ordered(
    threshold_pin: u8,
    data_pin: u8,
    timeout_ms: u64,
    events: Seq<Event>,
)
    requires
        clock_never_steps_back(events),
    ensures
        run::<AsyncReader>(
            AsyncReaderModel::initial(threshold_pin, data_pin, timeout_ms),
            events,
        ) matches Step::Finished(Ok(Some(capture))) ==> capture.well_ordered(),
{
    lemma_run_keeps_order(AsyncReaderModel::initial(threshold_pin, data_pin, timeout_ms), events);
}

/// The record of a capture that began at `start`, saw the edges `edges`
/// and ended at `end`.
pub open spec fn record(
    start: Timestamp,
    edges: Seq<(Timestamp, Level)>,
    end: Timestamp,
) -> CapturedTransitionsView {
    CapturedTransitionsView { start_capture: start, end_capture: end, transitions: edges }
}

/// What the hardware answers in a capture in which nothing fails and no wait
/// runs out: the carrier is sensed while the clock reads `start`, the data
/// line shows the edges `edges`, each with its clock reading and the level it
/// leaves, while the carrier is there, and the carrier is found gone while
/// the clock reads `end`.
pub open spec fn script(
    start: Timestamp,
    edges: Seq<(Timestamp, Level)>,
    end: Timestamp,
) -> Seq<Event> {
    Seq::new(
        6 + 3 * edges.len(),
        |i: int|
            if i < 2 {
                Event::Done
            } else if i == 2 {
                Event::Edge(Level::High)
            } else if i == 3 {
                Event::Time(start)
            } else if i == 4 + 3 * edges.len() {
                Event::Level(Level::Low)
            } else if i == 5 + 3 * edges.len() {
                Event::Time(end)
            } else if (i - 4) % 3 == 0 {
                Event::Level(Level::High)
            } else if (i - 4) % 3 == 1 {
                Event::Edge(edges[(i - 4) / 3].1)
            } else {
                Event::Time(edges[(i - 4) / 3].0)
            },
    )
}

impl AsyncReaderModel {
    /// How many answers the capture has taken in, where none made it end.
    pub open spec fn position(self) -> nat {
        match self.phase {
            AsyncReadPhase::AcquireThreshold => 0,
            AsyncReadPhase::AcquireData => 1,
            AsyncReadPhase::AwaitThreshold => 2,
            AsyncReadPhase::ReadStart => 3,
            AsyncReadPhase::CheckThreshold => 4 + 3 * self.transitions.len(),
            AsyncReadPhase::AwaitData | AsyncReadPhase::ReadEnd => 5 + 3 * self.transitions.len(),
            AsyncReadPhase::Stamp(_) => 6 + 3 * self.transitions.len(),
        }
    }

    /// Whether this state lies on the way of the capture that is answered by
    /// `script(start, edges, end)`.
    pub open spec fn on_the_way(self, start: Timestamp, edges: Seq<(Timestamp, Level)>) -> bool {
        let seen = self.transitions.len() as int;
        &&& seen <= edges.len()
        &&& self.transitions == edges.take(seen)
        &&& self.started() ==> self.start_capture == start
        &&& match self.phase {
            AsyncReadPhase::AcquireThreshold
            | AsyncReadPhase::AcquireData
            | AsyncReadPhase::AwaitThreshold
            | AsyncReadPhase::ReadStart => seen == 0,
            AsyncReadPhase::CheckThreshold => true,
            AsyncReadPhase::AwaitData => seen < edges.len(),
            AsyncReadPhase::Stamp(level) => seen < edges.len() && level == edges[seen].1,
            AsyncReadPhase::ReadEnd => seen == edges.len(),
        }
    }
}

/// From any state on the way, the rest of the script leads to the record of
/// all the edges.
proof fn lemma_rest_of_capture(
    model: AsyncReaderModel,
    start: Timestamp,
    edges: Seq<(Timestamp, Level)>,
    end: Timestamp,
    events: Seq<Event>,
)
    requires
        model.on_the_way(start, edges),
        events == script(start, edges, end).subrange(
            model.position() as int,
            6 + 3 * edges.len() as int,
        ),
    ensures
        run::<AsyncReader>(model, events) == Step::<
            AsyncReaderModel,
            Option<CapturedTransitionsView>,
        >::Finished(Ok(Some(record(start, edges, end)))),
    decreases events.len(),
{
    let whole = script(start, edges, end);
    let total = 6 + 3 * edges.len();
    let seen = model.transitions.len() as int;
    assert(events[0] == whole[model.position() as int]);
    match model.step(events[0]) {
        Step::Continue(next) => {
            if model.phase is Stamp {
                assert(next.transitions == edges.take(seen + 1));
            }
            assert(next.on_the_way(start, edges));
            assert(events.subrange(1, events.len() as int) == whole.subrange(
                next.position() as int,
                total as int,
            ));
            lemma_rest_of_capture(next, start, edges, end, events.subrange(1, events.len() as int));
        },
        Step::Finished(_) => {
            assert(model.transitions == edges);
        },
    }
}

/// Success is owed to every capture in which nothing fails and no wait runs
/// out: the record holds the clock readings taken when the carrier was
/// sensed and when it was found gone, and between them every edge that the
/// data line showed, in the order in which they were seen.
pub proof fn law_edges_make_the_capture(
    threshold_pin: u8,
    data_pin: u8,
    timeout_ms: u64,
    start: Timestamp,
    edges: Seq<(Timestamp, Level)>,
    end: Timestamp,
)
    ensures
        run::<AsyncReader>(
            AsyncReaderModel::initial(threshold_pin, data_pin, timeout_ms),
            script(start, edges, end),
        ) == Step::<AsyncReaderModel, Option<CapturedTransitionsView>>::Finished(
            Ok(Some(record(start, edges, end))),
        ),
{
    let begin = AsyncReaderModel::initial(threshold_pin, data_pin, timeout_ms);
    let whole = script(start, edges, end);
    assert(begin.transitions == edges.take(0));
    assert(whole == whole.subrange(0, 6 + 3 * edges.len() as int));
    lemma_rest_of_capture(begin, start, edges, end, whole);
}

} // verus!
