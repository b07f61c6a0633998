//! The common shape of the operations: a machine that is stepped by events.

use vstd::prelude::*;
use crate::action::{Action, Event};
use crate::error::{DriverError, InvalidArgument};

verus! {

/// Where an operation stands after an event.
#[derive(Debug, PartialEq, Eq)]
pub enum Step<S, T> {
    /// The operation goes on from this state: carry out the state's action
    /// and step again with the answer.
    Continue(S),
    /// The operation is over, with its result or the reason of its failure.
    Finished(Result<T, DriverError>),
}

impl<S: View, T: DeepView> View for Step<S, T> {
    type V = Step<S::V, T::V>;

    open spec fn view(&self) -> Step<S::V, T::V> {
        match *self {
            Step::Continue(state) => Step::Continue(state@),
            Step::Finished(Ok(output)) => Step::Finished(Ok(output.deep_view())),
            Step::Finished(Err(error)) => Step::Finished(Err(error)),
        }
    }
}

/// An operation on the pins, as a deterministic machine.
///
/// The machine's view is its mathematical model. The model fixes, for every
/// state, the action that is due and, for every event, the step that follows.
pub trait Protocol: Sized + View {
    /// What a successful operation returns.
    type Output: DeepView;

    /// The action that is due in state `model`.
    spec fn model_action(model: Self::V) -> Action;

    /// The step that `event` causes in state `model`.
    spec fn model_step(model: Self::V, event: Event) -> Step<
        Self::V,
        <Self::Output as DeepView>::V,
    >;

    /// The action that is due.
    fn action(&self) -> (a: Action)
        ensures
            a == Self::model_action(self@),
    ;

    /// Takes in the answer to the action that was due.
    fn step(self, event: &Event) -> (r: Step<Self, Self::Output>)
        ensures
            r@ == Self::model_step(self@, *event),
    ;

    /// A failure of the hardware ends the operation at once, in whatever
    /// state, and its diagnostic comes out as it went in.
    proof fn law_failure_surfaces(model: Self::V, diagnostic: String)
        ensures
            Self::model_step(model, Event::Failed(diagnostic)) == Step::<
                Self::V,
                <Self::Output as DeepView>::V,
            >::Finished(Err(DriverError::Hardware(diagnostic))),
    ;

    /// An event is rejected as unexpected just when it is no possible answer
    /// to the action that was due.
    proof fn law_stray_event_is_rejected(model: Self::V, event: Event)
        ensures
            Self::model_step(model, event) == Step::<
                Self::V,
                <Self::Output as DeepView>::V,
            >::Finished(Err(DriverError::InvalidArgument(InvalidArgument::UnexpectedEvent)))
                <==> !Self::model_action(model).answered_by(event),
    ;
}

/// Where the operation stands after the events of `events`, in their order.
/// Events that follow the end of the operation have no effect.
pub open spec fn run<P: Protocol>(model: P::V, events: Seq<Event>) -> Step<
    P::V,
    <P::Output as DeepView>::V,
>
    decreases events.len(),
{
    if events.len() == 0 {
        Step::Continue(model)
    } else {
        match P::model_step(model, events[0]) {
            Step::Continue(next) => run::<P>(next, events.subrange(1, events.len() as int)),
            Step::Finished(result) => Step::Finished(result),
        }
    }
}

/// The actions that the operation asks for while it takes in `events`: the
/// one that is due at the start, then after each event but the last the one
/// that is due next. Nothing is asked for once the operation has ended.
pub open spec fn requests<P: Protocol>(model: P::V, events: Seq<Event>) -> Seq<Action>
    decreases events.len(),
{
    if events.len() == 0 {
        Seq::empty()
    } else {
        seq![P::model_action(model)] + match P::model_step(model, events[0]) {
            Step::Continue(next) => requests::<P>(next, events.subrange(1, events.len() as int)),
            Step::Finished(_) => Seq::empty(),
        }
    }
}

/// One more event at the end of a record steps the state that the record
/// led to, and changes nothing where the record had ended the operation.
pub proof fn law_run_one_more<P: Protocol>(model: P::V, events: Seq<Event>, event: Event)
    ensures
        run::<P>(model, events.push(event)) == match run::<P>(model, events) {
            Step::Continue(reached) => P::model_step(reached, event),
            Step::Finished(result) => Step::Finished(result),
        },
    decreases events.len(),
{
    let longer = events.push(event);
    let tail = longer.subrange(1, longer.len() as int);
    if events.len() == 0 {
        assert(longer[0] == event);
        assert(tail.len() == 0);
        match P::model_step(model, event) {
            Step::Continue(next) => {
                assert(run::<P>(next, tail) == Step::<P::V, <P::Output as DeepView>::V>::Continue(
                    next,
                ));
            },
            Step::Finished(_) => {},
        }
    } else {
        assert(longer[0] == events[0]);
        assert(tail == events.subrange(1, events.len() as int).push(event));
        match P::model_step(model, events[0]) {
            Step::Continue(next) => {
                law_run_one_more::<P>(next, events.subrange(1, events.len() as int), event);
            },
            Step::Finished(_) => {},
        }
    }
}

/// However far an operation has come, a failure of the hardware ends it,
/// and the diagnostic comes out as it went in: nothing is tried again.
pub proof fn law_failure_ends_run<P: Protocol>(
    model: P::V,
    events: Seq<Event>,
    diagnostic: String,
)
    requires
        run::<P>(model, events) is Continue,
    ensures
        run::<P>(model, events.push(Event::Failed(diagnostic))) == Step::<
            P::V,
            <P::Output as DeepView>::V,
        >::Finished(Err(DriverError::Hardware(diagnostic))),
{
    law_run_one_more::<P>(model, events, Event::Failed(diagnostic));
    P::law_failure_surfaces(run::<P>(model, events)->Continue_0, diagnostic);
}

/// Steps `machine` through recorded events, up to the end of the operation
/// or of the record, whichever comes first.
pub fn replay<P: Protocol>(machine: P, events: &Vec<Event>) -> (r: Step<P, P::Output>)
    ensures
        r@ == run::<P>(machine@, events@),
{
    let ghost start = machine@;
    let mut current = machine;
    let mut i: usize = 0;
    assert(events@.subrange(0, events.len() as int) == events@);
    while i < events.len()
        invariant
            i <= events.len(),
            start == machine@,
            run::<P>(start, events@) == run::<P>(
                current@,
                events@.subrange(i as int, events.len() as int),
            ),
        decreases events.len() - i,
    {
        let ghost rest = events@.subrange(i as int, events.len() as int);
        assert(rest[0] == events@[i as int]);
        assert(rest.subrange(1, rest.len() as int) == events@.subrange(
            i as int + 1,
            events.len() as int,
        ));
        let stepped = current.step(&events[i]);
        match stepped {
            Step::Continue(next) => {
                current = next;
            },
            Step::Finished(result) => {
                return Step::Finished(result);
            },
        }
        i = i + 1;
    }
    assert(events@.subrange(i as int, events.len() as int).len() == 0);
    Step::Continue(current)
}

} // verus!
