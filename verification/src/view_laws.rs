//! The mathematical models leave nothing out: what is said of a model is said of the value, part by
//! part.

use vstd::prelude::*;

use crate::event::{
    events_view, states_view, texts_view, Event, EventView, PointerEvent, PointerEventView,
    PointerState, Position, TextInputEvent, TextInputView,
};
use crate::external::held;
use crate::message::{Answer, AnswerView, Reduction};
use crate::model::Outcome;
use crate::taps::{is_function, nearness};
use crate::text::{
    answers, ImmAnswer, ImmAnswerView, ImmQuery, ImmState, ImmStateView, ImmStep, ImmStepView,
    Reading, ReadingView,
};

verus! {

/// The model of a state has each of its parts, and the masks of the buttons that are held.
pub proof fn law_states_are_modelled_whole(state: PointerState, states: Seq<PointerState>, i: int)
    ensures
        state@.time == state.time,
        state@.position.x == state.position.x,
        state@.position.y == state.position.y,
        state@.buttons == held(state.buttons),
        state@.modifiers == state.modifiers,
        state@.count == state.count,
        state@.pressure == state.pressure,
        state@.scale_factor == state.scale_factor,
        states_view(states).len() == states.len(),
        0 <= i < states.len() ==> states_view(states)[i] == states[i]@,
{
}

/// The models of pointer events are of the same kind as the events and have each of their parts.
pub proof fn law_pointer_events_are_modelled_whole(event: PointerEvent)
    ensures
        match event {
            PointerEvent::Down(e) => event@ matches PointerEventView::Down(v) && v.button
                == e.button && v.pointer == e.pointer && v.state == e.state@,
            PointerEvent::Up(e) => event@ matches PointerEventView::Up(v) && v.button == e.button
                && v.pointer == e.pointer && v.state == e.state@,
            PointerEvent::Move(u) => event@ matches PointerEventView::Move(v) && v.pointer
                == u.pointer && v.current == u.current@ && v.coalesced.len() == u.coalesced.len()
                && v.predicted.len() == u.predicted.len() && (forall|i: int|
                0 <= i < u.coalesced.len() ==> #[trigger] v.coalesced[i] == u.coalesced[i]@) && (
            forall|i: int|
                0 <= i < u.predicted.len() ==> #[trigger] v.predicted[i] == u.predicted[i]@),
            PointerEvent::Cancel(p) => event@ == PointerEventView::Cancel(p),
            PointerEvent::Enter(p) => event@ == PointerEventView::Enter(p),
            PointerEvent::Leave(p) => event@ == PointerEventView::Leave(p),
            PointerEvent::Scroll(e) => event@ matches PointerEventView::Scroll(v) && v.pointer
                == e.pointer && v.delta == e.delta && v.state == e.state@,
        },
{
}

/// The models of text events are of the same kind as the events and have their texts and
/// selections.
pub proof fn law_text_events_are_modelled_whole(
    event: TextInputEvent,
    events: Seq<TextInputEvent>,
    i: int,
)
    ensures
        match event {
            TextInputEvent::Insert(text) => event@ == TextInputView::Insert(text@),
            TextInputEvent::CompositionUpdate(state) => event@ == TextInputView::CompositionUpdate(
                state.text@,
                state.selection,
            ),
            TextInputEvent::CompositionEnd => event@ == TextInputView::CompositionEnd,
        },
        texts_view(events).len() == events.len(),
        0 <= i < events.len() ==> texts_view(events)[i] == events[i]@,
{
}

/// What a message comes to has as many events as its outcome and the same calls, and each event is
/// modelled by that of the outcome.
pub proof fn law_reductions_are_modelled_whole(reduction: Reduction, outcome: Outcome)
    ensures
        reduction.realizes(outcome) <==> {
            &&& reduction.actions@ == outcome.actions
            &&& reduction.events.len() == outcome.events.len()
            &&& forall|i: int|
                0 <= i < outcome.events.len() ==> #[trigger] outcome.events[i] == (
                match reduction.events[i] {
                    Event::Keyboard(key) => EventView::Keyboard(key),
                    Event::Pointer(event) => EventView::Pointer(event@),
                    Event::Text(texts) => EventView::Text(texts_view(texts@)),
                })
        },
{
    let seen = events_view(reduction.events@);
    if seen.len() == outcome.events.len() && forall|i: int|
        0 <= i < outcome.events.len() ==> #[trigger] outcome.events[i] == (
        match reduction.events[i] {
            Event::Keyboard(key) => EventView::Keyboard(key),
            Event::Pointer(event) => EventView::Pointer(event@),
            Event::Text(texts) => EventView::Text(texts_view(texts@)),
        }) {
        assert(seen =~= outcome.events);
    }
}

/// The models of answers are of the same kind as the answers and have their contents.
pub proof fn law_answers_are_modelled_whole(answer: Answer)
    ensures
        match answer {
            Answer::Nothing => answer@ == AnswerView::Nothing,
            Answer::Key(key) => answer@ == AnswerView::Key(key),
            Answer::Text(None) => answer@ == AnswerView::Text(None),
            Answer::Text(Some(texts)) => answer@ == AnswerView::Text(Some(texts_view(texts@))),
            Answer::Scroll(value) => answer@ == AnswerView::Scroll(value),
            Answer::Touch(None) => answer@ == AnswerView::Touch(None),
            Answer::Touch(Some(contacts)) => answer@ == AnswerView::Touch(Some(contacts@)),
        },
{
}

/// The models of what is said and asked in reading a composition are of the same kind as what they
/// model and have its parts; a question is answered by an answer of its own kind, and by no other.
pub proof fn law_reading_is_modelled_whole(
    state: ImmState,
    answer: ImmAnswer,
    step: ImmStep,
    reading: Reading,
    query: ImmQuery,
)
    ensures
        match reading {
            Reading::Result => reading@ == ReadingView::Result,
            Reading::Composition => reading@ == ReadingView::Composition,
            Reading::Attributes(text) => reading@ == ReadingView::Attributes(text@),
        },
        match state {
            ImmState::Sizing(reading) => state@ == ImmStateView::Sizing(reading@),
            ImmState::Filling(reading, size) => state@ == ImmStateView::Filling(reading@, size),
            ImmState::Cursor(text) => state@ == ImmStateView::Cursor(text@),
            ImmState::Selecting(text, range) => state@ == ImmStateView::Selecting(text@, range),
        },
        match answer {
            ImmAnswer::Size(size) => answer@ == ImmAnswerView::Size(size) && (answers(
                query,
                answer@,
            ) <==> query is Size),
            ImmAnswer::Data(size, data) => answer@ == ImmAnswerView::Data(size, data@) && (answers(
                query,
                answer@,
            ) <==> query is Data),
            ImmAnswer::Select(accepted) => answer@ == ImmAnswerView::Select(accepted) && (answers(
                query,
                answer@,
            ) <==> query is Select),
        },
        match step {
            ImmStep::Ask(state) => step@ == ImmStepView::Ask(state@),
            ImmStep::Done(None) => step@ == ImmStepView::Done(None),
            ImmStep::Done(Some(events)) => step@ == ImmStepView::Done(Some(texts_view(events@))),
        },
{
}

/// The test for nearness is handed the anchor, the point and the slop in this order, and is asked
/// for no more than to answer always, and always the same.
pub proof fn law_nearness_is_what_the_test_answers<F: Fn(Position, Position, u32) -> bool>(
    near: &F,
    anchor: Position,
    point: Position,
    slop: u32,
)
    ensures
        nearness(near)(anchor, point, slop) <==> call_ensures(near, (anchor, point, slop), true),
        (forall|a: Position, b: Position, s: u32| call_requires(near, (a, b, s))) && (forall|
            a: Position,
            b: Position,
            s: u32,
        |
            !(call_ensures(near, (a, b, s), true) && call_ensures(near, (a, b, s), false)))
            ==> is_function(near),
{
}

} // verus!
