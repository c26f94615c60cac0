//! The reducer does not care where the clock starts: only the order of times and the differences
//! between them matter.

use vstd::prelude::*;

use crate::event::{
    EventView, PointerButtonEventView, PointerEventView, PointerInfo, PointerScrollEventView,
    PointerStateView, PointerUpdateView,
};
use crate::laws::{law_state_stays_possible, lemma_contacts_keep_taps_possible, state_possible};
use crate::message::{AnswerView, TouchContact};
use crate::model::{
    contact_event, contact_events, contact_taps, contacts_countable, countable, counted,
    is_button_down, is_button_up, press_of, with_counts, Counted, Input, Outcome, ReducerView,
};
use crate::pointer::{button_of, TapState, TAP_TIMEOUT};
use crate::tap_laws::{lemma_first_where, lemma_recorded, lemma_search_in_range, taps_possible};
use crate::taps::{down_of_pointer, first_where, live, of_pointer, released, Nearness, Press};
use crate::win32::{WM_MOUSELEAVE, WM_MOUSEMOVE};

verus! {

/// A time on a clock that is ahead by `d`.
pub open spec fn later(time: u64, d: u64) -> u64 {
    (time + d) as u64
}

/// A tap on a clock that is ahead by `d`.
pub open spec fn later_tap(tap: TapState, d: u64) -> TapState {
    TapState { down_time: later(tap.down_time, d), up_time: later(tap.up_time, d), ..tap }
}

/// Taps on a clock that is ahead by `d`.
pub open spec fn later_taps(taps: Seq<TapState>, d: u64) -> Seq<TapState> {
    taps.map_values(|tap: TapState| later_tap(tap, d))
}

/// A pointer state on a clock that is ahead by `d`.
pub open spec fn later_pointer(state: PointerStateView, d: u64) -> PointerStateView {
    PointerStateView { time: later(state.time, d), ..state }
}

/// Pointer states on a clock that is ahead by `d`.
pub open spec fn later_pointers(states: Seq<PointerStateView>, d: u64) -> Seq<PointerStateView> {
    states.map_values(|state: PointerStateView| later_pointer(state, d))
}

/// A button event on a clock that is ahead by `d`.
pub open spec fn later_button(event: PointerButtonEventView, d: u64) -> PointerButtonEventView {
    PointerButtonEventView { state: later_pointer(event.state, d), ..event }
}

/// A pointer event on a clock that is ahead by `d`.
pub open spec fn later_pointer_event(event: PointerEventView, d: u64) -> PointerEventView {
    match event {
        PointerEventView::Down(event) => PointerEventView::Down(later_button(event, d)),
        PointerEventView::Up(event) => PointerEventView::Up(later_button(event, d)),
        PointerEventView::Move(update) => PointerEventView::Move(
            PointerUpdateView {
                pointer: update.pointer,
                current: later_pointer(update.current, d),
                coalesced: later_pointers(update.coalesced, d),
                predicted: later_pointers(update.predicted, d),
            },
        ),
        PointerEventView::Scroll(event) => PointerEventView::Scroll(
            PointerScrollEventView { state: later_pointer(event.state, d), ..event },
        ),
        _ => event,
    }
}

/// An event on a clock that is ahead by `d`: the time of each pointer state in it is later by `d`.
pub open spec fn later_event(event: EventView, d: u64) -> EventView {
    match event {
        EventView::Pointer(event) => EventView::Pointer(later_pointer_event(event, d)),
        _ => event,
    }
}

/// Events on a clock that is ahead by `d`.
pub open spec fn later_events(events: Seq<EventView>, d: u64) -> Seq<EventView> {
    events.map_values(|event: EventView| later_event(event, d))
}

/// A state of the reducer on a clock that is ahead by `d`.
pub open spec fn later_state(state: ReducerView, d: u64) -> ReducerView {
    ReducerView {
        primary: later_pointer(state.primary, d),
        taps: later_taps(state.taps, d),
        ..state
    }
}

/// What a message comes to on a clock that is ahead by `d`.
pub open spec fn later_outcome(outcome: Outcome, d: u64) -> Outcome {
    Outcome {
        state: later_state(outcome.state, d),
        events: later_events(outcome.events, d),
        actions: outcome.actions,
    }
}

/// A message on a clock that is ahead by `d`.
pub open spec fn later_input(input: Input, d: u64) -> Input {
    Input { time: later(input.time, d), ..input }
}

/// Whether a time on a clock that is ahead by `d` is the start of a timeout that ends at a
/// representable time.
pub open spec fn leaves_room(time: u64, d: u64) -> bool {
    time + d + TAP_TIMEOUT <= u64::MAX
}

/// The search for a tap ends at the same index on both clocks.
proof fn lemma_first_where_later(
    taps: Seq<TapState>,
    p: spec_fn(TapState) -> bool,
    q: spec_fn(TapState) -> bool,
    d: u64,
    from: int,
)
    requires
        0 <= from,
        forall|i: int| 0 <= i < taps.len() ==> p(#[trigger] taps[i]) == q(later_tap(taps[i], d)),
    ensures
        first_where(later_taps(taps, d), q, from) == first_where(taps, p, from),
    decreases taps.len() - from,
{
    if from < taps.len() {
        assert(later_taps(taps, d)[from] == later_tap(taps[from], d));
        lemma_first_where_later(taps, p, q, d, from + 1);
    }
}

/// The same taps are kept on both clocks.
proof fn lemma_filter_later(
    taps: Seq<TapState>,
    p: spec_fn(TapState) -> bool,
    q: spec_fn(TapState) -> bool,
    d: u64,
)
    requires
        forall|i: int| 0 <= i < taps.len() ==> p(#[trigger] taps[i]) == q(later_tap(taps[i], d)),
    ensures
        later_taps(taps, d).filter(q) == later_taps(taps.filter(p), d),
    decreases taps.len(),
{
    reveal(Seq::filter);
    if taps.len() == 0 {
        assert(later_taps(taps, d).filter(q) =~= later_taps(taps.filter(p), d));
    } else {
        let earlier = taps.drop_last();
        assert forall|i: int| 0 <= i < earlier.len() implies p(#[trigger] earlier[i]) == q(
            later_tap(earlier[i], d),
        ) by {
            assert(earlier[i] == taps[i]);
        }
        lemma_filter_later(earlier, p, q, d);
        assert(later_taps(taps, d).drop_last() =~= later_taps(earlier, d));
        assert(later_taps(taps, d).last() == later_tap(taps.last(), d));
        assert(taps.last() == taps[taps.len() - 1]);
        assert(later_taps(taps, d).filter(q) =~= later_taps(taps.filter(p), d));
    }
}

/// A press on a clock that is ahead by `d`.
spec fn later_press(press: Press, d: u64) -> Press {
    Press { time: later(press.time, d), ..press }
}

/// A press counts the same on both clocks, leaves the same taps, and can be counted on the clock
/// that is ahead if it can on the other.
proof fn lemma_press_later(
    press: Press,
    taps: Seq<TapState>,
    near: Nearness,
    time: u64,
    d: u64,
)
    requires
        taps_possible(taps, time),
        time <= press.time,
        leaves_room(press.time, d),
        press.in_range(taps, near),
    ensures
        ({
            let ahead = later_press(press, d);
            &&& ahead.count(later_taps(taps, d), near) == press.count(taps, near)
            &&& ahead.after(later_taps(taps, d), near) == later_taps(press.after(taps, near), d)
            &&& ahead.in_range(later_taps(taps, d), near)
        }),
{
    let ahead = later_press(press, d);
    let then = later_taps(taps, d);
    let id = press.pointer.pointer_id;
    let recorded = press.recorded(taps, near);
    assert forall|i: int| 0 <= i < taps.len() implies press.repeats(near)(#[trigger] taps[i])
        == ahead.repeats(near)(later_tap(taps[i], d)) by {
        assert(taps[i].up_time <= time);
    }
    lemma_first_where_later(taps, press.repeats(near), ahead.repeats(near), d, 0);
    lemma_first_where_later(taps, of_pointer(id), of_pointer(id), d, 0);
    lemma_first_where(taps, press.repeats(near), 0);
    lemma_first_where(taps, of_pointer(id), 0);
    assert(ahead.count(then, near) == press.count(taps, near));
    assert(ahead.recorded(then, near) =~= later_taps(recorded, d));

    let slot = lemma_recorded(press, taps, near);
    assert forall|i: int| 0 <= i < recorded.len() implies live(press.time)(#[trigger] recorded[i])
        == live(ahead.time)(later_tap(recorded[i], d)) && later_tap(
        recorded[i],
        d,
    ).has_deadline() by {
        if i != slot {
            assert(recorded[i] == taps[i]);
            assert(taps[i].down_time <= taps[i].up_time <= time);
        }
    }
    lemma_filter_later(recorded, live(press.time), live(ahead.time), d);

    lemma_taps_possible_later(taps, time, d);
    lemma_search_in_range(ahead, then, near, later(time, d), 0);
    assert forall|i: int|
        0 <= i < ahead.recorded(then, near).len() && !(#[trigger] ahead.recorded(
            then,
            near,
        )[i]).is_down() implies ahead.recorded(then, near)[i].has_deadline() by {
        assert(ahead.recorded(then, near)[i] == later_tap(recorded[i], d));
    }
}

/// Possible taps are possible on both clocks.
proof fn lemma_taps_possible_later(taps: Seq<TapState>, time: u64, d: u64)
    requires
        taps_possible(taps, time),
        time + d <= u64::MAX,
    ensures
        taps_possible(later_taps(taps, d), later(time, d)),
{
    assert forall|i: int| 0 <= i < taps.len() implies (#[trigger] later_taps(taps, d)[i]).down_time
        <= later_taps(taps, d)[i].up_time <= later(time, d) && later_taps(taps, d)[i].count
        >= 1 by {
        assert(taps[i].down_time <= taps[i].up_time <= time);
    }
}

/// An event is counted the same on both clocks.
proof fn lemma_counted_later(
    taps: Seq<TapState>,
    event: PointerEventView,
    near: Nearness,
    time: u64,
    now: u64,
    d: u64,
)
    requires
        taps_possible(taps, time),
        time <= now,
        leaves_room(now, d),
        countable(taps, event, near),
        event matches PointerEventView::Down(event) ==> event.state.time == now,
        event matches PointerEventView::Up(event) ==> event.state.time == now,
    ensures
        ({
            let ahead = later_pointer_event(event, d);
            let counted = counted(taps, event, near);
            &&& crate::model::counted(later_taps(taps, d), ahead, near) == (Counted {
                taps: later_taps(counted.taps, d),
                event: later_pointer_event(counted.event, d),
            })
            &&& countable(later_taps(taps, d), ahead, near)
        }),
{
    let then = later_taps(taps, d);
    match event {
        PointerEventView::Down(event) => {
            lemma_press_later(press_of(event), taps, near, time, d);
            assert(press_of(later_button(event, d)) == later_press(press_of(event), d));
        },
        PointerEventView::Up(event) => {
            let id = event.pointer.pointer_id;
            lemma_first_where_later(taps, of_pointer(id), of_pointer(id), d, 0);
            lemma_first_where(taps, of_pointer(id), 0);
            assert(released(then, id, later(now, d)) =~= later_taps(released(taps, id, now), d));
        },
        PointerEventView::Move(update) => {
            let id = update.pointer.pointer_id;
            assert forall|i: int| 0 <= i < taps.len() implies down_of_pointer(id)(
                #[trigger] taps[i],
            ) == down_of_pointer(id)(later_tap(taps[i], d)) by {
                assert(taps[i].down_time <= taps[i].up_time <= time);
            }
            lemma_first_where_later(taps, down_of_pointer(id), down_of_pointer(id), d, 0);
            lemma_first_where(taps, down_of_pointer(id), 0);
            if let Some(i) = first_where(taps, down_of_pointer(id), 0) {
                let count = taps[i].count;
                assert(with_counts(later_pointers(update.coalesced, d), count) =~= later_pointers(
                    with_counts(update.coalesced, count),
                    d,
                ));
                assert(with_counts(later_pointers(update.predicted, d), count) =~= later_pointers(
                    with_counts(update.predicted, count),
                    d,
                ));
            }
        },
        PointerEventView::Cancel(pointer) => {
            let p = of_pointer(pointer.pointer_id);
            lemma_filter_later(taps, p, p, d);
        },
        PointerEventView::Leave(pointer) => {
            let p = of_pointer(pointer.pointer_id);
            lemma_filter_later(taps, p, p, d);
        },
        _ => {},
    }
}

/// The first contacts of countable ones are countable.
proof fn lemma_first_contacts_countable(
    taps: Seq<TapState>,
    primary: PointerStateView,
    contacts: Seq<TouchContact>,
    near: Nearness,
    n: int,
)
    requires
        0 <= n <= contacts.len(),
        contacts_countable(taps, primary, contacts, near),
    ensures
        contacts_countable(taps, primary, contacts.take(n), near),
{
    let first = contacts.take(n);
    assert forall|i: int| 0 <= i < first.len() implies countable(
        contact_taps(taps, primary, first.take(i), near),
        #[trigger] contact_event(primary, first[i]),
        near,
    ) by {
        assert(first.take(i) =~= contacts.take(i));
        assert(contact_event(primary, contacts[i]) == contact_event(primary, first[i]));
    }
}

/// Touch contacts leave the same taps on both clocks.
proof fn lemma_contact_taps_later(
    taps: Seq<TapState>,
    primary: PointerStateView,
    contacts: Seq<TouchContact>,
    near: Nearness,
    time: u64,
    d: u64,
)
    requires
        taps_possible(taps, time),
        time <= primary.time,
        leaves_room(primary.time, d),
        contacts_countable(taps, primary, contacts, near),
    ensures
        contact_taps(later_taps(taps, d), later_pointer(primary, d), contacts, near) == later_taps(
            contact_taps(taps, primary, contacts, near),
            d,
        ),
    decreases contacts.len(),
{
    if contacts.len() > 0 {
        let last = contacts.len() - 1;
        let earlier = contacts.drop_last();
        assert(contacts.take(last) =~= earlier);
        lemma_first_contacts_countable(taps, primary, contacts, near, last);
        lemma_contact_taps_later(taps, primary, earlier, near, time, d);
        lemma_contact_later(taps, primary, contacts, near, time, d, last);
    }
}

/// A touch contact comes to the same on both clocks, if the contacts before it do.
#[verifier::rlimit(30)]
proof fn lemma_contact_later(
    taps: Seq<TapState>,
    primary: PointerStateView,
    contacts: Seq<TouchContact>,
    near: Nearness,
    time: u64,
    d: u64,
    i: int,
)
    requires
        0 <= i < contacts.len(),
        taps_possible(taps, time),
        time <= primary.time,
        leaves_room(primary.time, d),
        contacts_countable(taps, primary, contacts, near),
        contact_taps(later_taps(taps, d), later_pointer(primary, d), contacts.take(i), near)
            == later_taps(contact_taps(taps, primary, contacts.take(i), near), d),
    ensures
        ({
            let before = contact_taps(taps, primary, contacts.take(i), near);
            let then = contact_taps(
                later_taps(taps, d),
                later_pointer(primary, d),
                contacts.take(i),
                near,
            );
            let counted = counted(before, contact_event(primary, contacts[i]), near);
            let ahead = contact_event(later_pointer(primary, d), contacts[i]);
            &&& crate::model::counted(then, ahead, near).taps == later_taps(counted.taps, d)
            &&& crate::model::counted(then, ahead, near).event == later_pointer_event(
                counted.event,
                d,
            )
            &&& countable(then, ahead, near)
        }),
{
    let before = contact_taps(taps, primary, contacts.take(i), near);
    let event = contact_event(primary, contacts[i]);
    lemma_first_contacts_countable(taps, primary, contacts, near, i);
    lemma_contacts_keep_taps_possible(taps, primary, contacts.take(i), near, time);
    lemma_contact_event_later(primary, contacts[i], d);
    assert(countable(before, event, near));
    lemma_counted_later(before, event, near, primary.time, primary.time, d);
}

/// Touch contacts come to the same on both clocks.
#[verifier::rlimit(30)]
proof fn lemma_contacts_later(
    taps: Seq<TapState>,
    primary: PointerStateView,
    contacts: Seq<TouchContact>,
    near: Nearness,
    time: u64,
    d: u64,
)
    requires
        taps_possible(taps, time),
        time <= primary.time,
        leaves_room(primary.time, d),
        contacts_countable(taps, primary, contacts, near),
    ensures
        ({
            let then = later_taps(taps, d);
            let ahead = later_pointer(primary, d);
            &&& contact_taps(then, ahead, contacts, near) == later_taps(
                contact_taps(taps, primary, contacts, near),
                d,
            )
            &&& contact_events(then, ahead, contacts, near) == later_events(
                contact_events(taps, primary, contacts, near),
                d,
            )
            &&& contacts_countable(then, ahead, contacts, near)
        }),
{
    let then = later_taps(taps, d);
    let ahead = later_pointer(primary, d);
    lemma_contact_taps_later(taps, primary, contacts, near, time, d);
    assert forall|i: int| 0 <= i < contacts.len() implies countable(
        contact_taps(then, ahead, contacts.take(i), near),
        #[trigger] contact_event(ahead, contacts[i]),
        near,
    ) by {
        lemma_first_contacts_countable(taps, primary, contacts, near, i);
        lemma_contact_taps_later(taps, primary, contacts.take(i), near, time, d);
        lemma_contact_later(taps, primary, contacts, near, time, d, i);
    }
    let events = contact_events(taps, primary, contacts, near);
    let events_ahead = contact_events(then, ahead, contacts, near);
    assert forall|i: int| 0 <= i < contacts.len() implies #[trigger] events_ahead[i] == later_event(
        events[i],
        d,
    ) by {
        lemma_first_contacts_countable(taps, primary, contacts, near, i);
        lemma_contact_taps_later(taps, primary, contacts.take(i), near, time, d);
        lemma_contact_later(taps, primary, contacts, near, time, d, i);
    }
    assert(events_ahead =~= later_events(events, d));
}

/// A touch contact stands for the same event on both clocks.
proof fn lemma_contact_event_later(primary: PointerStateView, contact: TouchContact, d: u64)
    ensures
        contact_event(later_pointer(primary, d), contact) == later_pointer_event(
            contact_event(primary, contact),
            d,
        ),
{
    let none = Seq::<PointerStateView>::empty();
    assert(later_pointers(none, d) =~= none);
}

/// Whether two states of the reducer differ at most in the time of the last message and, by `d`, in
/// the times of the taps.
pub open spec fn same_but_clock(state: ReducerView, ahead: ReducerView, d: u64) -> bool {
    &&& ahead.primary == (PointerStateView { time: ahead.primary.time, ..state.primary })
    &&& ahead.composing == state.composing
    &&& ahead.inside == state.inside
    &&& ahead.taps == later_taps(state.taps, d)
}

/// A message on a clock that is ahead by `d`, in a state that differs only by that, is accepted if
/// it is on the other clock, and comes to the same events and calls, except that the time of each
/// pointer state is later by `d`. The states afterwards differ only by `d` in all times.
#[verifier::rlimit(30)]
pub proof fn law_message_does_not_see_clock(
    state: ReducerView,
    ahead: ReducerView,
    input: Input,
    near: Nearness,
    d: u64,
)
    requires
        state_possible(state),
        state.accepts(input, near),
        same_but_clock(state, ahead, d),
        ahead.primary.time <= input.time + d,
        leaves_room(input.time, d),
    ensures
        ahead.accepts(later_input(input, d), near),
        ahead.step(later_input(input, d), near) == later_outcome(state.step(input, near), d),
{
    let now = state.stamped(input);
    let then = ahead.stamped(later_input(input, d));
    let time = state.primary.time;
    let button = button_of(input.msg, input.wparam);
    let none = Seq::<PointerStateView>::empty();
    assert(then == later_state(now, d));
    assert(later_pointers(none, d) =~= none);
    let outcome = state.step(input, near);
    let outcome_ahead = ahead.step(later_input(input, d), near);
    if input.msg == WM_MOUSEMOVE {
        let event = PointerEventView::Move(
            PointerUpdateView {
                pointer: PointerInfo::primary_mouse(),
                current: now.moved(input.lparam).primary,
                coalesced: none,
                predicted: none,
            },
        );
        lemma_counted_later(now.taps, event, near, time, input.time, d);
    } else if input.msg == WM_MOUSELEAVE {
        let event = PointerEventView::Leave(PointerInfo::primary_mouse());
        lemma_counted_later(now.taps, event, near, time, input.time, d);
    } else if is_button_down(input.msg) {
        let event = PointerEventView::Down(now.holding(button).button_event(button));
        lemma_counted_later(now.taps, event, near, time, input.time, d);
    } else if is_button_up(input.msg) {
        let event = PointerEventView::Up(now.dropping(button).button_event(button));
        lemma_counted_later(now.taps, event, near, time, input.time, d);
    } else if let AnswerView::Touch(Some(contacts)) = input.answer {
        lemma_contacts_later(now.taps, now.primary, contacts, near, time, d);
    }
    assert(outcome_ahead.state =~= later_state(outcome.state, d));
    assert(outcome_ahead.events =~= later_events(outcome.events, d));
}

/// A message and the nearness that its scale factor gives.
pub struct Call {
    pub input: Input,
    pub near: Nearness,
}

/// A message on a clock that is ahead by `d`.
pub open spec fn later_call(call: Call, d: u64) -> Call {
    Call { input: later_input(call.input, d), ..call }
}

/// Messages on a clock that is ahead by `d`.
pub open spec fn later_calls(calls: Seq<Call>, d: u64) -> Seq<Call> {
    calls.map_values(|call: Call| later_call(call, d))
}

/// The state of a fresh reducer after a sequence of messages.
pub open spec fn state_after(calls: Seq<Call>) -> ReducerView
    decreases calls.len(),
{
    if calls.len() == 0 {
        ReducerView::initial()
    } else {
        state_after(calls.drop_last()).step(calls.last().input, calls.last().near).state
    }
}

/// What the message with the index `i` of a sequence comes to in a fresh reducer.
pub open spec fn outcome_at(calls: Seq<Call>, i: int) -> Outcome {
    state_after(calls.take(i)).step(calls[i].input, calls[i].near)
}

/// Whether a fresh reducer accepts the message with the index `i` of a sequence, after the
/// messages before it.
pub open spec fn accepted_at(calls: Seq<Call>, i: int) -> bool {
    state_after(calls.take(i)).accepts(calls[i].input, calls[i].near)
}

/// Whether a fresh reducer accepts each of a sequence of messages.
pub open spec fn all_accepted(calls: Seq<Call>) -> bool {
    forall|i: int| 0 <= i < calls.len() ==> #[trigger] accepted_at(calls, i)
}

/// Whether each of a sequence of messages leaves room for a clock that is ahead by `d`.
pub open spec fn all_leave_room(calls: Seq<Call>, d: u64) -> bool {
    forall|i: int| 0 <= i < calls.len() ==> leaves_room((#[trigger] calls[i]).input.time, d)
}

/// The first messages of accepted ones are accepted.
proof fn lemma_first_accepted(calls: Seq<Call>, n: int)
    requires
        0 <= n <= calls.len(),
        all_accepted(calls),
    ensures
        all_accepted(calls.take(n)),
{
    let first = calls.take(n);
    assert forall|i: int| 0 <= i < first.len() implies accepted_at(first, i) by {
        assert(accepted_at(calls, i));
        assert(first.take(i) =~= calls.take(i));
    }
}

/// Two fresh reducers after the same accepted messages, on clocks that differ by `d`.
#[verifier::rlimit(30)]
proof fn lemma_states_later(calls: Seq<Call>, d: u64)
    requires
        all_accepted(calls),
        all_leave_room(calls, d),
    ensures
        state_possible(state_after(calls)),
        same_but_clock(state_after(calls), state_after(later_calls(calls, d)), d),
        state_after(later_calls(calls, d)).primary.time <= state_after(calls).primary.time + d,
    decreases calls.len(),
{
    let ahead = later_calls(calls, d);
    if calls.len() == 0 {
        assert(later_taps(seq![], d) =~= seq![]);
    } else {
        let last = calls.len() - 1;
        assert(calls.take(last) =~= calls.drop_last());
        assert(ahead.drop_last() =~= later_calls(calls.drop_last(), d));
        lemma_first_accepted(calls, last);
        lemma_states_later(calls.drop_last(), d);
        assert(accepted_at(calls, last));
        lemma_next_state_later(
            state_after(calls.drop_last()),
            state_after(ahead.drop_last()),
            calls[last],
            d,
        );
        assert(ahead[last] == later_call(calls[last], d));
    }
}

/// The states of two reducers after the same message, on clocks that differ by `d`.
#[verifier::rlimit(30)]
proof fn lemma_next_state_later(state: ReducerView, ahead: ReducerView, call: Call, d: u64)
    requires
        state_possible(state),
        state.accepts(call.input, call.near),
        same_but_clock(state, ahead, d),
        ahead.primary.time <= state.primary.time + d,
        leaves_room(call.input.time, d),
    ensures
        ({
            let next = state.step(call.input, call.near).state;
            let next_ahead = ahead.step(later_call(call, d).input, call.near).state;
            &&& state_possible(next)
            &&& same_but_clock(next, next_ahead, d)
            &&& next_ahead.primary.time <= next.primary.time + d
        }),
{
    law_message_does_not_see_clock(state, ahead, call.input, call.near, d);
    law_state_stays_possible(state, call.input, call.near);
}

/// One message among those that two fresh reducers get, on clocks that differ by `d`.
#[verifier::rlimit(30)]
pub proof fn lemma_outcome_later(calls: Seq<Call>, d: u64, i: int)
    requires
        0 <= i < calls.len(),
        all_accepted(calls),
        all_leave_room(calls, d),
    ensures
        accepted_at(later_calls(calls, d), i),
        outcome_at(later_calls(calls, d), i) == later_outcome(outcome_at(calls, i), d),
{
    let ahead = later_calls(calls, d);
    lemma_first_accepted(calls, i);
    lemma_states_later(calls.take(i), d);
    assert(ahead.take(i) =~= later_calls(calls.take(i), d));
    assert(ahead[i] == later_call(calls[i], d));
    assert(accepted_at(calls, i));
    let (state, state_ahead) = (state_after(calls.take(i)), state_after(ahead.take(i)));
    law_message_does_not_see_clock(state, state_ahead, calls[i].input, calls[i].near, d);
}

} // verus!
