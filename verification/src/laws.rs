//! What holds of the reducer as a whole.

use vstd::prelude::*;

use crate::clock_laws::{
    accepted_at, all_accepted, all_leave_room, later_calls, later_outcome, lemma_outcome_later,
    outcome_at, Call,
};
use crate::event::{
    EventView, PointerButton, PointerEventView, PointerInfo, PointerStateView, ScrollDelta,
    TextInputView,
};
use crate::message::{is_answer, request_of, Action, AnswerView, TouchContact};
use crate::model::{
    contact_event, contact_taps, contacts_countable, countable, counted, is_button_down,
    is_button_up, press_of, wheel_delta, Input, Outcome, ReducerView,
};
use crate::pointer::{button_of, slop, TapState, TAP_TIMEOUT};
use crate::tap_laws::{
    law_departure_keeps_taps_possible, law_press_in_range, law_press_is_recorded,
    law_press_keeps_pointers_distinct, law_press_keeps_taps_possible,
    law_release_has_count_of_press, law_release_keeps_pointers, law_release_keeps_taps_possible,
    law_repeated_press_counts_up, lemma_first_where, pointers_distinct, repeats_itself, taps_possible,
};
use crate::taps::{first_where, of_pointer, released, Nearness, Press};
use crate::win32::{
    WM_IME_COMPOSITION, WM_IME_ENDCOMPOSITION, WM_KEYDOWN, WM_KEYUP, WM_MOUSEHWHEEL, WM_MOUSELEAVE,
    WM_MOUSEMOVE, WM_MOUSEWHEEL, WM_SYSKEYDOWN, WM_SYSKEYUP, WM_TOUCH,
};

verus! {

/// Whether a pointer state was made for `input`: it carries its time, modifiers and scale factor.
pub open spec fn state_is_of(state: PointerStateView, input: Input) -> bool {
    &&& state.time == input.time
    &&& state.modifiers == input.modifiers
    &&& state.scale_factor == input.scale_factor
}

/// Whether each pointer state in `event` was made for `input`.
pub open spec fn event_is_of(event: EventView, input: Input) -> bool {
    match event {
        EventView::Pointer(PointerEventView::Down(event)) => state_is_of(event.state, input),
        EventView::Pointer(PointerEventView::Up(event)) => state_is_of(event.state, input),
        EventView::Pointer(PointerEventView::Scroll(event)) => state_is_of(event.state, input),
        EventView::Pointer(PointerEventView::Move(update)) => {
            &&& state_is_of(update.current, input)
            &&& forall|i: int|
                0 <= i < update.coalesced.len() ==> state_is_of(
                    #[trigger] update.coalesced[i],
                    input,
                )
            &&& forall|i: int|
                0 <= i < update.predicted.len() ==> state_is_of(
                    #[trigger] update.predicted[i],
                    input,
                )
        },
        _ => true,
    }
}

/// Every pointer state that a message produces carries the time, the modifiers and the scale factor
/// given with the message, and so does the state of the primary pointer afterwards.
pub proof fn law_states_carry_time(state: ReducerView, input: Input, near: Nearness)
    requires
        state.accepts(input, near),
    ensures
        state_is_of(state.step(input, near).state.primary, input),
        forall|i: int|
            0 <= i < state.step(input, near).events.len() ==> event_is_of(
                #[trigger] state.step(input, near).events[i],
                input,
            ),
{
    let outcome = state.step(input, near);
    assert forall|i: int| 0 <= i < outcome.events.len() implies event_is_of(
        #[trigger] outcome.events[i],
        input,
    ) by {}
}

/// Whether the reducer recognizes a message.
pub open spec fn is_recognized(msg: u32) -> bool {
    ||| msg == WM_KEYDOWN || msg == WM_SYSKEYDOWN || msg == WM_KEYUP || msg == WM_SYSKEYUP
    ||| msg == WM_IME_COMPOSITION || msg == WM_IME_ENDCOMPOSITION
    ||| msg == WM_MOUSEMOVE || msg == WM_MOUSELEAVE
    ||| is_button_down(msg) || is_button_up(msg)
    ||| msg == WM_MOUSEWHEEL || msg == WM_MOUSEHWHEEL
    ||| msg == WM_TOUCH
}

/// A message that is not recognized produces no events and no calls, and leaves all but the time,
/// the modifiers and the scale factor as they are.
pub proof fn law_unrecognized_messages_produce_nothing(
    state: ReducerView,
    input: Input,
    near: Nearness,
)
    requires
        state.accepts(input, near),
        !is_recognized(input.msg),
    ensures
        state.step(input, near).events.len() == 0,
        state.step(input, near).actions.len() == 0,
        state.step(input, near).state == state.stamped(input),
{
}

/// Each part of the state changes only on the messages that it is about: the position and the
/// presence of the cursor on mouse motion, the presence also when the mouse leaves, the buttons on
/// button messages, and the composition on composition messages.
pub proof fn law_unrelated_messages_change_nothing(state: ReducerView, input: Input, near: Nearness)
    requires
        state.accepts(input, near),
    ensures
        ({
            let after = state.step(input, near).state;
            let msg = input.msg;
            &&& msg != WM_MOUSEMOVE ==> after.primary.position == state.primary.position
            &&& msg != WM_MOUSEMOVE && msg != WM_MOUSELEAVE ==> after.inside == state.inside
            &&& !is_button_down(msg) && !is_button_up(msg) ==> after.primary.buttons
                == state.primary.buttons
            &&& msg != WM_IME_COMPOSITION && msg != WM_IME_ENDCOMPOSITION ==> after.composing
                == state.composing
            &&& !is_button_down(msg) && !is_button_up(msg) && msg != WM_MOUSELEAVE && msg
                != WM_TOUCH ==> after.taps == state.taps
            &&& after.primary.count == state.primary.count
            &&& after.primary.pressure == state.primary.pressure
        }),
{
}

/// The first motion after the cursor came in produces the entering and the motion, and has the
/// leaving tracked; the cursor is inside from then on, and a further motion produces only itself.
pub proof fn law_first_motion_enters(
    state: ReducerView,
    first: Input,
    second: Input,
    near: Nearness,
)
    requires
        state.accepts(first, near),
        first.msg == WM_MOUSEMOVE,
        second.msg == WM_MOUSEMOVE,
        !state.inside,
    ensures
        ({
            let entered = state.step(first, near);
            let moved = entered.state.step(second, near);
            &&& entered.events.len() == 2
            &&& entered.events[0] == EventView::Pointer(
                PointerEventView::Enter(PointerInfo::primary_mouse()),
            )
            &&& entered.events[1] matches EventView::Pointer(PointerEventView::Move(_))
            &&& entered.actions == seq![Action::TrackMouseLeave]
            &&& entered.state.inside
            &&& moved.events.len() == 1
            &&& moved.events[0] matches EventView::Pointer(PointerEventView::Move(_))
            &&& moved.actions.len() == 0
        }),
{
}

/// After the mouse left, the next motion enters again.
pub proof fn law_leaving_ends_presence(
    state: ReducerView,
    leave: Input,
    motion: Input,
    near: Nearness,
)
    requires
        leave.msg == WM_MOUSELEAVE,
        motion.msg == WM_MOUSEMOVE,
    ensures
        ({
            let left = state.step(leave, near);
            let entered = left.state.step(motion, near);
            &&& left.events == seq![
                EventView::Pointer(PointerEventView::Leave(PointerInfo::primary_mouse())),
            ]
            &&& !left.state.inside
            &&& entered.events.len() == 2
            &&& entered.events[0] == EventView::Pointer(
                PointerEventView::Enter(PointerInfo::primary_mouse()),
            )
        }),
{
}

/// Each press of a button captures the mouse, a release gives it back exactly if it leaves no
/// button held, and no other message touches the capture.
pub proof fn law_capture_lasts_while_buttons_are_held(
    state: ReducerView,
    input: Input,
    near: Nearness,
)
    requires
        state.accepts(input, near),
    ensures
        ({
            let outcome = state.step(input, near);
            &&& outcome.actions.contains(Action::SetCapture) <==> is_button_down(input.msg)
            &&& outcome.actions.contains(Action::ReleaseCapture) <==> is_button_up(input.msg)
                && outcome.state.primary.buttons == Set::<u32>::empty()
        }),
{
    let outcome = state.step(input, near);
    if is_button_down(input.msg) {
        assert(outcome.actions[0] == Action::SetCapture);
    }
    if is_button_up(input.msg) && outcome.state.primary.buttons == Set::<u32>::empty() {
        assert(outcome.actions[0] == Action::ReleaseCapture);
    }
}

/// Pressing and releasing a button leaves the other held buttons as they were.
pub proof fn law_release_undoes_press(
    state: ReducerView,
    down: Input,
    up: Input,
    button: PointerButton,
    near: Nearness,
)
    requires
        is_button_down(down.msg),
        is_button_up(up.msg),
        button_of(down.msg, down.wparam) == Some(button),
        button_of(up.msg, up.wparam) == Some(button),
    ensures
        ({
            let pressed = state.step(down, near).state;
            let released = pressed.step(up, near).state;
            &&& pressed.primary.buttons.contains(button.mask())
            &&& released.primary.buttons == state.primary.buttons.remove(button.mask())
        }),
{
    let pressed = state.step(down, near).state;
    let released = pressed.step(up, near).state;
    assert(released.primary.buttons =~= state.primary.buttons.remove(button.mask()));
}

/// Text that is committed while a composition is in progress comes after the end of that
/// composition, in one batch, and no composition is in progress any more.
pub proof fn law_commit_ends_composition(
    state: ReducerView,
    input: Input,
    text: Seq<char>,
    near: Nearness,
)
    requires
        input.msg == WM_IME_COMPOSITION,
        input.answer == AnswerView::Text(Some(seq![TextInputView::Insert(text)])),
    ensures
        ({
            let outcome = state.step(input, near);
            &&& outcome.events == seq![
                EventView::Text(
                    if state.composing {
                        seq![TextInputView::CompositionEnd, TextInputView::Insert(text)]
                    } else {
                        seq![TextInputView::Insert(text)]
                    },
                ),
            ]
            &&& !outcome.state.composing
        }),
{
    assert(seq![TextInputView::CompositionEnd] + seq![TextInputView::Insert(text)] =~= seq![
        TextInputView::CompositionEnd,
        TextInputView::Insert(text),
    ]);
}

/// A composition that is updated is in progress until it is committed or ends. Its end is reported
/// once: a second end without an update in between comes to nothing.
pub proof fn law_composition_ends_once(
    state: ReducerView,
    update: Input,
    text: TextInputView,
    end: Input,
    again: Input,
    near: Nearness,
)
    requires
        update.msg == WM_IME_COMPOSITION,
        update.answer == AnswerView::Text(Some(seq![text])),
        text is CompositionUpdate,
        end.msg == WM_IME_ENDCOMPOSITION,
        again.msg == WM_IME_ENDCOMPOSITION,
    ensures
        ({
            let updated = state.step(update, near);
            let ended = updated.state.step(end, near);
            let still = ended.state.step(again, near);
            &&& updated.events == seq![EventView::Text(seq![text])]
            &&& updated.state.composing
            &&& ended.events == seq![EventView::Text(seq![TextInputView::CompositionEnd])]
            &&& !ended.state.composing
            &&& still.events.len() == 0
        }),
{
}

/// Whatever the state, an end of the composition is reported exactly if one is in progress, nothing
/// else changes, and a second end in a row comes to nothing.
pub proof fn law_second_end_comes_to_nothing(state: ReducerView)
    ensures
        ({
            let ended = state.end_composition();
            &&& ended.events == (if state.composing {
                seq![EventView::Text(seq![TextInputView::CompositionEnd])]
            } else {
                seq![]
            })
            &&& ended.state == (ReducerView { composing: false, ..state })
            &&& ended.state.end_composition() == ended.state.ignore()
        }),
{
}

/// A composition message that means nothing leaves the composition as it is.
pub proof fn law_meaningless_composition_changes_nothing(
    state: ReducerView,
    input: Input,
    near: Nearness,
)
    requires
        input.msg == WM_IME_COMPOSITION,
        input.answer == AnswerView::Text(None),
    ensures
        state.step(input, near).events.len() == 0,
        state.step(input, near).state == state.stamped(input),
{
}

/// A touch message comes to one event for each contact, in order, each about the pointer of that
/// contact; and the handle of the message is closed, whether its contacts can be had or not.
pub proof fn law_touch_has_one_event_per_contact(
    state: ReducerView,
    input: Input,
    contacts: Option<Seq<TouchContact>>,
    near: Nearness,
)
    requires
        input.msg == WM_TOUCH,
        input.answer == AnswerView::Touch(contacts),
    ensures
        ({
            let outcome = state.step(input, near);
            &&& outcome.actions == seq![Action::CloseTouchInputHandle]
            &&& match contacts {
                Some(contacts) => {
                    &&& outcome.events.len() == contacts.len()
                    &&& forall|i: int|
                        0 <= i < contacts.len() ==> event_is_about(
                            #[trigger] outcome.events[i],
                            PointerInfo::touch(contacts[i].id),
                        )
                },
                None => outcome.events.len() == 0,
            }
        }),
{
}

/// Whether an event is about a pointer.
pub open spec fn event_is_about(event: EventView, pointer: PointerInfo) -> bool {
    match event {
        EventView::Pointer(PointerEventView::Down(event)) => event.pointer == pointer,
        EventView::Pointer(PointerEventView::Up(event)) => event.pointer == pointer,
        EventView::Pointer(PointerEventView::Move(update)) => update.pointer == pointer,
        EventView::Pointer(PointerEventView::Cancel(info)) => info == pointer,
        EventView::Pointer(PointerEventView::Enter(info)) => info == pointer,
        EventView::Pointer(PointerEventView::Leave(info)) => info == pointer,
        EventView::Pointer(PointerEventView::Scroll(event)) => event.pointer == pointer,
        _ => false,
    }
}

/// Different contacts are different pointers.
pub proof fn law_contacts_are_distinct_pointers(a: u32, b: u32)
    requires
        a != b,
    ensures
        PointerInfo::touch(a).pointer_id != PointerInfo::touch(b).pointer_id,
{
}

/// A wheel turned to the right scrolls to the left as far as one turned forward scrolls up or down,
/// for the same rotation and system parameter.
pub proof fn law_horizontal_wheel_is_reversed(wparam: usize, value: isize)
    ensures
        wheel_delta(WM_MOUSEWHEEL, wparam, value) matches ScrollDelta::LineDelta(None, Some(down))
            && wheel_delta(WM_MOUSEHWHEEL, wparam, value) matches ScrollDelta::LineDelta(
            Some(right),
            None,
        ) && right.scaled() == -down.scaled(),
{
}

/// Whether a state of the reducer is possible: its taps are possible at the time of the last
/// message.
pub open spec fn state_possible(state: ReducerView) -> bool {
    taps_possible(state.taps, state.primary.time)
}

/// A reducer starts in a possible state: the cursor is not inside, no composition is in progress,
/// and no button is held.
pub proof fn law_initial_state_is_possible()
    ensures
        state_possible(ReducerView::initial()),
        !ReducerView::initial().inside,
        !ReducerView::initial().composing,
        ReducerView::initial().primary.buttons == Set::<u32>::empty(),
{
}

/// Counting an event keeps the taps possible.
proof fn lemma_counting_keeps_taps_possible(
    taps: Seq<TapState>,
    event: PointerEventView,
    near: Nearness,
    before: u64,
    now: u64,
)
    requires
        taps_possible(taps, before),
        before <= now,
        countable(taps, event, near),
        event matches PointerEventView::Down(event) ==> event.state.time == now,
        event matches PointerEventView::Up(event) ==> event.state.time == now,
    ensures
        taps_possible(counted(taps, event, near).taps, now),
{
    match event {
        PointerEventView::Down(event) => {
            law_press_keeps_taps_possible(press_of(event), taps, near, before);
        },
        PointerEventView::Up(event) => {
            law_release_keeps_taps_possible(taps, event.pointer.pointer_id, before, now);
        },
        PointerEventView::Cancel(pointer) => {
            law_departure_keeps_taps_possible(taps, pointer.pointer_id, before);
        },
        PointerEventView::Leave(pointer) => {
            law_departure_keeps_taps_possible(taps, pointer.pointer_id, before);
        },
        _ => {},
    }
}

/// Counting touch contacts keeps the taps possible.
pub proof fn lemma_contacts_keep_taps_possible(
    taps: Seq<TapState>,
    primary: PointerStateView,
    contacts: Seq<TouchContact>,
    near: Nearness,
    before: u64,
)
    requires
        taps_possible(taps, before),
        before <= primary.time,
        contacts_countable(taps, primary, contacts, near),
    ensures
        taps_possible(contact_taps(taps, primary, contacts, near), primary.time),
    decreases contacts.len(),
{
    if contacts.len() > 0 {
        let earlier = contacts.drop_last();
        let last = contacts.len() - 1;
        assert forall|i: int| 0 <= i < earlier.len() implies countable(
            contact_taps(taps, primary, earlier.take(i), near),
            #[trigger] contact_event(primary, earlier[i]),
            near,
        ) by {
            assert(earlier.take(i) =~= contacts.take(i));
            assert(contact_event(primary, contacts[i]) == contact_event(primary, earlier[i]));
        }
        lemma_contacts_keep_taps_possible(taps, primary, earlier, near, before);
        assert(contacts.take(last) =~= earlier);
        assert(contacts.last() == contacts[last]);
        lemma_counting_keeps_taps_possible(
            contact_taps(taps, primary, earlier, near),
            contact_event(primary, contacts[last]),
            near,
            primary.time,
            primary.time,
        );
    }
}

/// Every message takes a possible state to a possible state.
pub proof fn law_state_stays_possible(state: ReducerView, input: Input, near: Nearness)
    requires
        state_possible(state),
        state.accepts(input, near),
    ensures
        state_possible(state.step(input, near).state),
{
    let now = state.stamped(input);
    let before = state.primary.time;
    let button = button_of(input.msg, input.wparam);
    if input.msg == WM_MOUSELEAVE {
        let event = PointerEventView::Leave(PointerInfo::primary_mouse());
        lemma_counting_keeps_taps_possible(now.taps, event, near, before, input.time);
    } else if is_button_down(input.msg) {
        let event = PointerEventView::Down(now.holding(button).button_event(button));
        lemma_counting_keeps_taps_possible(now.taps, event, near, before, input.time);
    } else if is_button_up(input.msg) {
        let event = PointerEventView::Up(now.dropping(button).button_event(button));
        lemma_counting_keeps_taps_possible(now.taps, event, near, before, input.time);
    } else if let AnswerView::Touch(Some(contacts)) = input.answer {
        lemma_contacts_keep_taps_possible(now.taps, now.primary, contacts, near, before);
    }
}

/// Whether no tap counts more than `most`.
pub open spec fn counts_at_most(taps: Seq<TapState>, most: int) -> bool {
    forall|i: int| 0 <= i < taps.len() ==> (#[trigger] taps[i]).count <= most
}

/// The number of touch contacts that a message brings.
pub open spec fn contact_count(input: Input) -> nat {
    match input.answer {
        AnswerView::Touch(Some(contacts)) => contacts.len(),
        _ => 0,
    }
}

/// A touch contact adds at most one to a count.
proof fn lemma_contact_counts(
    taps: Seq<TapState>,
    primary: PointerStateView,
    contact: TouchContact,
    near: Nearness,
    most: int,
)
    requires
        0 <= most < u8::MAX,
        counts_at_most(taps, most),
    ensures
        counts_at_most(counted(taps, contact_event(primary, contact), near).taps, most + 1),
{
    match contact_event(primary, contact) {
        PointerEventView::Down(event) => {
            let press = press_of(event);
            let after = press.after(taps, near);
            lemma_first_where(taps, press.repeats(near), 0);
            law_press_is_recorded(press, taps, near);
            assert forall|i: int| 0 <= i < after.len() implies (#[trigger] after[i]).count <= most
                + 1 by {
                if after[i] != press.tap(press.count(taps, near)) {
                    let j = choose|j: int| 0 <= j < taps.len() && taps[j] == after[i];
                    assert(taps[j].count <= most);
                }
            }
        },
        PointerEventView::Up(event) => {
            let id = event.pointer.pointer_id;
            lemma_first_where(taps, of_pointer(id), 0);
            let after = released(taps, id, event.state.time);
            assert forall|i: int| 0 <= i < after.len() implies (#[trigger] after[i]).count <= most
                + 1 by {
                assert(taps[i].count <= most);
            }
        },
        _ => {},
    }
}

/// Touch contacts can be counted, if time allows and there are not too many.
proof fn lemma_contacts_countable(
    taps: Seq<TapState>,
    primary: PointerStateView,
    contacts: Seq<TouchContact>,
    near: Nearness,
    before: u64,
    most: int,
)
    requires
        taps_possible(taps, before),
        before <= primary.time <= u64::MAX - TAP_TIMEOUT,
        0 <= most,
        most + contacts.len() <= u8::MAX,
        counts_at_most(taps, most),
    ensures
        contacts_countable(taps, primary, contacts, near),
        taps_possible(contact_taps(taps, primary, contacts, near), primary.time),
        counts_at_most(contact_taps(taps, primary, contacts, near), most + contacts.len()),
    decreases contacts.len(),
{
    if contacts.len() > 0 {
        let earlier = contacts.drop_last();
        let last = contacts.len() - 1;
        let then = contact_taps(taps, primary, earlier, near);
        let event = contact_event(primary, contacts[last]);
        lemma_contacts_countable(taps, primary, earlier, near, before, most);
        assert(contacts.take(last) =~= earlier);
        if let PointerEventView::Down(event) = event {
            law_press_in_range(press_of(event), then, near, primary.time);
        }
        assert forall|i: int| 0 <= i < contacts.len() implies countable(
            contact_taps(taps, primary, contacts.take(i), near),
            #[trigger] contact_event(primary, contacts[i]),
            near,
        ) by {
            if i < last {
                assert(earlier.take(i) =~= contacts.take(i));
                assert(contact_event(primary, earlier[i]) == contact_event(primary, contacts[i]));
            }
        }
        lemma_contacts_keep_taps_possible(taps, primary, contacts, near, before);
        lemma_contact_counts(then, primary, contacts[last], near, most + last);
    }
}

/// A message can be reduced in a possible state whenever time does not run backwards and is half a
/// second short of its end, the answer is one to what the message asks, and no tap has been
/// repeated so often that the presses of the message could exhaust its count.
pub proof fn law_ordinary_messages_are_accepted(
    state: ReducerView,
    input: Input,
    near: Nearness,
    most: int,
)
    requires
        state_possible(state),
        state.primary.time <= input.time <= u64::MAX - TAP_TIMEOUT,
        is_answer(request_of(input.msg, input.wparam), input.answer),
        0 <= most < u8::MAX,
        counts_at_most(state.taps, most),
        most + contact_count(input) <= u8::MAX,
    ensures
        state.accepts(input, near),
{
    let now = state.stamped(input);
    let before = state.primary.time;
    if is_button_down(input.msg) {
        let button = button_of(input.msg, input.wparam);
        let event = now.holding(button).button_event(button);
        law_press_in_range(press_of(event), now.taps, near, before);
    }
    if let AnswerView::Touch(Some(contacts)) = input.answer {
        lemma_contacts_countable(now.taps, now.primary, contacts, near, before, most);
    }
}

/// Whether all taps are of the primary mouse, which has at most one.
pub open spec fn only_mouse_taps(taps: Seq<TapState>) -> bool {
    &&& pointers_distinct(taps)
    &&& forall|i: int|
        0 <= i < taps.len() ==> (#[trigger] taps[i]).pointer_is(
            PointerInfo::primary_mouse().pointer_id,
        )
}

/// The count that the only event of a button message carries.
pub open spec fn button_count(outcome: Outcome) -> u8 {
    match outcome.events[0] {
        EventView::Pointer(PointerEventView::Down(event)) => event.state.count,
        EventView::Pointer(PointerEventView::Up(event)) => event.state.count,
        _ => 0,
    }
}

/// In a window that only the mouse touched, for three button messages in a row: the release of a
/// button has the count of the press before it, and a further press at the same place counts one
/// more if it comes within the timeout after the release, and counts as one if it comes later.
pub proof fn law_double_click(
    state: ReducerView,
    press: Input,
    release: Input,
    again: Input,
    near: Nearness,
)
    requires
        only_mouse_taps(state.taps),
        is_button_down(press.msg),
        is_button_up(release.msg),
        is_button_down(again.msg),
        near(
            state.primary.position,
            state.primary.position,
            slop(PointerInfo::primary_mouse().pointer_type),
        ),
        state.accepts(press, near),
        state.step(press, near).state.accepts(release, near),
        state.step(press, near).state.step(release, near).state.accepts(again, near),
    ensures
        ({
            let pressed = state.step(press, near);
            let released = pressed.state.step(release, near);
            let repeated = released.state.step(again, near);
            &&& pressed.events.len() == 1
            &&& released.events.len() == 1
            &&& repeated.events.len() == 1
            &&& button_count(released) == button_count(pressed)
            &&& button_count(repeated) == (if again.time < release.time + TAP_TIMEOUT {
                button_count(pressed) + 1
            } else {
                1
            })
            &&& only_mouse_taps(repeated.state.taps)
        }),
{
    let id = PointerInfo::primary_mouse().pointer_id;
    let down = button_of(press.msg, press.wparam);
    let first = press_of(state.stamped(press).holding(down).button_event(down));
    let pressed = state.step(press, near);
    lemma_mouse_press(first, state.taps, near);
    law_release_has_count_of_press(first, state.taps, near);

    let released = pressed.state.step(release, near);
    law_release_keeps_pointers(pressed.state.taps, id, release.time);
    assert(only_mouse_taps(released.state.taps)) by {
        assert forall|i: int, j: int| 0 <= i < j < released.state.taps.len() implies (
        #[trigger] released.state.taps[i]).pointer_id != (
        #[trigger] released.state.taps[j]).pointer_id by {
            assert(pressed.state.taps[i].pointer_id != pressed.state.taps[j].pointer_id);
        }
        assert forall|i: int| 0 <= i < released.state.taps.len() implies (
        #[trigger] released.state.taps[i]).pointer_is(id) by {
            assert(pressed.state.taps[i].pointer_is(id));
        }
    }

    let next = button_of(again.msg, again.wparam);
    let second = press_of(released.state.stamped(again).holding(next).button_event(next));
    lemma_mouse_press(second, released.state.taps, near);
    if again.time < release.time + TAP_TIMEOUT {
        law_repeated_press_counts_up(first, state.taps, near, release.time, second);
    } else {
        let taps = released.state.taps;
        lemma_first_where(pressed.state.taps, of_pointer(id), 0);
        lemma_first_where(taps, second.repeats(near), 0);
        if let Some(i) = first_where(taps, second.repeats(near), 0) {
            assert(pressed.state.taps[i].pointer_is(id));
            assert(of_pointer(id)(pressed.state.taps[i]));
            let j = first_where(pressed.state.taps, of_pointer(id), 0).unwrap();
            assert(pressed.state.taps[j].pointer_id == pressed.state.taps[i].pointer_id);
            assert(i == j);
            assert(taps[i].up_time == release.time);
        }
    }
}

/// A press of the mouse keeps the taps those of the mouse.
proof fn lemma_mouse_press(press: Press, taps: Seq<TapState>, near: Nearness)
    requires
        only_mouse_taps(taps),
        press.pointer == PointerInfo::primary_mouse(),
    ensures
        only_mouse_taps(press.after(taps, near)),
        repeats_itself(press, taps, near),
{
    let after = press.after(taps, near);
    let id = PointerInfo::primary_mouse().pointer_id;
    lemma_first_where(taps, press.repeats(near), 0);
    law_press_keeps_pointers_distinct(press, taps, near);
    law_press_is_recorded(press, taps, near);
    assert forall|i: int| 0 <= i < after.len() implies (#[trigger] after[i]).pointer_is(id) by {
        if after[i] != press.tap(press.count(taps, near)) {
            let j = choose|j: int| 0 <= j < taps.len() && taps[j] == after[i];
            assert(taps[j].pointer_is(id));
        }
    }
}

/// Only the order and the differences of times matter.
///
/// Two fresh reducers get the same messages, the second with every time later by `d`. The second
/// accepts them all if the first does. Message by message, both come to the same events and calls,
/// counts included, except that the time of each pointer state is later by `d`; and the states of
/// both afterwards differ only by `d` in all times, those of the taps included.
#[verifier::rlimit(30)]
pub proof fn law_only_time_differences_matter(calls: Seq<Call>, d: u64)
    requires
        all_accepted(calls),
        all_leave_room(calls, d),
    ensures
        all_accepted(later_calls(calls, d)),
        forall|i: int|
            0 <= i < calls.len() ==> #[trigger] outcome_at(later_calls(calls, d), i)
                == later_outcome(outcome_at(calls, i), d),
{
    let ahead = later_calls(calls, d);
    assert forall|i: int| 0 <= i < calls.len() implies #[trigger] accepted_at(ahead, i) by {
        lemma_outcome_later(calls, d, i);
    }
    assert forall|i: int| 0 <= i < calls.len() implies #[trigger] outcome_at(ahead, i)
        == later_outcome(outcome_at(calls, i), d) by {
        lemma_outcome_later(calls, d, i);
    }
}

} // verus!
