//! What holds between the press of a mouse button and its release.

use vstd::prelude::*;

use crate::clock_laws::Call;
use crate::count_laws::{
    as_press, fresh_tap, is_first_down, is_first_of, is_first_press, is_none_of, is_repeated,
    law_press_takes_one_place, lemma_searches, still_of_use,
};
use crate::event::{EventView, PointerButton, PointerEventView, PointerStateView, Position};
use crate::message::{AnswerView, TouchContact};
use crate::message_laws::{
    law_button_messages_name_a_button, law_leaving_is_reported, law_motion_goes_where_lparam_says,
    law_press_names_its_button, law_release_names_its_button, mouse, presses, releases,
};
use crate::model::{contact_event, contact_taps, counted, Input, ReducerView};
use crate::pointer::TapState;
use crate::tap_laws::lemma_filter_origin;
use crate::taps::{first_where, of_pointer, Nearness, Press};
use crate::win32::{
    WM_LBUTTONDOWN, WM_LBUTTONUP, WM_MBUTTONDOWN, WM_MBUTTONUP, WM_MOUSELEAVE, WM_MOUSEMOVE,
    WM_RBUTTONDOWN, WM_RBUTTONUP, WM_XBUTTONDOWN, WM_XBUTTONUP,
};

verus! {

/// The state after a sequence of messages, from the state `state` on.
pub open spec fn state_after_calls(state: ReducerView, calls: Seq<Call>) -> ReducerView
    decreases calls.len(),
{
    if calls.len() == 0 {
        state
    } else {
        let before = state_after_calls(state, calls.drop_last());
        before.step(calls.last().input, calls.last().near).state
    }
}

/// Whether a message leaves a press of the mouse at `position` alone: it is of no button, and no
/// touch contact in it goes down near that position or has the number of the mouse.
pub open spec fn leaves_alone(call: Call, position: Position) -> bool {
    let msg = call.input.msg;
    &&& msg != WM_LBUTTONDOWN && msg != WM_RBUTTONDOWN && msg != WM_MBUTTONDOWN
    &&& msg != WM_XBUTTONDOWN && msg != WM_LBUTTONUP && msg != WM_RBUTTONUP && msg != WM_MBUTTONUP
    &&& msg != WM_XBUTTONUP
    &&& call.input.answer matches AnswerView::Touch(Some(contacts)) ==> forall|i: int|
        0 <= i < contacts.len() ==> is_apart(#[trigger] contacts[i], position, call.near)
}

/// Whether a touch contact has nothing to do with a press of the mouse at `position`: its number is
/// not that of the mouse, which is the first, and it does not go down near that position.
pub open spec fn is_apart(contact: TouchContact, position: Position, near: Nearness) -> bool {
    &&& contact.id != 0
    &&& contact.flags / 2 % 2 == 1 ==> !near(position, contact.position, 12)
}

/// Whether a press of the mouse is recorded in the place of the tap at the index `at`.
pub open spec fn gives_way(press: Press, taps: Seq<TapState>, near: Nearness, at: int) -> bool {
    is_repeated(press, taps, near, at) || is_first_press(press, taps, near) && is_first_of(
        taps,
        Some(1),
        at,
    )
}

/// Whether the first tap of the mouse that is down is this one.
pub open spec fn is_dragging(taps: Seq<TapState>, tap: TapState) -> bool {
    exists|at: int| #[trigger] is_first_down(taps, Some(1), at) && taps[at] == tap
}

/// Whether the first tap of the mouse is this one.
pub open spec fn is_pressed(taps: Seq<TapState>, tap: TapState) -> bool {
    exists|at: int| #[trigger] is_first_of(taps, Some(1), at) && taps[at] == tap
}

/// The first tap of a kind is still the first of its kind among those that are kept, if it is kept.
proof fn lemma_first_is_kept(
    taps: Seq<TapState>,
    kept: spec_fn(TapState) -> bool,
    kind: spec_fn(TapState) -> bool,
    at: int,
) -> (now: int)
    requires
        0 <= at < taps.len(),
        kept(taps[at]),
        kind(taps[at]),
        forall|j: int| 0 <= j < at ==> !kind(#[trigger] taps[j]),
    ensures
        0 <= now < taps.filter(kept).len(),
        taps.filter(kept)[now] == taps[at],
        forall|j: int| 0 <= j < now ==> !kind(#[trigger] taps.filter(kept)[j]),
{
    let origin = lemma_filter_origin(taps, kept);
    let now = choose|i: int| 0 <= i < origin.len() && #[trigger] origin[i] == at;
    assert forall|j: int| 0 <= j < now implies !kind(#[trigger] taps.filter(kept)[j]) by {
        assert(origin[j] < origin[now]);
        assert(taps.filter(kept)[j] == taps[origin[j]]);
    }
    now
}

/// What is dragged or pressed is still so among the taps that are kept, if those of the mouse are.
proof fn lemma_kept(taps: Seq<TapState>, kept: spec_fn(TapState) -> bool, at: int)
    requires
        0 <= at < taps.len(),
        kept(taps[at]),
    ensures
        is_first_down(taps, Some(1), at) ==> is_dragging(taps.filter(kept), taps[at]),
        is_first_of(taps, Some(1), at) ==> is_pressed(taps.filter(kept), taps[at]),
{
    if is_first_down(taps, Some(1), at) {
        let kind = |tap: TapState| tap.pointer_id == Some(1u64) && tap.up_time == tap.down_time;
        assert forall|j: int| 0 <= j < at implies !kind(#[trigger] taps[j]) by {}
        let now = lemma_first_is_kept(taps, kept, kind, at);
        let after = taps.filter(kept);
        assert forall|j: int| 0 <= j < now implies !((#[trigger] after[j]).pointer_id == Some(1u64)
            && after[j].up_time == after[j].down_time) by {
            assert(!kind(after[j]));
        }
        assert(is_first_down(after, Some(1), now));
    }
    if is_first_of(taps, Some(1), at) {
        let kind = |tap: TapState| tap.pointer_id == Some(1u64);
        assert forall|j: int| 0 <= j < at implies !kind(#[trigger] taps[j]) by {}
        let now = lemma_first_is_kept(taps, kept, kind, at);
        let after = taps.filter(kept);
        assert forall|j: int| 0 <= j < now implies (#[trigger] after[j]).pointer_id != Some(
            1u64,
        ) by {
            assert(!kind(after[j]));
        }
        assert(is_first_of(after, Some(1), now));
    }
}

/// A tap that is not of the mouse and takes another place than that of a tap of the mouse, or comes
/// behind all others, leaves that tap where it is.
proof fn lemma_other_tap(taps: Seq<TapState>, at: int, slot: int, other: TapState)
    requires
        0 <= at < taps.len(),
        0 <= slot <= taps.len(),
        slot != at,
        other.pointer_id != Some(1u64),
    ensures
        ({
            let recorded = if slot < taps.len() {
                taps.update(slot, other)
            } else {
                taps.push(other)
            };
            &&& recorded[at] == taps[at]
            &&& is_first_down(taps, Some(1), at) ==> is_first_down(recorded, Some(1), at)
            &&& is_first_of(taps, Some(1), at) ==> is_first_of(recorded, Some(1), at)
        }),
{
    let recorded = if slot < taps.len() {
        taps.update(slot, other)
    } else {
        taps.push(other)
    };
    assert forall|j: int| 0 <= j < at implies #[trigger] recorded[j] == other || recorded[j]
        == taps[j] by {}
}

/// A touch contact that has nothing to do with a tap of the mouse leaves it alone.
proof fn lemma_contact_leaves_alone(
    taps: Seq<TapState>,
    primary: PointerStateView,
    contact: TouchContact,
    near: Nearness,
    at: int,
)
    requires
        0 <= at < taps.len(),
        taps[at].pointer_id == Some(1u64),
        taps[at].up_time == taps[at].down_time,
        is_apart(contact, taps[at].position, near),
    ensures
        ({
            let after = counted(taps, contact_event(primary, contact), near).taps;
            &&& is_first_down(taps, Some(1), at) ==> is_dragging(after, taps[at])
            &&& is_first_of(taps, Some(1), at) ==> is_pressed(after, taps[at])
        }),
{
    let flags = contact.flags;
    assert(flags & 0x2 != 0 <==> flags / 2 % 2 == 1) by (bit_vector);
    let id = Some((contact.id + 1) as u64);
    assert(id != Some(1u64));
    let event = contact_event(primary, contact);
    match event {
        PointerEventView::Down(event) => {
            let press = as_press(event);
            lemma_searches(press, taps, near);
            let slot = match first_where(taps, press.repeats(near), 0) {
                Some(i) => i,
                None => match first_where(taps, of_pointer(id), 0) {
                    Some(i) => i,
                    None => taps.len() as int,
                },
            };
            let other = fresh_tap(press, press.count(taps, near));
            law_press_takes_one_place(press, taps, near, slot);
            assert(slot != at);
            lemma_other_tap(taps, at, slot, other);
            let recorded = if slot < taps.len() {
                taps.update(slot, other)
            } else {
                taps.push(other)
            };
            let kept = |tap: TapState|
                tap.up_time == tap.down_time || press.time - tap.up_time < 500_000_000;
            assert(press.after(taps, near) == recorded.filter(kept));
            lemma_kept(recorded, kept, at);
        },
        PointerEventView::Up(event) => {
            lemma_searches(as_press(event), taps, near);
            if let Some(slot) = first_where(taps, of_pointer(id), 0) {
                let other = TapState { up_time: event.state.time, ..taps[slot] };
                assert(slot != at);
                lemma_other_tap(taps, at, slot, other);
            }
        },
        _ => {},
    }
}

/// Touch contacts that have nothing to do with a tap of the mouse leave it alone.
proof fn lemma_contacts_leave_alone(
    taps: Seq<TapState>,
    primary: PointerStateView,
    contacts: Seq<TouchContact>,
    near: Nearness,
    tap: TapState,
)
    requires
        tap.pointer_id == Some(1u64),
        tap.up_time == tap.down_time,
        forall|i: int|
            0 <= i < contacts.len() ==> is_apart(#[trigger] contacts[i], tap.position, near),
    ensures
        is_dragging(taps, tap) ==> is_dragging(contact_taps(taps, primary, contacts, near), tap),
        is_pressed(taps, tap) ==> is_pressed(contact_taps(taps, primary, contacts, near), tap),
    decreases contacts.len(),
{
    if contacts.len() > 0 {
        let earlier = contacts.drop_last();
        assert forall|i: int| 0 <= i < earlier.len() implies is_apart(
            #[trigger] earlier[i],
            tap.position,
            near,
        ) by {
            assert(earlier[i] == contacts[i]);
        }
        lemma_contacts_leave_alone(taps, primary, earlier, near, tap);
        let before = contact_taps(taps, primary, earlier, near);
        assert(is_apart(contacts[contacts.len() - 1], tap.position, near));
        if is_dragging(before, tap) {
            let at = choose|at: int| #[trigger]
                is_first_down(before, Some(1), at) && before[at] == tap;
            lemma_contact_leaves_alone(before, primary, contacts.last(), near, at);
        }
        if is_pressed(before, tap) {
            let at = choose|at: int| #[trigger]
                is_first_of(before, Some(1), at) && before[at] == tap;
            lemma_contact_leaves_alone(before, primary, contacts.last(), near, at);
        }
    }
}

/// A press of the mouse lasts as long as messages leave it alone.
proof fn lemma_press_lasts(state: ReducerView, calls: Seq<Call>, tap: TapState)
    requires
        tap.pointer_id == Some(1u64),
        tap.up_time == tap.down_time,
        forall|i: int| 0 <= i < calls.len() ==> leaves_alone(#[trigger] calls[i], tap.position),
    ensures
        is_dragging(state.taps, tap) ==> is_dragging(state_after_calls(state, calls).taps, tap),
        is_pressed(state.taps, tap) ==> is_pressed(state_after_calls(state, calls).taps, tap),
    decreases calls.len(),
{
    if calls.len() > 0 {
        let earlier = calls.drop_last();
        assert forall|i: int| 0 <= i < earlier.len() implies leaves_alone(
            #[trigger] earlier[i],
            tap.position,
        ) by {
            assert(earlier[i] == calls[i]);
        }
        lemma_press_lasts(state, earlier, tap);
        let before = state_after_calls(state, earlier);
        let last = calls.last();
        assert(leaves_alone(calls[calls.len() - 1], tap.position));
        lemma_message_leaves_alone(before, last, tap);
    }
}

/// A press of the mouse outlasts a message that leaves it alone.
proof fn lemma_message_leaves_alone(before: ReducerView, call: Call, tap: TapState)
    requires
        tap.pointer_id == Some(1u64),
        tap.up_time == tap.down_time,
        leaves_alone(call, tap.position),
    ensures
        ({
            let after = before.step(call.input, call.near).state;
            &&& is_dragging(before.taps, tap) ==> is_dragging(after.taps, tap)
            &&& is_pressed(before.taps, tap) ==> is_pressed(after.taps, tap)
        }),
{
    let after = before.step(call.input, call.near).state;
    if call.input.msg == WM_MOUSELEAVE {
        law_leaving_is_reported(before, call.input, call.near);
        let own = |tap: TapState| tap.pointer_id == Some(1u64);
        if is_dragging(before.taps, tap) {
            let at = choose|at: int| #[trigger]
                is_first_down(before.taps, Some(1), at) && before.taps[at] == tap;
            lemma_kept(before.taps, own, at);
        }
        if is_pressed(before.taps, tap) {
            let at = choose|at: int| #[trigger]
                is_first_of(before.taps, Some(1), at) && before.taps[at] == tap;
            lemma_kept(before.taps, own, at);
        }
    } else if let AnswerView::Touch(Some(contacts)) = call.input.answer {
        let primary = before.stamped(call.input).primary;
        lemma_contacts_leave_alone(before.taps, primary, contacts, call.near, tap);
        assert(after.taps == before.taps || after.taps == contact_taps(
            before.taps,
            primary,
            contacts,
            call.near,
        ));
    } else {
        assert(after.taps == before.taps);
    }
}

/// What a press of the mouse is recorded as: its tap is the first of the mouse that is down unless
/// the mouse has another one that is, and the first of the mouse unless another comes before.
proof fn lemma_press_starts(
    state: ReducerView,
    press: Press,
    near: Nearness,
    tap: TapState,
    after: Seq<TapState>,
    at: int,
)
    requires
        press.pointer == mouse(),
        tap.pointer_id == Some(1u64),
        tap.up_time == tap.down_time,
        ({
            ||| gives_way(press, state.taps, near, at) && after == still_of_use(
                state.taps.update(at, tap),
                press.time,
            )
            ||| is_first_press(press, state.taps, near) && is_none_of(state.taps, Some(1)) && at
                == state.taps.len() && after == still_of_use(state.taps.push(tap), press.time)
        }),
    ensures
        (forall|j: int|
            0 <= j < state.taps.len() && (#[trigger] state.taps[j]).pointer_id == Some(1u64)
                && state.taps[j].up_time == state.taps[j].down_time ==> j >= at) ==> is_dragging(
            after,
            tap,
        ),
        (forall|j: int|
            0 <= j < state.taps.len() && (#[trigger] state.taps[j]).pointer_id == Some(1u64) ==> j
                >= at) ==> is_pressed(after, tap),
{
    let recorded = if at < state.taps.len() {
        state.taps.update(at, tap)
    } else {
        state.taps.push(tap)
    };
    let kept = |tap: TapState|
        tap.up_time == tap.down_time || press.time - tap.up_time < 500_000_000;
    assert(after == recorded.filter(kept));
    assert(recorded[at] == tap);
    assert forall|j: int| 0 <= j < at implies #[trigger] recorded[j] == state.taps[j] by {}
    lemma_kept(recorded, kept, at);
}

/// Whether no tap of the mouse that is down comes before the one that a press repeats.
pub open spec fn no_drag_before(press: Press, taps: Seq<TapState>, near: Nearness) -> bool {
    forall|at: int, j: int|
        #![trigger is_repeated(press, taps, near, at), taps[j]]
        is_repeated(press, taps, near, at) && 0 <= j < at ==> !(taps[j].pointer_id == Some(1u64)
            && taps[j].up_time == taps[j].down_time)
}

/// Whether no tap of the mouse comes before the one that a press repeats.
pub open spec fn no_tap_before(press: Press, taps: Seq<TapState>, near: Nearness) -> bool {
    forall|at: int, j: int|
        #![trigger is_repeated(press, taps, near, at), taps[j]]
        is_repeated(press, taps, near, at) && 0 <= j < at ==> taps[j].pointer_id != Some(1u64)
}

/// The press of the mouse that a button message reports.
pub open spec fn mouse_press(state: ReducerView, input: Input) -> Press {
    Press { pointer: mouse(), position: state.primary.position, time: input.time }
}

/// Whether a message is of a button going down.
pub open spec fn is_press(input: Input) -> bool {
    input.msg == WM_LBUTTONDOWN || input.msg == WM_RBUTTONDOWN || input.msg == WM_MBUTTONDOWN
        || input.msg == WM_XBUTTONDOWN
}

/// Whether a message is of a button going up.
pub open spec fn is_release(input: Input) -> bool {
    input.msg == WM_LBUTTONUP || input.msg == WM_RBUTTONUP || input.msg == WM_MBUTTONUP || input.msg
        == WM_XBUTTONUP
}

/// How a button message packs the number of its button.
proof fn lemma_button_number(input: Input) -> (packed: (int, int, int))
    ensures
        input.wparam == (packed.0 * 0x1_0000 + packed.1) * 0x1_0000 + packed.2,
        0 <= packed.1 < 0x1_0000,
        0 <= packed.2 < 0x1_0000,
{
    let value = input.wparam as int;
    (value / 0x1_0000 / 0x1_0000, value / 0x1_0000 % 0x1_0000, value % 0x1_0000)
}

/// A press of the mouse starts to be a drag with its count.
proof fn lemma_press_event_starts(state: ReducerView, press: Input, near: Nearness)
    requires
        state.accepts(press, near),
        is_press(press),
    ensures
        ({
            let outcome = state.step(press, near);
            let taps = state.taps;
            outcome.events[0] matches EventView::Pointer(PointerEventView::Down(down)) && {
                let tap = fresh_tap(mouse_press(state, press), down.state.count);
                &&& no_drag_before(mouse_press(state, press), taps, near) ==> is_dragging(
                    outcome.state.taps,
                    tap,
                )
                &&& no_tap_before(mouse_press(state, press), taps, near) ==> is_pressed(
                    outcome.state.taps,
                    tap,
                )
            }
        }),
{
    let mouse_press = mouse_press(state, press);
    let taps = state.taps;
    let (rest, number, low) = lemma_button_number(press);
    law_button_messages_name_a_button(press.msg, number);
    let button = choose|button: Option<PointerButton>| presses(press.msg, number, button);
    lemma_searches(mouse_press, taps, near);
    let at = match first_where(taps, mouse_press.repeats(near), 0) {
        Some(i) => i,
        None => match first_where(taps, of_pointer(Some(1)), 0) {
            Some(i) => i,
            None => taps.len() as int,
        },
    };
    law_press_names_its_button(state, press, near, button, rest, number, low, at);
    let outcome = state.step(press, near);
    if let EventView::Pointer(PointerEventView::Down(down)) = outcome.events[0] {
        let tap = fresh_tap(mouse_press, down.state.count);
        lemma_press_starts(state, mouse_press, near, tap, outcome.state.taps, at);
    }
}

/// Every motion of the mouse between a press and the next message of a button has the count of the
/// press, whatever other messages come in between, as long as no touch contact in them has the
/// number of the mouse or goes down near where the button did.
///
/// This needs the mouse not to have another tap that is down before the one that the press repeats.
pub proof fn law_drag_has_count_of_press(
    state: ReducerView,
    press: Input,
    near: Nearness,
    calls: Seq<Call>,
    motion: Call,
)
    requires
        state.accepts(press, near),
        is_press(press),
        no_drag_before(mouse_press(state, press), state.taps, near),
        forall|i: int|
            0 <= i < calls.len() ==> leaves_alone(#[trigger] calls[i], state.primary.position),
        motion.input.msg == WM_MOUSEMOVE,
    ensures
        ({
            let pressed = state.step(press, near);
            let moved = state_after_calls(pressed.state, calls).step(motion.input, motion.near);
            match (pressed.events[0], moved.events.last()) {
                (
                    EventView::Pointer(PointerEventView::Down(down)),
                    EventView::Pointer(PointerEventView::Move(update)),
                ) => update.current.count == down.state.count,
                _ => false,
            }
        }),
{
    let pressed = state.step(press, near);
    lemma_press_event_starts(state, press, near);
    let count = match pressed.events[0] {
        EventView::Pointer(PointerEventView::Down(down)) => down.state.count,
        _ => 0,
    };
    let tap = fresh_tap(mouse_press(state, press), count);
    lemma_press_lasts(pressed.state, calls, tap);
    let before = state_after_calls(pressed.state, calls);
    let at = choose|at: int| #[trigger]
        is_first_down(before.taps, Some(1), at) && before.taps[at] == tap;
    let lparam = motion.input.lparam as int;
    let low = lparam % 0x1_0000;
    let high = lparam / 0x1_0000 % 0x1_0000;
    let rest = lparam / 0x1_0000 / 0x1_0000;
    let (x, carry_x): (i16, int) = if low < 0x8000 {
        (low as i16, 0)
    } else {
        ((low - 0x1_0000) as i16, 1)
    };
    let (y, carry_y): (i16, int) = if high < 0x8000 {
        (high as i16, 0)
    } else {
        ((high - 0x1_0000) as i16, 1)
    };
    assert(x as int % 0x1_0000 == low);
    assert(lparam == ((rest + carry_y) * 0x1_0000 + y) * 0x1_0000 + x as int % 0x1_0000);
    law_motion_goes_where_lparam_says(
        before,
        motion.input,
        motion.near,
        rest + carry_y,
        y,
        x,
        at,
    );
}

/// The release of the mouse that follows a press, with no other message of a button in between, has
/// the count of the press, as long as no touch contact in between has the number of the mouse or
/// goes down near where the button did.
///
/// This needs the mouse not to have another tap before the one that the press repeats.
pub proof fn law_release_has_count_of_its_press(
    state: ReducerView,
    press: Input,
    near: Nearness,
    calls: Seq<Call>,
    release: Call,
)
    requires
        state.accepts(press, near),
        is_press(press),
        no_tap_before(mouse_press(state, press), state.taps, near),
        forall|i: int|
            0 <= i < calls.len() ==> leaves_alone(#[trigger] calls[i], state.primary.position),
        is_release(release.input),
    ensures
        ({
            let pressed = state.step(press, near);
            let ended = state_after_calls(pressed.state, calls).step(release.input, release.near);
            match (pressed.events[0], ended.events[0]) {
                (
                    EventView::Pointer(PointerEventView::Down(down)),
                    EventView::Pointer(PointerEventView::Up(up)),
                ) => up.state.count == down.state.count,
                _ => false,
            }
        }),
{
    let pressed = state.step(press, near);
    lemma_press_event_starts(state, press, near);
    let count = match pressed.events[0] {
        EventView::Pointer(PointerEventView::Down(down)) => down.state.count,
        _ => 0,
    };
    let tap = fresh_tap(mouse_press(state, press), count);
    lemma_press_lasts(pressed.state, calls, tap);
    let before = state_after_calls(pressed.state, calls);
    let at = choose|at: int| #[trigger]
        is_first_of(before.taps, Some(1), at) && before.taps[at] == tap;
    let (rest, number, low) = lemma_button_number(release.input);
    law_button_messages_name_a_button(release.input.msg, number);
    let button = choose|button: Option<PointerButton>|
        releases(release.input.msg, number, button);
    law_release_names_its_button(
        before,
        release.input,
        release.near,
        button,
        rest,
        number,
        low,
        at,
    );
}

} // verus!
