//! What each message comes to, told by the message's own parameters and the state before it.

use ui_events::keyboard::KeyboardEvent;
use vstd::prelude::*;

use crate::count_laws::{
    is_first_down, is_first_of, is_first_press, is_none_down, is_none_of, is_repeated,
    law_counting_changes_only_counts, law_motion_is_counted, law_other_events_and_taps,
    law_press_event_is_counted, law_release_event_is_counted, same_but_count, still_of_use,
};
use crate::event::{
    EventView, PointerButton, PointerEventView, PointerInfo, PointerStateView, PointerType,
    PointerUpdateView, Position, Pressure, ScrollDelta, TextInputView,
};
use crate::message::{Action, AnswerView, TouchContact};
use crate::model::{
    contact_event, contact_taps, contacts_countable, countable, counted, Input, ReducerView,
};
use crate::number_laws::{law_messages_name_their_button, law_words_make_up_a_number};
use crate::pointer::TapState;
use crate::taps::{Nearness, Press};
use crate::win32::{
    WM_IME_COMPOSITION, WM_IME_ENDCOMPOSITION, WM_KEYDOWN, WM_KEYUP, WM_LBUTTONDOWN, WM_LBUTTONUP,
    WM_MBUTTONDOWN, WM_MBUTTONUP, WM_MOUSEHWHEEL, WM_MOUSELEAVE, WM_MOUSEMOVE, WM_MOUSEWHEEL,
    WM_RBUTTONDOWN, WM_RBUTTONUP, WM_SYSKEYDOWN, WM_SYSKEYUP, WM_TOUCH, WM_XBUTTONDOWN,
    WM_XBUTTONUP,
};

verus! {

/// The pointer of every mouse event: the primary one, without a device.
pub open spec fn mouse() -> PointerInfo {
    PointerInfo {
        pointer_id: Some(1),
        persistent_device_id: None,
        pointer_type: PointerType::Mouse,
    }
}

/// A state of a pointer at the time of a message and with the message's modifiers and scale factor.
pub open spec fn at_message(state: PointerStateView, input: Input) -> PointerStateView {
    PointerStateView {
        time: input.time,
        position: state.position,
        buttons: state.buttons,
        modifiers: input.modifiers,
        count: state.count,
        pressure: state.pressure,
        scale_factor: input.scale_factor,
    }
}

/// A new reducer knows of nothing: its pointer is at the origin at time zero with nothing held, no
/// count, no pressure and the scale factor 1.0, and it neither composes nor is inside the window.
pub proof fn law_new_reducer_knows_nothing()
    ensures
        ({
            let state = ReducerView::initial();
            &&& state.primary.time == 0
            &&& state.primary.position.x == 0
            &&& state.primary.position.y == 0
            &&& forall|mask: u32| !state.primary.buttons.contains(mask)
            &&& state.primary.modifiers.bits == 0
            &&& state.primary.count == 0
            &&& state.primary.pressure == Pressure::Zero
            &&& state.primary.scale_factor.bits == 0x3FF0_0000_0000_0000
            &&& !state.composing
            &&& !state.inside
            &&& state.taps.len() == 0
        }),
{
}

/// A motion goes where `lparam` says, whatever buttons are held: its low word is the horizontal
/// coordinate and its second word the vertical one, both signed. The last event is the motion, the
/// first motion since the pointer left is preceded by its entering, and the motion during a press
/// has the count of the press.
pub proof fn law_motion_goes_where_lparam_says(
    state: ReducerView,
    input: Input,
    near: Nearness,
    rest: int,
    y: i16,
    x: i16,
    at: int,
)
    requires
        input.msg == WM_MOUSEMOVE,
        input.lparam == (rest * 0x1_0000 + y) * 0x1_0000 + x as int % 0x1_0000,
    ensures
        ({
            let outcome = state.step(input, near);
            let primary = outcome.state.primary;
            &&& primary.position.x == x && primary.position.y == y
            &&& primary == (PointerStateView {
                position: primary.position,
                ..at_message(state.primary, input)
            })
            &&& outcome.state.inside
            &&& outcome.state.composing == state.composing
            &&& outcome.state.taps == state.taps
            &&& outcome.events.len() == (if state.inside {
                1int
            } else {
                2
            })
            &&& !state.inside ==> outcome.events[0] == EventView::Pointer(
                PointerEventView::Enter(mouse()),
            )
            &&& outcome.events.last() matches EventView::Pointer(PointerEventView::Move(update))
                && {
                &&& update.pointer == mouse()
                &&& update.current.position.x == x && update.current.position.y == y
                &&& same_but_count(update.current, primary)
                &&& update.coalesced.len() == 0 && update.predicted.len() == 0
                &&& is_first_down(state.taps, Some(1), at) ==> update.current.count
                    == state.taps[at].count
                &&& is_none_down(state.taps, Some(1)) ==> update.current.count
                    == state.primary.count
            }
            &&& outcome.actions == (if state.inside {
                seq![]
            } else {
                seq![Action::TrackMouseLeave]
            })
        }),
{
    let low = x as int % 0x1_0000;
    let high = y as int % 0x1_0000;
    let carry = (y as int - high) / 0x1_0000;
    assert(input.lparam == ((rest + carry) * 0x1_0000 + high) * 0x1_0000 + low);
    law_words_make_up_a_number(rest + carry, high, low);
    let after = ReducerView {
        primary: PointerStateView {
            position: Position { x: x as i32, y: y as i32 },
            ..at_message(state.primary, input)
        },
        inside: true,
        ..state
    };
    assert(state.stamped(input).moved(input.lparam) == after);
    let update = PointerUpdateView {
        pointer: PointerInfo::primary_mouse(),
        current: after.primary,
        coalesced: seq![],
        predicted: seq![],
    };
    law_motion_is_counted(state.taps, update, near, at);
    law_counting_changes_only_counts(state.taps, PointerEventView::Move(update), near);
}

/// When the mouse leaves, the one event says so; the mouse is outside from then on, and only its
/// own taps are kept.
pub proof fn law_leaving_is_reported(state: ReducerView, input: Input, near: Nearness)
    requires
        input.msg == WM_MOUSELEAVE,
    ensures
        ({
            let outcome = state.step(input, near);
            &&& outcome.events == seq![EventView::Pointer(PointerEventView::Leave(mouse()))]
            &&& outcome.actions.len() == 0
            &&& outcome.state.primary == at_message(state.primary, input)
            &&& outcome.state.composing == state.composing
            &&& !outcome.state.inside
            &&& outcome.state.taps == state.taps.filter(
                |tap: TapState| tap.pointer_id == Some(1u64),
            )
        }),
{
    law_other_events_and_taps(
        state.taps,
        mouse(),
        PointerEventView::Leave(mouse()),
        near,
    );
    law_counting_changes_only_counts(state.taps, PointerEventView::Leave(mouse()), near);
}

/// Whether a message that packs `number` in the second word of `wparam` is of this button going
/// down.
pub open spec fn presses(msg: u32, number: int, button: Option<PointerButton>) -> bool {
    match button {
        Some(PointerButton::Primary) => msg == WM_LBUTTONDOWN,
        Some(PointerButton::Secondary) => msg == WM_RBUTTONDOWN,
        Some(PointerButton::Auxiliary) => msg == WM_MBUTTONDOWN,
        Some(PointerButton::X1) => msg == WM_XBUTTONDOWN && number == 1,
        Some(PointerButton::X2) => msg == WM_XBUTTONDOWN && number == 2,
        None => msg == WM_XBUTTONDOWN && number != 1 && number != 2,
    }
}

/// Whether a message that packs `number` in the second word of `wparam` is of this button going
/// up.
pub open spec fn releases(msg: u32, number: int, button: Option<PointerButton>) -> bool {
    match button {
        Some(PointerButton::Primary) => msg == WM_LBUTTONUP,
        Some(PointerButton::Secondary) => msg == WM_RBUTTONUP,
        Some(PointerButton::Auxiliary) => msg == WM_MBUTTONUP,
        Some(PointerButton::X1) => msg == WM_XBUTTONUP && number == 1,
        Some(PointerButton::X2) => msg == WM_XBUTTONUP && number == 2,
        None => msg == WM_XBUTTONUP && number != 1 && number != 2,
    }
}

/// The bit of a button: the buttons have the first five, in order.
pub open spec fn bit(button: PointerButton) -> u32 {
    match button {
        PointerButton::Primary => 1,
        PointerButton::Secondary => 2,
        PointerButton::Auxiliary => 4,
        PointerButton::X1 => 8,
        PointerButton::X2 => 16,
    }
}

/// Every button message names one button or none.
pub proof fn law_button_messages_name_a_button(msg: u32, number: int)
    ensures
        (msg == WM_LBUTTONDOWN || msg == WM_RBUTTONDOWN || msg == WM_MBUTTONDOWN || msg
            == WM_XBUTTONDOWN) <==> exists|button: Option<PointerButton>|
            presses(msg, number, button),
        (msg == WM_LBUTTONUP || msg == WM_RBUTTONUP || msg == WM_MBUTTONUP || msg == WM_XBUTTONUP)
            <==> exists|button: Option<PointerButton>| releases(msg, number, button),
{
    assert(msg == WM_LBUTTONDOWN ==> presses(msg, number, Some(PointerButton::Primary)));
    assert(msg == WM_RBUTTONDOWN ==> presses(msg, number, Some(PointerButton::Secondary)));
    assert(msg == WM_MBUTTONDOWN ==> presses(msg, number, Some(PointerButton::Auxiliary)));
    assert(msg == WM_XBUTTONDOWN ==> presses(msg, number, Some(PointerButton::X1)) || presses(
        msg,
        number,
        Some(PointerButton::X2),
    ) || presses(msg, number, None));
    assert(msg == WM_LBUTTONUP ==> releases(msg, number, Some(PointerButton::Primary)));
    assert(msg == WM_RBUTTONUP ==> releases(msg, number, Some(PointerButton::Secondary)));
    assert(msg == WM_MBUTTONUP ==> releases(msg, number, Some(PointerButton::Auxiliary)));
    assert(msg == WM_XBUTTONUP ==> releases(msg, number, Some(PointerButton::X1)) || releases(
        msg,
        number,
        Some(PointerButton::X2),
    ) || releases(msg, number, None));
}

/// The one event of a button going down is a press of the mouse with the button that the message
/// names, where the mouse is, with that button added to those held. It counts one, or one more than
/// the tap that it repeats. The mouse is captured.
pub proof fn law_press_names_its_button(
    state: ReducerView,
    input: Input,
    near: Nearness,
    button: Option<PointerButton>,
    rest: int,
    number: int,
    low: int,
    at: int,
)
    requires
        state.accepts(input, near),
        input.wparam == (rest * 0x1_0000 + number) * 0x1_0000 + low,
        0 <= number < 0x1_0000,
        0 <= low < 0x1_0000,
        presses(input.msg, number, button),
    ensures
        ({
            let outcome = state.step(input, near);
            let primary = outcome.state.primary;
            let press = Press {
                pointer: mouse(),
                position: state.primary.position,
                time: input.time,
            };
            &&& primary == (PointerStateView {
                buttons: primary.buttons,
                ..at_message(state.primary, input)
            })
            &&& forall|mask: u32| #[trigger]
                primary.buttons.contains(mask) <==> state.primary.buttons.contains(mask) || (
                button matches Some(b) && mask == bit(b))
            &&& outcome.state.composing == state.composing
            &&& outcome.state.inside == state.inside
            &&& outcome.actions == seq![Action::SetCapture]
            &&& outcome.events.len() == 1
            &&& outcome.events[0] matches EventView::Pointer(PointerEventView::Down(event)) && {
                let tap = TapState {
                    pointer_id: Some(1),
                    down_time: input.time,
                    up_time: input.time,
                    count: event.state.count,
                    position: state.primary.position,
                };
                &&& event.button == button
                &&& event.pointer == mouse()
                &&& same_but_count(event.state, primary)
                &&& is_repeated(press, state.taps, near, at) ==> {
                    &&& event.state.count == state.taps[at].count + 1
                    &&& outcome.state.taps == still_of_use(state.taps.update(at, tap), input.time)
                }
                &&& is_first_press(press, state.taps, near) ==> {
                    &&& event.state.count == 1
                    &&& is_first_of(state.taps, Some(1), at) ==> outcome.state.taps == still_of_use(
                        state.taps.update(at, tap),
                        input.time,
                    )
                    &&& is_none_of(state.taps, Some(1)) ==> outcome.state.taps == still_of_use(
                        state.taps.push(tap),
                        input.time,
                    )
                }
            }
        }),
{
    law_messages_name_their_button(input.msg, input.wparam, rest, number, low);
    let named = crate::pointer::button_of(input.msg, input.wparam);
    assert(named == button);
    let after = state.stamped(input).holding(button);
    let event = after.button_event(button);
    law_press_event_is_counted(state.taps, event, near, at);
    law_counting_changes_only_counts(state.taps, PointerEventView::Down(event), near);
    if let Some(b) = button {
        assert(b.mask() == bit(b));
    }
}

/// A button going down is accepted exactly if time does not run backwards, nothing was asked for
/// and the press can be counted.
pub proof fn law_press_is_accepted(state: ReducerView, input: Input, near: Nearness)
    requires
        input.msg == WM_LBUTTONDOWN || input.msg == WM_RBUTTONDOWN || input.msg == WM_MBUTTONDOWN
            || input.msg == WM_XBUTTONDOWN,
    ensures
        state.accepts(input, near) <==> {
            &&& state.primary.time <= input.time
            &&& input.answer is Nothing
            &&& (Press {
                pointer: mouse(),
                position: state.primary.position,
                time: input.time,
            }).in_range(state.taps, near)
        },
{
}

/// The one event of a button going up is a release of the mouse with the button that the message
/// names, where the mouse is, with that button taken from those held. It has the count of the tap
/// that it ends. The mouse is no longer captured once no button is held.
pub proof fn law_release_names_its_button(
    state: ReducerView,
    input: Input,
    near: Nearness,
    button: Option<PointerButton>,
    rest: int,
    number: int,
    low: int,
    at: int,
)
    requires
        input.wparam == (rest * 0x1_0000 + number) * 0x1_0000 + low,
        0 <= number < 0x1_0000,
        0 <= low < 0x1_0000,
        releases(input.msg, number, button),
    ensures
        ({
            let outcome = state.step(input, near);
            let primary = outcome.state.primary;
            &&& primary == (PointerStateView {
                buttons: primary.buttons,
                ..at_message(state.primary, input)
            })
            &&& forall|mask: u32| #[trigger]
                primary.buttons.contains(mask) <==> state.primary.buttons.contains(mask) && !(
                button matches Some(b) && mask == bit(b))
            &&& outcome.state.composing == state.composing
            &&& outcome.state.inside == state.inside
            &&& (forall|mask: u32| !primary.buttons.contains(mask)) ==> outcome.actions
                == seq![Action::ReleaseCapture]
            &&& (exists|mask: u32| primary.buttons.contains(mask)) ==> outcome.actions.len() == 0
            &&& outcome.events.len() == 1
            &&& outcome.events[0] matches EventView::Pointer(PointerEventView::Up(event)) && {
                &&& event.button == button
                &&& event.pointer == mouse()
                &&& same_but_count(event.state, primary)
                &&& is_first_of(state.taps, Some(1), at) ==> {
                    &&& event.state.count == state.taps[at].count
                    &&& outcome.state.taps == state.taps.update(
                        at,
                        TapState { up_time: input.time, ..state.taps[at] },
                    )
                }
                &&& is_none_of(state.taps, Some(1)) ==> {
                    &&& event.state.count == state.primary.count
                    &&& outcome.state.taps == state.taps
                }
            }
        }),
{
    law_messages_name_their_button(input.msg, input.wparam, rest, number, low);
    let named = crate::pointer::button_of(input.msg, input.wparam);
    assert(named == button);
    let after = state.stamped(input).dropping(button);
    let event = after.button_event(button);
    law_release_event_is_counted(state.taps, event, near, at);
    law_counting_changes_only_counts(state.taps, PointerEventView::Up(event), near);
    if let Some(b) = button {
        assert(b.mask() == bit(b));
    }
    if forall|mask: u32| !after.primary.buttons.contains(mask) {
        assert(after.primary.buttons =~= Set::<u32>::empty());
    }
}

/// The turn of a wheel is a scroll of the mouse where it is: the signed second word of `wparam`
/// says how far, and the system how much a notch is, or three if it says that a notch is a page.
/// The vertical wheel scrolls vertically and with the rotation, the horizontal one horizontally and
/// against it.
pub proof fn law_wheel_scrolls_as_wparam_says(
    state: ReducerView,
    input: Input,
    near: Nearness,
    rest: int,
    rotation: i16,
    low: int,
    value: isize,
)
    requires
        input.msg == WM_MOUSEWHEEL || input.msg == WM_MOUSEHWHEEL,
        input.wparam == (rest * 0x1_0000 + rotation) * 0x1_0000 + low,
        0 <= low < 0x1_0000,
        input.answer == AnswerView::Scroll(value),
    ensures
        ({
            let outcome = state.step(input, near);
            &&& outcome.actions.len() == 0
            &&& outcome.state.primary == at_message(state.primary, input)
            &&& outcome.state.composing == state.composing
            &&& outcome.state.inside == state.inside
            &&& outcome.state.taps == state.taps
            &&& outcome.events.len() == 1
            &&& outcome.events[0] matches EventView::Pointer(PointerEventView::Scroll(event)) && {
                let lines = match event.delta {
                    ScrollDelta::LineDelta(Some(x), None) => x,
                    ScrollDelta::LineDelta(_, Some(y)) => y,
                    ScrollDelta::LineDelta(None, None) => arbitrary(),
                };
                &&& event.pointer == mouse()
                &&& event.state == at_message(state.primary, input)
                &&& event.delta == (if input.msg == WM_MOUSEWHEEL {
                    ScrollDelta::LineDelta(None, Some(lines))
                } else {
                    ScrollDelta::LineDelta(Some(lines), None)
                })
                &&& lines.rotation == rotation
                &&& lines.per_notch == (if value as int % 0x1_0000_0000 == 0xFFFF_FFFF {
                    3int
                } else {
                    value as int
                })
                &&& lines.scaled() == (if input.msg == WM_MOUSEWHEEL {
                    rotation * lines.per_notch
                } else {
                    -(rotation * lines.per_notch)
                })
                &&& lines.reversed == (input.msg == WM_MOUSEHWHEEL)
            }
        }),
{
    let high = rotation as int % 0x1_0000;
    let carry = (rotation as int - high) / 0x1_0000;
    assert(input.wparam == ((rest + carry) * 0x1_0000 + high) * 0x1_0000 + low);
    law_words_make_up_a_number(rest + carry, high, low);
}

/// Whether the only trace that a message leaves in the state is that the pointer is brought up to
/// it.
pub open spec fn only_stamped(before: ReducerView, input: Input, after: ReducerView) -> bool {
    &&& after.primary == at_message(before.primary, input)
    &&& after.composing == before.composing
    &&& after.inside == before.inside
    &&& after.taps == before.taps
}

/// A key message is handed on as it was translated.
pub proof fn law_key_is_handed_on(
    state: ReducerView,
    input: Input,
    near: Nearness,
    key: KeyboardEvent,
)
    requires
        input.msg == WM_KEYDOWN || input.msg == WM_KEYUP || input.msg == WM_SYSKEYDOWN || input.msg
            == WM_SYSKEYUP,
        input.answer == AnswerView::Key(key),
    ensures
        ({
            let outcome = state.step(input, near);
            &&& outcome.events == seq![EventView::Keyboard(key)]
            &&& outcome.actions.len() == 0
            &&& only_stamped(state, input, outcome.state)
        }),
{
}

/// The text events of a composition message are handed on all and in order, behind the end of the
/// composition if there was one and the first of them commits it. There is a composition afterwards
/// exactly if the first event updates it.
pub proof fn law_text_is_handed_on(
    state: ReducerView,
    input: Input,
    near: Nearness,
    texts: Seq<TextInputView>,
)
    requires
        input.msg == WM_IME_COMPOSITION,
        input.answer == AnswerView::Text(Some(texts)),
    ensures
        ({
            let outcome = state.step(input, near);
            let first = if texts.len() == 0 {
                None
            } else {
                Some(texts[0])
            };
            let ends = state.composing && first matches Some(TextInputView::Insert(_));
            &&& outcome.actions.len() == 0
            &&& outcome.events.len() == 1
            &&& outcome.events[0] matches EventView::Text(batch) && {
                &&& ends ==> batch.len() == texts.len() + 1 && batch[0]
                    == TextInputView::CompositionEnd && batch.skip(1) == texts
                &&& !ends ==> batch == texts
            }
            &&& only_stamped(
                state,
                input,
                ReducerView { composing: state.composing, ..outcome.state },
            )
            &&& outcome.state.composing == (first matches Some(
                TextInputView::CompositionUpdate(_, _),
            ))
        }),
{
}

/// A composition message without a translation leaves no trace.
pub proof fn law_untranslated_text_is_ignored(state: ReducerView, input: Input, near: Nearness)
    requires
        input.msg == WM_IME_COMPOSITION,
        input.answer == AnswerView::Text(None),
    ensures
        ({
            let outcome = state.step(input, near);
            &&& outcome.events.len() == 0
            &&& outcome.actions.len() == 0
            &&& only_stamped(state, input, outcome.state)
        }),
{
}

/// The end of a composition is reported if there was one, and there is none afterwards.
pub proof fn law_end_of_composition_is_reported(state: ReducerView, input: Input, near: Nearness)
    requires
        input.msg == WM_IME_ENDCOMPOSITION,
    ensures
        ({
            let outcome = state.step(input, near);
            &&& state.composing ==> outcome.events == seq![
                EventView::Text(seq![TextInputView::CompositionEnd]),
            ]
            &&& !state.composing ==> outcome.events.len() == 0
            &&& outcome.actions.len() == 0
            &&& !outcome.state.composing
            &&& only_stamped(
                state,
                input,
                ReducerView { composing: state.composing, ..outcome.state },
            )
        }),
{
}

/// Any other message leaves no trace.
pub proof fn law_other_messages_are_ignored(state: ReducerView, input: Input, near: Nearness)
    requires
        state.accepts(input, near),
        input.msg != WM_KEYDOWN && input.msg != WM_KEYUP && input.msg != WM_SYSKEYDOWN,
        input.msg != WM_SYSKEYUP && input.msg != WM_IME_COMPOSITION,
        input.msg != WM_IME_ENDCOMPOSITION && input.msg != WM_MOUSEMOVE,
        input.msg != WM_MOUSELEAVE && input.msg != WM_MOUSEWHEEL && input.msg != WM_MOUSEHWHEEL,
        input.msg != WM_LBUTTONDOWN && input.msg != WM_RBUTTONDOWN && input.msg != WM_MBUTTONDOWN,
        input.msg != WM_XBUTTONDOWN && input.msg != WM_LBUTTONUP && input.msg != WM_RBUTTONUP,
        input.msg != WM_MBUTTONUP && input.msg != WM_XBUTTONUP && input.msg != WM_TOUCH,
    ensures
        ({
            let outcome = state.step(input, near);
            &&& outcome.events.len() == 0
            &&& outcome.actions.len() == 0
            &&& only_stamped(state, input, outcome.state)
        }),
{
}

/// What is neither a button going down nor a touch message is accepted exactly if time does not run
/// backwards and the answer is of the kind that the message asks for.
pub proof fn law_most_messages_are_accepted(state: ReducerView, input: Input, near: Nearness)
    requires
        input.msg != WM_LBUTTONDOWN && input.msg != WM_RBUTTONDOWN && input.msg != WM_MBUTTONDOWN,
        input.msg != WM_XBUTTONDOWN && input.msg != WM_TOUCH,
    ensures
        state.accepts(input, near) <==> {
            let msg = input.msg;
            &&& state.primary.time <= input.time
            &&& if msg == WM_KEYDOWN || msg == WM_KEYUP || msg == WM_SYSKEYDOWN || msg
                == WM_SYSKEYUP {
                input.answer is Key
            } else if msg == WM_IME_COMPOSITION {
                input.answer is Text
            } else if msg == WM_MOUSEWHEEL || msg == WM_MOUSEHWHEEL {
                input.answer is Scroll
            } else {
                input.answer is Nothing
            }
        },
{
}

/// The pointer of the touch contact that Windows numbers `id`: contacts are numbered from one on,
/// so that none is zero.
pub open spec fn finger(id: u32) -> PointerInfo {
    PointerInfo {
        pointer_id: Some((id + 1) as u64),
        persistent_device_id: None,
        pointer_type: PointerType::Touch,
    }
}

/// The state of a touch contact in a message, but for its count: where the contact is, with no
/// button, and with pressure unless the bit of being lifted is set.
pub open spec fn finger_state(input: Input, contact: TouchContact, count: u8) -> PointerStateView {
    PointerStateView {
        time: input.time,
        position: contact.position,
        buttons: Set::empty(),
        modifiers: input.modifiers,
        count,
        pressure: if contact.flags / 4 % 2 == 1 {
            Pressure::Zero
        } else {
            Pressure::Half
        },
        scale_factor: input.scale_factor,
    }
}

/// Whether a pointer event is what becomes of a touch contact: a press exactly if the bit with the
/// value 2 is set in its flags, or else a release exactly if the bit with the value 4 is set, or
/// else a motion, whatever the other bits are.
pub open spec fn is_event_of(event: EventView, input: Input, contact: TouchContact) -> bool {
    let down = contact.flags / 2 % 2 == 1;
    let up = contact.flags / 4 % 2 == 1;
    match event {
        EventView::Pointer(PointerEventView::Down(event)) => {
            &&& down
            &&& event.button is None
            &&& event.pointer == finger(contact.id)
            &&& event.state == finger_state(input, contact, event.state.count)
        },
        EventView::Pointer(PointerEventView::Up(event)) => {
            &&& !down && up
            &&& event.button is None
            &&& event.pointer == finger(contact.id)
            &&& event.state == finger_state(input, contact, event.state.count)
        },
        EventView::Pointer(PointerEventView::Move(update)) => {
            &&& !down && !up
            &&& update.pointer == finger(contact.id)
            &&& update.current == finger_state(input, contact, update.current.count)
            &&& update.coalesced.len() == 0
            &&& update.predicted.len() == 0
        },
        _ => false,
    }
}

/// The bits of the flags of a contact, as digits.
proof fn lemma_contact_bits(flags: u32)
    ensures
        flags & 0x2 != 0 <==> flags / 2 % 2 == 1,
        flags & 0x4 != 0 <==> flags / 4 % 2 == 1,
{
    assert(flags & 0x2 != 0 <==> flags / 2 % 2 == 1) by (bit_vector);
    assert(flags & 0x4 != 0 <==> flags / 4 % 2 == 1) by (bit_vector);
}

/// A contact becomes its event.
proof fn lemma_contact_event(state: ReducerView, input: Input, contact: TouchContact)
    ensures
        is_event_of(
            EventView::Pointer(contact_event(state.stamped(input).primary, contact)),
            input,
            contact,
        ),
{
    lemma_contact_bits(contact.flags);
}

/// The events of a touch message are what becomes of its contacts, one each and in order. The
/// handle is closed, and nothing but the taps and what every message brings is changed.
pub proof fn law_contacts_become_events(
    state: ReducerView,
    input: Input,
    near: Nearness,
    contacts: Seq<TouchContact>,
)
    requires
        input.msg == WM_TOUCH,
        input.answer == AnswerView::Touch(Some(contacts)),
    ensures
        ({
            let outcome = state.step(input, near);
            &&& outcome.events.len() == contacts.len()
            &&& forall|i: int|
                0 <= i < contacts.len() ==> is_event_of(
                    #[trigger] outcome.events[i],
                    input,
                    contacts[i],
                )
            &&& outcome.actions == seq![Action::CloseTouchInputHandle]
            &&& only_stamped(state, input, ReducerView { taps: state.taps, ..outcome.state })
        }),
{
    let outcome = state.step(input, near);
    let primary = state.stamped(input).primary;
    assert forall|i: int| 0 <= i < contacts.len() implies is_event_of(
        #[trigger] outcome.events[i],
        input,
        contacts[i],
    ) by {
        let before = contact_taps(state.taps, primary, contacts.take(i), near);
        let event = contact_event(primary, contacts[i]);
        lemma_contact_event(state, input, contacts[i]);
        law_counting_changes_only_counts(before, event, near);
    }
}

/// A touch message whose contacts cannot be had has its handle closed and comes to nothing else.
pub proof fn law_unreadable_touch_is_closed(state: ReducerView, input: Input, near: Nearness)
    requires
        input.msg == WM_TOUCH,
        input.answer == AnswerView::Touch(None),
    ensures
        ({
            let outcome = state.step(input, near);
            &&& outcome.events.len() == 0
            &&& outcome.actions == seq![Action::CloseTouchInputHandle]
            &&& only_stamped(state, input, outcome.state)
            &&& state.accepts(input, near) <==> state.primary.time <= input.time
        }),
{
}

/// The message with other contacts.
pub open spec fn with_contacts(input: Input, contacts: Seq<TouchContact>) -> Input {
    Input { answer: AnswerView::Touch(Some(contacts)), ..input }
}

/// The contacts of a touch message come to what they come to when they are reported one message
/// after the other: the last contact, to what it comes to after the others.
pub proof fn law_contacts_count_one_after_the_other(
    state: ReducerView,
    input: Input,
    near: Nearness,
    contacts: Seq<TouchContact>,
    contact: TouchContact,
)
    requires
        input.msg == WM_TOUCH,
    ensures
        ({
            let both = with_contacts(input, contacts.push(contact));
            let first = with_contacts(input, contacts);
            let second = with_contacts(input, seq![contact]);
            let between = state.step(first, near).state;
            &&& state.step(both, near).state == between.step(second, near).state
            &&& state.step(both, near).events == state.step(first, near).events + between.step(
                second,
                near,
            ).events
            &&& state.accepts(both, near) <==> state.accepts(first, near) && between.accepts(
                second,
                near,
            )
        }),
{
    let both = with_contacts(input, contacts.push(contact));
    let first = with_contacts(input, contacts);
    let second = with_contacts(input, seq![contact]);
    let between = state.step(first, near).state;
    let all = contacts.push(contact);
    let primary = state.stamped(input).primary;
    assert(between.stamped(second).primary == primary);
    assert(all.drop_last() =~= contacts);
    assert(seq![contact].drop_last() =~= Seq::<TouchContact>::empty());
    assert(seq![contact].take(0) =~= Seq::<TouchContact>::empty());
    assert(contact_taps(between.taps, primary, Seq::<TouchContact>::empty(), near)
        == between.taps);
    assert forall|i: int| 0 <= i <= contacts.len() implies #[trigger] all.take(i) == contacts.take(
        i,
    ) by {
        assert(all.take(i) =~= contacts.take(i));
    }
    assert(contacts.take(contacts.len() as int) =~= contacts);
    assert(between.taps == contact_taps(state.taps, primary, contacts, near));
    assert(state.step(both, near).events =~= state.step(first, near).events + between.step(
        second,
        near,
    ).events);
    lemma_countable_one_after_the_other(state.taps, primary, near, contacts, contact);
}

/// Contacts can be counted if all but the last can, and then the last.
proof fn lemma_countable_one_after_the_other(
    taps: Seq<TapState>,
    primary: PointerStateView,
    near: Nearness,
    contacts: Seq<TouchContact>,
    contact: TouchContact,
)
    ensures
        contacts_countable(taps, primary, contacts.push(contact), near) <==> contacts_countable(
            taps,
            primary,
            contacts,
            near,
        ) && contacts_countable(
            contact_taps(taps, primary, contacts, near),
            primary,
            seq![contact],
            near,
        ),
{
    let all = contacts.push(contact);
    let before = contact_taps(taps, primary, contacts, near);
    let n = contacts.len() as int;
    assert forall|i: int| 0 <= i <= n implies #[trigger] all.take(i) == contacts.take(i) by {
        assert(all.take(i) =~= contacts.take(i));
    }
    assert(contacts.take(n) =~= contacts);
    assert(seq![contact].take(0) =~= Seq::<TouchContact>::empty());
    assert(contact_taps(before, primary, Seq::<TouchContact>::empty(), near) == before);
    assert(contacts_countable(before, primary, seq![contact], near) <==> countable(
        before,
        contact_event(primary, contact),
        near,
    )) by {
        assert(seq![contact][0] == contact);
        assert(contact_event(primary, seq![contact][0]) == contact_event(primary, contact));
    }
    if contacts_countable(taps, primary, all, near) {
        assert forall|i: int| 0 <= i < n implies countable(
            contact_taps(taps, primary, contacts.take(i), near),
            #[trigger] contact_event(primary, contacts[i]),
            near,
        ) by {
            assert(all[i] == contacts[i]);
            assert(contact_event(primary, all[i]) == contact_event(primary, contacts[i]));
        }
        assert(contact_event(primary, all[n]) == contact_event(primary, contact));
    }
    if contacts_countable(taps, primary, contacts, near) && countable(
        before,
        contact_event(primary, contact),
        near,
    ) {
        assert forall|i: int| 0 <= i < all.len() implies countable(
            contact_taps(taps, primary, all.take(i), near),
            #[trigger] contact_event(primary, all[i]),
            near,
        ) by {
            if i < n {
                assert(contact_event(primary, all[i]) == contact_event(primary, contacts[i]));
            }
        }
    }
}

/// A single contact, going down, counts one, or one more than the tap it repeats, and its tap is
/// recorded. Going up, it has the count of the tap that it ends. Moving, it has the count of its
/// tap that is down.
pub proof fn law_single_contact_is_counted(
    state: ReducerView,
    input: Input,
    near: Nearness,
    contact: TouchContact,
    at: int,
)
    requires
        input.msg == WM_TOUCH,
        input.answer == AnswerView::Touch(Some(seq![contact])),
        state.accepts(input, near),
    ensures
        ({
            let outcome = state.step(input, near);
            let id = finger(contact.id).pointer_id;
            let press = Press {
                pointer: finger(contact.id),
                position: contact.position,
                time: input.time,
            };
            &&& outcome.events.len() == 1
            &&& outcome.events[0] matches EventView::Pointer(event) && match event {
                PointerEventView::Down(event) => {
                    let tap = TapState {
                        pointer_id: id,
                        down_time: input.time,
                        up_time: input.time,
                        count: event.state.count,
                        position: contact.position,
                    };
                    &&& is_repeated(press, state.taps, near, at) ==> {
                        &&& event.state.count == state.taps[at].count + 1
                        &&& outcome.state.taps == still_of_use(
                            state.taps.update(at, tap),
                            input.time,
                        )
                    }
                    &&& is_first_press(press, state.taps, near) ==> {
                        &&& event.state.count == 1
                        &&& is_first_of(state.taps, id, at) ==> outcome.state.taps == still_of_use(
                            state.taps.update(at, tap),
                            input.time,
                        )
                        &&& is_none_of(state.taps, id) ==> outcome.state.taps == still_of_use(
                            state.taps.push(tap),
                            input.time,
                        )
                    }
                },
                PointerEventView::Up(event) => {
                    &&& is_first_of(state.taps, id, at) ==> {
                        &&& event.state.count == state.taps[at].count
                        &&& outcome.state.taps == state.taps.update(
                            at,
                            TapState { up_time: input.time, ..state.taps[at] },
                        )
                    }
                    &&& is_none_of(state.taps, id) ==> {
                        &&& event.state.count == 0
                        &&& outcome.state.taps == state.taps
                    }
                },
                PointerEventView::Move(update) => {
                    &&& outcome.state.taps == state.taps
                    &&& is_first_down(state.taps, id, at) ==> update.current.count
                        == state.taps[at].count
                    &&& is_none_down(state.taps, id) ==> update.current.count == 0
                },
                _ => false,
            }
        }),
{
    let primary = state.stamped(input).primary;
    let contacts = seq![contact];
    let event = contact_event(primary, contact);
    assert(contacts.drop_last() =~= Seq::<TouchContact>::empty());
    assert(contacts.take(0) =~= Seq::<TouchContact>::empty());
    assert(contact_taps(state.taps, primary, Seq::<TouchContact>::empty(), near) == state.taps);
    assert(contacts[0] == contact);
    assert(contact_event(primary, contacts[0]) == event);
    assert(countable(state.taps, event, near));
    let result = counted(state.taps, event, near);
    assert(state.step(input, near).state.taps == result.taps);
    assert(state.step(input, near).events[0] == EventView::Pointer(result.event));
    match event {
        PointerEventView::Down(event) => {
            law_press_event_is_counted(state.taps, event, near, at);
        },
        PointerEventView::Up(event) => {
            law_release_event_is_counted(state.taps, event, near, at);
        },
        PointerEventView::Move(update) => {
            law_motion_is_counted(state.taps, update, near, at);
        },
        _ => {},
    }
}

/// A touch message with a single contact is accepted exactly if time does not run backwards and,
/// where the contact goes down, the press can be counted; one without contacts, if time does not
/// run backwards.
pub proof fn law_single_contact_is_accepted(
    state: ReducerView,
    input: Input,
    near: Nearness,
    contact: TouchContact,
)
    requires
        input.msg == WM_TOUCH,
    ensures
        state.accepts(with_contacts(input, seq![contact]), near) <==> {
            &&& state.primary.time <= input.time
            &&& contact.flags / 2 % 2 == 1 ==> (Press {
                pointer: finger(contact.id),
                position: contact.position,
                time: input.time,
            }).in_range(state.taps, near)
        },
        state.accepts(with_contacts(input, seq![]), near) <==> state.primary.time <= input.time,
{
    lemma_contact_bits(contact.flags);
    let primary = state.stamped(input).primary;
    let contacts = seq![contact];
    assert(contacts.take(0) =~= Seq::<TouchContact>::empty());
    assert(contact_taps(state.taps, primary, Seq::<TouchContact>::empty(), near) == state.taps);
    assert(contact_event(primary, contacts[0]) == contact_event(primary, contact));
}

/// A touch message is accepted only with contacts, or with the news that there are none to be had.
pub proof fn law_touch_is_answered_by_contacts(state: ReducerView, input: Input, near: Nearness)
    requires
        input.msg == WM_TOUCH,
        state.accepts(input, near),
    ensures
        input.answer is Touch,
{
}

} // verus!
