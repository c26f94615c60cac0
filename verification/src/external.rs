//! What the crate takes from `ui-events` and from the standard library without proof.

use ui_events::keyboard::KeyboardEvent;
use ui_events::pointer::{PointerButtons, PointerId};
use vstd::prelude::*;

use crate::event::PointerButton;

verus! {

/// A translated key press or release, which this crate hands on without looking inside.
#[verifier::external_type_specification]
#[verifier::external_body]
pub struct ExKeyboardEvent(KeyboardEvent);

/// A set of pointer buttons; [`held`] names what it contains.
#[verifier::external_type_specification]
#[verifier::external_body]
pub struct ExPointerButtons(PointerButtons);

/// The masks of the buttons in `buttons`: the powers of two below 2^32 that the set contains,
/// each being the discriminant of a button.
pub uninterp spec fn held(buttons: PointerButtons) -> Set<u32>;

/// Calls `PointerButtons::new`, which makes the empty set.
#[verifier::external_body]
pub(crate) fn no_buttons() -> (buttons: PointerButtons)
    ensures
        held(buttons) == Set::<u32>::empty(),
{
    PointerButtons::new()
}

/// Calls `PointerButtons::insert`, which adds one button to the set and changes nothing else.
#[verifier::external_body]
pub(crate) fn insert_button(buttons: &mut PointerButtons, button: PointerButton)
    ensures
        held(*final(buttons)) == held(*old(buttons)).insert(button.mask()),
{
    buttons.insert(match button {
        PointerButton::Primary => ui_events::pointer::PointerButton::Primary,
        PointerButton::Secondary => ui_events::pointer::PointerButton::Secondary,
        PointerButton::Auxiliary => ui_events::pointer::PointerButton::Auxiliary,
        PointerButton::X1 => ui_events::pointer::PointerButton::X1,
        PointerButton::X2 => ui_events::pointer::PointerButton::X2,
    })
}

/// Calls `PointerButtons::remove`, which takes one button out of the set, if it is there, and
/// changes nothing else.
#[verifier::external_body]
pub(crate) fn remove_button(buttons: &mut PointerButtons, button: PointerButton)
    ensures
        held(*final(buttons)) == held(*old(buttons)).remove(button.mask()),
{
    buttons.remove(match button {
        PointerButton::Primary => ui_events::pointer::PointerButton::Primary,
        PointerButton::Secondary => ui_events::pointer::PointerButton::Secondary,
        PointerButton::Auxiliary => ui_events::pointer::PointerButton::Auxiliary,
        PointerButton::X1 => ui_events::pointer::PointerButton::X1,
        PointerButton::X2 => ui_events::pointer::PointerButton::X2,
    })
}

/// Calls `PointerButtons::is_empty`, which tells whether the set contains no button.
#[verifier::external_body]
pub(crate) fn no_button_held(buttons: PointerButtons) -> (empty: bool)
    ensures
        empty == (held(buttons) == Set::<u32>::empty()),
{
    buttons.is_empty()
}

/// Calls `PointerId::new` and returns the number inside the identifier: every number but zero
/// makes an identifier, which holds that number.
#[verifier::external_body]
pub(crate) fn pointer_id(n: u64) -> (id: Option<u64>)
    ensures
        id == (if n == 0 {
            None
        } else {
            Some(n)
        }),
{
    PointerId::new(n).map(|id| id.get_inner().get())
}

/// `char::from_u32`: every Unicode scalar value makes the character with that value, and no other
/// number makes a character.
pub assume_specification[ char::from_u32 ](value: u32) -> (c: Option<char>)
    ensures
        c == (if vstd::utf8::is_scalar(value) {
            Some(value as char)
        } else {
            None
        }),
;

/// `String::push` appends one character.
pub assume_specification[ String::push ](text: &mut String, c: char)
    ensures
        final(text)@ == old(text)@.push(c),
;

} // verus!
