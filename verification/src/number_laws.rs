//! What holds of the numbers that messages carry, told without the formulas that read them.

use vstd::prelude::*;
use vstd::utf8::encode_scalar;

use crate::event::{PointerButton, PointerType};
use crate::message::{lines_per_notch, request_of, whole_pixels, KeyState, Request};
use crate::pointer::{button_of, slop, TapState};
use crate::utf16::encode_utf16_char;
use crate::win32::{
    signed_word, word, WM_IME_COMPOSITION, WM_KEYDOWN, WM_KEYUP, WM_LBUTTONDOWN, WM_LBUTTONUP,
    WM_MBUTTONDOWN, WM_MBUTTONUP, WM_MOUSEHWHEEL, WM_MOUSEWHEEL, WM_RBUTTONDOWN, WM_RBUTTONUP,
    WM_SYSKEYDOWN, WM_SYSKEYUP, WM_TOUCH, WM_XBUTTONDOWN, WM_XBUTTONUP,
};

verus! {

/// Every number is made of its words: the low word and the second word are the two lowest digits
/// to the base 2^16.
pub proof fn law_words_make_up_a_number(rest: int, high: int, low: int)
    requires
        0 <= low < 0x1_0000,
        0 <= high < 0x1_0000,
    ensures
        word((rest * 0x1_0000 + high) * 0x1_0000 + low, 0) == low,
        word((rest * 0x1_0000 + high) * 0x1_0000 + low, 1) == high,
{
    let number = (rest * 0x1_0000 + high) * 0x1_0000 + low;
    assert(number / 0x1_0000 == rest * 0x1_0000 + high);
}

/// A word read as a signed number is the number from -2^15 up to 2^15 that differs from it by a
/// multiple of 2^16.
pub proof fn law_signed_word_is_congruent(number: int)
    ensures
        -0x8000 <= number < 0x8000 ==> signed_word(number % 0x1_0000) == number,
{
}

/// A touch coordinate and its pixels, taken as hundredths, differ by less than a pixel, and the
/// pixels are no further from zero.
pub proof fn law_pixels_are_whole_hundredths(coordinate: int)
    ensures
        coordinate >= 0 ==> 0 <= coordinate - 100 * whole_pixels(coordinate) < 100,
        coordinate <= 0 ==> -100 < coordinate - 100 * whole_pixels(coordinate) <= 0,
{
}

/// The system parameter is what a notch scrolls, unless all its low 32 bits are set: then a notch
/// scrolls three lines or characters.
pub proof fn law_notch_scrolls_what_the_system_says(value: isize, rest: int, low: int)
    requires
        value == rest * 0x1_0000_0000 + low,
        0 <= low < 0x1_0000_0000,
    ensures
        low == 0xFFFF_FFFF ==> lines_per_notch(value) == 3,
        low != 0xFFFF_FFFF ==> lines_per_notch(value) == value,
{
    assert(value as int % 0x1_0000_0000 == low);
}

/// The slop is 12 for touch, 6 for a pen, and 2 for any other device.
pub proof fn law_slop_of_devices(pointer_type: PointerType)
    ensures
        pointer_type == PointerType::Touch ==> slop(pointer_type) == 12,
        pointer_type == PointerType::Pen ==> slop(pointer_type) == 6,
        pointer_type != PointerType::Touch && pointer_type != PointerType::Pen ==> slop(
            pointer_type,
        ) == 2,
{
}

/// A tap can be repeated until half a second after it went up, is down as long as it has not gone
/// up at a later time than it went down, and belongs to one pointer alone.
pub proof fn law_tap_lasts_half_a_second(tap: TapState, time: u64, pointer_id: Option<u64>)
    ensures
        tap.valid_at(time) <==> time - tap.up_time < 500_000_000,
        tap.has_deadline() <==> u64::MAX - tap.up_time >= 500_000_000,
        tap.is_down() <==> tap.up_time == tap.down_time,
        tap.pointer_is(pointer_id) <==> tap.pointer_id == pointer_id,
{
}

/// The left, right and middle button messages name their button whatever `wparam` is, an extended
/// button message names the one that the second word of `wparam` numbers, and no other message
/// names any.
pub proof fn law_messages_name_their_button(
    msg: u32,
    wparam: usize,
    rest: int,
    number: int,
    low: int,
)
    requires
        wparam == (rest * 0x1_0000 + number) * 0x1_0000 + low,
        0 <= low < 0x1_0000,
        0 <= number < 0x1_0000,
    ensures
        button_of(msg, wparam) == Some(PointerButton::Primary) <==> msg == WM_LBUTTONDOWN || msg
            == WM_LBUTTONUP,
        button_of(msg, wparam) == Some(PointerButton::Secondary) <==> msg == WM_RBUTTONDOWN || msg
            == WM_RBUTTONUP,
        button_of(msg, wparam) == Some(PointerButton::Auxiliary) <==> msg == WM_MBUTTONDOWN || msg
            == WM_MBUTTONUP,
        button_of(msg, wparam) == Some(PointerButton::X1) <==> (msg == WM_XBUTTONDOWN || msg
            == WM_XBUTTONUP) && number == 1,
        button_of(msg, wparam) == Some(PointerButton::X2) <==> (msg == WM_XBUTTONDOWN || msg
            == WM_XBUTTONUP) && number == 2,
{
    law_words_make_up_a_number(rest, number, low);
}

/// The buttons stand for five different powers of two, in order.
pub proof fn law_buttons_have_different_masks()
    ensures
        PointerButton::Primary.mask() == 1,
        PointerButton::Secondary.mask() == 2,
        PointerButton::Auxiliary.mask() == 4,
        PointerButton::X1.mask() == 8,
        PointerButton::X2.mask() == 16,
{
}

/// What a message asks for: a key message its key, a composition message the text, a wheel message
/// the system parameter of its wheel, a touch message as many contacts as the low word of `wparam`
/// says, and any other message nothing.
pub proof fn law_messages_ask_for_what_they_need(msg: u32, wparam: usize, rest: int, count: int)
    requires
        wparam == rest * 0x1_0000 + count,
        0 <= count < 0x1_0000,
    ensures
        request_of(msg, wparam) == Request::Key(KeyState::Down) <==> msg == WM_KEYDOWN || msg
            == WM_SYSKEYDOWN,
        request_of(msg, wparam) == Request::Key(KeyState::Up) <==> msg == WM_KEYUP || msg
            == WM_SYSKEYUP,
        request_of(msg, wparam) == Request::Text <==> msg == WM_IME_COMPOSITION,
        request_of(msg, wparam) == Request::Scroll(104) <==> msg == WM_MOUSEWHEEL,
        request_of(msg, wparam) == Request::Scroll(108) <==> msg == WM_MOUSEHWHEEL,
        request_of(msg, wparam) == Request::Touch(count as usize) <==> msg == WM_TOUCH,
        request_of(msg, wparam) == Request::Nothing || msg == WM_KEYDOWN || msg == WM_SYSKEYDOWN
            || msg == WM_KEYUP || msg == WM_SYSKEYUP || msg == WM_IME_COMPOSITION || msg
            == WM_MOUSEWHEEL || msg == WM_MOUSEHWHEEL || msg == WM_TOUCH,
{
}

/// A character takes as many bytes of UTF-8 and units of UTF-16 as its scalar value calls for.
pub proof fn law_lengths_of_characters(c: char)
    ensures
        ({
            let scalar = c as u32;
            &&& encode_scalar(scalar).len() == (if scalar < 0x80 {
                1int
            } else if scalar < 0x800 {
                2
            } else if scalar < 0x1_0000 {
                3
            } else {
                4
            })
            &&& encode_utf16_char(c).len() == (if scalar < 0x1_0000 {
                1int
            } else {
                2
            })
        }),
{
    vstd::utf8::char_is_scalar(c);
}

} // verus!
