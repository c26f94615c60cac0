//! Win32 message numbers, flags and the packing of message parameters.

use vstd::prelude::*;

verus! {

/// A key was pressed.
pub const WM_KEYDOWN: u32 = 0x0100;

/// A key was released.
pub const WM_KEYUP: u32 = 0x0101;

/// A key was pressed while Alt is held.
pub const WM_SYSKEYDOWN: u32 = 0x0104;

/// A key was released while Alt is held.
pub const WM_SYSKEYUP: u32 = 0x0105;

/// The IME is about to compose.
pub const WM_IME_STARTCOMPOSITION: u32 = 0x010D;

/// The IME stopped composing.
pub const WM_IME_ENDCOMPOSITION: u32 = 0x010E;

/// The IME changed its composition.
pub const WM_IME_COMPOSITION: u32 = 0x010F;

/// The cursor moved inside the client area.
pub const WM_MOUSEMOVE: u32 = 0x0200;

/// The left button was pressed.
pub const WM_LBUTTONDOWN: u32 = 0x0201;

/// The left button was released.
pub const WM_LBUTTONUP: u32 = 0x0202;

/// The right button was pressed.
pub const WM_RBUTTONDOWN: u32 = 0x0204;

/// The right button was released.
pub const WM_RBUTTONUP: u32 = 0x0205;

/// The middle button was pressed.
pub const WM_MBUTTONDOWN: u32 = 0x0207;

/// The middle button was released.
pub const WM_MBUTTONUP: u32 = 0x0208;

/// The vertical wheel was turned.
pub const WM_MOUSEWHEEL: u32 = 0x020A;

/// An extended button was pressed.
pub const WM_XBUTTONDOWN: u32 = 0x020B;

/// An extended button was released.
pub const WM_XBUTTONUP: u32 = 0x020C;

/// The horizontal wheel was turned or tilted.
pub const WM_MOUSEHWHEEL: u32 = 0x020E;

/// Touch contacts changed.
pub const WM_TOUCH: u32 = 0x0240;

/// The cursor left the client area.
pub const WM_MOUSELEAVE: u32 = 0x02A3;

/// Rotation of a wheel that is turned by one notch.
pub const WHEEL_DELTA: u32 = 120;

/// System parameter: lines scrolled for one notch of the vertical wheel.
pub const SPI_GETWHEELSCROLLLINES: u32 = 0x0068;

/// System parameter: characters scrolled for one notch of the horizontal wheel.
pub const SPI_GETWHEELSCROLLCHARS: u32 = 0x006C;

/// Touch flag: the contact was just made.
pub const TOUCHEVENTF_DOWN: u32 = 0x0002;

/// Touch flag: the contact was just lifted.
pub const TOUCHEVENTF_UP: u32 = 0x0004;

/// Composition string: the text being composed.
pub const GCS_COMPSTR: u32 = 0x0008;

/// Composition string: one attribute byte for each UTF-16 unit of the text being composed.
pub const GCS_COMPATTR: u32 = 0x0010;

/// Composition string: the position of the cursor in the text being composed.
pub const GCS_CURSORPOS: u32 = 0x0080;

/// Composition string: the text just committed.
pub const GCS_RESULTSTR: u32 = 0x0800;

/// Attribute of a clause that the user selected and the IME converted.
pub const ATTR_TARGET_CONVERTED: u8 = 0x01;

/// Attribute of a clause that the user selected and the IME has not converted.
pub const ATTR_TARGET_NOTCONVERTED: u8 = 0x03;

/// The 16-bit word of `value` that starts at bit `16 * index`, in two's complement.
pub open spec fn word(value: int, index: nat) -> int {
    if index == 0 {
        value % 0x1_0000
    } else {
        (value / 0x1_0000) % 0x1_0000
    }
}

/// The number that a 16-bit word stands for when its top bit is the sign.
pub open spec fn signed_word(word: int) -> int {
    if word < 0x8000 {
        word
    } else {
        word - 0x1_0000
    }
}

/// The low word of `wparam`.
pub fn low_word(wparam: usize) -> (word: usize)
    ensures
        word == self::word(wparam as int, 0),
{
    assert(wparam & 0xffff == wparam % 0x1_0000) by (bit_vector);
    wparam & 0xffff
}

/// The second word of `wparam`.
pub fn high_word(wparam: usize) -> (word: usize)
    ensures
        word == self::word(wparam as int, 1),
{
    assert((wparam >> 16) & 0xffff == (wparam / 0x1_0000) % 0x1_0000) by (bit_vector);
    wparam >> 16 & 0xffff
}

/// The second word of `wparam`, read as a signed number.
pub fn signed_high_word(wparam: usize) -> (value: i16)
    ensures
        value == signed_word(word(wparam as int, 1)),
{
    let shifted: usize = wparam >> 16;
    assert(shifted == wparam / 0x1_0000) by (bit_vector)
        requires
            shifted == wparam >> 16,
    ;
    assert((shifted as i16) == (if shifted % 0x1_0000 < 0x8000 {
        (shifted % 0x1_0000) as int
    } else {
        shifted % 0x1_0000 - 0x1_0000
    })) by (bit_vector);
    shifted as i16
}

/// The low word of `lparam`, read as a signed number.
pub fn signed_low_param(lparam: isize) -> (value: i16)
    ensures
        value == signed_word(word(lparam as int, 0)),
{
    let masked: isize = lparam & 0xffff;
    assert(masked == lparam % 0x1_0000 && 0 <= masked < 0x1_0000) by (bit_vector)
        requires
            masked == lparam & 0xffff,
    ;
    assert(0 <= masked < 0x1_0000 ==> (masked as i16) == (if masked < 0x8000 {
        masked as int
    } else {
        masked - 0x1_0000
    })) by (bit_vector);
    masked as i16
}

/// The second word of `lparam`, read as a signed number.
pub fn signed_high_param(lparam: isize) -> (value: i16)
    ensures
        value == signed_word(word(lparam as int, 1)),
{
    let masked: isize = lparam >> 16 & 0xffff;
    assert(masked == (lparam / 0x1_0000) % 0x1_0000 && 0 <= masked < 0x1_0000) by (bit_vector)
        requires
            masked == (lparam >> 16) & 0xffff,
    ;
    assert(0 <= masked < 0x1_0000 ==> (masked as i16) == (if masked < 0x8000 {
        masked as int
    } else {
        masked - 0x1_0000
    })) by (bit_vector);
    masked as i16
}

/// The low 32 bits of `lparam`.
pub fn low_bits(lparam: isize) -> (bits: u32)
    ensures
        bits == (lparam as int) % 0x1_0000_0000,
{
    let wide: i64 = lparam as i64;
    assert((wide as u32) == wide % 0x1_0000_0000) by (bit_vector);
    wide as u32
}

} // verus!
