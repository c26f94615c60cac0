//! Mouse buttons, and the counting of clicks and taps.

use vstd::prelude::*;

use crate::event::{PointerButton, PointerType, Position};
use crate::win32::{
    high_word, word, WM_LBUTTONDOWN, WM_LBUTTONUP, WM_MBUTTONDOWN, WM_MBUTTONUP, WM_RBUTTONDOWN,
    WM_RBUTTONUP, WM_XBUTTONDOWN, WM_XBUTTONUP,
};

verus! {

/// Nanoseconds within which a further tap counts as a repetition.
pub const TAP_TIMEOUT: u64 = 500_000_000;

/// The button that a message is about, read off its number and its `wparam`.
pub open spec fn button_of(msg: u32, wparam: usize) -> Option<PointerButton> {
    if msg == WM_LBUTTONDOWN || msg == WM_LBUTTONUP {
        Some(PointerButton::Primary)
    } else if msg == WM_RBUTTONDOWN || msg == WM_RBUTTONUP {
        Some(PointerButton::Secondary)
    } else if msg == WM_MBUTTONDOWN || msg == WM_MBUTTONUP {
        Some(PointerButton::Auxiliary)
    } else if msg != WM_XBUTTONDOWN && msg != WM_XBUTTONUP {
        None
    } else if word(wparam as int, 1) == 1 {
        Some(PointerButton::X1)
    } else if word(wparam as int, 1) == 2 {
        Some(PointerButton::X2)
    } else {
        None
    }
}

/// The button that a message is about, if it is a button message that names a known button.
pub fn button_from_win32(msg: u32, wparam: usize) -> (button: Option<PointerButton>)
    ensures
        button == button_of(msg, wparam),
{
    if msg == WM_LBUTTONDOWN || msg == WM_LBUTTONUP {
        Some(PointerButton::Primary)
    } else if msg == WM_RBUTTONDOWN || msg == WM_RBUTTONUP {
        Some(PointerButton::Secondary)
    } else if msg == WM_MBUTTONDOWN || msg == WM_MBUTTONUP {
        Some(PointerButton::Auxiliary)
    } else if msg == WM_XBUTTONDOWN || msg == WM_XBUTTONUP {
        // The first extended button is defined as back, the second as forward.
        match high_word(wparam) {
            1 => Some(PointerButton::X1),
            2 => Some(PointerButton::X2),
            _ => None,
        }
    } else {
        None
    }
}

/// How far from the anchor of a tap a repetition may land, in logical pixels to each side.
///
/// The radius of the circle that is tested is this distance times the square root of two times the
/// scale factor.
#[verifier::allow_in_spec]
pub fn slop(pointer_type: PointerType) -> (slop: u32)
    returns
        (match pointer_type {
            PointerType::Touch => 12u32,
            PointerType::Pen => 6u32,
            _ => 2u32,
        }),
{
    match pointer_type {
        // On the low side of double tap slop, which works on touchscreen laptops.
        PointerType::Touch => 12,
        PointerType::Pen => 6,
        // Slightly more forgiving than the default on Windows for mice. Windows tests a box around
        // the anchor; a circle makes the devices more alike.
        _ => 2,
    }
}

/// Repetition state of a pointer.
#[derive(Clone, Copy, Debug, PartialEq, Eq, Structural)]
pub struct TapState {
    /// The pointer that tapped.
    pub pointer_id: Option<u64>,
    /// Nanosecond timestamp when the tap went down.
    pub down_time: u64,
    /// Nanosecond timestamp when the tap went up; equals `down_time` until then.
    pub up_time: u64,
    /// Number of taps as of the last press.
    pub count: u8,
    /// Where the tap went down.
    pub position: Position,
}

impl TapState {
    /// A tap that goes down at `time`.
    pub open spec fn pressed(
        pointer_id: Option<u64>,
        position: Position,
        time: u64,
        count: u8,
    ) -> TapState {
        TapState { pointer_id, down_time: time, up_time: time, count, position }
    }

    /// Whether the tap can still be repeated at `time`.
    pub open spec fn valid_at(self, time: u64) -> bool {
        self.up_time + TAP_TIMEOUT > time
    }

    /// Whether the end of the tap's validity is a representable time.
    pub open spec fn has_deadline(self) -> bool {
        self.up_time + TAP_TIMEOUT <= u64::MAX
    }

    /// Whether the tap belongs to the pointer `pointer_id`.
    #[verifier::allow_in_spec]
    pub fn pointer_is(&self, pointer_id: Option<u64>) -> (same: bool)
        returns
            self.pointer_id == pointer_id,
    {
        self.pointer_id == pointer_id
    }

    /// Whether the tap has not gone up yet.
    #[verifier::allow_in_spec]
    pub fn is_down(&self) -> (down: bool)
        returns
            self.down_time == self.up_time,
    {
        self.down_time == self.up_time
    }

    /// Whether the tap can still be repeated at `time`.
    pub fn is_valid_for(&self, time: u64) -> (valid: bool)
        requires
            self.has_deadline(),
        ensures
            valid == self.valid_at(time),
    {
        self.up_time + TAP_TIMEOUT > time
    }
}

} // verus!
