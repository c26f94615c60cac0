//! Click and tap counting.

use ui_events_windows::event::{PointerButton, PointerInfo, PointerType, Position};
use ui_events_windows::pointer::{button_from_win32, slop, TapState, TAP_TIMEOUT};
use ui_events_windows::taps::TapCounter;
use ui_events_windows::win32::{
    WM_KEYDOWN, WM_LBUTTONDOWN, WM_LBUTTONUP, WM_MBUTTONDOWN, WM_MBUTTONUP, WM_RBUTTONDOWN,
    WM_RBUTTONUP, WM_XBUTTONDOWN, WM_XBUTTONUP,
};

const MS: u64 = 1_000_000;

fn mouse() -> PointerInfo {
    PointerInfo {
        pointer_id: Some(1),
        persistent_device_id: None,
        pointer_type: PointerType::Mouse,
    }
}

fn finger(id: u64) -> PointerInfo {
    PointerInfo {
        pointer_id: Some(id),
        persistent_device_id: None,
        pointer_type: PointerType::Touch,
    }
}

fn at(x: i32, y: i32) -> Position {
    Position { x, y }
}

fn near(anchor: Position, point: Position, slop: u32) -> bool {
    let (dx, dy) = (f64::from(anchor.x - point.x), f64::from(anchor.y - point.y));
    dx.hypot(dy) < f64::from(slop) * std::f64::consts::SQRT_2
}

#[test]
fn buttons_of_messages() {
    assert_eq!(button_from_win32(WM_LBUTTONDOWN, 0), Some(PointerButton::Primary));
    assert_eq!(button_from_win32(WM_LBUTTONUP, 0x2_0000), Some(PointerButton::Primary));
    assert_eq!(button_from_win32(WM_RBUTTONDOWN, 0), Some(PointerButton::Secondary));
    assert_eq!(button_from_win32(WM_RBUTTONUP, 0), Some(PointerButton::Secondary));
    assert_eq!(button_from_win32(WM_MBUTTONDOWN, 0), Some(PointerButton::Auxiliary));
    assert_eq!(button_from_win32(WM_MBUTTONUP, 0), Some(PointerButton::Auxiliary));
    assert_eq!(button_from_win32(WM_XBUTTONDOWN, 0x1_0020), Some(PointerButton::X1));
    assert_eq!(button_from_win32(WM_XBUTTONUP, 0x2_0040), Some(PointerButton::X2));
    assert_eq!(button_from_win32(WM_XBUTTONDOWN, 0x3_0000), None);
    assert_eq!(button_from_win32(WM_XBUTTONDOWN, 0x1), None);
    assert_eq!(button_from_win32(WM_KEYDOWN, 0x1_0000), None);
}

#[test]
fn slops_of_devices() {
    assert_eq!(slop(PointerType::Touch), 12);
    assert_eq!(slop(PointerType::Pen), 6);
    assert_eq!(slop(PointerType::Mouse), 2);
    assert_eq!(slop(PointerType::Unknown), 2);
}

#[test]
fn validity_of_taps() {
    let tap = TapState { pointer_id: Some(1), down_time: 5, up_time: 7, count: 1, position: at(0, 0) };
    assert!(!tap.is_down());
    assert!(tap.is_valid_for(7 + TAP_TIMEOUT - 1));
    assert!(!tap.is_valid_for(7 + TAP_TIMEOUT));
    assert!(tap.pointer_is(Some(1)));
    assert!(!tap.pointer_is(Some(2)));
    assert!(!tap.pointer_is(None));
    assert!(TapState { up_time: 5, ..tap }.is_down());
}

#[test]
fn repeated_presses_count_up() {
    let mut counter = TapCounter::new();
    for n in 1..=4_u8 {
        let time = u64::from(n) * 300 * MS;
        assert_eq!(counter.press(mouse(), at(10, 10), time, &near), Some(n));
        assert_eq!(counter.drag(Some(1)), Some(n));
        assert_eq!(counter.release(Some(1), time + 50 * MS), Some(n));
        assert_eq!(counter.drag(Some(1)), None);
    }
}

#[test]
fn late_press_starts_over() {
    let mut counter = TapCounter::new();
    assert_eq!(counter.press(mouse(), at(0, 0), 0, &near), Some(1));
    assert_eq!(counter.release(Some(1), 10 * MS), Some(1));
    assert_eq!(counter.press(mouse(), at(0, 0), 10 * MS + TAP_TIMEOUT, &near), Some(1));
    assert_eq!(counter.release(Some(1), 20 * MS + TAP_TIMEOUT), Some(1));
    assert_eq!(counter.press(mouse(), at(0, 0), 20 * MS + 2 * TAP_TIMEOUT - 1, &near), Some(2));
}

#[test]
fn distant_press_starts_over() {
    let mut counter = TapCounter::new();
    assert_eq!(counter.press(mouse(), at(0, 0), 0, &near), Some(1));
    assert_eq!(counter.release(Some(1), MS), Some(1));
    assert_eq!(counter.press(mouse(), at(3, 0), 2 * MS, &near), Some(1));
    // The anchor moved along.
    assert_eq!(counter.release(Some(1), 3 * MS), Some(1));
    assert_eq!(counter.press(mouse(), at(4, 1), 4 * MS, &near), Some(2));
}

#[test]
fn touch_is_more_forgiving_than_the_mouse() {
    let mut counter = TapCounter::new();
    assert_eq!(counter.press(finger(5), at(0, 0), 0, &near), Some(1));
    assert_eq!(counter.release(Some(5), MS), Some(1));
    assert_eq!(counter.press(finger(6), at(12, 11), 2 * MS, &near), Some(2));
    // The tap now belongs to the second contact.
    assert_eq!(counter.release(Some(5), 3 * MS), None);
    assert_eq!(counter.release(Some(6), 3 * MS), Some(2));
}

#[test]
fn pointers_are_counted_apart() {
    let mut counter = TapCounter::new();
    assert_eq!(counter.press(finger(2), at(0, 0), 0, &near), Some(1));
    assert_eq!(counter.press(finger(3), at(100, 0), MS, &near), Some(1));
    assert_eq!(counter.release(Some(2), 2 * MS), Some(1));
    assert_eq!(counter.press(finger(2), at(0, 0), 3 * MS, &near), Some(2));
    assert_eq!(counter.drag(Some(2)), Some(2));
    assert_eq!(counter.drag(Some(3)), Some(1));
    assert_eq!(counter.drag(None), None);
}

#[test]
fn expired_taps_are_forgotten() {
    let mut counter = TapCounter::new();
    assert_eq!(counter.press(finger(2), at(0, 0), 0, &near), Some(1));
    assert_eq!(counter.release(Some(2), MS), Some(1));
    assert_eq!(counter.press(finger(3), at(500, 0), 10 * MS, &near), Some(1));
    counter.clear_expired_taps(MS + TAP_TIMEOUT);
    assert_eq!(counter.release(Some(2), 2 * TAP_TIMEOUT), None);
    // A tap that is down does not expire.
    counter.clear_expired_taps(1000 * TAP_TIMEOUT);
    assert_eq!(counter.drag(Some(3)), Some(1));
}

#[test]
fn departure_keeps_the_taps_of_the_pointer() {
    let mut counter = TapCounter::new();
    assert_eq!(counter.press(finger(2), at(0, 0), 0, &near), Some(1));
    assert_eq!(counter.press(mouse(), at(100, 100), 0, &near), Some(1));
    let before = counter.duplicate();
    counter.depart(Some(1));
    assert_eq!(counter.drag(Some(1)), Some(1));
    assert_eq!(counter.drag(Some(2)), None);
    assert_eq!(before.drag(Some(2)), Some(1));
}

#[test]
fn counts_do_not_overflow() {
    let mut counter = TapCounter::new();
    for n in 1..=255_u8 {
        assert_eq!(counter.press(mouse(), at(0, 0), u64::from(n), &near), Some(n));
    }
    let before = counter.duplicate();
    assert_eq!(counter.press(mouse(), at(0, 0), 256, &near), None);
    assert_eq!(counter, before);
    assert_eq!(counter.press(mouse(), at(9, 9), 256, &near), Some(1));
}

#[test]
fn times_do_not_overflow() {
    let end = u64::MAX - TAP_TIMEOUT;
    let mut counter = TapCounter::new();
    assert_eq!(counter.press(mouse(), at(0, 0), end, &near), Some(1));
    assert_eq!(counter.release(Some(1), end + 1), Some(1));
    // The press would have to be compared with a deadline that is no time.
    let before = counter.duplicate();
    assert_eq!(counter.press(mouse(), at(0, 0), end + 2, &near), None);
    assert_eq!(counter.press(finger(2), at(99, 99), end + 2, &near), None);
    assert_eq!(counter, before);
    // A press elsewhere takes the place of the tap without looking at its deadline.
    assert_eq!(counter.press(mouse(), at(50, 50), end + 2, &near), Some(1));
}
