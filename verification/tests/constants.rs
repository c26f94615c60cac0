//! The numbers of this crate are those of the Windows headers and of the event model.

use ui_events::pointer::PointerId;
use ui_events_windows::event::{PRIMARY_POINTER, UNIT_SCALE};
use ui_events_windows::win32;
use windows_sys::Win32::UI::Controls::WM_MOUSELEAVE;
use windows_sys::Win32::UI::Input::Ime;
use windows_sys::Win32::UI::Input::Touch::{TOUCHEVENTF_DOWN, TOUCHEVENTF_UP};
use windows_sys::Win32::UI::WindowsAndMessaging as wm;

#[test]
fn keyboard_messages() {
    assert_eq!(win32::WM_KEYDOWN, wm::WM_KEYDOWN);
    assert_eq!(win32::WM_KEYUP, wm::WM_KEYUP);
    assert_eq!(win32::WM_SYSKEYDOWN, wm::WM_SYSKEYDOWN);
    assert_eq!(win32::WM_SYSKEYUP, wm::WM_SYSKEYUP);
}

#[test]
fn composition_messages() {
    assert_eq!(win32::WM_IME_STARTCOMPOSITION, wm::WM_IME_STARTCOMPOSITION);
    assert_eq!(win32::WM_IME_ENDCOMPOSITION, wm::WM_IME_ENDCOMPOSITION);
    assert_eq!(win32::WM_IME_COMPOSITION, wm::WM_IME_COMPOSITION);
}

#[test]
fn mouse_messages() {
    assert_eq!(win32::WM_MOUSEMOVE, wm::WM_MOUSEMOVE);
    assert_eq!(win32::WM_MOUSELEAVE, WM_MOUSELEAVE);
    assert_eq!(win32::WM_LBUTTONDOWN, wm::WM_LBUTTONDOWN);
    assert_eq!(win32::WM_LBUTTONUP, wm::WM_LBUTTONUP);
    assert_eq!(win32::WM_RBUTTONDOWN, wm::WM_RBUTTONDOWN);
    assert_eq!(win32::WM_RBUTTONUP, wm::WM_RBUTTONUP);
    assert_eq!(win32::WM_MBUTTONDOWN, wm::WM_MBUTTONDOWN);
    assert_eq!(win32::WM_MBUTTONUP, wm::WM_MBUTTONUP);
    assert_eq!(win32::WM_XBUTTONDOWN, wm::WM_XBUTTONDOWN);
    assert_eq!(win32::WM_XBUTTONUP, wm::WM_XBUTTONUP);
    assert_eq!(win32::WM_MOUSEWHEEL, wm::WM_MOUSEWHEEL);
    assert_eq!(win32::WM_MOUSEHWHEEL, wm::WM_MOUSEHWHEEL);
}

#[test]
fn wheel_parameters() {
    assert_eq!(win32::WHEEL_DELTA, wm::WHEEL_DELTA);
    assert_eq!(win32::SPI_GETWHEELSCROLLLINES, wm::SPI_GETWHEELSCROLLLINES);
    assert_eq!(win32::SPI_GETWHEELSCROLLCHARS, wm::SPI_GETWHEELSCROLLCHARS);
}

#[test]
fn touch_numbers() {
    assert_eq!(win32::WM_TOUCH, wm::WM_TOUCH);
    assert_eq!(win32::TOUCHEVENTF_DOWN, TOUCHEVENTF_DOWN);
    assert_eq!(win32::TOUCHEVENTF_UP, TOUCHEVENTF_UP);
}

#[test]
fn composition_string_numbers() {
    assert_eq!(win32::GCS_COMPSTR, Ime::GCS_COMPSTR);
    assert_eq!(win32::GCS_COMPATTR, Ime::GCS_COMPATTR);
    assert_eq!(win32::GCS_CURSORPOS, Ime::GCS_CURSORPOS);
    assert_eq!(win32::GCS_RESULTSTR, Ime::GCS_RESULTSTR);
    assert_eq!(u32::from(win32::ATTR_TARGET_CONVERTED), Ime::ATTR_TARGET_CONVERTED);
    assert_eq!(u32::from(win32::ATTR_TARGET_NOTCONVERTED), Ime::ATTR_TARGET_NOTCONVERTED);
}

#[test]
fn event_model_numbers() {
    assert_eq!(PRIMARY_POINTER, PointerId::PRIMARY.get_inner().get());
    assert_eq!(UNIT_SCALE, 1.0_f64.to_bits());
}

#[test]
fn words_of_parameters() {
    assert_eq!(win32::low_word(0x1234_5678), 0x5678);
    assert_eq!(win32::high_word(0x1234_5678), 0x1234);
    assert_eq!(win32::signed_high_word(0x0078_0000), 120);
    assert_eq!(win32::signed_high_word(0xff88_0004), -120);
    assert_eq!(win32::signed_low_param(0x0005_fffe), -2);
    assert_eq!(win32::signed_high_param(0x0005_fffe), 5);
    assert_eq!(win32::signed_high_param(-1), -1);
    assert_eq!(win32::low_bits(-1), u32::MAX);
    assert_eq!(win32::low_bits(0x0808), 0x0808);
}
