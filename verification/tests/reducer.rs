//! Reduction of messages.

use ui_events::keyboard::{Code, Key, KeyboardEvent, NamedKey};
use ui_events::pointer::PointerButton as ModelButton;
use ui_events_windows::event::{
    CompositionState, Modifiers, PointerButton, PointerButtonEvent, PointerEvent, PointerInfo,
    PointerState, PointerType, PointerUpdate, Position, Pressure, ScaleFactor, ScrollDelta,
    TextInputEvent, WheelLines,
};
use ui_events_windows::message::{scroll_multiplier, touch_pixel, KeyState, TouchContact};
use ui_events_windows::win32::{
    SPI_GETWHEELSCROLLCHARS, SPI_GETWHEELSCROLLLINES, TOUCHEVENTF_DOWN, TOUCHEVENTF_UP,
    WM_IME_COMPOSITION, WM_IME_ENDCOMPOSITION, WM_IME_STARTCOMPOSITION, WM_KEYDOWN, WM_KEYUP,
    WM_LBUTTONDOWN, WM_LBUTTONUP, WM_MOUSEHWHEEL, WM_MOUSELEAVE, WM_MOUSEMOVE, WM_MOUSEWHEEL,
    WM_RBUTTONDOWN, WM_RBUTTONUP, WM_SYSKEYDOWN, WM_SYSKEYUP, WM_TOUCH, WM_XBUTTONDOWN,
    WM_XBUTTONUP,
};
use ui_events_windows::{request, Action, Answer, Event, EventReducer, Reduction, Request};

const MS: u64 = 1_000_000;
const TOUCHEVENTF_MOVE: u32 = 1;

fn near(anchor: Position, point: Position, slop: u32) -> bool {
    let (dx, dy) = (f64::from(anchor.x - point.x), f64::from(anchor.y - point.y));
    dx.hypot(dy) < f64::from(slop) * std::f64::consts::SQRT_2 * 1.5
}

fn scale() -> ScaleFactor {
    ScaleFactor { bits: 1.5_f64.to_bits() }
}

fn shift() -> Modifiers {
    Modifiers { bits: ui_events::keyboard::Modifiers::SHIFT.bits() }
}

fn send(
    reducer: &mut EventReducer,
    msg: u32,
    wparam: usize,
    lparam: isize,
    time: u64,
    answer: Answer,
) -> Reduction {
    match reducer.try_reduce(msg, wparam, lparam, scale(), time, shift(), answer, &near) {
        Some(reduction) => reduction,
        None => panic!("message {msg} at {time} cannot be reduced"),
    }
}

fn plain(reducer: &mut EventReducer, msg: u32, wparam: usize, lparam: isize, time: u64) -> Reduction {
    send(reducer, msg, wparam, lparam, time, Answer::Nothing)
}

fn mouse() -> PointerInfo {
    PointerInfo {
        pointer_id: Some(1),
        persistent_device_id: None,
        pointer_type: PointerType::Mouse,
    }
}

fn state(time: u64, x: i32, y: i32, count: u8) -> PointerState {
    PointerState {
        time,
        position: Position { x, y },
        modifiers: shift(),
        count,
        scale_factor: scale(),
        ..PointerState::default()
    }
}

fn motion(state: PointerState) -> Event {
    Event::Pointer(PointerEvent::Move(PointerUpdate {
        pointer: mouse(),
        current: state,
        coalesced: Vec::new(),
        predicted: Vec::new(),
    }))
}

fn down(reduction: &Reduction) -> &PointerButtonEvent {
    match reduction.events.as_slice() {
        [Event::Pointer(PointerEvent::Down(event))] => event,
        other => panic!("not a press: {other:?}"),
    }
}

fn up(reduction: &Reduction) -> &PointerButtonEvent {
    match reduction.events.as_slice() {
        [Event::Pointer(PointerEvent::Up(event))] => event,
        other => panic!("not a release: {other:?}"),
    }
}

#[test]
fn requests_of_messages() {
    assert_eq!(request(WM_KEYDOWN, 0x41), Request::Key(KeyState::Down));
    assert_eq!(request(WM_SYSKEYDOWN, 0x41), Request::Key(KeyState::Down));
    assert_eq!(request(WM_KEYUP, 0x41), Request::Key(KeyState::Up));
    assert_eq!(request(WM_SYSKEYUP, 0x41), Request::Key(KeyState::Up));
    assert_eq!(request(WM_IME_COMPOSITION, 0), Request::Text);
    assert_eq!(request(WM_MOUSEWHEEL, 0), Request::Scroll(SPI_GETWHEELSCROLLLINES));
    assert_eq!(request(WM_MOUSEHWHEEL, 0), Request::Scroll(SPI_GETWHEELSCROLLCHARS));
    assert_eq!(request(WM_TOUCH, 0x7_0003), Request::Touch(3));
    assert_eq!(request(WM_MOUSEMOVE, 0), Request::Nothing);
    assert_eq!(request(WM_IME_STARTCOMPOSITION, 0), Request::Nothing);
    assert_eq!(request(0, 0), Request::Nothing);
}

#[test]
fn first_motion_enters() {
    let mut reducer = EventReducer::default();
    let first = plain(&mut reducer, WM_MOUSEMOVE, 0, 0x0014_000a, 5);
    assert_eq!(
        first.events,
        vec![Event::Pointer(PointerEvent::Enter(mouse())), motion(state(5, 10, 20, 0))]
    );
    assert_eq!(first.actions, vec![Action::TrackMouseLeave]);

    // Coordinates are signed.
    let second = plain(&mut reducer, WM_MOUSEMOVE, 0, 0xfffe_ffff, 6);
    assert_eq!(second.events, vec![motion(state(6, -1, -2, 0))]);
    assert_eq!(second.actions, vec![]);

    let left = plain(&mut reducer, WM_MOUSELEAVE, 0, 0, 7);
    assert_eq!(left.events, vec![Event::Pointer(PointerEvent::Leave(mouse()))]);
    assert_eq!(left.actions, vec![]);

    let third = plain(&mut reducer, WM_MOUSEMOVE, 0, 0, 8);
    assert_eq!(third.events.len(), 2);
    assert_eq!(third.actions, vec![Action::TrackMouseLeave]);
}

#[test]
fn capture_lasts_while_buttons_are_held() {
    let mut reducer = EventReducer::default();

    let pressed = plain(&mut reducer, WM_LBUTTONDOWN, 0, 0, 1);
    assert_eq!(pressed.actions, vec![Action::SetCapture]);
    assert_eq!(down(&pressed).button, Some(PointerButton::Primary));
    assert_eq!(down(&pressed).pointer, mouse());
    assert!(down(&pressed).state.buttons.contains(ModelButton::Primary));
    assert_eq!(down(&pressed).state.buttons.count(), 1);

    let second = plain(&mut reducer, WM_RBUTTONDOWN, 0, 0, 2);
    assert_eq!(second.actions, vec![Action::SetCapture]);
    assert!(down(&second).state.buttons.contains(ModelButton::Primary));
    assert!(down(&second).state.buttons.contains(ModelButton::Secondary));

    let released = plain(&mut reducer, WM_LBUTTONUP, 0, 0, 3);
    assert_eq!(released.actions, vec![]);
    assert!(!up(&released).state.buttons.contains(ModelButton::Primary));
    assert!(up(&released).state.buttons.contains(ModelButton::Secondary));

    let last = plain(&mut reducer, WM_RBUTTONUP, 0, 0, 4);
    assert_eq!(last.actions, vec![Action::ReleaseCapture]);
    assert!(up(&last).state.buttons.is_empty());
    assert_eq!(up(&last).button, Some(PointerButton::Secondary));
}

#[test]
fn every_button_is_held_as_itself() {
    let buttons = [
        (WM_LBUTTONDOWN, 0, ModelButton::Primary),
        (WM_RBUTTONDOWN, 0, ModelButton::Secondary),
        (ui_events_windows::win32::WM_MBUTTONDOWN, 0, ModelButton::Auxiliary),
        (WM_XBUTTONDOWN, 0x1_0000, ModelButton::X1),
        (WM_XBUTTONDOWN, 0x2_0000, ModelButton::X2),
    ];
    for (msg, wparam, button) in buttons {
        let mut reducer = EventReducer::default();
        let pressed = plain(&mut reducer, msg, wparam, 0, 0);
        assert_eq!(down(&pressed).state.buttons, button.into());
        let released = plain(&mut reducer, msg + 1, wparam, 0, 0);
        assert!(up(&released).state.buttons.is_empty());
        assert_eq!(released.actions, vec![Action::ReleaseCapture]);
    }
}

#[test]
fn unknown_extended_button_is_no_button() {
    let mut reducer = EventReducer::default();
    let pressed = plain(&mut reducer, WM_XBUTTONDOWN, 0x4_0000, 0, 1);
    assert_eq!(down(&pressed).button, None);
    assert!(down(&pressed).state.buttons.is_empty());
    assert_eq!(pressed.actions, vec![Action::SetCapture]);
    let released = plain(&mut reducer, WM_XBUTTONUP, 0x4_0000, 0, 2);
    assert_eq!(up(&released).button, None);
    assert_eq!(released.actions, vec![Action::ReleaseCapture]);
}

#[test]
fn double_click() {
    let mut reducer = EventReducer::default();
    plain(&mut reducer, WM_MOUSEMOVE, 0, 0x0032_0032, 0);
    let first = plain(&mut reducer, WM_LBUTTONDOWN, 0, 0, 100 * MS);
    assert_eq!(down(&first).state.count, 1);
    let dragged = plain(&mut reducer, WM_MOUSEMOVE, 0, 0x0033_0033, 120 * MS);
    match dragged.events.as_slice() {
        [Event::Pointer(PointerEvent::Move(update))] => assert_eq!(update.current.count, 1),
        other => panic!("not a motion: {other:?}"),
    }
    let released = plain(&mut reducer, WM_LBUTTONUP, 0, 0, 150 * MS);
    assert_eq!(up(&released).state.count, 1);
    let moved = plain(&mut reducer, WM_MOUSEMOVE, 0, 0x0032_0033, 160 * MS);
    assert_eq!(moved.events, vec![motion(state(160 * MS, 51, 50, 0))]);
    let second = plain(&mut reducer, WM_LBUTTONDOWN, 0, 0, 649 * MS);
    assert_eq!(down(&second).state.count, 2);
    let released = plain(&mut reducer, WM_LBUTTONUP, 0, 0, 700 * MS);
    assert_eq!(up(&released).state.count, 2);
    let late = plain(&mut reducer, WM_LBUTTONDOWN, 0, 0, 1200 * MS);
    assert_eq!(down(&late).state.count, 1);
}

#[test]
fn wheels_scroll() {
    let mut reducer = EventReducer::default();
    let scrolled = |reduction: Reduction| match reduction.events.as_slice() {
        [Event::Pointer(PointerEvent::Scroll(event))] => {
            assert_eq!(event.pointer, mouse());
            event.delta
        }
        other => panic!("not a scroll: {other:?}"),
    };
    let up = send(&mut reducer, WM_MOUSEWHEEL, 0x0078_0000, 0, 1, Answer::Scroll(5));
    assert_eq!(
        scrolled(up),
        ScrollDelta::LineDelta(
            None,
            Some(WheelLines { rotation: 120, per_notch: 5, reversed: false })
        )
    );
    let left = send(&mut reducer, WM_MOUSEHWHEEL, 0xff88_0000, 0, 2, Answer::Scroll(3));
    assert_eq!(
        scrolled(left),
        ScrollDelta::LineDelta(
            Some(WheelLines { rotation: -120, per_notch: 3, reversed: true }),
            None
        )
    );
    let page = send(&mut reducer, WM_MOUSEWHEEL, 0x0078_0000, 0, 3, Answer::Scroll(0xffff_ffff));
    assert_eq!(
        scrolled(page),
        ScrollDelta::LineDelta(
            None,
            Some(WheelLines { rotation: 120, per_notch: 3, reversed: false })
        )
    );
}

#[test]
fn pages_scroll_by_the_default() {
    assert_eq!(scroll_multiplier(7), 7);
    assert_eq!(scroll_multiplier(0), 0);
    assert_eq!(scroll_multiplier(-1), 3);
    assert_eq!(scroll_multiplier(0xffff_ffff), 3);
    assert_eq!(scroll_multiplier(0xffff_fffe), 0xffff_fffe);
}

#[test]
fn touch_coordinates_are_hundredths() {
    assert_eq!(touch_pixel(12345), 123);
    assert_eq!(touch_pixel(99), 0);
    assert_eq!(touch_pixel(-99), 0);
    assert_eq!(touch_pixel(-12345), -123);
}

#[test]
fn keys_are_handed_on() {
    let mut reducer = EventReducer::default();
    let event = KeyboardEvent::key_down(Key::Named(NamedKey::Enter), Code::Enter);
    let pressed = send(&mut reducer, WM_KEYDOWN, 0x0d, 1, 1, Answer::Key(event.clone()));
    assert_eq!(pressed.events, vec![Event::Keyboard(event)]);
    assert_eq!(pressed.actions, vec![]);
    let released = send(&mut reducer, WM_SYSKEYUP, 0x0d, 1, 2, Answer::Key(KeyboardEvent::default()));
    assert_eq!(released.events, vec![Event::Keyboard(KeyboardEvent::default())]);
}

fn text(reducer: &mut EventReducer, time: u64, events: Option<Vec<TextInputEvent>>) -> Reduction {
    send(reducer, WM_IME_COMPOSITION, 0, 0, time, Answer::Text(events))
}

fn composing(text: &str) -> TextInputEvent {
    TextInputEvent::CompositionUpdate(CompositionState { text: text.to_string(), selection: None })
}

#[test]
fn commit_ends_composition() {
    let mut reducer = EventReducer::default();
    assert_eq!(plain(&mut reducer, WM_IME_STARTCOMPOSITION, 0, 0, 1).events, vec![]);
    let updated = text(&mut reducer, 2, Some(vec![composing("a")]));
    assert_eq!(updated.events, vec![Event::Text(vec![composing("a")])]);
    let commit = || TextInputEvent::Insert("ä".to_string());
    let committed = text(&mut reducer, 3, Some(vec![commit()]));
    assert_eq!(
        committed.events,
        vec![Event::Text(vec![TextInputEvent::CompositionEnd, commit()])]
    );
    // The composition is over, so its end is not reported again.
    assert_eq!(plain(&mut reducer, WM_IME_ENDCOMPOSITION, 0, 0, 4).events, vec![]);
    let direct = text(&mut reducer, 5, Some(vec![commit()]));
    assert_eq!(direct.events, vec![Event::Text(vec![commit()])]);
}

#[test]
fn abandoned_composition_ends_once() {
    let mut reducer = EventReducer::default();
    text(&mut reducer, 1, Some(vec![composing("a")]));
    // A message that means nothing does not end the composition.
    assert_eq!(text(&mut reducer, 2, None).events, vec![]);
    assert_eq!(
        plain(&mut reducer, WM_IME_ENDCOMPOSITION, 0, 0, 3).events,
        vec![Event::Text(vec![TextInputEvent::CompositionEnd])]
    );
    assert_eq!(plain(&mut reducer, WM_IME_ENDCOMPOSITION, 0, 0, 4).events, vec![]);
}

#[test]
fn emptied_composition_ends() {
    let mut reducer = EventReducer::default();
    text(&mut reducer, 1, Some(vec![composing("a")]));
    let emptied = text(&mut reducer, 2, Some(vec![TextInputEvent::CompositionEnd]));
    assert_eq!(emptied.events, vec![Event::Text(vec![TextInputEvent::CompositionEnd])]);
    assert_eq!(plain(&mut reducer, WM_IME_ENDCOMPOSITION, 0, 0, 3).events, vec![]);
}

#[test]
fn each_contact_has_an_event() {
    let mut reducer = EventReducer::default();
    let contact = |id, flags, x| TouchContact { id, flags, position: Position { x, y: 7 } };
    let touched = send(
        &mut reducer,
        WM_TOUCH,
        3,
        0,
        9,
        Answer::Touch(Some(vec![
            contact(10, TOUCHEVENTF_DOWN, 100),
            contact(11, TOUCHEVENTF_UP, 200),
            contact(12, TOUCHEVENTF_MOVE, 300),
        ])),
    );
    assert_eq!(touched.actions, vec![Action::CloseTouchInputHandle]);
    let finger = |id| PointerInfo {
        pointer_id: Some(id),
        persistent_device_id: None,
        pointer_type: PointerType::Touch,
    };
    let touch_state = |x, count, pressure| PointerState { pressure, ..state(9, x, 7, count) };
    assert_eq!(
        touched.events,
        vec![
            Event::Pointer(PointerEvent::Down(PointerButtonEvent {
                button: None,
                pointer: finger(11),
                state: touch_state(100, 1, Pressure::Half),
            })),
            Event::Pointer(PointerEvent::Up(PointerButtonEvent {
                button: None,
                pointer: finger(12),
                state: touch_state(200, 0, Pressure::Zero),
            })),
            Event::Pointer(PointerEvent::Move(PointerUpdate {
                pointer: finger(13),
                current: touch_state(300, 0, Pressure::Half),
                coalesced: Vec::new(),
                predicted: Vec::new(),
            })),
        ]
    );
}

#[test]
fn taps_within_one_message_are_counted_in_order() {
    let mut reducer = EventReducer::default();
    let contact = |id| TouchContact { id, flags: TOUCHEVENTF_DOWN, position: Position { x: 5, y: 5 } };
    let contacts = vec![contact(u32::MAX), contact(3)];
    let touched = send(&mut reducer, WM_TOUCH, 2, 0, 1, Answer::Touch(Some(contacts)));
    match touched.events.as_slice() {
        [Event::Pointer(PointerEvent::Down(a)), Event::Pointer(PointerEvent::Down(b))] => {
            assert_eq!(a.pointer.pointer_id, Some(0x1_0000_0000));
            assert_eq!(a.state.count, 1);
            assert_eq!(b.pointer.pointer_id, Some(4));
            assert_eq!(b.state.count, 2);
        }
        other => panic!("not two presses: {other:?}"),
    }
}

#[test]
fn unreadable_touch_closes_its_handle() {
    let mut reducer = EventReducer::default();
    let touched = send(&mut reducer, WM_TOUCH, 2, 0, 1, Answer::Touch(None));
    assert_eq!(touched.events, vec![]);
    assert_eq!(touched.actions, vec![Action::CloseTouchInputHandle]);
}

#[test]
fn unrecognized_messages_produce_nothing() {
    let mut reducer = EventReducer::default();
    for msg in [0, 1, 0x0113, 0x0203, 0x0400, u32::MAX] {
        let reduction = plain(&mut reducer, msg, 1, 1, 1);
        assert_eq!(reduction.events, vec![]);
        assert_eq!(reduction.actions, vec![]);
    }
}

#[test]
fn reduce_does_what_try_reduce_does() {
    let mut reducer = EventReducer::default();
    let reduction =
        reducer.reduce(WM_MOUSEMOVE, 0, 0x0001_0002, scale(), 3, shift(), Answer::Nothing, &near);
    assert_eq!(reduction.events.len(), 2);
    assert_eq!(reduction.events[1], motion(state(3, 2, 1, 0)));
}

#[test]
fn refused_messages_change_nothing() {
    let mut reducer = EventReducer::default();
    plain(&mut reducer, WM_MOUSEMOVE, 0, 0x0001_0002, 10);
    // Time runs backwards.
    assert!(reducer
        .try_reduce(WM_MOUSEMOVE, 0, 0, scale(), 9, shift(), Answer::Nothing, &near)
        .is_none());
    // The answer is not one to the message.
    assert!(reducer
        .try_reduce(WM_MOUSEMOVE, 0, 0, scale(), 11, shift(), Answer::Scroll(1), &near)
        .is_none());
    assert!(reducer
        .try_reduce(WM_TOUCH, 1, 0, scale(), 11, shift(), Answer::Nothing, &near)
        .is_none());
    let moved = plain(&mut reducer, WM_MOUSEMOVE, 0, 0x0001_0002, 10);
    assert_eq!(moved.events, vec![motion(state(10, 2, 1, 0))]);
}

#[test]
fn exhausted_count_is_refused() {
    let mut reducer = EventReducer::default();
    for n in 1..=255_u8 {
        let pressed = plain(&mut reducer, WM_LBUTTONDOWN, 0, 0, u64::from(n));
        assert_eq!(down(&pressed).state.count, n);
    }
    let refused =
        reducer.try_reduce(WM_RBUTTONDOWN, 0, 0, scale(), 300, shift(), Answer::Nothing, &near);
    assert!(refused.is_none());
    // Neither the button nor the time was taken in.
    let released = plain(&mut reducer, WM_LBUTTONUP, 0, 0, 260);
    assert_eq!(released.actions, vec![Action::ReleaseCapture]);
    assert_eq!(up(&released).state.count, 255);
}

/// A conversation that holds double clicks, drags, touches, scrolling and compositions, on a clock
/// that starts at `start`.
fn conversation(start: u64) -> Vec<Reduction> {
    let mut reducer = EventReducer::default();
    let finger = |flags| TouchContact { id: 4, flags, position: Position { x: 80, y: 80 } };
    let touch = |flags| Answer::Touch(Some(vec![finger(flags)]));
    let mut log = Vec::new();
    log.push(plain(&mut reducer, WM_MOUSEMOVE, 0, 0x0005_0005, start));
    log.push(plain(&mut reducer, WM_LBUTTONDOWN, 0, 0, start + 10 * MS));
    log.push(plain(&mut reducer, WM_MOUSEMOVE, 0, 0x0006_0005, start + 20 * MS));
    log.push(plain(&mut reducer, WM_LBUTTONUP, 0, 0, start + 30 * MS));
    log.push(plain(&mut reducer, WM_LBUTTONDOWN, 0, 0, start + 529 * MS));
    log.push(plain(&mut reducer, WM_LBUTTONUP, 0, 0, start + 540 * MS));
    log.push(plain(&mut reducer, WM_LBUTTONDOWN, 0, 0, start + 1040 * MS));
    log.push(send(&mut reducer, WM_TOUCH, 1, 0, start + 1050 * MS, touch(TOUCHEVENTF_DOWN)));
    log.push(send(&mut reducer, WM_TOUCH, 1, 0, start + 1060 * MS, touch(TOUCHEVENTF_UP)));
    log.push(send(&mut reducer, WM_TOUCH, 1, 0, start + 1070 * MS, touch(TOUCHEVENTF_DOWN)));
    log.push(send(&mut reducer, WM_MOUSEWHEEL, 0x0078_0000, 0, start + 1080 * MS, Answer::Scroll(3)));
    log.push(text(&mut reducer, start + 1090 * MS, Some(vec![composing("a")])));
    log.push(plain(&mut reducer, WM_IME_ENDCOMPOSITION, 0, 0, start + 1100 * MS));
    log.push(plain(&mut reducer, WM_MOUSELEAVE, 0, 0, start + 1110 * MS));
    log
}

/// Sets back the times of an event.
fn earlier(event: Event, d: u64) -> Event {
    let back = |state: PointerState| PointerState { time: state.time - d, ..state };
    match event {
        Event::Pointer(PointerEvent::Down(mut event)) => {
            event.state = back(event.state);
            Event::Pointer(PointerEvent::Down(event))
        }
        Event::Pointer(PointerEvent::Up(mut event)) => {
            event.state = back(event.state);
            Event::Pointer(PointerEvent::Up(event))
        }
        Event::Pointer(PointerEvent::Scroll(mut event)) => {
            event.state = back(event.state);
            Event::Pointer(PointerEvent::Scroll(event))
        }
        Event::Pointer(PointerEvent::Move(mut update)) => {
            update.current = back(update.current);
            Event::Pointer(PointerEvent::Move(update))
        }
        other => other,
    }
}

#[test]
fn only_time_differences_matter() {
    let last = u64::MAX - 500 * MS - 1110 * MS;
    for d in [1, 123_456_789, last] {
        let now = conversation(0);
        let then = conversation(d);
        assert_eq!(now.len(), then.len());
        for (a, b) in now.into_iter().zip(then) {
            assert_eq!(a.actions, b.actions);
            let moved: Vec<Event> = b.events.into_iter().map(|event| earlier(event, d)).collect();
            assert_eq!(a.events, moved);
        }
    }
}
