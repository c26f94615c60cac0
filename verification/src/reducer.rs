//! The state machine that turns window messages into events.

use vstd::prelude::*;

use crate::event::{
    events_view, states_view, texts_view, Event, EventView, Modifiers, PointerButton,
    PointerButtonEvent, PointerEvent, PointerInfo, PointerScrollEvent, PointerState,
    PointerStateView, PointerType, PointerUpdate, Position, Pressure, ScaleFactor, ScrollDelta,
    TextInputEvent, TextInputView, WheelLines, PRIMARY_POINTER,
};
use crate::external::{insert_button, no_button_held, pointer_id, remove_button};
use crate::message::{
    request, scroll_multiplier, Action, Answer, Reduction, Request, TouchContact,
};
use crate::model::{
    contact_event, contact_events, contact_taps, contacts_countable, countable, counted,
    with_counts, Input, ReducerView,
};
use crate::pointer::button_from_win32;
use crate::taps::{is_function, nearness, TapCounter};
use crate::win32::{
    signed_high_param, signed_high_word, signed_low_param, TOUCHEVENTF_DOWN, TOUCHEVENTF_UP,
    WM_IME_ENDCOMPOSITION, WM_LBUTTONDOWN, WM_LBUTTONUP, WM_MBUTTONDOWN, WM_MBUTTONUP,
    WM_MOUSEHWHEEL, WM_MOUSELEAVE, WM_MOUSEMOVE, WM_RBUTTONDOWN, WM_RBUTTONUP, WM_XBUTTONDOWN,
    WM_XBUTTONUP,
};

verus! {

/// Manages stateful transformations of raw Win32 window messages.
///
/// Keep one of these per window, and reduce each relevant message of the window's procedure.
///
/// This handles:
///  - `WM_KEYDOWN`/`WM_KEYUP`/`WM_SYSKEYDOWN`/`WM_SYSKEYUP`
///  - `WM_IME_STARTCOMPOSITION`/`WM_IME_COMPOSITION`/`WM_IME_ENDCOMPOSITION`
///  - `WM_TOUCH`
///  - `WM_LBUTTONDOWN`/`WM_LBUTTONUP`/`WM_RBUTTONDOWN`/`WM_RBUTTONUP`/
///    `WM_MBUTTONDOWN`/`WM_MBUTTONUP`/`WM_XBUTTONDOWN`/`WM_XBUTTONUP`
///  - `WM_MOUSEWHEEL`/`WM_MOUSEHWHEEL`
///  - `WM_MOUSEMOVE`/`WM_MOUSELEAVE`
#[derive(Debug)]
pub struct EventReducer {
    /// State of the primary mouse pointer.
    primary_state: PointerState,
    /// Whether the window currently has a non-empty IME composition.
    ime_composing: bool,
    /// Whether the cursor is currently known to be inside the window's client area.
    mouse_in_window: bool,
    /// Click and tap counter.
    counter: TapCounter,
}

impl View for EventReducer {
    type V = ReducerView;

    closed spec fn view(&self) -> ReducerView {
        ReducerView {
            primary: self.primary_state@,
            composing: self.ime_composing,
            inside: self.mouse_in_window,
            taps: self.counter@,
        }
    }
}

impl Default for EventReducer {
    /// The reducer of a window that has not received any message.
    fn default() -> (reducer: EventReducer)
        ensures
            reducer@ == ReducerView::initial(),
    {
        EventReducer {
            primary_state: PointerState::default(),
            ime_composing: false,
            mouse_in_window: false,
            counter: TapCounter::new(),
        }
    }
}

/// Replaces the count of each of a sequence of states.
fn set_counts(states: &mut Vec<PointerState>, count: u8)
    ensures
        states_view(final(states)@) == with_counts(states_view(old(states)@), count),
{
    let mut i: usize = 0;
    while i < states.len()
        invariant
            i <= states.len(),
            states.len() == old(states).len(),
            forall|j: int|
                0 <= j < i ==> (#[trigger] states@[j])@ == old(states)@[j]@.with_count(count),
            forall|j: int| i <= j < states.len() ==> (#[trigger] states@[j]) == old(states)@[j],
        decreases states.len() - i,
    {
        let mut state: PointerState = states[i];
        state.count = count;
        states.set(i, state);
        i += 1;
    }
    assert(states_view(states@) =~= with_counts(states_view(old(states)@), count));
}

impl EventReducer {
    /// Enhances a pointer event with a count.
    ///
    /// Returns `None`, and counts nothing, where a time or the count leaves its range.
    fn attach_count<F: Fn(Position, Position, u32) -> bool>(
        &mut self,
        event: PointerEvent,
        near: &F,
    ) -> (result: Option<PointerEvent>)
        requires
            is_function(near),
        ensures
            result is Some <==> countable(old(self)@.taps, event@, nearness(near)),
            result matches Some(after) ==> ({
                let counted = counted(old(self)@.taps, event@, nearness(near));
                after@ == counted.event && final(self)@ == (ReducerView {
                    taps: counted.taps,
                    ..old(self)@
                })
            }),
            result is None ==> final(self)@ == old(self)@,
    {
        match event {
            PointerEvent::Down(event) => {
                let mut event: PointerButtonEvent = event;
                match self.counter.press(
                    event.pointer,
                    event.state.position,
                    event.state.time,
                    near,
                ) {
                    Some(count) => {
                        event.state.count = count;
                        Some(PointerEvent::Down(event))
                    },
                    None => None,
                }
            },
            PointerEvent::Up(event) => {
                let mut event: PointerButtonEvent = event;
                if let Some(count) = self.counter.release(
                    event.pointer.pointer_id,
                    event.state.time,
                ) {
                    event.state.count = count;
                }
                Some(PointerEvent::Up(event))
            },
            PointerEvent::Move(update) => {
                let mut update: PointerUpdate = update;
                if let Some(count) = self.counter.drag(update.pointer.pointer_id) {
                    set_counts(&mut update.coalesced, count);
                    set_counts(&mut update.predicted, count);
                    update.current.count = count;
                }
                Some(PointerEvent::Move(update))
            },
            PointerEvent::Cancel(pointer) => {
                self.counter.depart(pointer.pointer_id);
                Some(PointerEvent::Cancel(pointer))
            },
            PointerEvent::Leave(pointer) => {
                self.counter.depart(pointer.pointer_id);
                Some(PointerEvent::Leave(pointer))
            },
            PointerEvent::Enter(pointer) => Some(PointerEvent::Enter(pointer)),
            PointerEvent::Scroll(event) => Some(PointerEvent::Scroll(event)),
        }
    }

    /// The pointer information of the primary mouse.
    fn primary_mouse() -> (pointer: PointerInfo)
        ensures
            pointer == PointerInfo::primary_mouse(),
    {
        PointerInfo {
            pointer_id: Some(PRIMARY_POINTER),
            persistent_device_id: None,
            pointer_type: PointerType::Mouse,
        }
    }

    /// Notes that the composition ended, and returns the event of it if there was a composition.
    fn end_ime_composition(&mut self) -> (event: Option<Event>)
        ensures
            final(self)@ == old(self)@.end_composition().state,
            old(self)@.end_composition().events == (match event {
                Some(event) => seq![event@],
                None => seq![],
            }),
    {
        if self.ime_composing {
            self.ime_composing = false;
            let mut texts: Vec<TextInputEvent> = Vec::new();
            texts.push(TextInputEvent::CompositionEnd);
            assert(texts_view(texts@) =~= seq![TextInputView::CompositionEnd]);
            Some(Event::Text(texts))
        } else {
            None
        }
    }

    /// Hands on the text events of a composition message.
    fn compose(&mut self, texts: Vec<TextInputEvent>) -> (event: Event)
        ensures
            final(self)@ == old(self)@.compose(texts_view(texts@)).state,
            old(self)@.compose(texts_view(texts@)).events == seq![event@],
    {
        let mut texts: Vec<TextInputEvent> = texts;
        let ghost given = texts@;
        let mut commits: bool = false;
        let mut composing: bool = false;
        if texts.len() > 0 {
            match &texts[0] {
                TextInputEvent::Insert(_) => {
                    commits = true;
                },
                TextInputEvent::CompositionUpdate(_) => {
                    composing = true;
                },
                TextInputEvent::CompositionEnd => {},
            }
        }
        let was_composing: bool = self.ime_composing;
        self.ime_composing = composing;
        if was_composing && commits {
            texts.insert(0, TextInputEvent::CompositionEnd);
            assert(texts_view(texts@) =~= seq![TextInputView::CompositionEnd] + texts_view(given));
        }
        Event::Text(texts)
    }

    /// Takes in the time of a message.
    fn check_time_monotonic_and_set(&mut self, time: u64)
        requires
            time >= old(self)@.primary.time,
        ensures
            final(self)@ == (ReducerView {
                primary: PointerStateView { time, ..old(self)@.primary },
                ..old(self)@
            }),
    {
        self.primary_state.time = time;
    }

    /// The event that a touch contact stands for.
    fn contact_event(&self, contact: TouchContact) -> (event: PointerEvent)
        ensures
            event@ == contact_event(self@.primary, contact),
    {
        let up: bool = contact.flags & TOUCHEVENTF_UP != 0;
        let pointer = PointerInfo {
            pointer_id: pointer_id((contact.id as u64).saturating_add(1)),
            persistent_device_id: None,
            pointer_type: PointerType::Touch,
        };
        let mut state: PointerState = PointerState::default();
        state.time = self.primary_state.time;
        state.position = contact.position;
        state.modifiers = self.primary_state.modifiers;
        state.pressure = if up {
            Pressure::Zero
        } else {
            Pressure::Half
        };
        state.scale_factor = self.primary_state.scale_factor;
        if contact.flags & TOUCHEVENTF_DOWN != 0 {
            PointerEvent::Down(PointerButtonEvent { button: None, pointer, state })
        } else if up {
            PointerEvent::Up(PointerButtonEvent { button: None, pointer, state })
        } else {
            let update = PointerUpdate {
                pointer,
                current: state,
                coalesced: Vec::new(),
                predicted: Vec::new(),
            };
            assert(update@.coalesced =~= seq![]);
            assert(update@.predicted =~= seq![]);
            PointerEvent::Move(update)
        }
    }

    /// Turns touch contacts into events, one for each contact.
    ///
    /// Returns `None`, and counts nothing, where a time or a count leaves its range.
    fn handle_touch<F: Fn(Position, Position, u32) -> bool>(
        &mut self,
        contacts: &Vec<TouchContact>,
        near: &F,
    ) -> (result: Option<Vec<Event>>)
        requires
            is_function(near),
        ensures
            result is Some <==> contacts_countable(
                old(self)@.taps,
                old(self)@.primary,
                contacts@,
                nearness(near),
            ),
            result matches Some(events) ==> ({
                let outcome = old(self)@.touch(Some(contacts@), nearness(near));
                final(self)@ == outcome.state && events_view(events@) == outcome.events
            }),
            result is None ==> final(self)@ == old(self)@,
    {
        let before: TapCounter = self.counter.duplicate();
        let ghost primary = self@.primary;
        let ghost taps = self@.taps;
        let ghost nearby = nearness(near);
        let mut events: Vec<Event> = Vec::new();
        let mut i: usize = 0;
        while i < contacts.len()
            invariant
                is_function(near),
                nearby == nearness(near),
                i <= contacts.len(),
                before@ == taps,
                primary == old(self)@.primary,
                taps == old(self)@.taps,
                self@ == (ReducerView {
                    taps: contact_taps(taps, primary, contacts@.take(i as int), nearby),
                    ..old(self)@
                }),
                events_view(events@) == contact_events(
                    taps,
                    primary,
                    contacts@.take(i as int),
                    nearby,
                ),
                contacts_countable(taps, primary, contacts@.take(i as int), nearby),
            decreases contacts.len() - i,
        {
            let contact: TouchContact = contacts[i];
            let ghost earlier = contacts@.take(i as int);
            proof {
                let now = contacts@.take(i + 1);
                assert(now =~= earlier.push(contact));
                assert(now.drop_last() =~= earlier);
                assert forall|j: int| 0 <= j <= i implies now.take(j) == contacts@.take(j) by {
                    assert(now.take(j) =~= contacts@.take(j));
                }
                assert forall|j: int| 0 <= j <= i implies earlier.take(j) == contacts@.take(j) by {
                    assert(earlier.take(j) =~= contacts@.take(j));
                }
            }
            let event: PointerEvent = self.contact_event(contact);
            match self.attach_count(event, near) {
                Some(event) => {
                    let ghost given = events@;
                    events.push(Event::Pointer(event));
                    assert(events_view(events@) =~= contact_events(
                        taps,
                        primary,
                        contacts@.take(i + 1),
                        nearby,
                    )) by {
                        assert(events_view(events@) =~= events_view(given).push(
                            EventView::Pointer(event@),
                        ));
                    }
                },
                None => {
                    assert(!countable(
                        contact_taps(taps, primary, contacts@.take(i as int), nearby),
                        contact_event(primary, contacts@[i as int]),
                        nearby,
                    ));
                    self.counter = before;
                    return None;
                },
            }
            i += 1;
        }
        assert(contacts@.take(i as int) =~= contacts@);
        Some(events)
    }

    /// Processes the move of the mouse to the position that `lparam` packs.
    fn mouse_move<F: Fn(Position, Position, u32) -> bool>(
        &mut self,
        lparam: isize,
        near: &F,
    ) -> (reduction: Reduction)
        requires
            is_function(near),
        ensures
            reduction.realizes(old(self)@.mouse_move(lparam, nearness(near))),
            final(self)@ == old(self)@.mouse_move(lparam, nearness(near)).state,
    {
        let mut reduction: Reduction = Reduction::nothing();
        if !self.mouse_in_window {
            self.mouse_in_window = true;
            reduction.call(Action::TrackMouseLeave);
            reduction.add(Event::Pointer(PointerEvent::Enter(Self::primary_mouse())));
        }
        self.primary_state.position = Position {
            x: signed_low_param(lparam) as i32,
            y: signed_high_param(lparam) as i32,
        };
        let update = PointerUpdate {
            pointer: Self::primary_mouse(),
            current: self.primary_state,
            coalesced: Vec::new(),
            predicted: Vec::new(),
        };
        assert(update@.coalesced =~= seq![]);
        assert(update@.predicted =~= seq![]);
        if let Some(event) = self.attach_count(PointerEvent::Move(update), near) {
            reduction.add(Event::Pointer(event));
        }
        proof {
            let outcome = old(self)@.mouse_move(lparam, nearness(near));
            assert(events_view(reduction.events@) =~= outcome.events);
            assert(reduction.actions@ =~= outcome.actions);
        }
        reduction
    }

    /// Processes a raw Win32 window message.
    ///
    /// Does what [`EventReducer::reduce`] does where that can be called. Otherwise returns `None`
    /// and leaves the reducer as it is.
    pub fn try_reduce<F: Fn(Position, Position, u32) -> bool>(
        &mut self,
        msg: u32,
        wparam: usize,
        lparam: isize,
        scale_factor: ScaleFactor,
        time: u64,
        modifiers: Modifiers,
        answer: Answer,
        near: &F,
    ) -> (result: Option<Reduction>)
        requires
            is_function(near),
        ensures
            ({
                let input = Input {
                    msg,
                    wparam,
                    lparam,
                    scale_factor,
                    time,
                    modifiers,
                    answer: answer@,
                };
                let outcome = old(self)@.step(input, nearness(near));
                &&& result is Some <==> old(self)@.accepts(input, nearness(near))
                &&& result matches Some(reduction) ==> reduction.realizes(outcome) && final(self)@
                    == outcome.state
                &&& result is None ==> final(self)@ == old(self)@
            }),
    {
        if time < self.primary_state.time {
            return None;
        }
        let before: PointerState = self.primary_state;
        self.check_time_monotonic_and_set(time);
        self.primary_state.scale_factor = scale_factor;
        self.primary_state.modifiers = modifiers;
        let mut reduction: Reduction = Reduction::nothing();
        match (request(msg, wparam), answer) {
            (Request::Nothing, Answer::Nothing) => {
                if msg == WM_IME_ENDCOMPOSITION {
                    if let Some(event) = self.end_ime_composition() {
                        reduction.add(event);
                    }
                } else if msg == WM_MOUSEMOVE {
                    reduction = self.mouse_move(lparam, near);
                } else if msg == WM_MOUSELEAVE {
                    self.mouse_in_window = false;
                    if let Some(event) = self.attach_count(
                        PointerEvent::Leave(Self::primary_mouse()),
                        near,
                    ) {
                        reduction.add(Event::Pointer(event));
                    }
                } else if msg == WM_LBUTTONDOWN || msg == WM_RBUTTONDOWN || msg == WM_MBUTTONDOWN
                    || msg == WM_XBUTTONDOWN {
                    let button: Option<PointerButton> = button_from_win32(msg, wparam);
                    if let Some(button) = button {
                        insert_button(&mut self.primary_state.buttons, button);
                    }
                    let event = PointerButtonEvent {
                        pointer: Self::primary_mouse(),
                        button,
                        state: self.primary_state,
                    };
                    match self.attach_count(PointerEvent::Down(event), near) {
                        Some(event) => {
                            reduction.call(Action::SetCapture);
                            reduction.add(Event::Pointer(event));
                        },
                        None => {
                            self.primary_state = before;
                            return None;
                        },
                    }
                } else if msg == WM_LBUTTONUP || msg == WM_RBUTTONUP || msg == WM_MBUTTONUP || msg
                    == WM_XBUTTONUP {
                    let button: Option<PointerButton> = button_from_win32(msg, wparam);
                    if let Some(button) = button {
                        remove_button(&mut self.primary_state.buttons, button);
                    }
                    // The capture ends when all buttons of the primary mouse are released.

                    if no_button_held(self.primary_state.buttons) {
                        reduction.call(Action::ReleaseCapture);
                    }
                    let event = PointerButtonEvent {
                        pointer: Self::primary_mouse(),
                        button,
                        state: self.primary_state,
                    };
                    if let Some(event) = self.attach_count(PointerEvent::Up(event), near) {
                        reduction.add(Event::Pointer(event));
                    }
                }
            },
            (Request::Key(_), Answer::Key(event)) => {
                reduction.add(Event::Keyboard(event));
            },
            (Request::Text, Answer::Text(texts)) => {
                if let Some(texts) = texts {
                    let event: Event = self.compose(texts);
                    reduction.add(event);
                }
            },
            (Request::Scroll(_), Answer::Scroll(value)) => {
                let horizontal: bool = msg == WM_MOUSEHWHEEL;
                let lines = WheelLines {
                    rotation: signed_high_word(wparam),
                    per_notch: scroll_multiplier(value),
                    // Rotation to the right means scrolling to the left.
                    reversed: horizontal,
                };
                let delta: ScrollDelta = if horizontal {
                    ScrollDelta::LineDelta(Some(lines), None)
                } else {
                    ScrollDelta::LineDelta(None, Some(lines))
                };
                reduction.add(
                    Event::Pointer(
                        PointerEvent::Scroll(
                            PointerScrollEvent {
                                pointer: Self::primary_mouse(),
                                delta,
                                state: self.primary_state,
                            },
                        ),
                    ),
                );
            },
            (Request::Touch(_), Answer::Touch(contacts)) => {
                reduction.call(Action::CloseTouchInputHandle);
                if let Some(contacts) = contacts {
                    match self.handle_touch(&contacts, near) {
                        Some(events) => {
                            reduction.events = events;
                        },
                        None => {
                            self.primary_state = before;
                            return None;
                        },
                    }
                }
            },
            _ => {
                self.primary_state = before;
                return None;
            },
        }
        Some(reduction)
    }

    /// Processes a raw Win32 window message.
    ///
    /// `msg`, `wparam` and `lparam` are exactly the parameters that the window procedure receives
    /// for the window this reducer tracks, and `answer` answers what [`request`] says of them.
    /// Messages that the reducer does not recognize produce no events. The window should otherwise
    /// continue its normal default processing regardless of what this returns.
    ///
    /// `time` is monotonic nanoseconds in the clock domain of the consumer's event stream. Every
    /// [`PointerState::time`] that this call produces is this value. The reducer does not
    /// interpret it as wall-clock time, but the timeout of taps is measured in nanoseconds.
    ///
    /// `near` tells whether a point (the second argument) lies within a slop (the third) of an
    /// anchor (the first), at the given scale factor; see [`slop`](crate::slop).
    pub fn reduce<F: Fn(Position, Position, u32) -> bool>(
        &mut self,
        msg: u32,
        wparam: usize,
        lparam: isize,
        scale_factor: ScaleFactor,
        time: u64,
        modifiers: Modifiers,
        answer: Answer,
        near: &F,
    ) -> (reduction: Reduction)
        requires
            is_function(near),
            old(self)@.accepts(
                (Input {
                    msg,
                    wparam,
                    lparam,
                    scale_factor,
                    time,
                    modifiers,
                    answer: answer@,
                }),
                nearness(near),
            ),
        ensures
            ({
                let input = Input {
                    msg,
                    wparam,
                    lparam,
                    scale_factor,
                    time,
                    modifiers,
                    answer: answer@,
                };
                let outcome = old(self)@.step(input, nearness(near));
                reduction.realizes(outcome) && final(self)@ == outcome.state
            }),
    {
        self.try_reduce(msg, wparam, lparam, scale_factor, time, modifiers, answer, near).unwrap()
    }
}

} // verus!
