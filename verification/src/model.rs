//! The mathematical model of the reducer: what each message does to its state and comes to.

use vstd::prelude::*;

use crate::event::{
    events_view, EventView, Modifiers, PointerButton, PointerButtonEventView, PointerEventView,
    PointerInfo, PointerScrollEventView, PointerStateView, PointerUpdateView, Position, Pressure,
    ScaleFactor, ScrollDelta, TextInputView, WheelLines,
};
use crate::message::{
    is_answer, lines_per_notch, request_of, Action, AnswerView, Reduction, TouchContact,
};
use crate::pointer::{button_of, TapState};
use crate::taps::{departed, drag_count, release_count, released, Nearness, Press};
use crate::win32::{
    signed_word, word, TOUCHEVENTF_DOWN, TOUCHEVENTF_UP, WM_IME_ENDCOMPOSITION, WM_LBUTTONDOWN,
    WM_LBUTTONUP, WM_MBUTTONDOWN, WM_MBUTTONUP, WM_MOUSEHWHEEL, WM_MOUSELEAVE, WM_MOUSEMOVE,
    WM_RBUTTONDOWN, WM_RBUTTONUP, WM_XBUTTONDOWN, WM_XBUTTONUP,
};

verus! {

/// A message with all that bears on its meaning.
pub struct Input {
    pub msg: u32,
    pub wparam: usize,
    pub lparam: isize,
    pub scale_factor: ScaleFactor,
    pub time: u64,
    pub modifiers: Modifiers,
    pub answer: AnswerView,
}

/// Mathematical model of [`EventReducer`].
#[verifier::ext_equal]
pub struct ReducerView {
    /// State of the primary mouse pointer.
    pub primary: PointerStateView,
    /// Whether the window has a non-empty composition.
    pub composing: bool,
    /// Whether the cursor is known to be inside the client area.
    pub inside: bool,
    /// The recent taps.
    pub taps: Seq<TapState>,
}

/// The state after a message, and what the message comes to.
#[verifier::ext_equal]
pub struct Outcome {
    pub state: ReducerView,
    pub events: Seq<EventView>,
    pub actions: Seq<Action>,
}

impl Reduction {
    /// Whether this is what `outcome` says a message comes to.
    pub open spec fn realizes(self, outcome: Outcome) -> bool {
        &&& events_view(self.events@) == outcome.events
        &&& self.actions@ == outcome.actions
    }
}

/// A pointer event with its count attached, and the taps after it.
#[verifier::ext_equal]
pub struct Counted {
    pub taps: Seq<TapState>,
    pub event: PointerEventView,
}

/// Whether counting `event` keeps to the ranges of time and count.
pub open spec fn countable(taps: Seq<TapState>, event: PointerEventView, near: Nearness) -> bool {
    event matches PointerEventView::Down(event) ==> press_of(event).in_range(taps, near)
}

/// The press that a button event stands for.
pub open spec fn press_of(event: PointerButtonEventView) -> Press {
    Press {
        pointer: event.pointer,
        position: event.state.position,
        time: event.state.time,
    }
}

/// A sequence of states with the count of each replaced.
pub open spec fn with_counts(states: Seq<PointerStateView>, count: u8) -> Seq<PointerStateView> {
    states.map_values(|state: PointerStateView| state.with_count(count))
}

/// `event` with its count attached.
///
/// A press is counted, a release gets the count of the tap that it ends, and a motion gets the
/// count of the press during which it happens.
pub open spec fn counted(taps: Seq<TapState>, event: PointerEventView, near: Nearness) -> Counted {
    match event {
        PointerEventView::Down(event) => {
            let press = press_of(event);
            Counted {
                taps: press.after(taps, near),
                event: PointerEventView::Down(
                    PointerButtonEventView {
                        state: event.state.with_count(press.count(taps, near)),
                        ..event
                    },
                ),
            }
        },
        PointerEventView::Up(event) => Counted {
            taps: released(taps, event.pointer.pointer_id, event.state.time),
            event: match release_count(taps, event.pointer.pointer_id) {
                Some(count) => PointerEventView::Up(
                    PointerButtonEventView { state: event.state.with_count(count), ..event },
                ),
                None => PointerEventView::Up(event),
            },
        },
        PointerEventView::Move(update) => Counted {
            taps,
            event: match drag_count(taps, update.pointer.pointer_id) {
                Some(count) => PointerEventView::Move(
                    PointerUpdateView {
                        pointer: update.pointer,
                        current: update.current.with_count(count),
                        coalesced: with_counts(update.coalesced, count),
                        predicted: with_counts(update.predicted, count),
                    },
                ),
                None => PointerEventView::Move(update),
            },
        },
        PointerEventView::Cancel(pointer) => Counted {
            taps: departed(taps, pointer.pointer_id),
            event,
        },
        PointerEventView::Leave(pointer) => Counted {
            taps: departed(taps, pointer.pointer_id),
            event,
        },
        PointerEventView::Enter(_) => Counted { taps, event },
        PointerEventView::Scroll(_) => Counted { taps, event },
    }
}

/// Whether a message is one of a button going down.
pub open spec fn is_button_down(msg: u32) -> bool {
    msg == WM_LBUTTONDOWN || msg == WM_RBUTTONDOWN || msg == WM_MBUTTONDOWN || msg == WM_XBUTTONDOWN
}

/// Whether a message is one of a button going up.
pub open spec fn is_button_up(msg: u32) -> bool {
    msg == WM_LBUTTONUP || msg == WM_RBUTTONUP || msg == WM_MBUTTONUP || msg == WM_XBUTTONUP
}

/// How far a wheel message scrolls, where the system asks for `value` lines or characters for one
/// notch. A horizontal wheel scrolls against its rotation.
pub open spec fn wheel_delta(msg: u32, wparam: usize, value: isize) -> ScrollDelta {
    let lines = WheelLines {
        rotation: signed_word(word(wparam as int, 1)) as i16,
        per_notch: lines_per_notch(value),
        reversed: msg == WM_MOUSEHWHEEL,
    };
    if msg == WM_MOUSEHWHEEL {
        ScrollDelta::LineDelta(Some(lines), None)
    } else {
        ScrollDelta::LineDelta(None, Some(lines))
    }
}

/// The event that a touch contact stands for, in a window whose primary pointer is in the state
/// `primary`.
pub open spec fn contact_event(
    primary: PointerStateView,
    contact: TouchContact,
) -> PointerEventView {
    let up = contact.flags & TOUCHEVENTF_UP != 0;
    let pointer = PointerInfo::touch(contact.id);
    let state = PointerStateView {
        time: primary.time,
        position: contact.position,
        modifiers: primary.modifiers,
        pressure: if up {
            Pressure::Zero
        } else {
            Pressure::Half
        },
        scale_factor: primary.scale_factor,
        ..PointerStateView::unknown()
    };
    if contact.flags & TOUCHEVENTF_DOWN != 0 {
        PointerEventView::Down(PointerButtonEventView { button: None, pointer, state })
    } else if up {
        PointerEventView::Up(PointerButtonEventView { button: None, pointer, state })
    } else {
        PointerEventView::Move(
            PointerUpdateView { pointer, current: state, coalesced: seq![], predicted: seq![] },
        )
    }
}

/// The taps after a sequence of touch contacts.
pub open spec fn contact_taps(
    taps: Seq<TapState>,
    primary: PointerStateView,
    contacts: Seq<TouchContact>,
    near: Nearness,
) -> Seq<TapState>
    decreases contacts.len(),
{
    if contacts.len() == 0 {
        taps
    } else {
        let before = contact_taps(taps, primary, contacts.drop_last(), near);
        counted(before, contact_event(primary, contacts.last()), near).taps
    }
}

/// The events of a sequence of touch contacts: one each, counted in order.
pub open spec fn contact_events(
    taps: Seq<TapState>,
    primary: PointerStateView,
    contacts: Seq<TouchContact>,
    near: Nearness,
) -> Seq<EventView> {
    Seq::new(
        contacts.len(),
        |i: int|
            EventView::Pointer(
                counted(
                    contact_taps(taps, primary, contacts.take(i), near),
                    contact_event(primary, contacts[i]),
                    near,
                ).event,
            ),
    )
}

/// Whether counting a sequence of touch contacts keeps to the ranges of time and count.
pub open spec fn contacts_countable(
    taps: Seq<TapState>,
    primary: PointerStateView,
    contacts: Seq<TouchContact>,
    near: Nearness,
) -> bool {
    forall|i: int|
        0 <= i < contacts.len() ==> countable(
            contact_taps(taps, primary, contacts.take(i), near),
            #[trigger] contact_event(primary, contacts[i]),
            near,
        )
}

impl ReducerView {
    /// The state of a window that has not received any message.
    pub open spec fn initial() -> ReducerView {
        ReducerView {
            primary: PointerStateView::unknown(),
            composing: false,
            inside: false,
            taps: seq![],
        }
    }

    /// The state of the primary pointer brought up to a message.
    pub open spec fn stamped(self, input: Input) -> ReducerView {
        ReducerView {
            primary: PointerStateView {
                time: input.time,
                scale_factor: input.scale_factor,
                modifiers: input.modifiers,
                ..self.primary
            },
            ..self
        }
    }

    /// A message that neither changes anything nor means anything.
    pub open spec fn ignore(self) -> Outcome {
        Outcome { state: self, events: seq![], actions: seq![] }
    }

    /// A message that comes to one pointer event and to some calls.
    pub open spec fn emit(
        self,
        event: PointerEventView,
        actions: Seq<Action>,
        near: Nearness,
    ) -> Outcome {
        let counted = counted(self.taps, event, near);
        Outcome {
            state: ReducerView { taps: counted.taps, ..self },
            events: seq![EventView::Pointer(counted.event)],
            actions,
        }
    }

    /// `WM_IME_ENDCOMPOSITION`: a composition that was in progress ends.
    pub open spec fn end_composition(self) -> Outcome {
        Outcome {
            state: ReducerView { composing: false, ..self },
            events: if self.composing {
                seq![EventView::Text(seq![TextInputView::CompositionEnd])]
            } else {
                seq![]
            },
            actions: seq![],
        }
    }

    /// `WM_IME_COMPOSITION`: the text events are handed on, after the end of the composition that
    /// a commit finishes.
    pub open spec fn compose(self, texts: Seq<TextInputView>) -> Outcome {
        let commits = texts.len() > 0 && texts[0] is Insert;
        let composing = texts.len() > 0 && texts[0] is CompositionUpdate;
        Outcome {
            state: ReducerView { composing, ..self },
            events: seq![
                EventView::Text(
                    if self.composing && commits {
                        seq![TextInputView::CompositionEnd] + texts
                    } else {
                        texts
                    },
                ),
            ],
            actions: seq![],
        }
    }

    /// The state with the primary pointer moved to the position that `lparam` packs.
    pub open spec fn moved(self, lparam: isize) -> ReducerView {
        ReducerView {
            primary: PointerStateView {
                position: Position {
                    x: signed_word(word(lparam as int, 0)) as i32,
                    y: signed_word(word(lparam as int, 1)) as i32,
                },
                ..self.primary
            },
            inside: true,
            ..self
        }
    }

    /// `WM_MOUSEMOVE`: the pointer enters the window, if it was not inside, and moves.
    pub open spec fn mouse_move(self, lparam: isize, near: Nearness) -> Outcome {
        let after = self.moved(lparam);
        let moves = after.emit(
            PointerEventView::Move(
                PointerUpdateView {
                    pointer: PointerInfo::primary_mouse(),
                    current: after.primary,
                    coalesced: seq![],
                    predicted: seq![],
                },
            ),
            seq![],
            near,
        );
        if self.inside {
            moves
        } else {
            Outcome {
                events: seq![
                    EventView::Pointer(PointerEventView::Enter(PointerInfo::primary_mouse())),
                ] + moves.events,
                actions: seq![Action::TrackMouseLeave],
                ..moves
            }
        }
    }

    /// `WM_MOUSELEAVE`: the pointer leaves the window.
    pub open spec fn mouse_leave(self, near: Nearness) -> Outcome {
        (ReducerView { inside: false, ..self }).emit(
            PointerEventView::Leave(PointerInfo::primary_mouse()),
            seq![],
            near,
        )
    }

    /// The state with a button added to those held.
    pub open spec fn holding(self, button: Option<PointerButton>) -> ReducerView {
        match button {
            Some(button) => ReducerView {
                primary: PointerStateView {
                    buttons: self.primary.buttons.insert(button.mask()),
                    ..self.primary
                },
                ..self
            },
            None => self,
        }
    }

    /// The state with a button removed from those held.
    pub open spec fn dropping(self, button: Option<PointerButton>) -> ReducerView {
        match button {
            Some(button) => ReducerView {
                primary: PointerStateView {
                    buttons: self.primary.buttons.remove(button.mask()),
                    ..self.primary
                },
                ..self
            },
            None => self,
        }
    }

    /// The event of the primary mouse's button, in the current state.
    pub open spec fn button_event(self, button: Option<PointerButton>) -> PointerButtonEventView {
        PointerButtonEventView {
            button,
            pointer: PointerInfo::primary_mouse(),
            state: self.primary,
        }
    }

    /// A button goes down: the mouse is captured.
    pub open spec fn button_down(self, button: Option<PointerButton>, near: Nearness) -> Outcome {
        let after = self.holding(button);
        after.emit(
            PointerEventView::Down(after.button_event(button)),
            seq![Action::SetCapture],
            near,
        )
    }

    /// A button goes up: the mouse is released once no button is held.
    pub open spec fn button_up(self, button: Option<PointerButton>, near: Nearness) -> Outcome {
        let after = self.dropping(button);
        after.emit(
            PointerEventView::Up(after.button_event(button)),
            if after.primary.buttons == Set::<u32>::empty() {
                seq![Action::ReleaseCapture]
            } else {
                seq![]
            },
            near,
        )
    }

    /// `WM_MOUSEWHEEL` or `WM_MOUSEHWHEEL`: the turn of a wheel.
    pub open spec fn scroll(self, delta: ScrollDelta) -> Outcome {
        Outcome {
            state: self,
            events: seq![
                EventView::Pointer(
                    PointerEventView::Scroll(
                        PointerScrollEventView {
                            pointer: PointerInfo::primary_mouse(),
                            delta,
                            state: self.primary,
                        },
                    ),
                ),
            ],
            actions: seq![],
        }
    }

    /// `WM_TOUCH`: one event for each contact, and the handle is closed.
    pub open spec fn touch(self, contacts: Option<Seq<TouchContact>>, near: Nearness) -> Outcome {
        match contacts {
            Some(contacts) => Outcome {
                state: ReducerView {
                    taps: contact_taps(self.taps, self.primary, contacts, near),
                    ..self
                },
                events: contact_events(self.taps, self.primary, contacts, near),
                actions: seq![Action::CloseTouchInputHandle],
            },
            None => Outcome {
                state: self,
                events: seq![],
                actions: seq![Action::CloseTouchInputHandle],
            },
        }
    }

    /// What a message comes to.
    pub open spec fn step(self, input: Input, near: Nearness) -> Outcome {
        let now = self.stamped(input);
        let msg = input.msg;
        if msg == WM_IME_ENDCOMPOSITION {
            now.end_composition()
        } else if msg == WM_MOUSEMOVE {
            now.mouse_move(input.lparam, near)
        } else if msg == WM_MOUSELEAVE {
            now.mouse_leave(near)
        } else if is_button_down(msg) {
            now.button_down(button_of(msg, input.wparam), near)
        } else if is_button_up(msg) {
            now.button_up(button_of(msg, input.wparam), near)
        } else {
            match input.answer {
                AnswerView::Key(event) => Outcome {
                    state: now,
                    events: seq![EventView::Keyboard(event)],
                    actions: seq![],
                },
                AnswerView::Text(Some(texts)) => now.compose(texts),
                AnswerView::Scroll(value) => now.scroll(wheel_delta(msg, input.wparam, value)),
                AnswerView::Touch(contacts) => now.touch(contacts, near),
                _ => now.ignore(),
            }
        }
    }

    /// Whether a message can be reduced: time does not run backwards, the answer is one to what the
    /// message asks, and neither a time nor a count overflows.
    pub open spec fn accepts(self, input: Input, near: Nearness) -> bool {
        let now = self.stamped(input);
        &&& input.time >= self.primary.time
        &&& is_answer(request_of(input.msg, input.wparam), input.answer)
        &&& is_button_down(input.msg) ==> {
            let after = now.holding(button_of(input.msg, input.wparam));
            let event = after.button_event(button_of(input.msg, input.wparam));
            countable(after.taps, PointerEventView::Down(event), near)
        }
        &&& input.answer matches AnswerView::Touch(Some(contacts)) ==> contacts_countable(
            now.taps,
            now.primary,
            contacts,
            near,
        )
    }
}

} // verus!
