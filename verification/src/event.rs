//! The event model: pointers, scrolling and text input.

use ui_events::keyboard::KeyboardEvent;
use ui_events::pointer::PointerButtons;
use vstd::prelude::*;

use crate::external::{held, no_buttons};

verus! {

/// Identifier of the primary pointer.
pub const PRIMARY_POINTER: u64 = 1;

/// Bits of the scale factor 1.0.
pub const UNIT_SCALE: u64 = 0x3FF0_0000_0000_0000;

/// A button of a mouse.
#[derive(Clone, Copy, Debug, PartialEq, Eq, Structural)]
pub enum PointerButton {
    /// Primary button, commonly the left one.
    Primary,
    /// Secondary button, commonly the right one.
    Secondary,
    /// Auxiliary button, commonly the middle one.
    Auxiliary,
    /// X1 (back).
    X1,
    /// X2 (forward).
    X2,
}

impl PointerButton {
    /// The bit that stands for the button in a set of buttons.
    pub open spec fn mask(self) -> u32 {
        match self {
            PointerButton::Primary => 1,
            PointerButton::Secondary => 2,
            PointerButton::Auxiliary => 4,
            PointerButton::X1 => 8,
            PointerButton::X2 => 16,
        }
    }
}

/// The kind of device that a pointer event comes from.
#[derive(Clone, Copy, Debug, PartialEq, Eq, Structural)]
pub enum PointerType {
    /// The kind of device could not be determined.
    Unknown,
    /// A mouse.
    Mouse,
    /// A pen or stylus.
    Pen,
    /// A touch contact.
    Touch,
}

/// What identifies a pointer across its states.
#[derive(Clone, Copy, Debug, PartialEq, Eq, Structural)]
pub struct PointerInfo {
    /// Identifier of the pointer, which is never zero.
    pub pointer_id: Option<u64>,
    /// Identifier of the device, where the platform gives one.
    pub persistent_device_id: Option<u64>,
    /// Kind of device.
    pub pointer_type: PointerType,
}

impl PointerInfo {
    /// The primary mouse.
    pub open spec fn primary_mouse() -> PointerInfo {
        PointerInfo {
            pointer_id: Some(PRIMARY_POINTER),
            persistent_device_id: None,
            pointer_type: PointerType::Mouse,
        }
    }

    /// The touch contact that Windows calls `id`.
    pub open spec fn touch(id: u32) -> PointerInfo {
        PointerInfo {
            pointer_id: Some((id + 1) as u64),
            persistent_device_id: None,
            pointer_type: PointerType::Touch,
        }
    }
}

/// A position in whole physical pixels, relative to the client area of the window.
#[derive(Clone, Copy, Debug, PartialEq, Eq, Structural)]
pub struct Position {
    /// Distance from the left edge.
    pub x: i32,
    /// Distance from the upper edge.
    pub y: i32,
}

/// A scale factor, held as the bits of the IEEE 754 double that it is.
#[derive(Clone, Copy, Debug, PartialEq, Eq, Structural)]
pub struct ScaleFactor {
    /// The bits.
    pub bits: u64,
}

/// The modifier keys that are held.
#[derive(Clone, Copy, Debug, PartialEq, Eq, Structural)]
pub struct Modifiers {
    /// One bit for each key, as the event model numbers them.
    pub bits: u32,
}

/// Normalized pressure of a pointer whose device does not measure it.
#[derive(Clone, Copy, Debug, PartialEq, Eq, Structural)]
pub enum Pressure {
    /// 0.0, of a pointer that is not pressed.
    Zero,
    /// 0.5, of a pointer that is pressed.
    Half,
}

/// The state of a pointer at one moment.
#[derive(Clone, Copy, Debug, PartialEq)]
pub struct PointerState {
    /// Nanoseconds in the clock domain of the event stream.
    pub time: u64,
    /// Position.
    pub position: Position,
    /// Pressed buttons.
    pub buttons: PointerButtons,
    /// Held modifier keys.
    pub modifiers: Modifiers,
    /// Click or tap count.
    pub count: u8,
    /// Pressure.
    pub pressure: Pressure,
    /// Scale factor of the window.
    pub scale_factor: ScaleFactor,
}

/// Mathematical model of [`PointerState`].
pub struct PointerStateView {
    pub time: u64,
    pub position: Position,
    pub buttons: Set<u32>,
    pub modifiers: Modifiers,
    pub count: u8,
    pub pressure: Pressure,
    pub scale_factor: ScaleFactor,
}

impl View for PointerState {
    type V = PointerStateView;

    open spec fn view(&self) -> PointerStateView {
        PointerStateView {
            time: self.time,
            position: self.position,
            buttons: held(self.buttons),
            modifiers: self.modifiers,
            count: self.count,
            pressure: self.pressure,
            scale_factor: self.scale_factor,
        }
    }
}

impl PointerStateView {
    /// A pointer that nothing is known of: time zero, at the origin, with no button or modifier
    /// held, no count, no pressure and the scale factor 1.0.
    pub open spec fn unknown() -> PointerStateView {
        PointerStateView {
            time: 0,
            position: Position { x: 0, y: 0 },
            buttons: Set::empty(),
            modifiers: Modifiers { bits: 0 },
            count: 0,
            pressure: Pressure::Zero,
            scale_factor: ScaleFactor { bits: UNIT_SCALE },
        }
    }

    /// The same state with another click or tap count.
    pub open spec fn with_count(self, count: u8) -> PointerStateView {
        PointerStateView { count, ..self }
    }
}

impl Default for PointerState {
    /// The state of a pointer that nothing is known of.
    fn default() -> (state: PointerState)
        ensures
            state@ == PointerStateView::unknown(),
    {
        PointerState {
            time: 0,
            position: Position { x: 0, y: 0 },
            buttons: no_buttons(),
            modifiers: Modifiers { bits: 0 },
            count: 0,
            pressure: Pressure::Zero,
            scale_factor: ScaleFactor { bits: UNIT_SCALE },
        }
    }
}

/// The models of a sequence of states.
pub open spec fn states_view(states: Seq<PointerState>) -> Seq<PointerStateView> {
    states.map_values(|state: PointerState| state@)
}

/// A pointer update, along with coalesced and predicted states.
#[derive(Debug, PartialEq)]
pub struct PointerUpdate {
    /// The pointer.
    pub pointer: PointerInfo,
    /// Current state.
    pub current: PointerState,
    /// Coalesced states, ordered by time.
    pub coalesced: Vec<PointerState>,
    /// Predicted states, ordered by time.
    pub predicted: Vec<PointerState>,
}

/// Mathematical model of [`PointerUpdate`].
#[verifier::ext_equal]
pub struct PointerUpdateView {
    pub pointer: PointerInfo,
    pub current: PointerStateView,
    pub coalesced: Seq<PointerStateView>,
    pub predicted: Seq<PointerStateView>,
}

impl View for PointerUpdate {
    type V = PointerUpdateView;

    open spec fn view(&self) -> PointerUpdateView {
        PointerUpdateView {
            pointer: self.pointer,
            current: self.current@,
            coalesced: states_view(self.coalesced@),
            predicted: states_view(self.predicted@),
        }
    }
}

/// The press or release of a button, or the start or end of a contact.
#[derive(Clone, Copy, Debug, PartialEq)]
pub struct PointerButtonEvent {
    /// The button, if the device has any.
    pub button: Option<PointerButton>,
    /// The pointer.
    pub pointer: PointerInfo,
    /// The state of the pointer.
    pub state: PointerState,
}

/// Mathematical model of [`PointerButtonEvent`].
pub struct PointerButtonEventView {
    pub button: Option<PointerButton>,
    pub pointer: PointerInfo,
    pub state: PointerStateView,
}

impl View for PointerButtonEvent {
    type V = PointerButtonEventView;

    open spec fn view(&self) -> PointerButtonEventView {
        PointerButtonEventView {
            button: self.button,
            pointer: self.pointer,
            state: self.state@,
        }
    }
}

/// The lines (or characters) that one turn of a wheel scrolls.
#[derive(Clone, Copy, Debug, PartialEq, Eq, Structural)]
pub struct WheelLines {
    /// Rotation of the wheel; a notch is [`WHEEL_DELTA`](crate::win32::WHEEL_DELTA).
    pub rotation: i16,
    /// Lines scrolled for one notch.
    pub per_notch: isize,
    /// Whether the scrolling goes against the rotation.
    pub reversed: bool,
}

impl WheelLines {
    /// The scrolled lines, times [`WHEEL_DELTA`](crate::win32::WHEEL_DELTA).
    pub open spec fn scaled(self) -> int {
        if self.reversed {
            -(self.rotation * self.per_notch)
        } else {
            self.rotation * self.per_notch
        }
    }
}

/// How far to scroll.
#[derive(Clone, Copy, Debug, PartialEq, Eq, Structural)]
pub enum ScrollDelta {
    /// Lines to scroll horizontally and vertically; `None` is no scrolling at all.
    LineDelta(Option<WheelLines>, Option<WheelLines>),
}

/// The turn of a wheel.
#[derive(Clone, Copy, Debug, PartialEq)]
pub struct PointerScrollEvent {
    /// The pointer.
    pub pointer: PointerInfo,
    /// How far to scroll.
    pub delta: ScrollDelta,
    /// The state of the pointer.
    pub state: PointerState,
}

/// Mathematical model of [`PointerScrollEvent`].
pub struct PointerScrollEventView {
    pub pointer: PointerInfo,
    pub delta: ScrollDelta,
    pub state: PointerStateView,
}

impl View for PointerScrollEvent {
    type V = PointerScrollEventView;

    open spec fn view(&self) -> PointerScrollEventView {
        PointerScrollEventView {
            pointer: self.pointer,
            delta: self.delta,
            state: self.state@,
        }
    }
}

/// A pointer event.
#[derive(Debug, PartialEq)]
pub enum PointerEvent {
    /// A button was pressed or a contact made.
    Down(PointerButtonEvent),
    /// A button was released or a contact lifted.
    Up(PointerButtonEvent),
    /// The pointer moved.
    Move(PointerUpdate),
    /// The motion of the pointer was cancelled.
    Cancel(PointerInfo),
    /// The pointer entered the window.
    Enter(PointerInfo),
    /// The pointer left the window.
    Leave(PointerInfo),
    /// A scroll was requested at the pointer.
    Scroll(PointerScrollEvent),
}

/// Mathematical model of [`PointerEvent`].
#[verifier::ext_equal]
pub enum PointerEventView {
    Down(PointerButtonEventView),
    Up(PointerButtonEventView),
    Move(PointerUpdateView),
    Cancel(PointerInfo),
    Enter(PointerInfo),
    Leave(PointerInfo),
    Scroll(PointerScrollEventView),
}

impl View for PointerEvent {
    type V = PointerEventView;

    open spec fn view(&self) -> PointerEventView {
        match *self {
            PointerEvent::Down(event) => PointerEventView::Down(event@),
            PointerEvent::Up(event) => PointerEventView::Up(event@),
            PointerEvent::Move(update) => PointerEventView::Move(update@),
            PointerEvent::Cancel(pointer) => PointerEventView::Cancel(pointer),
            PointerEvent::Enter(pointer) => PointerEventView::Enter(pointer),
            PointerEvent::Leave(pointer) => PointerEventView::Leave(pointer),
            PointerEvent::Scroll(event) => PointerEventView::Scroll(event@),
        }
    }
}

/// A range of byte offsets into a text.
#[derive(Clone, Copy, Debug, PartialEq, Eq, Structural)]
pub struct TextRange {
    /// Offset of the first byte.
    pub start: u32,
    /// Offset past the last byte.
    pub end: u32,
}

/// A composition in progress.
#[derive(Debug, PartialEq, Eq)]
pub struct CompositionState {
    /// The text composed so far.
    pub text: String,
    /// The selected clause, or the cursor.
    pub selection: Option<TextRange>,
}

/// A text-input event.
#[derive(Debug, PartialEq, Eq)]
pub enum TextInputEvent {
    /// Text was committed.
    Insert(String),
    /// The composition changed.
    CompositionUpdate(CompositionState),
    /// The composition ended.
    CompositionEnd,
}

/// Mathematical model of [`TextInputEvent`].
#[verifier::ext_equal]
pub enum TextInputView {
    Insert(Seq<char>),
    CompositionUpdate(Seq<char>, Option<TextRange>),
    CompositionEnd,
}

impl View for TextInputEvent {
    type V = TextInputView;

    open spec fn view(&self) -> TextInputView {
        match *self {
            TextInputEvent::Insert(text) => TextInputView::Insert(text@),
            TextInputEvent::CompositionUpdate(state) => TextInputView::CompositionUpdate(
                state.text@,
                state.selection,
            ),
            TextInputEvent::CompositionEnd => TextInputView::CompositionEnd,
        }
    }
}

/// The models of a batch of text-input events.
pub open spec fn texts_view(events: Seq<TextInputEvent>) -> Seq<TextInputView> {
    events.map_values(|event: TextInputEvent| event@)
}

/// What one window message translates to.
#[derive(Debug, PartialEq)]
pub enum Event {
    /// A key event.
    Keyboard(KeyboardEvent),
    /// A pointer event.
    Pointer(PointerEvent),
    /// Text-input events.
    ///
    /// This is a batch because one message can map to more than one text event. For example,
    /// committing an active composition gives [`TextInputEvent::CompositionEnd`] followed by the
    /// committed [`TextInputEvent::Insert`].
    Text(Vec<TextInputEvent>),
}

/// Mathematical model of [`Event`].
#[verifier::ext_equal]
pub enum EventView {
    Keyboard(KeyboardEvent),
    Pointer(PointerEventView),
    Text(Seq<TextInputView>),
}

impl View for Event {
    type V = EventView;

    open spec fn view(&self) -> EventView {
        match *self {
            Event::Keyboard(event) => EventView::Keyboard(event),
            Event::Pointer(event) => EventView::Pointer(event@),
            Event::Text(events) => EventView::Text(texts_view(events@)),
        }
    }
}

/// The models of a sequence of events.
pub open spec fn events_view(events: Seq<Event>) -> Seq<EventView> {
    events.map_values(|event: Event| event@)
}

} // verus!
