//! What the window tells the reducer, and what the reducer tells the window.

use ui_events::keyboard::KeyboardEvent;
use vstd::prelude::*;

use crate::event::{
    events_view, texts_view, Event, EventView, Position, TextInputEvent, TextInputView,
};
use crate::win32::{
    low_bits, low_word, word, SPI_GETWHEELSCROLLCHARS, SPI_GETWHEELSCROLLLINES, WM_IME_COMPOSITION,
    WM_KEYDOWN, WM_KEYUP, WM_MOUSEHWHEEL, WM_MOUSEWHEEL, WM_SYSKEYDOWN, WM_SYSKEYUP, WM_TOUCH,
};

verus! {

/// Lines or characters scrolled for one notch of a wheel, where the system does not say.
pub const DEFAULT_SCROLL: isize = 3;

/// The low bits of a system parameter that asks for whole pages to be scrolled.
pub const PAGE_SCROLL: u32 = 0xFFFF_FFFF;

/// Whether a key went down or up.
#[derive(Clone, Copy, Debug, PartialEq, Eq, Structural)]
pub enum KeyState {
    /// The key was pressed.
    Down,
    /// The key was released.
    Up,
}

/// What the window has to find out before a message can be reduced.
#[derive(Clone, Copy, Debug, PartialEq, Eq, Structural)]
pub enum Request {
    /// Nothing.
    Nothing,
    /// The translation of the message's key.
    Key(KeyState),
    /// The composition; see [`from_imm`](crate::text::from_imm).
    Text,
    /// The system parameter with this number, as an integer that is [`DEFAULT_SCROLL`] unless the
    /// system overwrites it.
    Scroll(u32),
    /// This many touch contacts.
    Touch(usize),
}

/// A touch contact.
#[derive(Clone, Copy, Debug, PartialEq, Eq, Structural)]
pub struct TouchContact {
    /// Identifier of the contact.
    pub id: u32,
    /// `TOUCHEVENTF_*` flags.
    pub flags: u32,
    /// Position relative to the client area.
    pub position: Position,
}

/// The answer to a [`Request`].
#[derive(Debug)]
pub enum Answer {
    /// Answer to [`Request::Nothing`].
    Nothing,
    /// Answer to [`Request::Key`].
    Key(KeyboardEvent),
    /// Answer to [`Request::Text`].
    Text(Option<Vec<TextInputEvent>>),
    /// Answer to [`Request::Scroll`].
    Scroll(isize),
    /// Answer to [`Request::Touch`]; `None` where the contacts cannot be had.
    Touch(Option<Vec<TouchContact>>),
}

/// Mathematical model of [`Answer`].
#[verifier::ext_equal]
pub enum AnswerView {
    Nothing,
    Key(KeyboardEvent),
    Text(Option<Seq<TextInputView>>),
    Scroll(isize),
    Touch(Option<Seq<TouchContact>>),
}

impl View for Answer {
    type V = AnswerView;

    open spec fn view(&self) -> AnswerView {
        match *self {
            Answer::Nothing => AnswerView::Nothing,
            Answer::Key(event) => AnswerView::Key(event),
            Answer::Text(Some(events)) => AnswerView::Text(Some(texts_view(events@))),
            Answer::Text(None) => AnswerView::Text(None),
            Answer::Scroll(value) => AnswerView::Scroll(value),
            Answer::Touch(Some(contacts)) => AnswerView::Touch(Some(contacts@)),
            Answer::Touch(None) => AnswerView::Touch(None),
        }
    }
}

/// A call that the window has to make.
#[derive(Clone, Copy, Debug, PartialEq, Eq, Structural)]
pub enum Action {
    /// Have `WM_MOUSELEAVE` delivered, with `TrackMouseEvent`.
    TrackMouseLeave,
    /// Capture the mouse, with `SetCapture`.
    SetCapture,
    /// Release the mouse, with `ReleaseCapture`.
    ReleaseCapture,
    /// Close the touch handle of the message, with `CloseTouchInputHandle`.
    CloseTouchInputHandle,
}

/// What a message comes to.
#[derive(Debug)]
pub struct Reduction {
    /// The events, in order.
    pub events: Vec<Event>,
    /// The calls to make, in order.
    pub actions: Vec<Action>,
}

impl Reduction {
    /// What a message without meaning comes to.
    pub(crate) fn nothing() -> (reduction: Reduction)
        ensures
            events_view(reduction.events@) == Seq::<EventView>::empty(),
            reduction.actions@ == Seq::<Action>::empty(),
    {
        let reduction = Reduction { events: Vec::new(), actions: Vec::new() };
        assert(events_view(reduction.events@) =~= Seq::empty());
        reduction
    }

    /// Adds an event at the end.
    pub(crate) fn add(&mut self, event: Event)
        ensures
            events_view(final(self).events@) == events_view(old(self).events@).push(event@),
            final(self).actions == old(self).actions,
    {
        self.events.push(event);
        assert(events_view(self.events@) =~= events_view(old(self).events@).push(event@));
    }

    /// Adds a call at the end.
    pub(crate) fn call(&mut self, action: Action)
        ensures
            final(self).events == old(self).events,
            final(self).actions@ == old(self).actions@.push(action),
    {
        self.actions.push(action);
    }
}

/// What has to be found out before a message can be reduced.
pub open spec fn request_of(msg: u32, wparam: usize) -> Request {
    if msg == WM_KEYDOWN || msg == WM_SYSKEYDOWN {
        Request::Key(KeyState::Down)
    } else if msg == WM_KEYUP || msg == WM_SYSKEYUP {
        Request::Key(KeyState::Up)
    } else if msg == WM_IME_COMPOSITION {
        Request::Text
    } else if msg == WM_MOUSEWHEEL {
        Request::Scroll(SPI_GETWHEELSCROLLLINES)
    } else if msg == WM_MOUSEHWHEEL {
        Request::Scroll(SPI_GETWHEELSCROLLCHARS)
    } else if msg == WM_TOUCH {
        Request::Touch(word(wparam as int, 0) as usize)
    } else {
        Request::Nothing
    }
}

/// Whether `answer` answers `request`.
pub open spec fn is_answer(request: Request, answer: AnswerView) -> bool {
    match request {
        Request::Nothing => answer is Nothing,
        Request::Key(_) => answer is Key,
        Request::Text => answer is Text,
        Request::Scroll(_) => answer is Scroll,
        Request::Touch(_) => answer is Touch,
    }
}

/// The lines or characters for one notch that a system parameter asks for: the default where it
/// asks for pages.
pub open spec fn lines_per_notch(value: isize) -> isize {
    if value as int % 0x1_0000_0000 == PAGE_SCROLL {
        DEFAULT_SCROLL
    } else {
        value
    }
}

/// `coordinate / 100`, rounded towards zero.
pub open spec fn whole_pixels(coordinate: int) -> int {
    if coordinate >= 0 {
        coordinate / 100
    } else {
        -((-coordinate) / 100)
    }
}

/// What has to be found out before the message can be reduced.
pub fn request(msg: u32, wparam: usize) -> (request: Request)
    ensures
        request == request_of(msg, wparam),
{
    if msg == WM_KEYDOWN || msg == WM_SYSKEYDOWN {
        Request::Key(KeyState::Down)
    } else if msg == WM_KEYUP || msg == WM_SYSKEYUP {
        Request::Key(KeyState::Up)
    } else if msg == WM_IME_COMPOSITION {
        Request::Text
    } else if msg == WM_MOUSEWHEEL {
        Request::Scroll(SPI_GETWHEELSCROLLLINES)
    } else if msg == WM_MOUSEHWHEEL {
        Request::Scroll(SPI_GETWHEELSCROLLCHARS)
    } else if msg == WM_TOUCH {
        Request::Touch(low_word(wparam))
    } else {
        Request::Nothing
    }
}

/// The lines or characters to scroll for one notch, where the system parameter has the value
/// `value`.
pub fn scroll_multiplier(value: isize) -> (multiplier: isize)
    ensures
        multiplier == lines_per_notch(value),
{
    if low_bits(value) == PAGE_SCROLL {
        DEFAULT_SCROLL
    } else {
        value
    }
}

/// The screen coordinate in whole pixels of a touch coordinate in hundredths of a pixel.
pub fn touch_pixel(coordinate: i32) -> (pixel: i32)
    ensures
        pixel == whole_pixels(coordinate as int),
{
    coordinate / 100
}

} // verus!
