//! Translation of raw Win32 window messages into pointer, keyboard and text-input events.
//!
//! The crate is the decision-making core of a Win32 input backend.
//! [`EventReducer`] owns the per-window input state. For each message of a window procedure,
//! [`request`] says what has to be asked of Windows, and [`EventReducer::reduce`] turns the
//! message and the answer into events and into calls that the window has to make.
//! [`text::from_imm`] drives the reading of an IME composition in the same way.
//!
//! Nothing in this crate touches the operating system. Quantities that the event model carries as
//! floating-point numbers are held as the integers they come from.

mod reducer;

pub mod clock_laws;
pub mod composition_laws;
pub mod count_laws;
pub mod drag_laws;
pub mod event;
pub mod external;
pub mod laws;
pub mod message;
pub mod message_laws;
pub mod model;
pub mod number_laws;
pub mod pointer;
pub mod tap_laws;
pub mod taps;
pub mod text;
pub mod text_laws;
pub mod utf16;
pub mod view_laws;
pub mod win32;

pub use crate::event::Event;
pub use crate::message::{request, Action, Answer, Reduction, Request};
pub use crate::pointer::slop;
pub use crate::reducer::EventReducer;
