# ui-events-windows

Translates raw Win32 window messages (mouse, touch, keyboard, IME) into pointer, keyboard and
text-input events.

- `src/` is the library: the state machine of a window's input, click and tap counting, and the
  reading of IME compositions. It makes no system calls and is verified with Verus.
  `src/model.rs` says what each message comes to; `src/laws.rs`, `src/tap_laws.rs`,
  `src/text_laws.rs` and `src/clock_laws.rs` state and prove what holds of the whole;
  `src/external.rs` holds what is taken from other crates and the standard library without proof.
- `app/` is the shell for Windows: it makes the system calls and converts to the types of
  `ui-events`.
- `tests/` runs the library on concrete messages.
