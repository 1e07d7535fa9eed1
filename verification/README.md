# pe_calculator

A basic four-function calculator for Windows PE environments, whose logic is
verified with Verus.

- `src/` is the verified library:
  - `calculator` — the keypad state machine (digits, decimal point,
    operators, equals, clear, clear entry, backspace, the division-by-zero
    state) and the text of numbers. Numbers are opaque codes chosen by the
    caller's arithmetic; where a key needs an evaluation, the machine names it
    and takes its outcome with the key.
  - `layout` — the button grid, the rectangles of the buttons for a client
    area, and hit testing, with the laws that buttons never overlap and stay
    inside a large enough client area.
  - `renderer` — the drawing decisions: font heights, display bands, button
    fills.
  - `window` — key mapping, button dispatch, decoding of mouse coordinates,
    and the hover/press state of the window.
  - `text` — character-level helpers.
- `app/` is the Win32 program: window class, message loop, GDI drawing, and
  the floating-point arithmetic (parsing the display, the four operations,
  classifying values for their text).
- `tests/` exercises the library on concrete inputs.
