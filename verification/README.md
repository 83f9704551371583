# ultraterm

The core of a GPU-rendered terminal emulator, verified with Verus.

`src/` is the library. Its functions have contracts that Verus proves, except for
the few items that call other crates or `std`, whose contracts are believed:

- `screen/` holds the grid of cells, the two pages, the scroll region, the
  scrollback ring and the marks of rows that have to be drawn again. Its
  operations are described by the functions of `screen/model.rs`.
- `vt.rs` and `parser.rs` read terminal output with the `vte` state machine and
  carry out what it asks for: cursor movement, erasing, colours, scrolling, the
  alternate page, modes and replies.
- `input.rs` turns keys, pasted text and mouse events into bytes.
- `selection.rs` and `session.rs` decide what a window does with its events.
- `draw.rs` and `atlas.rs` decide what is drawn and where glyphs are kept.
- `pty.rs` and `headless.rs` decide what runs in the pseudo-terminal and what was
  printed there.
- `laws/` states what holds of the terminal as a whole, such as that output can
  be read in pieces of any size, that changed rows are marked, and that the
  alternate page leaves the primary one alone.

`app/` is the program around it: the window, the GPU, the pseudo-terminal and the
clipboard. `tests/` runs the library.

What is believed without proof is stated in the doc comments of these items: the
dispatches of `vte`, the character widths of `unicode-width`, and a few functions
of `std` on characters and strings.
