# ami-code

A terminal workbench for coding: an editor, an agent and a shell side by side,
with a file sidebar. Written in Verus.

- `src/` is the verified library. `terminal/` models a terminal and what programs
  in it read and write; `workbench/` divides the viewport and keeps focus, tabs and
  layouts; `workspace/` holds the sidebar, Git state and trust decisions; `backend/`
  describes the processes; `ui/` says what is painted; `app/` supervises the
  sessions and turns events into effects.
- `app/` is the program around it: the event loop, pseudo terminals, files, the
  clipboard and painting with ratatui. It carries out the effects that the library
  asks for and reports how that went.
- `tests/` runs the library.

What the library takes on trust from other crates stands in
`src/terminal/emulator.rs` (the `vt100` terminal emulator), `src/digest.rs`
(SHA-256 from `sha2`) and `src/text.rs` (strings and characters of std). Each item
there says what it claims.
