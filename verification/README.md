# zterm_terminal

The terminal core of zterm: a grid of cells with scrollback, an escape
sequence performer that drives it, shell integration (OSC 133/633/7 scanning,
command zones and blocks, text extraction), and the decisions of the PTY
read/write/monitor loops.

- `src/` is the library, written in Verus. Every function there carries a
  contract that Verus proves; the laws of the library (round trips, what an
  operation keeps) stand there as public proof functions.
- `app/` holds what cannot be verified: PTY creation and the threads that run
  the loops, the `vte` parser bridge, channels, environment access, and the
  serde copies of the library's data types.
- `tests/` exercises the library on concrete values.

Verify with Verus; build and test with cargo.
