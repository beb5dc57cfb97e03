# KibaD

A daemon that learns, per widget, where its user clicks fastest, and moves the
widget there by a few pixels through an overlay.

- `src/` is the library: every decision the daemon takes, with its contract,
  proved by Verus. Public proof functions named `law_...` state what holds across
  functions.
- `app/` is the program around it: the accessibility bus, the compositor, the
  input devices, the database, the network, and the floating-point statistics.
- `tests/` runs the library on concrete values.

Measurements (reaction times, rewards, variances) are binary64 numbers. The
library carries them by bit pattern and compares them; `app/bandit.rs` computes
them.
