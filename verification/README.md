# TideWM

A tiling Wayland compositor whose logic is verified with Verus.

- `src/` is the library: layouts, windows and their modes, input, the protocols that
  clients speak, the control socket, screen sharing, the session. Every function states
  what it gives back or changes, and Verus proves it. Statements about several functions
  together are the `law_` functions next to them.
- `app/` is the process around it: the command line, sockets, the session bus, threads,
  and what is computed in floating point.
- `tests/` runs the library on concrete values.

The library knows surfaces, outputs, workers and requests by their numbers. Whoever calls
it looks up what is known of them, hands it over as plain values, and carries out what
comes back.

Fractions of splits are counted in whole steps, so that the library reproduces
single-precision results without floating point; `src/ratio.rs` says how.
