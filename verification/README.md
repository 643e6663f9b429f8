# profiler_render

The panel model of a live telemetry viewer: which drone a sample belongs to, what is
kept of it, which panels show it and where, how panels are edited and edits undone,
and the commands that go back to a simulation.

- `src/` is the library, verified with Verus. Numbers are IEEE 754 words, times are
  microseconds and lengths 1/256 of a pixel, all of them integers.
- `tests/` runs the library on concrete values.
- `app/` is the program around it: command line, files, sockets, painting, and the
  floating-point arithmetic of signals and of the 3D view.
