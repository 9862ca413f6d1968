# Captastic

Fast native screenshot capture: hotkeys, an overlay to pick a region or a window, and destinations
for what was captured.

- `src/` is the library: the rules, formats and state machines of the program, each stated as a
  contract and proved by Verus. Configuration and its validation, hotkey chords, remembered overlay
  state, capture history and its retention, file names, log lines and log rotation, atomic file
  replacement, the capture worker's loop and its recovery, selections, destinations, benchmark
  reports, budgets and comparisons.
- `app/` is the program around it: the command line, files, threads and the desktop.
- `tests/` runs the library on concrete values.

What is kept as floating-point numbers on disk (overlay positions, scale factors) the library holds
by their bits. Times are nanoseconds. Paths are lists of components where the library takes them
apart, and text where it only hands them on.
