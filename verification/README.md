# PadPlay

A tablet on a USB cable as a second monitor. The host creates a virtual output,
captures it, encodes it and streams it to an app on the tablet, with the host's
audio beside it.

- `src/` is the library: everything that decides and computes, verified with
  Verus. It performs no input or output. Work that has to be done outside is
  handed out as plain data (a command to run, a pipeline to build, bytes to
  write), and what came of it is handed back in.
- `app/` is the program around it: the daemon and two probes. It runs the helper
  programs, drives sockets, the evdi device and the GStreamer pipelines, and
  prints.
- `tests/` runs the library on concrete values.

## What is relied upon

A few functions from outside are called from `src/` under contracts that are
stated and not proved. Each is documented where it stands:

- `String::push`, `String::from_utf8_lossy` and the `Debug` form of a `str`, in
  `text`;
- `<[u128]>::sort_unstable`, in `stats`;
- `serde_json::from_str`, in `hyprland`.
