# async-xpty

Cross-platform async PTY for [tokio](https://tokio.rs), around a verified core.

- `src/` is the core, verified with Verus. `PtyProcess` decides what resizing,
  killing and dropping ask of the operating system and takes note of what
  waiting reported; `PtyReader` and `PtyWriter` are the halves of its PTY
  master; `ExitStatus` says how the child ended; `parse_pid` finds a PID that a
  program reported on its terminal.
- `app/` offers the halves as tokio `AsyncRead` and `AsyncWrite`, and carries
  the core's orders out through a `Platform`, which stands for one spawned
  child and its terminal.
- `tests/` runs the core on concrete values.

Facts that span several operations are public proof functions, named `law_*`,
next to the definitions they speak of.
