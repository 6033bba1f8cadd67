# herdr_platform

The Unix platform layer of a terminal multiplexer, as decisions over plain values: which processes
make up the foreground job of a pane, which desktop helpers to run and what to make of their output,
how to quote shell commands, and how to stage a configuration file without losing its owner,
attributes, access rules or mode. Every decision carries a contract that Verus proves.

Nothing in the library performs I/O. A function that needs the outside world takes what was read,
takes a closure that reads, or is a step of a state machine that names the next outside action and
is told its outcome.

## Layout

- `src/text.rs`, `src/process.rs`, `src/sys.rs`, `src/shell.rs`: text primitives, the shared process
  types, system constants and shell command lines.
- `src/linux/`: `/proc` files (`stat`, `proc_fs`), the process tree (`tree`, `members`), foreground
  groups and jobs (`groups`, `job`, `snapshot`), sessions and signals (`session`), and the kind of
  environment (`environment`).
- `src/freebsd/`: kernel tables and records (`sysctl`, `records`), processes and sessions
  (`processes`, `session`), and configuration staging (`config`, `attributes`, `replacement`,
  `errors`). `preservation` shows what a finished replacement makes of the file.
- `src/unix_desktop/`: clipboard commands, images, notifications, and the exchanges with helper
  processes (`helper_read`, `helper_write`).
- `app/`: files, processes, threads and system calls around the library.
- `tests/`: the library run on concrete values.

## Trusted

The proofs rest on the contracts of a few outside functions: `String::push`,
`String::from_utf8_lossy`, `String::from_utf8`, the `libc` constants for three signals and one error
number, and `portable_pty::CommandBuilder::from_argv`. Each stands behind one item whose doc comment
says what is believed of it.
