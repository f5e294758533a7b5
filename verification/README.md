# shepherd

Supervision of OS processes: every process belongs to exactly one scope, a scope is terminated as
a whole, and a cleanup counts as verified only when the end of each process was observed.

The library holds what a supervisor knows and every decision it makes; its contracts are proved
with Verus. Everything that touches the operating system or an async runtime stays outside.

## Layout

- `src/domain`: identifiers, specs, exits, the process and scope state machines, domain events.
- `src/supervision`: the scope registry, waiters, captured output, bounded histories, event
  routing, and the supervisor itself (spawning, monitoring, termination, shutdown, sampling,
  scoped blocks). `laws.rs` states what every single step keeps; `lifetime.rs` and
  `aftermath.rs` state what holds after any number of steps: a process stays owned by its scope
  until its end is confirmed, reports answer while their history lasts, and a shutdown succeeds
  exactly when every cleanup is verified. `minting.rs` states that no identifier is given out
  twice.
- `src/observation`: process snapshots, trees, and usage totals over visible processes.
- `src/platform`: what the Unix, Windows, control-group and in-memory backends decide, and the
  parsers of the kernel's text files.
- `src/blocking`: running one command to its end, and where a blocking call may be driven.
- `src/testing.rs`: settings of stress and property runs.
- `app`: the async supervisor, the backends that make the system calls, the blocking facade.
- `tests`: scenarios against the library.

## Contracts

A type is described by its view; each function says how the view changes and what it answers,
including the exact error for every refused input. Five small functions are trusted: four in
`src/platform/signals.rs` (signal numbers of `libc` and `nix`) and one in `src/testing.rs` (UTF-8
decoding).
