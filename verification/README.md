# cageforge-windows

The rules of a Windows sandbox for commands, verified with Verus, and the
native calls around them.

- `src/` holds the rules: how a filesystem policy becomes a plan and a list of
  access-control changes, how those changes are journaled, checked and taken
  back, how the command runner is launched and spoken to, how the network
  ingress finds the process behind a connection and the route that it may use,
  and how an installation is read back. Work that waits on the system is
  written as steps: a step says what is to be done, an event says what came of
  it, and `advance` gives the next step. The contracts fix every step, and the
  public proof functions state what holds over all of them.
- `tests/` runs the rules on concrete values.
- `app/` performs the steps: Windows calls, files, threads, sockets and JSON.

Five functions that `src/` calls are taken on trust: SHA-256 (`sha2`), random
bytes (`getrandom`) and lower case (the standard library) in `src/outside.rs`,
and two more of the standard library, `String::push` in `src/text.rs` and
`char::from_u32` in `src/utf16.rs`. Their contracts say what each call promises.
