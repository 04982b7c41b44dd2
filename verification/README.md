# add_ed

A line editor library in the tradition of `ed`, written in Verus. The
library's functions are verified against their `requires`/`ensures`
contracts; a few calls into the `regex` crate and std sit behind small
trusted wrappers whose contracts are believed, and what the user interface
and the I/O (traits implemented by the library's users) return is not
constrained. Some contracts state only part of what a function does.

- `src/buffer`: validated lines (`LineText`, `Line`), the line `Buffer` with
  its clipboard and editing operations, regex search and marking, and the
  stand-alone `VecBuffer` with its own undo snapshots.
- `src/history.rs`: the undo history (revert style: undoing and then
  editing appends a snapshot that reverts, so no state is ever lost).
- `src/cmd`: parsing of indices, selections, history indices, paths,
  argument lists and flags; the commands; macros (`:`), whose changes show
  in the history as their modification mode asks; `run`, which parses and
  runs one command line.
- `src/ed.rs`, `src/ui.rs`, `src/io.rs`: the editor state and the two
  interfaces through which it talks to its user and to files and shells.
  The commands reach them through `Scripted` (which runs scripts and
  records the messages shown) and `Logged` (which records every I/O call
  with what it was handed), so the contracts can say what was handed over.
- `src/laws.rs`: properties that span several operations (what one call
  undoes, what every edit keeps), stated and proved.
- `src/text.rs`: text helpers and the calls into the `regex` crate, whose
  results the contracts refer to by name.
- `app/main.rs`: a terminal editor on top of the library (standard input and
  output, local files, `sh` for shell commands).

The tests under `tests/` exercise the compiled library.
