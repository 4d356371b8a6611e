# midtown

Coordination logic for teams of coding agents, written in Verus: how their sessions are
configured, launched and driven, how they are reminded, how their mailboxes and paths are laid
out, and how their channels are bridged to Matrix.

- `src/` is the library. Verus proves the contracts of its functions, but for those of the
  items that call outside crates, which it believes. What the library decides is stated over plain values: a function says which command is run, which request is
  sent or which file is moved, and takes in what came of it.
- `tests/` runs the library on concrete values.
- `app/` is the daemon and the input and output around the library.

Calls into outside crates stand behind items whose doc comments say what is claimed of them;
they are in `text`, `json`, `json_text`, `platform`, `stamp`, `hex`, `paths`, `nudge::state` and
`matrix_bridge`.

The names of Anthropic's program and of the agent definition that reads pull requests are handed
to the library in a `Names` value.
