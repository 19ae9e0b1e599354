# tasqx_core

The core of a task store, verified with Verus: the filter language, the
documents that carry a store from one machine to another, the undo log, the
views of a task, the tools of an agent session, and the semantic list.

- `src/` is the library. Every function states what it returns, and every law
  that spans functions is a public proof function beside what it is about.
- `app/` is what stands around it: SQLite, JSON text at the edge, the embedding
  arithmetic and the loop of an agent session.
- `tests/` runs the library with the real crates linked.

Instants come from `jiff`, display widths from `unicode-width`, JSON text from
`serde_json`. What the library takes from each of them is stated on the function
that makes the call.
