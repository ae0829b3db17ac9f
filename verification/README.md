# eu_toolkit

A verified library for reading and editing Europa Universalis IV mod files:
the Clausewitz script lexer and parser, path addressing into script blocks,
surgical byte-level edits that keep every untouched byte, typed script trees,
mod descriptors, mission/on-action/scripted/rebel/mercenary/mechanics
readers, province bitmap edits, province history snapshots, project diffs and
the recent-projects list.

Layout:

- `src/` — the library, written in Verus. Every function carries a contract
  over mathematical models (`Seq`, `Map`, spec functions), and the laws that
  relate several operations (addressing, ordering, caps) are proof functions.
  Calls into std or the `image` crate that Verus cannot read stand behind a
  few small trusted wrappers, each documented where it is declared.
- `tests/` — ordinary Rust tests of the library's public API.
- `app/` — the file-system side: the session's file layers, the commands that
  read game files and hand their bytes to the library, and the stored
  recent-projects list (serde).
