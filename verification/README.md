# noteworthy

The verified core of a note-taking application: the list of tags and the
tags each note carries, the notes of a session, the sidebar's ordering,
filtering and selection, note files (front matter and text), note file
names, the save-all and sync loops as step functions, and small display
helpers. Every function under `src/` carries a contract checked by Verus.

- `src/` — the library, one module per concern; `indexmap` collections and
  the `gray_matter` parser are reached through small trusted wrappers in
  `index_set.rs`, `id_set.rs`, `index_map.rs` and `note_file.rs`.
- `tests/` — tests run against the compiled library.
- `app/` — a command-line shell that reads and writes a notes directory,
  reads the clock and turns metadata into YAML; it holds no decisions of
  its own.
