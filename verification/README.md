# mini_todo

The logic of a desktop to-do list with WebDAV synchronisation, written in
Verus: every function in `src/` carries a contract that Verus proves.

- `src/` is the verified library: the settings table and the settings read
  from it, to-do and subtask edits, reminder times, dependencies between
  subtasks, the synchronisation snapshot (merging, tombstones, manifest,
  the remote lock and the steps of a sync run), notification planning,
  update checks, agent runs and a few Windows helpers (UTF-16 text, tray
  messages, screen geometry). Calls into `chrono`, `sha2`, `flate2`,
  `rand`, `urlencoding`, `base64` and `zip` stand behind small trusted wrappers
  whose doc comments say what is assumed of them.
- `app/` is the program around it: a command line that keeps the data in
  SQLite, talks to a WebDAV server and GitHub over HTTP, reads and writes
  JSON, and drives the sync run that the library plans.
- `tests/` runs the library on concrete values.
