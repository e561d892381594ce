# replicator

Frame-exact replay of Arknights copilot jobs, with its core logic verified by Verus.

- `src/` — the verified library: the copilot job format and its validation, the
  frame-stepping state machine and gap tuner, continuation plans, the job editor's
  document model with undo/redo and its timeline rows, the start-up binding and takeover decisions, level grids, ruler snapshots and commands, binding
  store records, screenshots' pixel access. Every public function states what it
  returns or changes in `ensures`; the proof functions (`lemma_*`) state the laws that
  span several calls.
- `app/` — the command-line program around the library: files, the ruler's WebSocket
  connection, camera projection and gesture timing (floating point), and serde copies
  of the stored records.
- `tests/` — scenario tests run against the compiled library.
