# semi_os

The host core of Semi-OS, a voice-controlled desktop assistant, written in
Verus: every function in `src/` carries a contract that Verus proves.

## Layout

- `src/` — the verified library.
  - `vocabulary.rs`: identifiers and the closed vocabularies with their wire names.
  - `lifecycle_rules.rs`: the task lifecycle graph and its laws.
  - `json.rs`, `text.rs`: the JSON values and text helpers the rest is stated over.
  - `envelope.rs`: the host/worker JSONL envelope and its validation.
  - `domain.rs`, `receipt.rs`, `receipt_decode.rs`: domain events and tool
    receipts, their JSON forms and the decoding of stored receipts.
  - `store_models.rs`, `store.rs`: the task store — snapshots, append-only
    event streams with optimistic versions, replay, agent checkpoints and
    tool attempts with the replay decision.
  - `task.rs`: the task runtime (commit, then publish through an outbox).
  - `tool_execution.rs`: receipt checks and the recovery decision.
  - `supervisor.rs`: the worker health handshake, monitoring steps,
    back-off and what to do after each run.
  - `diagnostics.rs`: redaction of diagnostic records.
  - `host_lifecycle.rs`: the host's own lifecycle.
- `tests/` — tests run against the compiled library.
- `app/` — the desktop shell around it: Tauri windows and tray, SQLite
  persistence of the store, the diagnostics file, the event bus and the
  child-process supervision loop. It performs what the library decides.
