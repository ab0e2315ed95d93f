# wotold_core

The verified core of a call-recording desktop app: the rules, plans and text
handling that sit between the webview, the SQLite store and the audio
pipeline, written in Verus and proved against their contracts.

- `src/` — the library. Each module states its behaviour over `Seq`-level
  models (`text.rs` holds the shared string model), and the laws of the
  library are public proof functions named `law_*`.
  - recording start/stop decisions, the accidental-tap gate, the open final
    chunk (`recording.rs`), silence thresholds and auto-stop (`silence.rs`),
    crash recovery and parked-call resumption with their capped runs
    (`recovery.rs`, `parked_resume.rs`), the bulk recap targets and run
    (`bulk_recap.rs`);
  - the store's rules (`db/`): call and chunk status machines, the pause
    ledger, degraded flags, contacts (fields, attributes, identifiers and
    their id-preserving update, the contact list), recap lists, the assistant index, diagnostics, SQL placeholders;
  - on-disk layout of calls (`call_store.rs`) and the scan of a crashed
    recording's WAV header (`wav.rs`);
  - calls into `serde_json` and `chrono` go through a few small functions
    whose contracts name what the outside crate returns (`json.rs`,
    `db/calls.rs`).
- `tests/` — tests on concrete values.
- `app/` — glue for SQLite, files, the environment, clocks and the
  floating-point window geometry. It runs the SQL and the loops; the rules
  they apply (status changes and their refusals, contact fields and
  attributes, the recovery caps and counters, the bulk recap targets) come
  from the library. What stays there on its own is the SQL itself: the
  gating `WHERE status = ?` of a chunk write guards against a change made
  between the read and the write, and the ordering and `LIMIT`/`OFFSET` of
  the paged call list.
