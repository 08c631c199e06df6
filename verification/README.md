# dictator

The decision-making core of Dictator, a local voice-dictation service,
written in Verus: every function in `src/` carries a contract that Verus
proves.

## Layout

- `src/` — the verified library.
  - Text, numbers and ordering: `text`, `num`, `order`, `size`.
  - Configuration and the shared model store: `config`, `compact`,
    `model_store`, `store_sync`, `downloader`, `paths`, `clock`.
  - Hardware profiling and runtime planning: `hardware`, `probe`,
    `registry`, `profile`, `runtime`.
  - Dictation: `input` (hotkey state machine, injection route),
    `streaming` (streaming transcription loop), `pipeline` (fallbacks and
    quality guard after a recording), `guard` (degradation detector),
    `engine`, `wav`, `llm`, `whisper_server`, `corrections`, `idle`.
  - What the user sees: `tray`, `overlay`, `settings`, `history`, `recent`,
    `cli`.
- `tests/` — ordinary Rust tests of the library.
- `app/` — the command-line program around it: file and process I/O,
  serde copies of the library's records, and the probes that run system
  tools.

Verification: `verus --crate-type lib src/lib.rs` with the outside crates of
`Cargo.toml` (`chrono`, `dirs`, `serde_json`) available.
