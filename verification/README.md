# qlipq

The domain logic of qlipq, a recording queue and clip editor for gameplay capture, written in
Verus. Every function in `src/` carries a contract. Verus proves all of them except the seven
`#[verifier::external_body]` wrappers around calls into std, chrono, regex-syntax and
serde_json (`text::string_from`, `text::to_lowercase`, `datetimes::ymd_exists`,
`datetimes::hms_exists`, `obs::is_word_character`, `capture::from_utf16_lossy`,
`json_text::parse_json`): their contracts are believed, not proved, and each one's doc comment
says what it claims of the call it makes.

- `src/` — the verified library: both configurations (the lenient reader of `config_json` and
  the strict desktop reader of `desktop_config`) read from JSON text, edit specs and their
  validation, the editor's transport and trim decisions, key bindings, OBS filename parsing and
  recording-folder detection, naming templates, queue tags and filters, ffprobe / progress
  parsing, encode planning (software and hardware), export naming and after-export plans, and
  the library's laws (`laws.rs`, `timestamp_law.rs`, and `law_*` functions beside the code they
  speak of). Times are integers in microseconds, frame rates and gains in thousandths.
- `tests/` — tests run against the compiled library.
- `app/` — a headless host around the library: file system, JSON writing (serde), schema
  (schemars), folder watching (notify), frame extraction (image), and the floating-point size
  estimate.
