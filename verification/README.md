# faero

The verified core of the FutureAero engineering workspace: a project graph
with its command and event log, plugin hosting, safety interlocks, robot cell
control and simulation traces, sketch and assembly rules, integration stubs,
commissioning, optimization and perception checks, the local AI runtime and
the structured explanations the assistant gives, the `.faero` project layout,
and the desktop session's command dispatch.

Every function under `src/` is verified with Verus against a contract stated
over mathematical models (`Seq`, `Map`, `int`, views of the data types).
Laws that span several functions are public proof functions whose names start
with `law_`.

## Layout

- `src/` — the verified library. JSON documents (entity data, endpoint and
  stream profiles, command payloads) are held in the library's own JSON
  model (`json.rs`), so every read of them is stated. Inspector edits of an
  entity's name, tags and dotted data paths are in `properties.rs`; the
  safety-zone and signal entities a generated robot cell brings along are in
  `cell_support.rs`; the safety report of a cell is in `safety_report.rs`.
- `tests/` — ordinary Rust tests that run the library with the real outside
  crates.
- `app/` — the parts that cannot be verified: HTTP calls to the local model
  server, file and directory I/O for `.faero` projects, floating-point
  geometry and simulation metrics, the serde copies of the library types and
  the conversion between `serde_json::Value` and the JSON model, and the
  shell's command runner, which completes the commands the session hands
  back (saving, exporting, part creation).

Floating-point values are carried through the library as the bit patterns of
their `f64`; the arithmetic on them happens in `app/`.
