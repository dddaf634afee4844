# huohuo

The verified core of a Live2D desktop companion for macOS: it finds the
Live2D models under the configured folders and picks one per folder, finds
the motions and expressions of a model, caches model bounds, searches
Folia notebook pages and hands card requests to Folia, and launches the
Archive service on a free local port.

- `src/` is the library, written in Verus. Every function states what it
  returns in its contract, and the laws of the library (one model per
  folder, the default model first, a cache file reads back with the model
  path and the structure and texts of the bounds written (numbers are not
  compared, as `serde_json` reads floats back only approximately, and the
  bounds must be nested at most 126 levels deep), the page lookup ends, and
  others) are proved as public proof functions in
  `model_laws.rs`, `reaction_laws.rs`, `notebook_laws.rs` and beside the
  functions they are about.
- Calls into std's paths and text functions and into `serde_json` go
  through small trusted wrappers, each documented with what its contract
  claims of the outside function.
- `app/` is the Tauri shell around the library: windows, processes,
  files, the database and the loops that wait on them.
- `tests/` run the library on concrete values.
