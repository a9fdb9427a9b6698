# cot_cli manifest tooling, verified

A Verus library for the manifest handling of a Cargo command-line helper.

- `src/status.rs`: status kinds of console messages, their words, colours,
  `anstyle` styles and right-aligned labels.
- `src/paths.rs`: paths held as strings, with `Path::join`, `Path::parent` and
  path equality from `std::path` behind trusted wrappers.
- `src/manifest.rs`: what is read of a `Cargo.toml` (package name and workspace
  key, workspace members), with its mathematical model.
- `src/manager.rs`: loaded packages and workspaces, their lookups by name and by
  path, and the laws of the name-keyed package table.
- `src/search.rs`: the search for the first `Cargo.toml` at or above a directory,
  as a state machine over "does this file exist?".
- `src/loader.rs`: loading a package or workspace tree, as a state machine whose
  requests (file exists? read this manifest) the caller answers.

`app/` answers those requests from the real file system with `cargo_toml`, turns
errors into `anyhow` errors, and prints status lines to the terminal.
