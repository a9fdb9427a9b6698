//! Verified core of the manifest tooling of a Cargo command-line helper:
//! status labels for console output, the search for a `Cargo.toml`, the
//! loading of a package or workspace manifest tree, and lookups in it.

pub mod status;
pub mod paths;
pub mod manifest;
pub mod manager;
pub mod search;
pub mod loader;
