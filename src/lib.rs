//! A live code graph: a stable-index graph store, a symbol table, per-file
//! incremental replacement with ordered diffs, token budgets for model-based
//! enrichment, and the path rules of the file watcher.
pub mod model;
pub mod text;
pub mod graph;
pub mod symbols;
pub mod budget;
pub mod paths;
pub mod diff;
pub mod updater;
pub mod semantic;
pub mod watch;
pub mod hashing;
pub mod workspace;
pub mod prompt;
pub mod local;
pub mod cache;
pub mod protocol;
pub mod extract;
pub mod answer;
