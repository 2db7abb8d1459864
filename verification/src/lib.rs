//! Core library of a local development-container ("pod") manager.
//!
//! The library holds the pod registry and its lifecycle state machine,
//! the per-pod cancellation-handle bookkeeping, the bounded log buffer,
//! protocol detection for container ports, and the parsers for the
//! external tools' output. All I/O (the container runtime, the builder
//! CLI, terminals, files) lives outside, in thin unverified glue that
//! feeds this library plain values.

pub mod cache;
pub mod error;
pub mod heuristics;
pub mod jsonext;
pub mod laws;
pub mod logbuf;
pub mod monitor;
pub mod podconfig;
pub mod probe;
pub mod registry;
pub mod scan;
pub mod settings;
pub mod shell;
pub mod strutil;
pub mod terminal;
pub mod tokens;
pub mod types;
