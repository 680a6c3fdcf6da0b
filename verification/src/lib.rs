//! Core of a local-first personal knowledge indexer.
//!
//! The library scans configured filesystem roots under a compiled policy,
//! extracts text from files, splits it into overlapping token windows,
//! dispatches the windows to an embedding backend, and persists the result
//! as content-addressed chunk rows with per-file replace semantics.
//! Everything here is synchronous, deterministic logic; the surrounding
//! process (filesystem traversal, subprocesses, the request protocol) feeds
//! plain values in and carries plain values out.

pub mod chunk;
pub mod config;
pub mod database;
pub mod embed;
pub mod extract;
pub mod filesystem;
pub mod indexer;
pub mod ingest;
pub mod llm;
pub mod paths;
pub mod strutil;
pub mod tools;
