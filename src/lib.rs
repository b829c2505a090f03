//! Offline full-text search over a directory tree: which files are ingested,
//! how their text is read under a size ceiling, how a pass is tallied, and how
//! search hits are rendered.

pub mod classify;
pub mod reader;
pub mod ingest;
pub mod render;
pub mod lifecycle;
pub mod config;

