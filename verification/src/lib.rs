//! A small todo-report library: a strict key-value credentials parser with
//! line-numbered diagnostics, and a transformer that turns a JSON-like task
//! document into a human-readable report, tolerating per-record field absence.

pub mod json;
pub mod render;
pub mod report;
pub mod secrets;
pub mod strutil;
