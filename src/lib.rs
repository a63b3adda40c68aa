//! Stock watcher core: the alert bookkeeping, the per-product check decision
//! and the batch scheduler that drives the sweeps, plus the plain-text
//! configuration formats and messages they work with.

pub mod check;
pub mod config;
pub mod laws;
pub mod messages;
pub mod notice;
pub mod schedule;
pub mod text;
