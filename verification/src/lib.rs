//! Core logic of a file-storage service that keeps its payloads as document
//! attachments of messages in an external messaging backend.
//!
//! The library holds the parts that decide and compute: credential rotation,
//! the transient-copy cache bookkeeping, the download protocol's state
//! machine, upload result shaping, configuration validation, request
//! authorization, and the stale-file sweeper's selection rule. The
//! surrounding process (HTTP handlers, backend calls, timers) performs the
//! I/O these decisions ask for.

pub mod auth;
pub mod bot;
pub mod cache;
pub mod config;
pub mod download;
pub mod file_utils;
pub mod sweeper;
