//! Reconciliation engine for mirroring work items from an issue tracker
//! into a task-scheduling service.
//!
//! The crate keeps a durable record of which source item maps to which sink
//! task, decides per item whether to create, update or skip, converts item
//! fields (estimate, priority, due date) into task fields, and closes the
//! loop when the sink marks a task done.  Network clients, configuration
//! files and the on-disk key-value store live outside this crate; the logic
//! here works on plain values and is verified.

pub mod config;
pub mod db;
pub mod engine;
pub mod error;
pub mod issues;
pub mod keyed;
pub mod mapping;
pub mod services;
pub mod status;
pub mod strutil;
pub mod tasks;
