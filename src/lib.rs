//! Ingestion, freshness and query logic for a time-series store of
//! environmental sensor readings pulled from a remote data logger.
//!
//! The sync engine's decisions live in `discovery`, `readings`,
//! `sync_state`, `schedule`, `alarms` and `events`; the query surface's in
//! `query`, `columns`, `cache` and `present`. The database, the HTTP layers
//! and the clock stay with the caller, which hands plain values in and
//! performs the returned plans.

pub mod text;

pub mod config;
pub mod errors;
pub mod models;
pub mod upstream;

pub mod discovery;
pub mod readings;
pub mod sync_state;
pub mod schedule;
pub mod alarms;
pub mod events;

pub mod cache;
pub mod columns;
pub mod query;
pub mod present;
