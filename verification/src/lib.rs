//! Core of a Nostr-protocol relay: per-connection protocol state, the
//! single-writer ingestion pipeline with replacement and deletion semantics,
//! the filter-matching query engine, and the fan-out broadcast log.

pub mod canonical;
pub mod config;
pub mod conn;
pub mod db;
pub mod error;
pub mod event;
pub mod hexrange;
pub mod hexutil;
pub mod laws;
mod limiter;
pub mod postgres;
pub mod query;
pub mod store;
pub mod subscription;
pub mod utils;
