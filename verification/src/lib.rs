//! Core of a dashboard backend for self-hosted ledger nodes: a verified
//! event streaming and notification-dispatch pipeline.
//!
//! Raw node events enter through a collector that keeps at most one live
//! feed per node, pass a category filter, are normalized into one canonical
//! shape, persisted, and handed to outbound notification endpoints.

pub mod api;
pub mod codec;
pub mod collector;
pub mod errors;
pub mod events;
pub mod filter;
pub mod listing;
pub mod normalize;
pub mod notify;
pub mod price;
pub mod registry;
pub mod service;
pub mod store;
pub mod supervisor;
pub mod text;

