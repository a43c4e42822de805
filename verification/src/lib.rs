//! Core of an order-analytics service: a time-based order cache, a
//! filter-and-enrich pipeline over settlement records, and the set
//! semantics of per-address tags.

pub mod cache;
pub mod models;
pub mod orderbook;
pub mod pipeline;
pub mod tags;
