//! Backend library for a Grafana data source that follows a Materialize
//! database: it addresses relations and ad-hoc queries through short,
//! transport-safe channel paths, caches query text under its fingerprint,
//! converts batches of database rows into typed columnar frames, and
//! coordinates the one-changefeed-per-target streaming lifecycle.

pub mod cache;
pub mod convert;
pub mod data;
pub mod error;
pub mod path;
pub mod queries;
pub mod request;
pub mod resource;
pub mod stream;
pub mod text;
