//! A deterministic bucket-indexing layer over a content-addressed entry
//! store: each record is assigned a textual bucket key (either from a field
//! of the record or from a prefix of its content hash), a lightweight bucket
//! marker is persisted for that key, and membership links from the marker to
//! the record make "all records with this key" retrievable without a scan.

pub mod decimal;
pub mod keys;
pub mod marker;
pub mod validate;
pub mod enumerate;
pub mod store;
