//! A read-only catalog of eatery records: loading, validation, and queries.
//!
//! The catalog is built once from a set of raw record blobs. Each blob is
//! decoded into a full record or silently dropped; the survivors are sorted
//! ascending by id and frozen. Queries (list, point lookup by id,
//! case-insensitive substring search by name) are read-only and never change
//! the catalog.

pub mod record;
pub mod text;
pub mod json;
pub mod decode;
pub mod catalog;
pub mod laws;
