//! A minimal timestamped key-value message store.
//!
//! Clients append `(key, value, time)` records and query them back by key
//! with optional strict time-range bounds. Request options arrive as a flat
//! even-length sequence of path segments; records are kept in an ordered
//! in-memory collection in their storage form.

pub mod errors;
pub mod options;
pub mod parse;
pub mod query;
pub mod record;
pub mod store;
