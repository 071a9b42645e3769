//! Deterministic construction of object-store keys from per-request scopes.
//!
//! A gateway that fronts an object store partitions its key space by the
//! identifying dimensions a caller supplies (client, container, table, record,
//! user, ...). This library builds those keys: it validates the supplied
//! dimensions, joins them in a fixed canonical order, and appends the requested
//! file name. The same construction, without the file name, yields the listing
//! prefix that scopes queries to the caller's own objects, which is how tenant
//! isolation is enforced.

pub mod config;
pub mod laws;
pub mod resolve;
pub mod scope;
