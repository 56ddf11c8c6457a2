//! Core engine for sortable, searchable, paginated data tables.
//!
//! The crate holds the state and the derivation logic behind a table
//! widget: an ordered set of rows, a registry of column descriptors,
//! a per-column tri-state sort order, and the pure pipeline that turns
//! rows + search string + pagination window into the visible row
//! sequence. Rendering is left to a presentation layer built on top.

pub mod pagination;
pub mod table;
