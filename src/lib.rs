//! Repository metadata for a package manager: snapshot import into a
//! package store, provide and maintainer parsing, and filtered, paginated
//! queries over the stored packages.

pub mod models;
pub mod text;
pub mod provide;
pub mod maintainer;
pub mod store;
pub mod laws;
pub mod pattern;
pub mod query;
pub mod cli;
pub mod link;
