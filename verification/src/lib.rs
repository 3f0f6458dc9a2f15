//! Loader for a history of Windows API export-table entries.
//!
//! The crate ingests a line-oriented export of API symbols into a relational
//! store, assigning stable surrogate identifiers while deduplicating
//! operating systems, DLLs and symbols across a highly repetitive stream.
//! Symbols are keyed by their raw name when named, and by the pair of bare
//! DLL filename and ordinal when ordinal-only.

pub mod cache;
pub mod demangle;
pub mod errors;
pub mod laws;
pub mod loader;
pub mod model;
pub mod norm;
pub mod parse;
pub mod progress;
pub mod schema;
pub mod store;
pub mod symbol;
pub mod text;
