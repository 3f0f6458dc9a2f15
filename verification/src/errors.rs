//! Error taxonomy of the loader.  Every fatal condition of a run is one of
//! these values; none is recovered from locally.

use vstd::prelude::*;
use vstd::string::StringExecFns;

verus! {

/// The ways a single input record can be malformed.  Any of them aborts the
/// whole run: the input is machine-generated, so a deviation indicates an
/// upstream bug worth stopping for.
#[derive(Clone, Copy, Debug, PartialEq, Eq, Structural)]
pub enum MalformedKind {
    /// The record does not have exactly three tab-separated fields.
    FieldCount,
    /// The first field is not a JSON array of strings.
    BadJson,
    /// The JSON array does not contain exactly one path.
    PathArity,
    /// The second field is neither empty nor a decimal ordinal.
    BadOrdinal,
    /// The normalized path has fewer than two segments.
    ShortPath,
    /// The record carries neither a symbol name nor an ordinal.
    NoIdentity,
}

/// A fatal condition of a loader run.
#[derive(Debug)]
pub enum LoadError {
    /// The store cannot be opened or prepared; the detail is the store's own
    /// diagnostic.
    StoreUnavailable { detail: String },
    /// The store reports a schema version at or below zero: corrupt state.
    SchemaInvalid(i64),
    /// An input record is malformed.
    Malformed(MalformedKind),
    /// A store read or write failed for a reason other than an expected
    /// duplicate; the detail names the entities being written.
    StoreWrite { detail: String },
}

impl LoadError {
    /// A diagnostic line describing the condition.
    pub fn message(&self) -> String
    {
        match self {
            LoadError::StoreUnavailable { detail } => {
                let mut m = "failed to open or prepare the store: ".to_owned();
                m.append(detail.as_str());
                m
            },
            LoadError::SchemaInvalid(_) => "database has an invalid schema version".to_owned(),
            LoadError::Malformed(k) => {
                match k {
                    MalformedKind::FieldCount => "record does not have 3 fields".to_owned(),
                    MalformedKind::BadJson => "failed to parse field 0 as JSON".to_owned(),
                    MalformedKind::PathArity => "expected a single-part file path".to_owned(),
                    MalformedKind::BadOrdinal => "failed to parse ordinal".to_owned(),
                    MalformedKind::ShortPath => "expected at least two path pieces".to_owned(),
                    MalformedKind::NoIdentity => "symbol with neither name nor ordinal".to_owned(),
                }
            },
            LoadError::StoreWrite { detail } => {
                let mut m = "failed to write to the store: ".to_owned();
                m.append(detail.as_str());
                m
            },
        }
    }
}

} // verus!
