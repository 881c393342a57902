//! Where a schema comes from — a registry, a file, or one supplied directly.

use vstd::prelude::*;

verus! {

/// How a schema is named. Which form applies depends on where it came from.
#[derive(Debug, Clone, PartialEq, Eq, Hash)]
pub enum SchemaId {
    /// A numeric id, as most registries use.
    Numeric(u32),
    /// A subject and a version.
    Subject { subject: String, version: i32 },
    /// A path, or a name given to something supplied directly.
    Name(String),
}

/// A schema as it was fetched, left in its own form for whoever decodes with it.
#[derive(Debug, Clone)]
pub struct Schema {
    pub id: SchemaId,
    /// Which kind it is.
    pub kind: String,
    /// The schema itself, unmodified.
    pub raw: String,
}

/// Why a schema could not be had.
#[derive(Debug)]
pub enum SchemaError {
    NotFound(SchemaId),
    Unreachable(String),
    Unauthorized(String),
    Parse(String),
    Other(String),
}

/// Fetching schemas. Whether and how they are cached is left to the implementation.
pub trait SchemaSource {
    /// A name for this source, to show to a user.
    fn id(&self) -> String;

    fn fetch_schema(&self, id: &SchemaId) -> Result<Schema, SchemaError>;
}

} // verus!
