//! Saved Schema Registry connections.
//!
//! A deserializer refers to one by id rather than repeating its URL, so editing the
//! registry reaches every topic that uses it.

use vstd::prelude::*;

verus! {

/// One saved registry connection.
///
/// Unlike a cluster's password, `basic_auth` is written to disk, and in the clear.
#[derive(Debug, PartialEq, Eq)]
pub struct RegistryResource {
    /// A stable id. Deserializers refer to this, so it must not change.
    pub id: String,
    /// A name for people. Safe to change — nothing refers to it.
    pub name: String,
    /// The registry's base URL.
    pub url: String,
    /// Basic auth as `"user:password"`, where the registry needs it.
    pub basic_auth: Option<String>,
}

impl Clone for RegistryResource {
    fn clone(&self) -> (r: Self)
        ensures
            r == *self,
    {
        RegistryResource {
            id: self.id.clone(),
            name: self.name.clone(),
            url: self.url.clone(),
            basic_auth: match &self.basic_auth {
                Some(s) => Some(s.clone()),
                None => None,
            },
        }
    }
}

/// The result of trying a registry out.
#[derive(Debug, Clone)]
pub struct RegistryTestResult {
    pub ok: bool,
    /// What happened, in words.
    pub message: String,
    /// How many subjects it reported, where that could be read.
    pub subject_count: Option<usize>,
}

/// One entry of a registry's whole schema index.
#[derive(Debug, Clone)]
pub struct RegistrySchemaIndexEntry {
    pub subject: String,
    pub version: i32,
    pub schema_id: u32,
    pub schema_type: Option<String>,
    /// The subjects this schema refers to.
    pub reference_subjects: Vec<String>,
}

/// One subject's latest schema, for looking at.
#[derive(Debug, Clone)]
pub struct RegistrySchemaView {
    pub subject: String,
    pub schema_id: u32,
    pub version: i32,
    /// `"PROTOBUF"` or `"JSON"`; absent for Avro.
    pub schema_type: Option<String>,
    pub schema_text: String,
}

} // verus!
