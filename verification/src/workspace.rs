//! What is known about a workspace as a whole.

use vstd::prelude::*;

verus! {

/// The version of the stored layout: 1 the original layout, 2 one column family per
/// topic, 3 a change to what is stored per message.
///
/// A workspace written by an older version cannot be read: the user has to be told, and
/// nothing further attempted.
pub const CURRENT_SCHEMA_VERSION: u32 = 3;

/// The layout version a record with none written is read as: it predates versions.
pub fn default_schema_version_v1() -> (r: u32)
    ensures
        r == 1,
{
    1
}

/// Workspace-level information — what belongs to the cluster rather than to any topic.
#[derive(Debug, Clone, PartialEq, Eq)]
pub struct WorkspaceMeta {
    /// The cluster's own id, which is how a different cluster at the same address is
    /// noticed.
    pub cluster_id: Option<String>,
    /// The stored layout version; absent means 1.
    pub schema_version: u32,
}

impl Default for WorkspaceMeta {
    /// A new workspace: no cluster seen yet, the current layout.
    fn default() -> (r: Self)
        ensures
            r.cluster_id is None,
            r.schema_version == CURRENT_SCHEMA_VERSION,
    {
        WorkspaceMeta { cluster_id: None, schema_version: CURRENT_SCHEMA_VERSION }
    }
}

} // verus!
