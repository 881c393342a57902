//! What an engine can fail with.

use vstd::prelude::*;

use crate::text::{owned, push_str};

verus! {

#[derive(Debug)]
pub enum EngineError {
    Workspace(String),
    Kafka(String),
    Storage(String),
    Indexing(String),
    Search(String),
    Deserialize(String),
    Schema(String),
    /// The feature is not available to this caller.
    NotEntitled(String),
    /// Something else holds what this needed.
    LockConflict(String),
    InvalidArgument(String),
    /// More buckets were asked for than may be returned. This fails rather than returning
    /// part of the answer. The message begins `"bucket overflow"`.
    BucketOverflow(String),
    /// The caller asked for this to stop. Not a failure. Reads as `"cancelled"`.
    Cancelled,
    Internal(String),
}

/// How an error reads: a prefix naming its kind, then its message.
pub open spec fn error_text(e: EngineError) -> Seq<char> {
    match e {
        EngineError::Workspace(m) => "workspace error: "@ + m@,
        EngineError::Kafka(m) => "kafka error: "@ + m@,
        EngineError::Storage(m) => "storage error: "@ + m@,
        EngineError::Indexing(m) => "indexing error: "@ + m@,
        EngineError::Search(m) => "search error: "@ + m@,
        EngineError::Deserialize(m) => "deserialize error: "@ + m@,
        EngineError::Schema(m) => "schema error: "@ + m@,
        EngineError::NotEntitled(m) => "feature not entitled: "@ + m@,
        EngineError::LockConflict(m) => "lock conflict: "@ + m@,
        EngineError::InvalidArgument(m) => "invalid argument: "@ + m@,
        EngineError::BucketOverflow(m) => m@,
        EngineError::Cancelled => "cancelled"@,
        EngineError::Internal(m) => "internal: "@ + m@,
    }
}

fn prefixed(prefix: &str, m: &String) -> (r: String)
    ensures
        r@ == prefix@ + m@,
{
    let mut s = owned(prefix);
    push_str(&mut s, m.as_str());
    s
}

impl EngineError {
    /// For a boundary that can only carry a string.
    pub fn into_string(self) -> (r: String)
        ensures
            r@ == error_text(self),
    {
        match &self {
            EngineError::Workspace(m) => prefixed("workspace error: ", m),
            EngineError::Kafka(m) => prefixed("kafka error: ", m),
            EngineError::Storage(m) => prefixed("storage error: ", m),
            EngineError::Indexing(m) => prefixed("indexing error: ", m),
            EngineError::Search(m) => prefixed("search error: ", m),
            EngineError::Deserialize(m) => prefixed("deserialize error: ", m),
            EngineError::Schema(m) => prefixed("schema error: ", m),
            EngineError::NotEntitled(m) => prefixed("feature not entitled: ", m),
            EngineError::LockConflict(m) => prefixed("lock conflict: ", m),
            EngineError::InvalidArgument(m) => prefixed("invalid argument: ", m),
            EngineError::BucketOverflow(m) => m.clone(),
            EngineError::Cancelled => owned("cancelled"),
            EngineError::Internal(m) => prefixed("internal: ", m),
        }
    }
}

} // verus!
