//! What happens when a message cannot be decoded.

use vstd::prelude::*;

use crate::text::{seq_starts_with, starts_with};

verus! {

/// What to do when a message will not decode.
///
/// `Stop` keeps what was indexed so far and returns, with enough context to ask the user
/// what they want. `SkipAll` records a placeholder in its place and carries on, and is
/// meant to be chosen deliberately rather than defaulted to.
#[derive(Debug, Clone, Copy, PartialEq, Eq, Structural)]
pub enum DecodeFailureMode {
    Stop,
    SkipAll,
}

impl Default for DecodeFailureMode {
    fn default() -> (r: Self)
        ensures
            r == DecodeFailureMode::Stop,
    {
        DecodeFailureMode::Stop
    }
}

/// Why a message would not decode.
#[derive(Debug, Clone, Copy, PartialEq, Eq, Hash, Structural)]
pub enum DecodeFailureKind {
    /// The bytes are not framed the way the deserializer expects.
    WireFormat,
    /// The schema could not be fetched.
    SchemaLookup,
    /// The schema was found, but the data did not match it.
    DecodeFailed,
    /// The deserializer cannot handle this at all.
    UnsupportedFormat,
    /// Anything else.
    Other,
}

/// The form a failure kind is indexed and searched under.
pub open spec fn kind_text(k: DecodeFailureKind) -> Seq<char> {
    match k {
        DecodeFailureKind::WireFormat => "wire_format"@,
        DecodeFailureKind::SchemaLookup => "schema_lookup"@,
        DecodeFailureKind::DecodeFailed => "decode_failed"@,
        DecodeFailureKind::UnsupportedFormat => "unsupported_format"@,
        DecodeFailureKind::Other => "other"@,
    }
}

impl DecodeFailureKind {
    /// The form this is indexed and searched under.
    pub fn as_str(&self) -> (r: &'static str)
        ensures
            r@ == kind_text(*self),
    {
        match self {
            DecodeFailureKind::WireFormat => "wire_format",
            DecodeFailureKind::SchemaLookup => "schema_lookup",
            DecodeFailureKind::DecodeFailed => "decode_failed",
            DecodeFailureKind::UnsupportedFormat => "unsupported_format",
            DecodeFailureKind::Other => "other",
        }
    }
}

/// What is known about the failure that stopped indexing, enough to decide what to do.
#[derive(Debug, Clone)]
pub struct DecodeFailureContext {
    pub partition: i32,
    pub offset: i64,
    pub kind: DecodeFailureKind,
    /// The underlying error, unmodified.
    pub reason: String,
    /// The bytes that failed, base64-encoded. Truncated when large.
    pub raw_key_base64: Option<String>,
    pub raw_value_base64: Option<String>,
    /// Which side failed: `"key"` or `"value"`.
    pub failed_side: String,
}

// Names beginning `__` belong to the engine. They are searchable if asked for by name,
// but must be kept out of field listings and must never be dropped to reclaim space.

/// The prefix that marks a reserved field. The only test for one.
pub const SYSTEM_FIELD_PREFIX: &'static str = "__";

/// The reserved field holding a message's time.
pub const SYSTEM_FIELD_TS: &'static str = "__ts";

/// Marks a message that stood in for one that would not decode.
pub const SYSTEM_FIELD_DECODE_FAILED: &'static str = "__decode_failed";

/// Which kind of failure it was.
pub const SYSTEM_FIELD_DECODE_ERROR_KIND: &'static str = "__decode_error_kind";

/// The underlying error.
pub const SYSTEM_FIELD_DECODE_ERROR_REASON: &'static str = "__decode_error_reason";

/// Whether a field name is reserved: it begins with `__`.
pub fn is_system_field(name: &str) -> (r: bool)
    ensures
        r == seq_starts_with(name@, seq!['_', '_']),
{
    proof {
        reveal_strlit("__");
        assert("__"@ =~= seq!['_', '_']);
    }
    starts_with(name, "__")
}

} // verus!
