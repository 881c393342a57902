//! Turning message bytes into something searchable.
//!
//! Some formats describe themselves and need nothing else; others carry a schema id and
//! need somewhere to look it up.

use vstd::prelude::*;

use crate::mock::fixture::JsonValue;

verus! {

/// What is known about a message besides its bytes.
#[derive(Debug, Clone)]
pub struct DecodeCtx {
    /// The topic it came from, which some registries key their schemas by.
    pub topic: Option<String>,
    /// A schema chosen explicitly, overriding whatever the bytes say.
    pub schema_id: Option<u32>,
}

impl Default for DecodeCtx {
    fn default() -> (r: Self)
        ensures
            r.topic is None,
            r.schema_id is None,
    {
        DecodeCtx { topic: None, schema_id: None }
    }
}

/// Why a message would not decode.
#[derive(Debug)]
pub enum DeserializeError {
    WireFormat(String),
    SchemaLookup(String),
    Decode(String),
    Unsupported(String),
}

/// A decoded message, normalized to one representation so that everything downstream
/// works the same whatever the format was.
#[derive(Debug)]
pub struct DecodedValue {
    /// The decoded value.
    pub json: JsonValue,
    /// Which schema was used, where one was.
    pub schema_id: Option<u32>,
    /// Which decoder did it. For showing and for diagnosis.
    pub deserializer_id: &'static str,
}

/// Decodes message bytes. Implemented by the user of the library; nothing is promised of
/// an implementation beyond its signature.
///
/// An implementation names itself with `id()`, and a topic's settings name the one to
/// use — so the id is a stable contract, not a label.
pub trait Deserializer: Send + Sync {
    /// This decoder's id. A topic refers to it by this, so it must not change.
    fn id(&self) -> &'static str;

    /// Decodes one message.
    fn decode(&self, bytes: &[u8], ctx: &DecodeCtx) -> Result<DecodedValue, DeserializeError>;
}

} // verus!
