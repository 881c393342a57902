//! Core types: where a message sits, what the index keeps about it, and what a search
//! gives back.

use vstd::prelude::*;

verus! {

/// Where a message sits.
#[derive(Debug, Clone, Copy, PartialEq, Eq, Hash)]
pub struct DocLoc {
    pub partition: u32,
    pub offset: u64,
}

/// What the index keeps about a single message: when it arrived, and its field values as
/// they were before any tokenization.
///
/// This is what a message's text is restored from, so it has to stay faithful to the
/// message.
#[derive(Debug, Clone)]
pub struct MetaValue {
    pub ts_millis: u64,
    /// Each field paired with its value before tokenization.
    pub field_values: Vec<(String, String)>,
    /// Which of those fields were split into words. Empty means every value was indexed
    /// whole.
    pub tokenized_fields: Vec<String>,
}

#[derive(Debug, Clone)]
pub struct MetaRow {
    pub topic: String,
    pub partition: u32,
    pub offset: u64,
    pub value: MetaValue,
}

#[derive(Debug, Clone, Copy)]
pub struct SearchHit {
    pub rev_ts: u64,
    pub loc: DocLoc,
}

#[derive(Debug, Clone)]
pub struct SearchHitWithKey {
    pub raw_key_hex: String,
    pub pretty_key: String,
    pub hit: SearchHit,
}

#[derive(Debug, Clone)]
pub struct DecodedIndexKey {
    pub topic: String,
    pub field: String,
    pub term: String,
    pub rev_ts: u64,
    pub partition: u32,
    pub offset: u64,
}

/// A topic's index state, as a single label.
///
/// It is derived from the independent flags on `TopicFieldMeta`. Branch on those flags
/// rather than on this enum — this one exists for display and for responses.
#[derive(Debug, Clone, Copy, PartialEq, Eq, Structural)]
pub enum IndexState {
    NotIndexed,
    /// Every selected field is indexed.
    Full,
    /// Only some of them — the rest were dropped to reclaim space.
    PartialField,
}

impl Default for IndexState {
    fn default() -> (r: Self)
        ensures
            r == IndexState::NotIndexed,
    {
        IndexState::NotIndexed
    }
}

/// How much a field's index actually gets searched.
#[derive(Debug, Clone, Copy, PartialEq, Eq, Structural)]
pub struct FieldSearchStat {
    pub search_count: u64,
    pub last_searched_at: Option<i64>,
}

impl Default for FieldSearchStat {
    fn default() -> (r: Self)
        ensures
            r == (FieldSearchStat { search_count: 0, last_searched_at: None }),
    {
        FieldSearchStat { search_count: 0, last_searched_at: None }
    }
}

/// What kind of index a field gets, which decides whether it may be dropped when space
/// has to be reclaimed.
#[derive(Debug, Clone, Copy, PartialEq, Eq, Structural)]
pub enum IndexedFieldKind {
    /// Never dropped, even when space is being reclaimed.
    Required,
    /// The default. May be dropped to reclaim space.
    Optional,
    /// Indexed as `Optional`, and must be until this contract says otherwise.
    Async,
}

impl Default for IndexedFieldKind {
    fn default() -> (r: Self)
        ensures
            r == IndexedFieldKind::Optional,
    {
        IndexedFieldKind::Optional
    }
}

/// One field selected for indexing.
///
/// `is_representative` marks a field as identifying enough to stand in for the whole
/// message where only a line of it fits. `tokenize` splits the value into words, so a
/// word in the middle of a sentence can be found. Both are independent of `kind`.
#[derive(Debug, PartialEq, Eq)]
pub struct IndexedField {
    pub name: String,
    pub kind: IndexedFieldKind,
    pub is_representative: bool,
    pub tokenize: bool,
}

impl Clone for IndexedField {
    fn clone(&self) -> (r: Self)
        ensures
            r == *self,
    {
        IndexedField {
            name: self.name.clone(),
            kind: self.kind,
            is_representative: self.is_representative,
            tokenize: self.tokenize,
        }
    }
}

impl IndexedField {
    /// A field that may be dropped to reclaim space, neither representative nor split
    /// into words.
    pub fn optional(name: String) -> (r: Self)
        ensures
            r.name == name,
            r.kind == IndexedFieldKind::Optional,
            !r.is_representative,
            !r.tokenize,
    {
        IndexedField {
            name,
            kind: IndexedFieldKind::Optional,
            is_representative: false,
            tokenize: false,
        }
    }

    /// A field that is never dropped, neither representative nor split into words.
    pub fn required(name: String) -> (r: Self)
        ensures
            r.name == name,
            r.kind == IndexedFieldKind::Required,
            !r.is_representative,
            !r.tokenize,
    {
        IndexedField {
            name,
            kind: IndexedFieldKind::Required,
            is_representative: false,
            tokenize: false,
        }
    }
}

} // verus!
