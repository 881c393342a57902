//! The types a search speaks in: what is asked for, and what comes back.

use vstd::prelude::*;

verus! {

#[derive(Debug, Clone, Copy, PartialEq, Eq, Structural)]
pub enum SearchMode {
    Exact,
    Prefix,
}

#[derive(Debug, Clone, Copy, PartialEq, Eq, Structural)]
pub enum SortOrder {
    NewestFirst,
    OldestFirst,
}

/// Where a browse left off.
#[derive(Debug, Clone)]
pub struct PartitionCursor {
    pub topic: String,
    pub partition: u32,
    pub offset: u64,
}

/// Where a keyword search left off, per topic and field.
#[derive(Debug, Clone)]
pub struct SearchFieldCursor {
    pub topic: String,
    pub field: String,
    pub last_key_hex: String,
}

#[derive(Debug, Clone)]
pub struct SearchIndexRequest {
    pub query: String,
    /// Which fields to match against; any of them counts as a match.
    /// `None` = every indexed field. An empty list matches nothing.
    pub fields: Option<Vec<String>>,
    pub topics: Option<Vec<String>>,
    pub mode: SearchMode,
    pub sort_order: SortOrder,
    pub limit: usize,
    /// Used when there is no query.
    pub browse_cursors: Vec<PartitionCursor>,
    /// Used when there is one.
    pub search_cursors: Vec<SearchFieldCursor>,
    /// Narrows by message time before anything else is considered.
    pub ts_range: Option<TsRange>,
}

/// One message as a search returns it.
#[derive(Debug, Clone)]
pub struct MessageResult {
    pub matched_field: Option<String>,
    pub raw_index_key_hex: Option<String>,
    pub pretty_index_key: Option<String>,
    pub raw_meta_key_hex: String,
    pub pretty_meta_key: String,
    /// Where the content came from: `"full"`, `"meta-only"` or `"missing"`.
    pub content_source: String,
    /// The index keys this message is reachable by, as readable text.
    pub meta_index_entries: Vec<(String, String)>,
    /// Exactly what the index stored, for inspection.
    pub raw_meta_value_json: Option<String>,
    /// Indexed fields as `(path, value)`.
    pub field_values: Vec<(String, String)>,
    pub topic: String,
    pub partition: i32,
    pub offset: i64,
    pub timestamp: String,
    pub key: String,
    pub payload: String,
    pub headers: Vec<(String, String)>,
    pub json: String,
}

/// What a `MessageResult` holds, as plain values.
pub struct MessageResultView {
    pub matched_field: Option<Seq<char>>,
    pub raw_index_key_hex: Option<Seq<char>>,
    pub pretty_index_key: Option<Seq<char>>,
    pub raw_meta_key_hex: Seq<char>,
    pub pretty_meta_key: Seq<char>,
    pub content_source: Seq<char>,
    pub meta_index_entries: Seq<(Seq<char>, Seq<char>)>,
    pub raw_meta_value_json: Option<Seq<char>>,
    pub field_values: Seq<(Seq<char>, Seq<char>)>,
    pub topic: Seq<char>,
    pub partition: i32,
    pub offset: i64,
    pub timestamp: Seq<char>,
    pub key: Seq<char>,
    pub payload: Seq<char>,
    pub headers: Seq<(Seq<char>, Seq<char>)>,
    pub json: Seq<char>,
}

pub open spec fn opt_view(o: Option<String>) -> Option<Seq<char>> {
    match o {
        Some(s) => Some(s@),
        None => None,
    }
}

pub open spec fn pair_views(s: Seq<(String, String)>) -> Seq<(Seq<char>, Seq<char>)> {
    s.map_values(|p: (String, String)| (p.0@, p.1@))
}

impl View for MessageResult {
    type V = MessageResultView;

    open spec fn view(&self) -> MessageResultView {
        MessageResultView {
            matched_field: opt_view(self.matched_field),
            raw_index_key_hex: opt_view(self.raw_index_key_hex),
            pretty_index_key: opt_view(self.pretty_index_key),
            raw_meta_key_hex: self.raw_meta_key_hex@,
            pretty_meta_key: self.pretty_meta_key@,
            content_source: self.content_source@,
            meta_index_entries: pair_views(self.meta_index_entries@),
            raw_meta_value_json: opt_view(self.raw_meta_value_json),
            field_values: pair_views(self.field_values@),
            topic: self.topic@,
            partition: self.partition,
            offset: self.offset,
            timestamp: self.timestamp@,
            key: self.key@,
            payload: self.payload@,
            headers: pair_views(self.headers@),
            json: self.json@,
        }
    }
}

#[derive(Debug, Clone)]
pub struct SearchIndexResponse {
    pub results: Vec<MessageResult>,
    /// Positions to read messages for; set instead of `results` when there is no query.
    pub locs: Vec<LocItem>,
    pub has_more: bool,
    pub next_browse_cursors: Vec<PartitionCursor>,
    pub next_search_cursors: Vec<SearchFieldCursor>,
}

/// One matching position.
#[derive(Debug)]
pub struct LocItem {
    pub ts_millis: u64,
    pub partition: u32,
    pub offset: u64,
    /// Only set when this position came from a match.
    pub matched_field: Option<String>,
    pub pretty_index_key: Option<String>,
    pub raw_index_key_hex: Option<String>,
}

/// What a `LocItem` holds, as plain values.
pub struct LocView {
    pub ts_millis: u64,
    pub partition: u32,
    pub offset: u64,
    pub matched_field: Option<Seq<char>>,
    pub pretty_index_key: Option<Seq<char>>,
    pub raw_index_key_hex: Option<Seq<char>>,
}

impl View for LocItem {
    type V = LocView;

    open spec fn view(&self) -> LocView {
        LocView {
            ts_millis: self.ts_millis,
            partition: self.partition,
            offset: self.offset,
            matched_field: opt_view(self.matched_field),
            pretty_index_key: opt_view(self.pretty_index_key),
            raw_index_key_hex: opt_view(self.raw_index_key_hex),
        }
    }
}

pub open spec fn loc_views(s: Seq<LocItem>) -> Seq<LocView> {
    s.map_values(|l: LocItem| l@)
}

impl Clone for LocItem {
    fn clone(&self) -> (r: Self)
        ensures
            r == *self,
    {
        LocItem {
            ts_millis: self.ts_millis,
            partition: self.partition,
            offset: self.offset,
            matched_field: match &self.matched_field {
                Some(s) => Some(s.clone()),
                None => None,
            },
            pretty_index_key: match &self.pretty_index_key {
                Some(s) => Some(s.clone()),
                None => None,
            },
            raw_index_key_hex: match &self.raw_index_key_hex {
                Some(s) => Some(s.clone()),
                None => None,
            },
        }
    }
}

#[derive(Debug)]
pub struct PrefetchSearchLocsResponse {
    pub locs: Vec<LocItem>,
    pub total: usize,
    pub capped: bool,
    /// Fields the query matched in at least once, across every topic searched.
    pub hit_fields: Vec<String>,
}

// ── Boolean queries ─────────────────────────────────────────────────────────
//
// A query is a tree of conditions: groups combined with must / should / must_not, and
// leaves that match a term, a prefix, a range, or the mere presence of a field.

#[derive(Debug, PartialEq)]
pub enum QueryNode {
    Bool(BoolNode),
    Term(TermLeaf),
    Prefix(PrefixLeaf),
    Exists(ExistsLeaf),
    Range(RangeLeaf),
}

#[derive(Debug, PartialEq, Default)]
pub struct BoolNode {
    pub must: Vec<QueryNode>,
    pub should: Vec<QueryNode>,
    pub must_not: Vec<QueryNode>,
    /// How many `should` clauses must match. `None` means one, and only when `must` is
    /// empty.
    pub minimum_should_match: Option<u32>,
}

/// `field: None` matches across every indexed field.
#[derive(Debug, Clone, PartialEq)]
pub struct TermLeaf {
    pub field: Option<String>,
    pub value: String,
}

#[derive(Debug, Clone, PartialEq)]
pub struct PrefixLeaf {
    pub field: Option<String>,
    pub value: String,
}

/// Matches messages that have anything at all indexed for the field.
#[derive(Debug, Clone, PartialEq)]
pub struct ExistsLeaf {
    pub field: String,
}

/// Matches values between `gte` and `lte`, both ends included. Bounds are compared
/// lexicographically, as text.
#[derive(Debug, Clone, PartialEq)]
pub struct RangeLeaf {
    pub field: String,
    pub gte: Option<String>,
    pub lte: Option<String>,
}

#[derive(Debug)]
pub struct SearchQuery {
    /// `None` searches every topic.
    pub topics: Option<Vec<String>>,
    /// The condition tree.
    pub where_node: QueryNode,
    pub sort_order: SortOrder,
    /// Maximum results. `0` means the engine's own limit.
    pub limit: usize,
    /// Narrows by message time, whatever the tree says.
    pub ts_range: Option<TsRange>,
    /// Narrows by position, in the same way and with the same reach as `ts_range`.
    pub pos_filter: Option<PosFilter>,
}

/// Restricts results to certain partitions and a range of offsets, both ends included.
#[derive(Debug, Clone, Default)]
pub struct PosFilter {
    /// Partitions to allow. Empty means all of them.
    pub partitions: Vec<u32>,
    pub offset_gte: Option<u64>,
    pub offset_lte: Option<u64>,
}

/// Whether a filter with these fields lets everything through.
pub open spec fn pos_noop(partitions: Seq<u32>, gte: Option<u64>, lte: Option<u64>) -> bool {
    partitions.len() == 0 && gte is None && lte is None
}

/// Whether the position passes a filter with these fields.
pub open spec fn pos_passes(
    partitions: Seq<u32>,
    gte: Option<u64>,
    lte: Option<u64>,
    partition: u32,
    offset: u64,
) -> bool {
    &&& (partitions.len() == 0 || partitions.contains(partition))
    &&& (gte matches Some(lo) ==> offset >= lo)
    &&& (lte matches Some(hi) ==> offset <= hi)
}

impl PosFilter {
    pub open spec fn spec_passes(&self, partition: u32, offset: u64) -> bool {
        pos_passes(self.partitions@, self.offset_gte, self.offset_lte, partition, offset)
    }

    pub open spec fn spec_is_noop(&self) -> bool {
        pos_noop(self.partitions@, self.offset_gte, self.offset_lte)
    }

    /// True when this filter would let everything through, so a caller can drop it.
    pub fn is_noop(&self) -> (r: bool)
        ensures
            r == self.spec_is_noop(),
    {
        self.partitions.len() == 0 && self.offset_gte.is_none() && self.offset_lte.is_none()
    }

    /// Whether this position passes.
    pub fn passes(&self, partition: u32, offset: u64) -> (r: bool)
        ensures
            r == self.spec_passes(partition, offset),
    {
        if self.partitions.len() != 0 {
            let mut found = false;
            let mut i: usize = 0;
            while i < self.partitions.len()
                invariant
                    i <= self.partitions.len(),
                    found == (exists|j: int| 0 <= j < i && self.partitions@[j] == partition),
                decreases self.partitions.len() - i,
            {
                if self.partitions[i] == partition {
                    found = true;
                }
                i += 1;
            }
            if !found {
                return false;
            }
        }
        if let Some(lo) = self.offset_gte {
            if offset < lo {
                return false;
            }
        }
        if let Some(hi) = self.offset_lte {
            if offset > hi {
                return false;
            }
        }
        true
    }

    /// A copy of this filter.
    pub fn copy(&self) -> (r: Self)
        ensures
            r.partitions@ == self.partitions@,
            r.offset_gte == self.offset_gte,
            r.offset_lte == self.offset_lte,
    {
        let mut partitions: Vec<u32> = Vec::new();
        let mut i: usize = 0;
        while i < self.partitions.len()
            invariant
                i <= self.partitions.len(),
                partitions@ == self.partitions@.subrange(0, i as int),
            decreases self.partitions.len() - i,
        {
            partitions.push(self.partitions[i]);
            i += 1;
        }
        proof {
            assert(self.partitions@.subrange(0, self.partitions.len() as int)
                == self.partitions@);
        }
        PosFilter { partitions, offset_gte: self.offset_gte, offset_lte: self.offset_lte }
    }
}

/// A filter that lets everything through passes every position.
pub proof fn law_noop_filter_passes_everything(f: PosFilter, partition: u32, offset: u64)
    requires
        f.spec_is_noop(),
    ensures
        f.spec_passes(partition, offset),
{
}

/// A filter passes a position exactly when its partition is one of those listed (any,
/// when none are) and its offset lies between the two ends, both ends included: an
/// offset equal to either end passes, one past either end does not.
pub proof fn law_pos_filter_is_inclusive(f: PosFilter, partition: u32, offset: u64)
    ensures
        f.spec_passes(partition, offset) == ((f.partitions@.len() == 0 || exists|i: int|
            0 <= i < f.partitions@.len() && #[trigger] f.partitions@[i] == partition) && match f.offset_gte {
            Some(lo) => lo <= offset,
            None => true,
        } && match f.offset_lte {
            Some(hi) => offset <= hi,
            None => true,
        }),
{
    if f.partitions@.contains(partition) {
        let i = choose|i: int| 0 <= i < f.partitions@.len() && f.partitions@[i] == partition;
        assert(f.partitions@[i] == partition);
    }
}

/// A range of message times, both ends included. Compared as numbers.
#[derive(Debug, Clone, Copy, Default, PartialEq, Eq, Structural)]
pub struct TsRange {
    pub gte_ms: Option<u64>,
    pub lte_ms: Option<u64>,
}

/// What one condition cost to run. Diagnostic only.
#[derive(Debug, Clone)]
pub struct MultiSearchCondCost {
    pub field: Option<String>,
    pub term: String,
    /// "exact" | "prefix"
    pub match_type: String,
    /// How the condition was read. Diagnostic only.
    pub cursor_kind: String,
    /// How many positions had to be held in memory, if any.
    pub materialized: u64,
    /// Fields this one condition matched in, before it was combined with the others.
    pub hit_fields: Vec<String>,
}

#[derive(Debug)]
pub struct MultiSearchResponse {
    /// Every matching position, in the requested order and up to the cap.
    pub locs: Vec<LocItem>,
    pub total: usize,
    pub capped: bool,
    /// Which strategy the engine chose. Diagnostic only.
    pub strategy: String,
    pub per_condition: Vec<MultiSearchCondCost>,
    /// Fields matched in at least once during this search, across every topic.
    pub hit_fields: Vec<String>,
    pub scan_ms: u64,
    /// Set when the query was rewritten before running. `None` when nothing changed.
    pub normalized_where: Option<String>,
}

// ── Counting matches by position ────────────────────────────────────────────

/// One offset range of one partition.
#[derive(Debug, Clone)]
pub struct OffsetBucket {
    /// First offset in the range, included.
    pub from_offset: u64,
    /// Last offset in the range, included.
    pub to_offset: u64,
    /// Matches in this range. Ranges with none are left out entirely.
    pub count: u32,
    /// The actual offsets, when the response carries them.
    pub offsets: Option<Vec<u64>>,
}

/// One partition's counts.
#[derive(Debug, Clone)]
pub struct PartitionOffsetBuckets {
    pub partition: u32,
    pub count: u64,
    pub min_offset: u64,
    pub max_offset: u64,
    /// How wide each range is.
    pub bucket_unit: u32,
    pub buckets: Vec<OffsetBucket>,
}

/// What the response carries, stated outright.
#[derive(Debug, Clone, Copy, PartialEq, Eq, Structural)]
pub enum OffsetBucketsDeliveryMode {
    CountOnly,
    OffsetsInline,
    PartialInline,
    Drill,
}

/// Match counts across a topic, by partition and offset range.
#[derive(Debug, Clone)]
pub struct OffsetBucketsResponse {
    pub topic: String,
    pub total: u64,
    pub partitions: Vec<PartitionOffsetBuckets>,
    /// Branch on this, not on whether a range happens to carry offsets.
    pub delivery_mode: OffsetBucketsDeliveryMode,
    /// Which plan produced this. Diagnostic only.
    pub chosen_plan: Option<String>,
}

/// Messages counted in one time bucket of one partition.
#[derive(Debug, Clone)]
pub struct TimeBucketRow {
    pub partition: u32,
    /// Start of the bucket, in epoch milliseconds.
    pub gran_start_ms: u64,
    pub count: u64,
    /// The offsets in this bucket, when the response carries them.
    pub offsets: Option<Vec<u64>>,
}

/// What the response carries, on the same terms as the offset version.
#[derive(Debug, Clone, Copy, PartialEq, Eq, Structural)]
pub enum TimeBucketDeliveryMode {
    CountOnly,
    OffsetsInline,
    PartialInline,
}

/// Counts over time: the bucket width, and one row per bucket that has anything in it.
#[derive(Debug, Clone)]
pub struct TimeBucketsResponse {
    pub gran_ms: u64,
    pub total: u64,
    pub rows: Vec<TimeBucketRow>,
    /// Branch on this, not on whether a bucket happens to carry offsets.
    pub delivery_mode: TimeBucketDeliveryMode,
    /// Which plan produced this. Diagnostic only.
    pub chosen_plan: Option<String>,
}

/// Which of the two groupings to return.
#[derive(Debug, Clone, Copy, PartialEq, Eq, Structural)]
pub enum BucketsKind {
    Offset,
    Time,
    All,
}

/// How much detail the buckets should carry — stated as intent rather than as a number.
#[derive(Debug, Clone, Copy, PartialEq, Eq, Structural)]
pub enum BucketDetail {
    CountOnly,
    Inline { cap: usize },
    Default,
}

impl BucketDetail {
    /// Resolves to a number, given the engine's default to fall back on.
    pub fn inline_cap(self, default_cap: usize) -> (r: usize)
        ensures
            r == match self {
                BucketDetail::CountOnly => 0,
                BucketDetail::Inline { cap } => cap,
                BucketDetail::Default => default_cap,
            },
    {
        match self {
            BucketDetail::CountOnly => 0,
            BucketDetail::Inline { cap } => cap,
            BucketDetail::Default => default_cap,
        }
    }
}

/// Both groupings from one request. Only what was asked for is present.
#[derive(Debug, Clone)]
pub struct CombinedBucketsResponse {
    pub offset: Option<OffsetBucketsResponse>,
    pub time: Option<TimeBucketsResponse>,
}

// ── Trying a deserializer out ───────────────────────────────────────────────

/// How one message decoded.
#[derive(Debug, Clone)]
pub struct TestDeserializeSample {
    pub partition: i32,
    pub offset: i64,
    pub key_decoded: Option<String>,
    pub key_error: Option<String>,
    pub value_decoded: Option<String>,
    pub value_error: Option<String>,
}

#[derive(Debug, Clone)]
pub struct TestDeserializeResponse {
    /// One entry per message read.
    pub samples: Vec<TestDeserializeSample>,
}

} // verus!
