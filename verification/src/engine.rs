//! The interface an engine implements — one trait per domain, and a supertrait that
//! gathers them, so a caller can hold a single object and reach everything.
//!
//! Rules an implementation has to keep to:
//! - **Nothing in a signature may assume how it is called.** No transport belongs here.
//! - **Progress is emitted by the engine itself**, not through an argument.
//! - **Errors are `EngineError`.** Turning one into a string is the caller's business, at
//!   its own boundary.

use vstd::prelude::*;

use crate::auth::{AwsPaths, AwsProfileCredentials, AwsProfileSummary, KafkaAuth, StoredAuthConfig, UnreachableBrokerInfo};
use crate::cluster::{ClusterTopology, KafkaVersionInfo};
use crate::config::{GlobalConfigInput, GlobalConfigView, TopicMetaConfigInput};
use crate::consistency::ConsistencyReport;
use crate::decode_failure::{DecodeFailureKind, DecodeFailureMode};
use crate::error::EngineError;
use crate::export::{ExportFile, ExportRequest};
use crate::full_resync::FullResyncTrigger;
use crate::indexing::{CompactDeletedKeyCursor, CompactDeletedKeysPage, CompactKeyHistory, OpenKafkaTopicResponse};
use crate::profile::ClusterProfile;
use crate::registry::{RegistryResource, RegistrySchemaIndexEntry, RegistrySchemaView, RegistryTestResult};
use crate::search::{
    BucketDetail, BucketsKind, CombinedBucketsResponse, LocItem, MessageResult,
    MultiSearchResponse, OffsetBucketsResponse, PosFilter, PrefetchSearchLocsResponse,
    SearchIndexResponse, SearchMode, SearchQuery, SortOrder, TestDeserializeResponse,
    TimeBucketsResponse, TsRange,
};
use crate::settings::{EffectiveLimitsView, ProfileLimits, SystemLimitsView};
use crate::topic_meta::{
    DeserializerSpec, IndexedFieldInput, SuggestTokenizeFieldsResponse, TopicConfigInfoResponse,
    TopicDeserializers, TopicFieldMeta, TopicIndexSize, TopicLagStatus, TopicMessageCount,
    TopicOffsetStatus, TopicSizeProfile, WorkspaceStorageStatus,
};

verus! {

/// What this engine can do, so a caller can adapt rather than discover by failing.
#[derive(Debug, Clone)]
pub struct EngineCapabilities {
    /// The deserializers this engine knows, by id.
    pub supported_deserializers: Vec<String>,
    /// Whether it can reach a schema registry.
    pub supports_schema_registry: bool,
    /// Whether it offers assisted features.
    pub supports_ai: bool,
    /// The most messages it will index. `None` means no limit of its own.
    pub max_indexed_messages: Option<u64>,
    /// Which implementation this is. For showing and for diagnosis, not for branching.
    pub engine_id: String,
}

impl Default for EngineCapabilities {
    fn default() -> (r: Self)
        ensures
            r.supported_deserializers@.len() == 0,
            !r.supports_schema_registry,
            !r.supports_ai,
            r.max_indexed_messages is None,
            r.engine_id@.len() == 0,
    {
        EngineCapabilities {
            supported_deserializers: Vec::new(),
            supports_schema_registry: false,
            supports_ai: false,
            max_indexed_messages: None,
            engine_id: String::new(),
        }
    }
}

/// Everything an engine offers, gathered into one trait.
pub trait KafkaToolEngine:
    TopicMetaApi
    + StorageApi
    + FieldMgmtApi
    + IlmApi
    + IndexingApi
    + SearchApi
    + ExportApi
    + ConsistencyApi
    + ConfigApi
    + ProfilesApi
    + RegistryApi
    + AuthApi {
    /// What this engine can do.
    fn capabilities(&self) -> EngineCapabilities;

    /// Hands the engine a licence token, or clears it with `None`.
    ///
    /// **Nothing currently acts on this.** The default does nothing, so calling this gates
    /// nothing — a caller must not treat it as having done so.
    fn set_license(&self, token: Option<String>) -> (r: Result<(), EngineError>)
        default_ensures
            r is Ok,
    {
        Ok(())
    }
}

pub trait TopicMetaApi {
    fn list_topic_metas(&self, workspace: &str) -> Result<Vec<TopicFieldMeta>, EngineError>;

    fn get_topic_meta(
        &self,
        workspace: &str,
        topic: &str,
    ) -> Result<Option<TopicFieldMeta>, EngineError>;

    fn get_topic_index_sizes(
        &self,
        workspace: &str,
        topics: &[String],
    ) -> Result<Vec<TopicIndexSize>, EngineError>;

    fn check_workspace_storage(
        &self,
        workspace: &str,
    ) -> Result<WorkspaceStorageStatus, EngineError>;

    fn list_kafka_topics(&self, bootstrap: &str) -> Result<Vec<String>, EngineError>;

    /// The cluster's shape. With no topics named, only the brokers; name some and their
    /// partitions come too.
    fn fetch_cluster_topology(
        &self,
        bootstrap: &str,
        topics: &[String],
    ) -> Result<ClusterTopology, EngineError>;

    /// Roughly how many messages a topic holds, from offsets alone — nothing is read and
    /// nothing is created locally.
    fn get_topic_message_count(
        &self,
        bootstrap: &str,
        topic: &str,
    ) -> Result<TopicMessageCount, EngineError>;

    /// The same for many topics at once.
    ///
    /// ⚠️ **Partial success is normal**: a topic the cluster does not report is left out of
    /// the result rather than failing the call.
    ///
    /// Counts **must be current as of the call** — a caller uses them to decide what to
    /// index, and a remembered number would send it after a topic that has since gone.
    fn list_topic_message_counts(
        &self,
        bootstrap: &str,
        topics: &[String],
    ) -> Result<Vec<TopicMessageCount>, EngineError>;

    /// A sample of a topic, enough to suggest how it should be indexed.
    fn get_topic_size_profile(
        &self,
        bootstrap: &str,
        topic: &str,
    ) -> Result<TopicSizeProfile, EngineError>;

    /// Which fields look worth splitting into words, judged from a sample before indexing
    /// begins — so the choice can be made once rather than corrected later.
    fn suggest_tokenize_fields(
        &self,
        bootstrap: &str,
        topic: &str,
        key_spec: DeserializerSpec,
        value_spec: DeserializerSpec,
    ) -> Result<SuggestTokenizeFieldsResponse, EngineError>;

    fn get_cluster_id(&self, bootstrap: &str) -> Result<String, EngineError>;

    /// What version the broker appears to be, and what it actually supports.
    fn get_kafka_version_info(
        &self,
        bootstrap: &str,
    ) -> Result<KafkaVersionInfo, EngineError>;

    fn save_workspace_cluster_id(
        &self,
        workspace: &str,
        cluster_id: &str,
    ) -> Result<(), EngineError>;

    fn get_workspace_cluster_id(
        &self,
        workspace: &str,
    ) -> Result<Option<String>, EngineError>;

    fn get_topic_offset_status(
        &self,
        workspace: &str,
        topic: &str,
        bootstrap: &str,
    ) -> Result<TopicOffsetStatus, EngineError>;

    fn get_topic_config_info(
        &self,
        workspace: &str,
        bootstrap: &str,
        topic: &str,
    ) -> Result<TopicConfigInfoResponse, EngineError>;

    /// How far behind each followed topic's index is.
    ///
    /// **Meant to be called repeatedly**, so it has to stay cheap enough that polling it
    /// costs nothing worth noticing.
    fn list_watched_lag(
        &self,
        workspace: &str,
        bootstrap: &str,
        topics: Vec<String>,
    ) -> Result<Vec<TopicLagStatus>, EngineError>;
}

pub trait StorageApi {
    fn clear_workspace_index(&self, workspace: &str) -> Result<usize, EngineError>;

    fn clear_workspace_meta(&self, workspace: &str) -> Result<usize, EngineError>;

    fn clear_topic_index(&self, workspace: &str, topic: &str) -> Result<usize, EngineError>;

    fn clear_topic_meta(&self, workspace: &str, topic: &str) -> Result<usize, EngineError>;

    /// Discards a workspace entirely. A last resort — nothing survives it.
    fn reset_workspace(&self, workspace: &str) -> Result<(), EngineError>;

    /// Clears the index, for one topic or for all of them.
    fn clear_all(&self, workspace: &str, topic: Option<&str>) -> Result<usize, EngineError>;

    /// Rebuilds message records from the index alone, without reading the topic again.
    fn resync_meta(&self, workspace: &str, topic: Option<&str>)
        -> Result<usize, EngineError>;
}

pub trait FieldMgmtApi {
    /// Sets which fields a topic indexes.
    fn set_indexed_fields(
        &mut self,
        workspace: &str,
        topic: &str,
        fields: Vec<IndexedFieldInput>,
    ) -> Result<(), EngineError>;

    /// Builds the index for fields that were not indexed before, from what is already
    /// stored — without reading the topic again. Returns how many entries were written.
    fn reindex_fields_from_meta(
        &self,
        workspace: &str,
        topic: &str,
        fields: Vec<String>,
    ) -> Result<usize, EngineError>;

    /// Removes those fields from the index. Returns how many entries went.
    fn drop_fields_from_index(
        &self,
        workspace: &str,
        topic: &str,
        fields: Vec<String>,
    ) -> Result<usize, EngineError>;

    /// Removes the topic and everything indexed for it.
    fn remove_topic_from_index(
        &self,
        workspace: &str,
        topic: &str,
    ) -> Result<(usize, usize), EngineError>;

    /// Starts following a topic, before anything has been indexed for it.
    fn ensure_topic_watched(&self, workspace: &str, topic: &str) -> Result<(), EngineError>;

    /// Changes how a topic decodes; `None` returns it to JSON.
    fn set_topic_deserializers(
        &self,
        workspace: &str,
        topic: &str,
        deserializers: Option<TopicDeserializers>,
    ) -> Result<(), EngineError>;

    /// Names fields to split into words before any field has been discovered, leaving
    /// everything else indexed as it was. Past the limit this fails rather than truncating
    /// the list — silently indexing fewer fields than were asked for would be worse.
    fn set_tokenize_fields(
        &mut self,
        workspace: &str,
        topic: &str,
        fields: Vec<String>,
    ) -> Result<(), EngineError>;

    /// Stops following a topic, at the user's request.
    fn unwatch_topic(
        &self,
        workspace: &str,
        topic: &str,
    ) -> Result<(usize, usize), EngineError>;

    /// Records that a topic's index was removed to reclaim space, rather than by choice.
    fn mark_topic_auto_cleaned(
        &self,
        workspace: &str,
        topic: &str,
        timestamp_ms: i64,
    ) -> Result<(), EngineError>;
}

pub trait IlmApi {
    /// Drops indexed messages the cluster has since discarded, across every topic.
    fn trigger_background_ilm(
        &self,
        workspace: &str,
        bootstrap: &str,
    ) -> Result<usize, EngineError>;

    /// Reclaims space. `current_topic` is spared — taking away what is being looked at is
    /// how a user watches results disappear as they read them.
    fn trigger_size_based_cleanup(
        &self,
        workspace: &str,
        current_topic: Option<&str>,
    ) -> Result<(), EngineError>;

    /// Reclaims space for one topic, at the user's request.
    fn force_topic_cleanup(&self, workspace: &str, topic: &str) -> Result<(), EngineError>;

    /// Does the same for one topic, once it is known to have dropped messages.
    fn trigger_topic_retention_cleanup(
        &self,
        workspace: &str,
        topic: &str,
        bootstrap: &str,
    ) -> Result<bool, EngineError>;
}

pub trait IndexingApi {
    /// Opens a topic: works out where indexing stands, brings it up to date, and lets
    /// retention remove what the cluster no longer has.
    ///
    /// `max_messages` stops early after that many, with `has_more` saying whether there is
    /// more to do; the next call resumes on its own. `None` runs to the end.
    ///
    /// `skip_resync_check` bypasses the checks that decide whether the index still matches
    /// the topic. ⚠️ Only for a caller that has already made that decision — skipping it
    /// blindly is how two different topics end up in one index.
    fn open_kafka_topic(
        &self,
        workspace: &str,
        topic: &str,
        bootstrap: &str,
        skip_resync_check: Option<bool>,
        decode_failure_mode: Option<DecodeFailureMode>,
        max_messages: Option<u64>,
    ) -> Result<OpenKafkaTopicResponse, EngineError>;

    /// Asks indexing to stop.
    ///
    /// **Must return without waiting for indexing to end** — a caller watches the progress
    /// events for that. Stopping a topic that is not indexing is allowed and does nothing.
    ///
    /// ⚠️ **What is indexed when it stops has to stand on its own.** Resuming afterwards
    /// must need no reconciliation: nothing left half-written, and nothing already read
    /// left out of the index.
    ///
    /// Whether work in flight is finished or thrown away is left to the implementation —
    /// **nothing may depend on either.**
    fn cancel_indexing(&self, workspace: &str, topic: &str) -> Result<(), EngineError>;

    /// Records a placeholder for one message that would not decode, so indexing can pass
    /// over it rather than stopping again on the same message.
    ///
    /// The placeholder occupies the message's position and is searchable by the reserved
    /// fields alone. The bytes are not kept — they can still be read from the cluster for
    /// as long as it holds them.
    fn record_placeholder(
        &self,
        workspace: &str,
        topic: &str,
        partition: i32,
        offset: i64,
        kind: DecodeFailureKind,
        reason: String,
    ) -> Result<(), EngineError>;

    /// The history kept for one key of a compacted topic.
    ///
    /// `key_raw` must be the key as its deserializer renders it — the same form indexing
    /// used, or nothing will match. `None` where no history is held for it.
    fn fetch_compact_key_history(
        &self,
        workspace: &str,
        topic: &str,
        partition: u32,
        key_raw: &str,
    ) -> Result<Option<CompactKeyHistory>, EngineError>;

    /// One page of the keys that have been deleted.
    ///
    /// These cannot be found by searching — nothing else in the index refers to them — so
    /// this is the only way to list them. `key_query` matches anywhere within the key
    /// rather than at its start, which is what makes a structured key searchable by a part
    /// of it. `limit` may tighten the page size but not raise it past the engine's own.
    fn fetch_compact_deleted_keys_page(
        &self,
        workspace: &str,
        topic: &str,
        key_query: &str,
        partitions: Option<Vec<u32>>,
        cursor: Option<CompactDeletedKeyCursor>,
        limit: Option<u32>,
    ) -> Result<CompactDeletedKeysPage, EngineError>;
}

pub trait SearchApi {
    /// Cancels every in-flight search and bucket job for this workspace.
    ///
    /// Returns how many were actually signalled. Zero is not an error — cancelling when
    /// nothing is running is allowed. Cancelled work fails with [`EngineError::Cancelled`].
    ///
    /// Only long-running work is cancellable. Bounded operations may run to completion
    /// regardless, so a non-zero return is not proof that everything stopped.
    fn cancel_search(&self, workspace: &str) -> Result<u32, EngineError>;

    /// Collects the positions matching `query`, in time order. Progress is emitted while
    /// it runs.
    ///
    /// `fields`:
    ///   - `None` = match against every indexed field
    ///   - `Some(slice)` = match against those fields only (an empty slice matches nothing)
    ///
    /// `limit`:
    ///   - `None` = up to an internal safety cap; the response reports whether it was hit
    ///   - `Some(n)` = stop after `n` and return immediately
    fn prefetch_search_locs(
        &self,
        workspace: &str,
        query: &str,
        fields: Option<&[String]>,
        topics: Option<&[String]>,
        mode: SearchMode,
        sort_order: SortOrder,
        limit: Option<usize>,
        ts_range: Option<TsRange>,
        pos_filter: Option<PosFilter>,
    ) -> Result<PrefetchSearchLocsResponse, EngineError>;

    /// Evaluates a boolean query — nested groups, must / should / must_not, and exists.
    ///
    /// Returns the first page of matches, together with per-condition counts, the fields
    /// that were hit, and how long the scan took.
    ///
    /// ⚠️ `total` is an approximation and must not be relied on as an exact count —
    /// counting may stop once that first page is filled. The exact number comes from
    /// [`SearchApi::multi_search_offset_buckets`]. Later pages come from
    /// [`SearchApi::multi_search_page`], and drilling into one range from
    /// [`SearchApi::multi_search_locs_in_range`].
    fn multi_search(
        &self,
        workspace: &str,
        query: SearchQuery,
    ) -> Result<MultiSearchResponse, EngineError>;

    /// Time buckets over the matches of a boolean query — the counterpart of
    /// [`SearchApi::fetch_search_time_buckets`] for single-keyword search.
    fn multi_search_time_buckets(
        &self,
        workspace: &str,
        query: SearchQuery,
        gran_ms: u64,
        hard_cap: Option<u64>,
    ) -> Result<TimeBucketsResponse, EngineError>;

    /// Offset and time buckets for one boolean query in a single call; `kind` selects
    /// which of the two to return. Root only — this does not drill.
    fn multi_search_combined_buckets(
        &self,
        workspace: &str,
        query: SearchQuery,
        gran_ms: u64,
        kind: BucketsKind,
    ) -> Result<CombinedBucketsResponse, EngineError>;

    /// The matches of a boolean query inside one range.
    ///
    /// `partition = None` narrows by time; `Some(p)` narrows to an offset span within that
    /// partition. `extra_gte_ms` / `extra_lte_ms` intersect with `query.ts_range` rather
    /// than replacing it. Counterpart of [`SearchApi::fetch_search_locs_in_range`].
    fn multi_search_locs_in_range(
        &self,
        workspace: &str,
        query: SearchQuery,
        partition: Option<u32>,
        from_offset: Option<u64>,
        to_offset: Option<u64>,
        extra_gte_ms: Option<u64>,
        extra_lte_ms: Option<u64>,
    ) -> Result<Vec<LocItem>, EngineError>;

    /// Keyset pagination over the same boolean query, still in time order.
    ///
    /// Returns up to `limit` positions strictly after `(after_ts, after_partition,
    /// after_offset)` — the last position of the previous page. All three `None` returns
    /// the first page.
    ///
    /// Position filters travel inside `query.pos_filter`; there is no separate parameter.
    fn multi_search_page(
        &self,
        workspace: &str,
        query: SearchQuery,
        after_ts: Option<u64>,
        after_partition: Option<u32>,
        after_offset: Option<u64>,
        limit: usize,
    ) -> Result<Vec<LocItem>, EngineError>;

    /// Counts the matches of a boolean query per partition and offset range. Only the
    /// finest level is returned, and only where the count is non-zero; how wide that level
    /// is comes back with the response rather than being fixed here.
    ///
    /// `drill`:
    ///   - `None` = every partition
    ///   - `Some((partition, from, to))` = that offset span of one partition only
    ///
    /// Coarser levels are the caller's to derive from the leaves.
    fn multi_search_offset_buckets(
        &self,
        workspace: &str,
        query: SearchQuery,
        drill: Option<(u32, u64, u64)>,
    ) -> Result<OffsetBucketsResponse, EngineError>;

    /// The same aggregate for a single-keyword search: finest level only, non-zero counts
    /// only, coarser levels the caller's to derive.
    fn search_offset_buckets(
        &self,
        workspace: &str,
        query: &str,
        fields: Option<&[String]>,
        topics: Option<&[String]>,
        mode: SearchMode,
        ts_range: Option<TsRange>,
        sort_order: SortOrder,
    ) -> Result<OffsetBucketsResponse, EngineError>;

    /// Offset and time buckets for a single-keyword search in one call; `kind` selects
    /// which. Counterpart of [`SearchApi::multi_search_combined_buckets`].
    fn search_combined_buckets(
        &self,
        workspace: &str,
        query: &str,
        fields: Option<&[String]>,
        topics: Option<&[String]>,
        mode: SearchMode,
        ts_range: Option<TsRange>,
        gran_ms: u64,
        kind: BucketsKind,
        sort_order: SortOrder,
        pos_filter: Option<PosFilter>,
    ) -> Result<CombinedBucketsResponse, EngineError>;

    /// The same aggregate with no query: every indexed message inside `ts_range`.
    ///
    /// `sort_order` decides which end survives when the inline cap is reached — oldest
    /// first keeps the low offsets, newest first keeps the high ones.
    fn browse_offset_buckets(
        &self,
        workspace: &str,
        topic: &str,
        ts_range: Option<TsRange>,
        sort_order: SortOrder,
        detail: BucketDetail,
        pos_filter: Option<PosFilter>,
    ) -> Result<OffsetBucketsResponse, EngineError>;

    /// Offset and time buckets for a browse (no query) in one call.
    fn browse_combined_buckets(
        &self,
        workspace: &str,
        topic: &str,
        ts_range: Option<TsRange>,
        gran_ms: u64,
        kind: BucketsKind,
        sort_order: SortOrder,
        detail: BucketDetail,
        pos_filter: Option<PosFilter>,
    ) -> Result<CombinedBucketsResponse, EngineError>;

    /// Fetches the full messages at the given positions. This one reads from the cluster.
    fn fetch_messages(
        &self,
        workspace: &str,
        topic: &str,
        locs: Vec<LocItem>,
        bootstrap: Option<&str>,
    ) -> Result<Vec<MessageResult>, EngineError>;

    /// Reads only what the index already holds about those positions.
    ///
    /// **Must not contact the cluster.** Payload, key and headers come back empty and
    /// `content_source` is `"meta-only"`. Callers that need the bodies ask for them later
    /// with [`SearchApi::fetch_messages`].
    fn fetch_meta_rows(
        &self,
        workspace: &str,
        topic: &str,
        locs: Vec<LocItem>,
    ) -> Result<Vec<MessageResult>, EngineError>;

    /// Reads messages straight from the cluster, without going through the index.
    fn fetch_kafka_messages_raw(
        &self,
        workspace: &str,
        topic: &str,
        limit: Option<usize>,
    ) -> Result<SearchIndexResponse, EngineError>;

    /// The indexed positions inside `[from_offset, to_offset]` of one partition.
    fn fetch_browse_locs_in_bucket(
        &self,
        workspace: &str,
        topic: &str,
        partition: u32,
        from_offset: u64,
        to_offset: u64,
        sort_order: SortOrder,
    ) -> Result<Vec<LocItem>, EngineError>;

    /// The indexed positions inside `[gte_ms, lte_ms]`, inclusive at both ends.
    ///
    /// Answers a drill into one time range without returning the whole result set;
    /// `limit` bounds it.
    fn fetch_browse_locs_in_ts_range(
        &self,
        workspace: &str,
        topic: &str,
        gte_ms: Option<u64>,
        lte_ms: Option<u64>,
        sort_order: SortOrder,
        limit: Option<usize>,
        pos_filter: Option<PosFilter>,
    ) -> Result<Vec<LocItem>, EngineError>;

    /// One page of a browse, in time order. With all three `after_*` set, returns up to
    /// `limit` positions strictly after that one; otherwise the first page.
    fn fetch_browse_locs_page(
        &self,
        workspace: &str,
        topic: &str,
        gte_ms: Option<u64>,
        lte_ms: Option<u64>,
        sort_order: SortOrder,
        limit: Option<usize>,
        after_ts: Option<u64>,
        after_partition: Option<u32>,
        after_offset: Option<u64>,
        pos_filter: Option<PosFilter>,
    ) -> Result<Vec<LocItem>, EngineError>;

    /// Counts indexed messages per `(partition, bucket start)`, with no query applied.
    ///
    /// ⚠️ **Every message in the range is counted, and a query must not be applied here.**
    /// A caller that has a query and reaches for this anyway gets numbers that look right
    /// and are not — [`SearchApi::fetch_search_time_buckets`] is the one that counts
    /// matches.
    fn fetch_time_buckets(
        &self,
        workspace: &str,
        topic: &str,
        gte_ms: Option<u64>,
        lte_ms: Option<u64>,
        gran_ms: u64,
        sort_order: SortOrder,
        detail: BucketDetail,
        hard_cap: Option<u64>,
        pos_filter: Option<PosFilter>,
    ) -> Result<TimeBucketsResponse, EngineError>;

    /// Counts the matches of a single-keyword search per `(partition, bucket start)`.
    ///
    /// Only matches inside `ts_range` are counted.
    fn fetch_search_time_buckets(
        &self,
        workspace: &str,
        query: &str,
        fields: Option<&[String]>,
        topics: Option<&[String]>,
        mode: SearchMode,
        ts_range: Option<TsRange>,
        gran_ms: u64,
        sort_order: SortOrder,
        hard_cap: Option<u64>,
        pos_filter: Option<PosFilter>,
    ) -> Result<TimeBucketsResponse, EngineError>;

    /// The matches of a single-keyword search inside one range, intersected with
    /// `ts_range`.
    ///
    /// `partition = None` narrows by time; `Some(p)` narrows to an offset span within that
    /// partition. Unlike the browse calls, only matching positions come back, and each one
    /// carries the field it matched on and its index key.
    fn fetch_search_locs_in_range(
        &self,
        workspace: &str,
        query: &str,
        fields: Option<&[String]>,
        topics: Option<&[String]>,
        mode: SearchMode,
        sort_order: SortOrder,
        ts_range: Option<TsRange>,
        partition: Option<u32>,
        from_offset: Option<u64>,
        to_offset: Option<u64>,
        pos_filter: Option<PosFilter>,
    ) -> Result<Vec<LocItem>, EngineError>;

    /// One page of a single-keyword search, in time order — the counterpart of
    /// [`SearchApi::fetch_browse_locs_page`].
    ///
    /// With all three `after_*` set, returns up to `limit` positions strictly after that
    /// one; if any is `None`, the first page.
    fn fetch_search_locs_page(
        &self,
        workspace: &str,
        query: &str,
        fields: Option<&[String]>,
        topics: Option<&[String]>,
        mode: SearchMode,
        sort_order: SortOrder,
        ts_range: Option<TsRange>,
        limit: Option<usize>,
        after_ts: Option<u64>,
        after_partition: Option<u32>,
        after_offset: Option<u64>,
        pos_filter: Option<PosFilter>,
    ) -> Result<Vec<LocItem>, EngineError>;

    /// Every indexed position in the topic, with no query. `matched_field` and the index
    /// key are `None` — there was no match to report.
    ///
    /// When the cap is reached the response sets `capped = true`; callers should fall back
    /// to bucket counts rather than treat the list as complete.
    ///
    /// `limit`:
    ///   - `None` = up to an internal safety cap
    ///   - `Some(n)` = stop after `n` and return immediately
    fn prefetch_browse_locs(
        &self,
        workspace: &str,
        topic: &str,
        sort_order: SortOrder,
        limit: Option<usize>,
        ts_range: Option<TsRange>,
        pos_filter: Option<PosFilter>,
    ) -> Result<PrefetchSearchLocsResponse, EngineError>;

    /// Fetches `limit` messages and decodes them with the given deserializers, so a schema
    /// can be checked against real data before any indexing starts.
    ///
    /// Uses only the deserializers passed in — the topic's saved configuration is neither
    /// read nor changed.
    fn test_deserializers(
        &self,
        workspace: &str,
        topic: &str,
        deserializers: TopicDeserializers,
        bootstrap: Option<&str>,
        limit: usize,
    ) -> Result<TestDeserializeResponse, EngineError>;
}

pub trait ExportApi {
    /// Produces every result of a search as the file to write: where, what, and how many
    /// records. Writing it is left to the caller, which reports the `ExportResult`.
    ///
    /// ⚠️ **Memory use must stay bounded independently of the result count** — the results
    /// worth exporting are the ones too large to look through.
    fn export_search_results(
        &self,
        workspace: &str,
        req: ExportRequest,
    ) -> Result<ExportFile, EngineError>;

    /// Cancels any export in progress, returning how many were signalled. Zero is not an
    /// error. A cancelled export fails with `EngineError::Cancelled`.
    fn cancel_export(&self, workspace: &str) -> Result<u32, EngineError>;
}

pub trait ConsistencyApi {
    /// Compares what is stored against what the counters claim.
    fn verify_topic_consistency(
        &self,
        workspace: &str,
        topic: &str,
    ) -> Result<ConsistencyReport, EngineError>;

    /// Looks for changes on the cluster that mean the index no longer describes the same
    /// topic.
    fn detect_topic_drift(
        &self,
        workspace: &str,
        topic: &str,
        bootstrap: &str,
    ) -> Result<Vec<FullResyncTrigger>, EngineError>;
}

pub trait ConfigApi {
    /// The current global settings.
    fn get_global_ilm_config(&self) -> Result<GlobalConfigView, EngineError>;

    /// Applies an operator profile's constraints.
    ///
    /// ⚠️ **The profile is not trusted.** Keys that are not recognised and constraints that
    /// do not apply are ignored, and every value is held inside the hard bounds before it
    /// takes effect.
    fn apply_profile_limits(
        &self,
        limits: ProfileLimits,
    ) -> Result<EffectiveLimitsView, EngineError>;

    /// The limits actually in force. Callers should read these directly rather than
    /// caching their own copy — a profile change can shift them at any time.
    fn get_effective_limits(&self) -> Result<EffectiveLimitsView, EngineError>;

    /// System limits, for diagnosis only — there is no way to change them through this API.
    fn get_system_limits(&self) -> Result<SystemLimitsView, EngineError>;

    /// Changes the global settings, returning what actually took effect.
    fn set_global_ilm_config(
        &self,
        input: GlobalConfigInput,
    ) -> Result<GlobalConfigView, EngineError>;

    /// Changes one topic's settings.
    fn set_topic_meta_config(
        &self,
        workspace: &str,
        topic: &str,
        input: TopicMetaConfigInput,
    ) -> Result<(), EngineError>;

    /// Sets a topic's cleanup policy alone; `None` unsets it.
    fn set_topic_cleanup_policy(
        &self,
        workspace: &str,
        topic: &str,
        policy: Option<&str>,
    ) -> Result<(), EngineError>;
}

pub trait ProfilesApi {
    /// Saved connections, most recently used first.
    fn list_cluster_profiles(&self) -> Result<Vec<ClusterProfile>, EngineError>;

    /// Saves or updates one.
    ///
    /// ⚠️ **Past the limit this must fail, and nothing may be removed to make room.**
    /// A saved connection disappearing on its own is indistinguishable from losing it, so
    /// the refusal is deliberate — evicting the oldest would be the friendlier-looking
    /// behaviour and the wrong one.
    ///
    /// `auth_config` carries no secrets — see `StoredAuthConfig`.
    fn save_cluster_profile(
        &self,
        workspace: &str,
        bootstrap: &str,
        cluster_id: Option<&str>,
        auth_config: Option<StoredAuthConfig>,
    ) -> Result<(), EngineError>;

    /// Removes one.
    fn delete_cluster_profile(&self, workspace: &str) -> Result<(), EngineError>;
}

pub trait RegistryApi {
    /// The saved registries.
    fn list_registry_resources(&self) -> Result<Vec<RegistryResource>, EngineError>;

    /// Saves or updates one, matched by id.
    fn save_registry_resource(&mut self, resource: RegistryResource) -> Result<(), EngineError>;

    /// Removes one.
    fn delete_registry_resource(&mut self, id: &str) -> Result<(), EngineError>;

    /// Tries a registry out. ⚠️ **A registry that cannot be reached is a result, not an
    /// error** — the caller asked whether it works, and "no" is an answer.
    fn test_registry_resource(
        &self,
        url: &str,
        basic_auth: Option<&str>,
    ) -> Result<RegistryTestResult, EngineError>;

    /// The subject names a registry holds.
    fn list_registry_subjects(
        &self,
        url: &str,
        basic_auth: Option<&str>,
    ) -> Result<Vec<String>, EngineError>;

    /// One subject's latest schema.
    fn fetch_registry_subject_latest(
        &self,
        url: &str,
        basic_auth: Option<&str>,
        subject: &str,
    ) -> Result<RegistrySchemaView, EngineError>;

    /// Every schema at once — enough to work out how they refer to one another.
    fn list_registry_schema_index(
        &self,
        url: &str,
        basic_auth: Option<&str>,
    ) -> Result<Vec<RegistrySchemaIndexEntry>, EngineError>;
}

pub trait AuthApi {
    /// Registers credentials for a cluster, to be used by later calls.
    ///
    /// **Secrets stay in memory and must never be written to disk from here.**
    fn register_kafka_auth(
        &self,
        bootstrap: &str,
        auth: KafkaAuth,
    ) -> Result<(), EngineError>;

    /// Forgets them again.
    fn clear_kafka_auth(&self, bootstrap: &str) -> Result<(), EngineError>;

    /// Tries the credentials once, so a failure is reported before anything else depends
    /// on them. Succeeds immediately where there is nothing to authenticate.
    ///
    /// Where TLS is in use and the presented server certificate fails standard chain
    /// validation, this returns `EngineError::UntrustedCert` rather than a plain failure
    /// where the certificate was captured well enough to identify — see
    /// `confirm_kafka_cert_trust`.
    fn verify_kafka_auth(&self, bootstrap: &str) -> Result<(), EngineError>;

    /// Re-verifies credentials for `bootstrap` after the caller has reviewed and accepted
    /// specific TLS certificate fingerprints from a prior `EngineError::UntrustedCert`.
    ///
    /// An implementation must accept a presented certificate only when its fingerprint is
    /// among `accepted_fingerprints`, and must still require proof of possession of the
    /// matching private key — this is not a blanket bypass of certificate verification.
    /// The accepted fingerprints are remembered for `bootstrap` beyond this one call, the
    /// same as `register_kafka_auth`'s credentials.
    fn confirm_kafka_cert_trust(
        &self,
        bootstrap: &str,
        accepted_fingerprints: Vec<String>,
    ) -> Result<(), EngineError>;

    /// Verifies certificate trust for connection endpoints discovered from the cluster
    /// itself, not only `bootstrap`.
    ///
    /// Fails the same way `verify_kafka_auth` does, including `EngineError::UntrustedCert`,
    /// resolved the same way through `confirm_kafka_cert_trust`. On success, returns the
    /// brokers that could not be reached at all — not itself a failure, but a caller
    /// should surface it rather than discard it silently.
    fn verify_cluster_broker_trust(
        &self,
        bootstrap: &str,
    ) -> Result<Vec<UnreachableBrokerInfo>, EngineError>;

    /// Asks the broker which SASL mechanisms it offers.
    ///
    /// No credentials are needed or used — `auth` is taken only for its transport settings,
    /// since this is meant to be callable while the user is still filling the form.
    fn list_sasl_mechanisms(
        &self,
        bootstrap: &str,
        auth: KafkaAuth,
    ) -> Result<Vec<String>, EngineError>;

    /// Lists the AWS profiles available, without their secrets. `None` reads the standard
    /// location. A missing file is an error, which a caller can treat as "type them in".
    fn list_aws_profiles(
        &self,
        path: Option<String>,
    ) -> Result<Vec<AwsProfileSummary>, EngineError>;

    /// Where the engine would look, with the environment taken into account. Touches no
    /// file, so it cannot fail; an unknown path comes back empty.
    fn resolve_aws_paths(&self) -> AwsPaths;

    /// Reads one profile's credentials, secrets included. **The engine stores none of
    /// them** — this only saves the user copying them by hand.
    fn load_aws_profile(
        &self,
        path: Option<String>,
        profile: String,
    ) -> Result<AwsProfileCredentials, EngineError>;
}

} // verus!
