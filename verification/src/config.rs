//! Settings, global and per topic.

use vstd::prelude::*;

use crate::limits::TOPIC_INDEX_COUNT_CAP;

verus! {

/// How many messages one topic may index before the next gets a turn, where a request
/// leaves it out.
pub fn default_auto_sync_slice_size() -> (r: usize)
    ensures
        r == 50_000,
{
    50_000
}

/// The per-topic index cap where a request leaves it out: the structural ceiling.
pub fn default_topic_index_count_cap() -> (r: u64)
    ensures
        r == TOPIC_INDEX_COUNT_CAP,
{
    TOPIC_INDEX_COUNT_CAP
}

/// The global settings as they currently stand.
#[derive(Debug, Clone)]
pub struct GlobalConfigView {
    pub indexing_batch_size: usize,
    /// How many messages one topic may index before the next gets a turn.
    pub auto_sync_slice_size: usize,
    pub incremental_sync_enabled: bool,
    pub retention_cleanup_enabled: bool,
    pub retention_cleanup_interval_secs: u64,
    pub size_cleanup_enabled: bool,
    pub size_cleanup_interval_secs: u64,
    pub max_index_bytes_per_cluster: u64,
    pub default_cleanup_policies: Vec<String>,
    /// How many messages to keep per partition, where that policy applies.
    pub default_keep_count_per_partition: u64,
    /// Total messages one topic may keep indexed. Can be lowered but not raised past
    /// `TOPIC_INDEX_COUNT_CAP`.
    pub topic_index_count_cap: u64,
    pub retention_cleanup_wait_timeout_secs: u64,
    pub size_cleanup_wait_timeout_secs: u64,
    pub foreground_acquire_wait_timeout_secs: u64,
    /// `"none"`, `"snappy"` or `"zstd"`. Takes effect on reconnect.
    pub compression_mode: String,
}

/// A request to change the global settings.
#[derive(Debug)]
pub struct GlobalConfigInput {
    pub indexing_batch_size: usize,
    pub auto_sync_slice_size: usize,
    pub incremental_sync_enabled: bool,
    pub retention_cleanup_enabled: bool,
    pub retention_cleanup_interval_secs: u64,
    pub size_cleanup_enabled: bool,
    pub size_cleanup_interval_secs: u64,
    pub max_index_bytes_per_cluster: u64,
    pub default_cleanup_policies: Vec<String>,
    pub default_keep_count_per_partition: u64,
    /// Absent in older payloads, in which case the default stands.
    pub topic_index_count_cap: u64,
    pub retention_cleanup_wait_timeout_secs: u64,
    pub size_cleanup_wait_timeout_secs: u64,
    pub foreground_acquire_wait_timeout_secs: u64,
    pub compression_mode: String,
}

/// The per-topic settings a user may change by hand.
#[derive(Debug)]
pub struct TopicMetaConfigInput {
    pub retention_priority: Option<i32>,
    pub topic_type: Option<String>,
    pub cleanup_policy: Option<String>,
    /// Messages to keep per partition; `None` uses the global default.
    pub max_count: Option<u64>,
    pub retention_ms: Option<i64>,
    pub retention_bytes: Option<i64>,
    pub compression_type: Option<String>,
    pub message_timestamp_type: Option<String>,
    pub partition_count: Option<usize>,
    pub replication_factor: Option<usize>,
    pub topic_id: Option<String>,
}

/// The write request that puts back the values `v` shows, field for field.
pub open spec fn input_of_view(v: GlobalConfigView) -> GlobalConfigInput {
    GlobalConfigInput {
        indexing_batch_size: v.indexing_batch_size,
        auto_sync_slice_size: v.auto_sync_slice_size,
        incremental_sync_enabled: v.incremental_sync_enabled,
        retention_cleanup_enabled: v.retention_cleanup_enabled,
        retention_cleanup_interval_secs: v.retention_cleanup_interval_secs,
        size_cleanup_enabled: v.size_cleanup_enabled,
        size_cleanup_interval_secs: v.size_cleanup_interval_secs,
        max_index_bytes_per_cluster: v.max_index_bytes_per_cluster,
        default_cleanup_policies: v.default_cleanup_policies,
        default_keep_count_per_partition: v.default_keep_count_per_partition,
        topic_index_count_cap: v.topic_index_count_cap,
        retention_cleanup_wait_timeout_secs: v.retention_cleanup_wait_timeout_secs,
        size_cleanup_wait_timeout_secs: v.size_cleanup_wait_timeout_secs,
        foreground_acquire_wait_timeout_secs: v.foreground_acquire_wait_timeout_secs,
        compression_mode: v.compression_mode,
    }
}

impl From<GlobalConfigView> for GlobalConfigInput {
    /// Turns the current values back into a write request.
    ///
    /// Loading goes back through writing so that values are bounded in exactly one place.
    fn from(v: GlobalConfigView) -> (r: Self) {
        GlobalConfigInput {
            indexing_batch_size: v.indexing_batch_size,
            auto_sync_slice_size: v.auto_sync_slice_size,
            incremental_sync_enabled: v.incremental_sync_enabled,
            retention_cleanup_enabled: v.retention_cleanup_enabled,
            retention_cleanup_interval_secs: v.retention_cleanup_interval_secs,
            size_cleanup_enabled: v.size_cleanup_enabled,
            size_cleanup_interval_secs: v.size_cleanup_interval_secs,
            max_index_bytes_per_cluster: v.max_index_bytes_per_cluster,
            default_cleanup_policies: v.default_cleanup_policies,
            default_keep_count_per_partition: v.default_keep_count_per_partition,
            topic_index_count_cap: v.topic_index_count_cap,
            retention_cleanup_wait_timeout_secs: v.retention_cleanup_wait_timeout_secs,
            size_cleanup_wait_timeout_secs: v.size_cleanup_wait_timeout_secs,
            foreground_acquire_wait_timeout_secs: v.foreground_acquire_wait_timeout_secs,
            compression_mode: v.compression_mode,
        }
    }
}

impl vstd::std_specs::convert::FromSpecImpl<GlobalConfigView> for GlobalConfigInput {
    open spec fn obeys_from_spec() -> bool {
        true
    }

    open spec fn from_spec(v: GlobalConfigView) -> Self {
        input_of_view(v)
    }
}

} // verus!
