//! Item ids used as profile keys — a string contract shared with whatever supplies the
//! profile.

use vstd::prelude::*;

verus! {

pub const CLUSTER_COUNT: &'static str = "clusterCount";

pub const INDEXED_TOPIC_COUNT: &'static str = "indexedTopicCount";

pub const TOPIC_INDEX_COUNT: &'static str = "topicIndexCount";

pub const TOKENIZE_FIELD_COUNT: &'static str = "tokenizeFieldCount";

pub const SEARCH_GROUPS: &'static str = "searchGroups";

pub const SEARCH_LEAVES_PER_GROUP: &'static str = "searchLeavesPerGroup";

pub const QUERY_LEAVES: &'static str = "queryLeaves";

/// A user setting: a profile caps it with `Max` rather than pinning it.
pub const DISK_BYTES: &'static str = "maxIndexBytesPerCluster";

} // verus!
