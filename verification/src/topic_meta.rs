//! What is known about a topic: its fields, how its index is looked after, and how far
//! indexing has got.
//!
//! `TopicFieldMeta` is persisted as-is, so a change to it has to keep reading what
//! earlier versions wrote. The conversion from `TopicFieldMetaRaw` below exists for that
//! reason and is not optional.

use std::collections::HashMap;

use vstd::prelude::*;

use crate::domain::{FieldSearchStat, IndexState, IndexedField, IndexedFieldKind};
use crate::text::{contains_str, owned, push_str, views};

verus! {

// ── DeserializerSpec ──────────────────────────────────────────────────────

/// How a topic's messages are decoded.
///
/// The variants are combinations of two independent choices: whether the bytes carry a
/// Confluent prefix (a magic byte and schema id) or are a bare datum, and whether the
/// schema comes from a local file or from a Schema Registry. Bare bytes with a registry is
/// not offered — a registry is looked up by the schema id that only the prefixed form
/// carries.
#[derive(Debug, Clone, PartialEq, Eq)]
pub enum DeserializerSpec {
    /// The default: bytes are read as UTF-8, replacing anything invalid rather than
    /// failing.
    Json,
    /// A bare Avro datum, with the schema from a local `.avsc`. `schema_text` is what
    /// decoding uses; `schema_path` only says where it came from.
    AvroLocalFile { schema_path: String, schema_text: Option<String> },
    /// Confluent-framed bytes with the schema from a local `.avsc`. The framing must be
    /// checked strictly.
    AvroConfluentLocal { schema_path: String, schema_text: Option<String> },
    /// Confluent-framed bytes with the schema fetched from a registry by the id in each
    /// message. `basic_auth` is `"user:password"` when the registry needs it.
    AvroConfluentRegistry { registry_url: String, basic_auth: Option<String> },
    /// The envelope Kafka Connect writes with `schemas.enable=true`. Only `payload` is
    /// kept.
    JsonConnectEnvelope,
    /// Confluent's JSON Schema serialization. The framing check is deliberately
    /// forgiving.
    JsonSchemaConfluent,
    /// A bare Protobuf datum, with the schema from a local `.proto`; `message_name` says
    /// which message to decode, and every imported file is stored inline.
    ProtobufLocalFile {
        schema_path: String,
        schema_text: Option<String>,
        message_name: String,
        import_files: Vec<ProtoFile>,
    },
    /// Protobuf with the schema fetched from a registry. A schema that imports others is
    /// not resolved.
    ProtobufConfluentRegistry { registry_url: String, basic_auth: Option<String> },
    /// Avro against a saved registry, resolved when it is used.
    AvroConfluentRegistryRef { resource_id: String },
    /// Protobuf against a saved registry, resolved the same way.
    ProtobufConfluentRegistryRef { resource_id: String },
}

impl Default for DeserializerSpec {
    fn default() -> (r: Self)
        ensures
            r == DeserializerSpec::Json,
    {
        DeserializerSpec::Json
    }
}

/// One imported `.proto`, stored with the text it was read from. `name` must match the
/// path in the importing `import "…"` line.
#[derive(Debug, Clone, PartialEq, Eq)]
pub struct ProtoFile {
    pub name: String,
    pub text: String,
}

/// A topic's key and value deserializers. They are separate because the bytes are.
#[derive(Debug, Clone, PartialEq, Eq)]
pub struct TopicDeserializers {
    pub key: DeserializerSpec,
    pub value: DeserializerSpec,
}

impl Default for TopicDeserializers {
    fn default() -> (r: Self)
        ensures
            r.key == DeserializerSpec::Json,
            r.value == DeserializerSpec::Json,
    {
        TopicDeserializers { key: DeserializerSpec::Json, value: DeserializerSpec::Json }
    }
}

// ── CleanupPolicy ─────────────────────────────────────────────────────────

/// What to reclaim when a topic's index has to give back space. Set per topic; falls back
/// to the global default when unset. `DropIndex` ends the matter; the other two may run
/// together.
#[derive(Debug, Clone, Copy, PartialEq, Eq, Structural)]
pub enum CleanupPolicy {
    /// Drop the topic's index entirely. The default.
    DropIndex,
    /// Drop only the fields that are rarely searched.
    FieldBased,
    /// Keep the newest `max_count` per partition. A zero limit falls back to the global
    /// default.
    CountBased { max_count: u64 },
}

// ── IlmUpdate ─────────────────────────────────────────────────────────────

/// A partial update: only the fields set here change, the rest keep their values.
#[derive(Debug)]
pub struct IlmUpdate {
    pub indexed: Option<bool>,
    pub field_subset: Option<bool>,
    /// partition → latest indexed offset
    pub latest_indexed_offsets: Option<HashMap<u32, i64>>,
    /// partition → Kafka earliest offset
    pub earliest_offsets: Option<HashMap<u32, i64>>,
    /// The cluster's latest offset per partition, as of the last sync.
    pub kafka_latest_offsets: Option<HashMap<u32, i64>>,
    pub last_incremental_sync_at: Option<i64>,
    pub last_cleanup_at: Option<i64>,
    pub topic_type: Option<String>,
    pub topic_policy_checked_at: Option<i64>,
    /// When a search was last run against this topic. Browsing does not count.
    pub last_search_at: Option<i64>,
    /// `(when, fields)` — records that these fields were searched.
    pub field_search_increments: Option<(i64, Vec<String>)>,
    /// Retention in milliseconds; `-1` means unlimited.
    pub retention_ms: Option<i64>,
    /// Retention in bytes per partition; `-1` means unlimited.
    pub retention_bytes: Option<i64>,
    pub compression_type: Option<String>,
    pub message_timestamp_type: Option<String>,
    pub partition_count: Option<usize>,
    pub replication_factor: Option<usize>,
    /// The cluster's own id for the topic.
    pub topic_id: Option<String>,
    /// Added to the running total rather than replacing it.
    pub delivery_lost_add: Option<u64>,
}

impl Default for IlmUpdate {
    fn default() -> (r: Self)
        ensures
            r.indexed is None && r.field_subset is None && r.latest_indexed_offsets is None
                && r.earliest_offsets is None && r.kafka_latest_offsets is None
                && r.last_incremental_sync_at is None && r.last_cleanup_at is None
                && r.topic_type is None && r.topic_policy_checked_at is None
                && r.last_search_at is None && r.field_search_increments is None
                && r.retention_ms is None && r.retention_bytes is None
                && r.compression_type is None && r.message_timestamp_type is None
                && r.partition_count is None && r.replication_factor is None
                && r.topic_id is None && r.delivery_lost_add is None,
    {
        IlmUpdate {
            indexed: None,
            field_subset: None,
            latest_indexed_offsets: None,
            earliest_offsets: None,
            kafka_latest_offsets: None,
            last_incremental_sync_at: None,
            last_cleanup_at: None,
            topic_type: None,
            topic_policy_checked_at: None,
            last_search_at: None,
            field_search_increments: None,
            retention_ms: None,
            retention_bytes: None,
            compression_type: None,
            message_timestamp_type: None,
            partition_count: None,
            replication_factor: None,
            topic_id: None,
            delivery_lost_add: None,
        }
    }
}

// ── TopicFieldMeta ────────────────────────────────────────────────────────

/// Everything kept about one topic.
///
/// Index state is held as independent flags rather than one enum, because the two answer
/// different questions. Use `derived_index_state()` where a label is wanted; branch on the
/// flags where behaviour depends on it.
#[derive(Debug)]
pub struct TopicFieldMeta {
    pub topic: String,
    pub key_fields: Vec<String>,
    pub payload_fields: Vec<String>,
    pub header_fields: Vec<String>,
    pub message_count: usize,
    pub index_entry_count: usize,
    /// Whether indexing has ever completed.
    pub indexed: bool,
    /// Whether only some fields are indexed.
    pub field_subset: bool,
    /// The furthest offset indexed, per partition.
    pub latest_indexed_offsets: HashMap<u32, i64>,
    /// The cluster's earliest offset per partition, as of the last sync.
    pub earliest_offsets: HashMap<u32, i64>,
    /// The cluster's latest offset per partition, as of the last sync.
    pub kafka_latest_offsets: HashMap<u32, i64>,
    pub topic_type: Option<String>,
    pub topic_policy_checked_at: Option<i64>,
    pub last_incremental_sync_at: Option<i64>,
    pub last_cleanup_at: Option<i64>,
    pub retention_priority: Option<i32>,
    /// When a search was last run against this topic. Browsing does not count.
    pub last_search_at: Option<i64>,
    /// How much each field's index is searched.
    pub field_search_stats: HashMap<String, FieldSearchStat>,
    pub retention_ms: Option<i64>,
    pub retention_bytes: Option<i64>,
    pub compression_type: Option<String>,
    pub message_timestamp_type: Option<String>,
    pub partition_count: Option<usize>,
    pub replication_factor: Option<usize>,
    /// The cluster's own id for the topic.
    pub topic_id: Option<String>,
    /// This topic's cleanup policy; `None` uses the global default.
    pub cleanup_policy: Option<CleanupPolicy>,
    /// The limit for `count_based`, per partition. `None` uses the global default.
    pub max_count: Option<u64>,
    /// Which fields are indexed. **Empty means all of them.**
    pub indexed_fields: Vec<IndexedField>,
    /// When this topic's index was last removed to reclaim space. `None` means it never
    /// was. Must be cleared when the topic is indexed again.
    pub auto_cleanup_removed_at: Option<i64>,
    /// How to decode this topic's keys and values. `None` decodes both as JSON.
    pub deserializers: Option<TopicDeserializers>,
    /// Fields to split into words, named directly rather than through `indexed_fields`.
    /// The two are independent and both apply.
    pub tokenize_fields: Vec<String>,
    /// On a compacted topic, how many superseded versions have been dropped in total.
    pub compact_superseded_total: u64,
    /// How many deletion markers have been handled.
    pub compact_tombstone_total: u64,
    /// Offsets the cluster never delivered although they were asked for.
    pub delivery_lost_total: u64,
}

/// Whether `m` holds nothing yet: no text, no fields, no counts, no flags, no offsets and
/// no settings.
pub open spec fn is_blank_meta(m: TopicFieldMeta) -> bool {
    &&& m.topic@ == Seq::<char>::empty()
    &&& m.key_fields@ == Seq::<String>::empty()
    &&& m.payload_fields@ == Seq::<String>::empty()
    &&& m.header_fields@ == Seq::<String>::empty()
    &&& m.message_count == 0
    &&& m.index_entry_count == 0
    &&& !m.indexed
    &&& !m.field_subset
    &&& m.latest_indexed_offsets@ == Map::<u32, i64>::empty()
    &&& m.earliest_offsets@ == Map::<u32, i64>::empty()
    &&& m.kafka_latest_offsets@ == Map::<u32, i64>::empty()
    &&& m.topic_type is None
    &&& m.topic_policy_checked_at is None
    &&& m.last_incremental_sync_at is None
    &&& m.last_cleanup_at is None
    &&& m.retention_priority is None
    &&& m.last_search_at is None
    &&& m.field_search_stats@ == Map::<String, FieldSearchStat>::empty()
    &&& m.retention_ms is None
    &&& m.retention_bytes is None
    &&& m.compression_type is None
    &&& m.message_timestamp_type is None
    &&& m.partition_count is None
    &&& m.replication_factor is None
    &&& m.topic_id is None
    &&& m.cleanup_policy is None
    &&& m.max_count is None
    &&& m.indexed_fields@ == Seq::<IndexedField>::empty()
    &&& m.auto_cleanup_removed_at is None
    &&& m.deserializers is None
    &&& m.tokenize_fields@ == Seq::<String>::empty()
    &&& m.compact_superseded_total == 0
    &&& m.compact_tombstone_total == 0
    &&& m.delivery_lost_total == 0
}

impl Default for TopicFieldMeta {
    fn default() -> (r: Self)
        ensures
            is_blank_meta(r),
    {
        TopicFieldMeta {
            topic: String::new(),
            key_fields: Vec::new(),
            payload_fields: Vec::new(),
            header_fields: Vec::new(),
            message_count: 0,
            index_entry_count: 0,
            indexed: false,
            field_subset: false,
            latest_indexed_offsets: HashMap::new(),
            earliest_offsets: HashMap::new(),
            kafka_latest_offsets: HashMap::new(),
            topic_type: None,
            topic_policy_checked_at: None,
            last_incremental_sync_at: None,
            last_cleanup_at: None,
            retention_priority: None,
            last_search_at: None,
            field_search_stats: HashMap::new(),
            retention_ms: None,
            retention_bytes: None,
            compression_type: None,
            message_timestamp_type: None,
            partition_count: None,
            replication_factor: None,
            topic_id: None,
            cleanup_policy: None,
            max_count: None,
            indexed_fields: Vec::new(),
            auto_cleanup_removed_at: None,
            deserializers: None,
            tokenize_fields: Vec::new(),
            compact_superseded_total: 0,
            compact_tombstone_total: 0,
            delivery_lost_total: 0,
        }
    }
}

/// Whether some field of `fs` with the wanted properties is named `n`.
pub open spec fn names_field(fs: Seq<IndexedField>, n: Seq<char>, only_tokenized: bool, only_required: bool) -> bool {
    exists|i: int|
        0 <= i < fs.len() && #[trigger] fs[i].name@ == n && (only_tokenized ==> fs[i].tokenize) && (
        only_required ==> fs[i].kind == IndexedFieldKind::Required)
}

/// Adds `s` to a list of distinct texts, unless it is already there.
fn push_unique(out: &mut Vec<String>, s: &String)
    requires
        views(old(out)@).no_duplicates(),
    ensures
        views(final(out)@).no_duplicates(),
        forall|n: Seq<char>| #[trigger] views(final(out)@).contains(n) <==> (views(old(out)@).contains(n) || n == s@),
{
    let ghost before = views(out@);
    if !contains_str(out, s.as_str()) {
        out.push(s.clone());
        assert(views(out@) =~= before.push(s@));
        assert forall|n: Seq<char>| #[trigger] views(out@).contains(n) <==> (before.contains(n) || n == s@) by {
            if before.contains(n) {
                let k = choose|k: int| 0 <= k < before.len() && before[k] == n;
                assert(views(out@)[k] == n);
            }
            if n == s@ {
                assert(views(out@)[before.len() as int] == n);
            }
        }
    }
}

impl TopicFieldMeta {
    /// Names of the indexed fields that have the wanted properties, each once.
    fn collect_names(&self, only_tokenized: bool, only_required: bool) -> (r: Vec<String>)
        ensures
            views(r@).no_duplicates(),
            forall|n: Seq<char>| #[trigger] views(r@).contains(n) <==> names_field(
                self.indexed_fields@,
                n,
                only_tokenized,
                only_required,
            ),
    {
        let ghost fs = self.indexed_fields@;
        let mut out: Vec<String> = Vec::new();
        let mut i: usize = 0;
        while i < self.indexed_fields.len()
            invariant
                fs == self.indexed_fields@,
                i <= fs.len(),
                views(out@).no_duplicates(),
                forall|n: Seq<char>| #[trigger] views(out@).contains(n) <==> names_field(
                    fs.subrange(0, i as int),
                    n,
                    only_tokenized,
                    only_required,
                ),
            decreases self.indexed_fields.len() - i,
        {
            let f = &self.indexed_fields[i];
            let wanted = (!only_tokenized || f.tokenize) && (!only_required || f.kind
                == IndexedFieldKind::Required);
            if wanted {
                push_unique(&mut out, &f.name);
            }
            proof {
                assert forall|n: Seq<char>| #[trigger] views(out@).contains(n) <==> names_field(
                    fs.subrange(0, i + 1),
                    n,
                    only_tokenized,
                    only_required,
                ) by {
                    let a = fs.subrange(0, i as int);
                    let b = fs.subrange(0, i + 1);
                    if names_field(a, n, only_tokenized, only_required) {
                        let k = choose|k: int|
                            0 <= k < a.len() && #[trigger] a[k].name@ == n && (only_tokenized
                                ==> a[k].tokenize) && (only_required ==> a[k].kind
                                == IndexedFieldKind::Required);
                        assert(b[k] == a[k]);
                    }
                    if names_field(b, n, only_tokenized, only_required) {
                        let k = choose|k: int|
                            0 <= k < b.len() && #[trigger] b[k].name@ == n && (only_tokenized
                                ==> b[k].tokenize) && (only_required ==> b[k].kind
                                == IndexedFieldKind::Required);
                        if k < i {
                            assert(a[k] == b[k]);
                        }
                    }
                    if wanted && n == f.name@ {
                        assert(b[i as int] == *f);
                    }
                }
            }
            i += 1;
        }
        assert(fs.subrange(0, fs.len() as int) == fs);
        out
    }

    /// The names of the indexed fields, each once.
    pub fn indexed_field_names(&self) -> (r: Vec<String>)
        ensures
            views(r@).no_duplicates(),
            forall|n: Seq<char>| #[trigger] views(r@).contains(n) <==> names_field(
                self.indexed_fields@,
                n,
                false,
                false,
            ),
    {
        self.collect_names(false, false)
    }

    /// Every field to be split into words, from both places it can be asked for, each
    /// once. Indexing and re-indexing must both go through this.
    pub fn effective_tokenized_fields(&self) -> (r: Vec<String>)
        ensures
            views(r@).no_duplicates(),
            forall|n: Seq<char>| #[trigger] views(r@).contains(n) <==> (names_field(
                self.indexed_fields@,
                n,
                true,
                false,
            ) || views(self.tokenize_fields@).contains(n)),
    {
        let mut out = self.collect_names(true, false);
        let ghost first = views(out@);
        let ghost tf = views(self.tokenize_fields@);
        let mut i: usize = 0;
        while i < self.tokenize_fields.len()
            invariant
                tf == views(self.tokenize_fields@),
                i <= tf.len(),
                views(out@).no_duplicates(),
                forall|n: Seq<char>| #[trigger] views(out@).contains(n) <==> (first.contains(n)
                    || tf.subrange(0, i as int).contains(n)),
            decreases self.tokenize_fields.len() - i,
        {
            let ghost prev = views(out@);
            push_unique(&mut out, &self.tokenize_fields[i]);
            proof {
                assert forall|n: Seq<char>| #[trigger] views(out@).contains(n) <==> (first.contains(n)
                    || tf.subrange(0, i + 1).contains(n)) by {
                    let a = tf.subrange(0, i as int);
                    let b = tf.subrange(0, i + 1);
                    assert(b == a.push(tf[i as int]));
                    assert(tf[i as int] == self.tokenize_fields@[i as int]@);
                    assert(prev.contains(n) <==> (first.contains(n) || a.contains(n)));
                    if n == tf[i as int] {
                        assert(b[i as int] == n);
                    }
                    if a.contains(n) {
                        let k = choose|k: int| 0 <= k < a.len() && a[k] == n;
                        assert(b[k] == n);
                    }
                    if b.contains(n) {
                        let k = choose|k: int| 0 <= k < b.len() && b[k] == n;
                        if k < i {
                            assert(a[k] == n);
                        }
                    }
                }
            }
            i += 1;
        }
        assert(tf.subrange(0, tf.len() as int) == tf);
        out
    }

    /// The names of the fields that must never be dropped, each once.
    pub fn required_field_names(&self) -> (r: Vec<String>)
        ensures
            views(r@).no_duplicates(),
            forall|n: Seq<char>| #[trigger] views(r@).contains(n) <==> names_field(
                self.indexed_fields@,
                n,
                false,
                true,
            ),
    {
        self.collect_names(false, true)
    }

    /// The flags collapsed into one label, for display.
    pub fn derived_index_state(&self) -> (r: IndexState)
        ensures
            r == (if !self.indexed {
                IndexState::NotIndexed
            } else if self.field_subset {
                IndexState::PartialField
            } else {
                IndexState::Full
            }),
    {
        if !self.indexed {
            IndexState::NotIndexed
        } else if self.field_subset {
            IndexState::PartialField
        } else {
            IndexState::Full
        }
    }
}

// ── Reading what earlier versions wrote ─────────────────────────────────────

/// What a stored topic record holds, as earlier versions wrote it. Fields they had and
/// this one does not are dropped on reading.
#[derive(Debug)]
pub struct TopicFieldMetaRaw {
    pub topic: String,
    pub key_fields: Vec<String>,
    pub payload_fields: Vec<String>,
    pub header_fields: Vec<String>,
    pub message_count: usize,
    pub index_entry_count: usize,
    pub indexed: Option<bool>,
    pub field_subset: Option<bool>,
    pub latest_indexed_offsets: HashMap<u32, i64>,
    pub earliest_offsets: HashMap<u32, i64>,
    pub kafka_latest_offsets: HashMap<u32, i64>,
    pub topic_type: Option<String>,
    pub topic_policy_checked_at: Option<i64>,
    pub last_incremental_sync_at: Option<i64>,
    pub last_cleanup_at: Option<i64>,
    pub retention_priority: Option<i32>,
    pub last_search_at: Option<i64>,
    pub field_search_stats: HashMap<String, FieldSearchStat>,
    pub retention_ms: Option<i64>,
    pub retention_bytes: Option<i64>,
    pub compression_type: Option<String>,
    pub message_timestamp_type: Option<String>,
    pub partition_count: Option<usize>,
    pub replication_factor: Option<usize>,
    pub topic_id: Option<String>,
    pub cleanup_policy: Option<CleanupPolicy>,
    pub max_count: Option<u64>,
    pub indexed_fields: Vec<IndexedField>,
    pub auto_cleanup_removed_at: Option<i64>,
    pub deserializers: Option<TopicDeserializers>,
    /// The older single deserializer, read as the value one.
    pub deserializer: Option<DeserializerSpec>,
    pub tokenize_fields: Vec<String>,
    pub compact_superseded_total: u64,
    pub compact_tombstone_total: u64,
    pub delivery_lost_total: u64,
}

/// The deserializers a stored record means: those it names, or, for an older record with
/// a single deserializer, that one for values and JSON for keys.
pub open spec fn deserializers_of(
    deserializers: Option<TopicDeserializers>,
    legacy: Option<DeserializerSpec>,
) -> Option<TopicDeserializers> {
    match deserializers {
        Some(d) => Some(d),
        None => match legacy {
            Some(value) => Some(TopicDeserializers { key: DeserializerSpec::Json, value }),
            None => None,
        },
    }
}

/// The record a stored one is read as: every field carried over, missing flags read as
/// false, and an older single deserializer read as the value one.
pub open spec fn meta_from_raw(raw: TopicFieldMetaRaw) -> TopicFieldMeta {
    TopicFieldMeta {
        topic: raw.topic,
        key_fields: raw.key_fields,
        payload_fields: raw.payload_fields,
        header_fields: raw.header_fields,
        message_count: raw.message_count,
        index_entry_count: raw.index_entry_count,
        indexed: match raw.indexed {
            Some(b) => b,
            None => false,
        },
        field_subset: match raw.field_subset {
            Some(b) => b,
            None => false,
        },
        latest_indexed_offsets: raw.latest_indexed_offsets,
        earliest_offsets: raw.earliest_offsets,
        kafka_latest_offsets: raw.kafka_latest_offsets,
        topic_type: raw.topic_type,
        topic_policy_checked_at: raw.topic_policy_checked_at,
        last_incremental_sync_at: raw.last_incremental_sync_at,
        last_cleanup_at: raw.last_cleanup_at,
        retention_priority: raw.retention_priority,
        last_search_at: raw.last_search_at,
        field_search_stats: raw.field_search_stats,
        retention_ms: raw.retention_ms,
        retention_bytes: raw.retention_bytes,
        compression_type: raw.compression_type,
        message_timestamp_type: raw.message_timestamp_type,
        partition_count: raw.partition_count,
        replication_factor: raw.replication_factor,
        topic_id: raw.topic_id,
        cleanup_policy: raw.cleanup_policy,
        max_count: raw.max_count,
        indexed_fields: raw.indexed_fields,
        auto_cleanup_removed_at: raw.auto_cleanup_removed_at,
        deserializers: deserializers_of(raw.deserializers, raw.deserializer),
        tokenize_fields: raw.tokenize_fields,
        compact_superseded_total: raw.compact_superseded_total,
        compact_tombstone_total: raw.compact_tombstone_total,
        delivery_lost_total: raw.delivery_lost_total,
    }
}

impl From<TopicFieldMetaRaw> for TopicFieldMeta {
    fn from(raw: TopicFieldMetaRaw) -> (r: Self) {
        let indexed = match raw.indexed {
            Some(b) => b,
            None => false,
        };
        let field_subset = match raw.field_subset {
            Some(b) => b,
            None => false,
        };
        let deserializers = match raw.deserializers {
            Some(d) => Some(d),
            // The older single deserializer described the value; keys were JSON.
            None => match raw.deserializer {
                Some(value) => Some(TopicDeserializers { key: DeserializerSpec::Json, value }),
                None => None,
            },
        };
        TopicFieldMeta {
            topic: raw.topic,
            key_fields: raw.key_fields,
            payload_fields: raw.payload_fields,
            header_fields: raw.header_fields,
            message_count: raw.message_count,
            index_entry_count: raw.index_entry_count,
            indexed,
            field_subset,
            latest_indexed_offsets: raw.latest_indexed_offsets,
            earliest_offsets: raw.earliest_offsets,
            kafka_latest_offsets: raw.kafka_latest_offsets,
            topic_type: raw.topic_type,
            topic_policy_checked_at: raw.topic_policy_checked_at,
            last_incremental_sync_at: raw.last_incremental_sync_at,
            last_cleanup_at: raw.last_cleanup_at,
            retention_priority: raw.retention_priority,
            last_search_at: raw.last_search_at,
            field_search_stats: raw.field_search_stats,
            retention_ms: raw.retention_ms,
            retention_bytes: raw.retention_bytes,
            compression_type: raw.compression_type,
            message_timestamp_type: raw.message_timestamp_type,
            partition_count: raw.partition_count,
            replication_factor: raw.replication_factor,
            topic_id: raw.topic_id,
            cleanup_policy: raw.cleanup_policy,
            max_count: raw.max_count,
            indexed_fields: raw.indexed_fields,
            auto_cleanup_removed_at: raw.auto_cleanup_removed_at,
            deserializers,
            tokenize_fields: raw.tokenize_fields,
            compact_superseded_total: raw.compact_superseded_total,
            compact_tombstone_total: raw.compact_tombstone_total,
            delivery_lost_total: raw.delivery_lost_total,
        }
    }
}

impl vstd::std_specs::convert::FromSpecImpl<TopicFieldMetaRaw> for TopicFieldMeta {
    open spec fn obeys_from_spec() -> bool {
        true
    }

    open spec fn from_spec(raw: TopicFieldMetaRaw) -> Self {
        meta_from_raw(raw)
    }
}

/// One entry of a stored list of indexed fields: a bare name, as older versions wrote,
/// or a full entry.
#[derive(Debug)]
pub enum IndexedFieldEntry {
    Name(String),
    Full(IndexedField),
}

/// What a stored list of indexed fields is read as: a bare name becomes an ordinary
/// field, a full entry is kept. A full entry with an empty name is refused; a missing
/// list is empty.
pub open spec fn indexed_fields_of(entries: Seq<IndexedFieldEntry>) -> Seq<IndexedField> {
    entries.map_values(|e: IndexedFieldEntry| match e {
        IndexedFieldEntry::Name(name) => IndexedField {
            name,
            kind: IndexedFieldKind::Optional,
            is_representative: false,
            tokenize: false,
        },
        IndexedFieldEntry::Full(f) => f,
    })
}

/// Whether an entry is a full one with an empty name.
pub open spec fn unnamed_entry(e: IndexedFieldEntry) -> bool {
    e matches IndexedFieldEntry::Full(f) && f.name@.len() == 0
}

/// Reads a stored list of indexed fields.
pub fn indexed_fields_from_entries(list: Option<Vec<IndexedFieldEntry>>) -> (r: Result<
    Vec<IndexedField>,
    String,
>)
    ensures
        match list {
            None => r matches Ok(v) && v@.len() == 0,
            Some(l) => {
                &&& r is Err <==> exists|i: int| 0 <= i < l@.len() && unnamed_entry(#[trigger] l@[i])
                &&& r matches Ok(v) ==> v@ == indexed_fields_of(l@)
                &&& r matches Err(msg) ==> msg@ == "indexed field name must not be empty"@
            },
        },
{
    let given = match list {
        Some(l) => l,
        None => {
            return Ok(Vec::new());
        },
    };
    let ghost input = given@;
    let mut rest = given;
    let mut out: Vec<IndexedField> = Vec::new();
    let n = rest.len();
    let mut i: usize = 0;
    while i < n
        invariant
            list matches Some(l) && l@ == input,
            n == input.len(),
            i <= n,
            rest@ == input.subrange(i as int, n as int),
            out@ == indexed_fields_of(input.subrange(0, i as int)),
            forall|k: int| 0 <= k < i ==> !unnamed_entry(#[trigger] input[k]),
        decreases n - i,
    {
        let ghost before = rest@;
        assert(before[0] == input[i as int]);
        let item = rest.remove(0);
        assert(rest@ =~= input.subrange(i + 1, n as int));
        match item {
            IndexedFieldEntry::Name(name) => {
                out.push(IndexedField::optional(name));
            },
            IndexedFieldEntry::Full(f) => {
                if f.name.as_str().unicode_len() == 0 {
                    assert(unnamed_entry(input[i as int]));
                    return Err(owned("indexed field name must not be empty"));
                }
                out.push(f);
            },
        }
        assert(out@ =~= indexed_fields_of(input.subrange(0, i + 1)));
        i += 1;
    }
    assert(input.subrange(0, n as int) == input);
    Ok(out)
}

/// The shapes a stored cleanup policy can take: one policy, an older list of them, or a
/// plain tag.
#[derive(Debug)]
pub enum CleanupPolicyShape {
    One(CleanupPolicy),
    Many(Vec<CleanupPolicy>),
    Tag(String),
}

/// The policy a plain tag names; a `count_based` tag carries no limit, so it reads as
/// zero — unspecified, not "keep nothing".
pub open spec fn policy_of_tag(tag: Seq<char>) -> Option<CleanupPolicy> {
    if tag == "drop_index"@ {
        Some(CleanupPolicy::DropIndex)
    } else if tag == "field_based"@ {
        Some(CleanupPolicy::FieldBased)
    } else if tag == "count_based"@ {
        Some(CleanupPolicy::CountBased { max_count: 0 })
    } else {
        None
    }
}

/// Reads a stored cleanup policy: nothing, a single policy, the first of an older list,
/// or a plain tag. An unknown tag is refused.
pub fn cleanup_policy_from_shape(v: Option<CleanupPolicyShape>) -> (r: Result<
    Option<CleanupPolicy>,
    String,
>)
    ensures
        match v {
            None => r == Ok::<Option<CleanupPolicy>, String>(None),
            Some(CleanupPolicyShape::One(p)) => r == Ok::<Option<CleanupPolicy>, String>(Some(p)),
            Some(CleanupPolicyShape::Many(ps)) => r == Ok::<Option<CleanupPolicy>, String>(
                if ps@.len() == 0 {
                    None
                } else {
                    Some(ps@[0])
                },
            ),
            Some(CleanupPolicyShape::Tag(s)) => match policy_of_tag(s@) {
                Some(p) => r == Ok::<Option<CleanupPolicy>, String>(Some(p)),
                None => r matches Err(msg) && msg@ == "unknown cleanup_policy tag: "@ + s@,
            },
        },
{
    proof {
        reveal_strlit("drop_index");
        reveal_strlit("field_based");
        reveal_strlit("count_based");
    }
    match v {
        None => Ok(None),
        Some(CleanupPolicyShape::One(p)) => Ok(Some(p)),
        Some(CleanupPolicyShape::Many(ps)) => {
            if ps.len() == 0 {
                Ok(None)
            } else {
                Ok(Some(ps[0]))
            }
        },
        Some(CleanupPolicyShape::Tag(s)) => {
            if crate::text::str_eq(s.as_str(), "drop_index") {
                Ok(Some(CleanupPolicy::DropIndex))
            } else if crate::text::str_eq(s.as_str(), "field_based") {
                Ok(Some(CleanupPolicy::FieldBased))
            } else if crate::text::str_eq(s.as_str(), "count_based") {
                Ok(Some(CleanupPolicy::CountBased { max_count: 0 }))
            } else {
                let mut msg = owned("unknown cleanup_policy tag: ");
                push_str(&mut msg, s.as_str());
                Err(msg)
            }
        },
    }
}

/// The tag a cleanup policy is always written as. Nothing is lost by it: the only policy
/// carrying a value has that value beside it in `max_count`.
pub fn cleanup_policy_tag(value: &Option<CleanupPolicy>) -> (r: Option<&'static str>)
    ensures
        match value {
            None => r is None,
            Some(CleanupPolicy::DropIndex) => r matches Some(t) && t@ == "drop_index"@,
            Some(CleanupPolicy::FieldBased) => r matches Some(t) && t@ == "field_based"@,
            Some(CleanupPolicy::CountBased { .. }) => r matches Some(t) && t@ == "count_based"@,
        },
{
    match value {
        None => None,
        Some(CleanupPolicy::DropIndex) => Some("drop_index"),
        Some(CleanupPolicy::FieldBased) => Some("field_based"),
        Some(CleanupPolicy::CountBased { .. }) => Some("count_based"),
    }
}

// ── What reading a topic's state gives back ─────────────────────────────────

#[derive(Debug, Clone)]
pub struct TopicIndexSize {
    pub topic: String,
    pub index_bytes: u64,
    pub meta_bytes: u64,
    pub total_bytes: u64,
    pub index_entry_count: u64,
    pub meta_entry_count: u64,
    pub total_entry_count: u64,
}

/// Whether a workspace's stored data can still be read by this version. `requires_reset`
/// means it cannot, and the user has to be told before anything else is attempted.
#[derive(Debug, Clone)]
pub struct WorkspaceStorageStatus {
    pub schema_version: u32,
    pub current_schema_version: u32,
    pub topic_cf_count: usize,
    pub has_legacy_data: bool,
    pub requires_reset: bool,
    pub reason: String,
}

/// How far indexing has got in one partition, against where the cluster is.
#[derive(Debug, Clone, Copy, PartialEq, Eq, Structural)]
pub struct PartitionOffsetStatus {
    pub partition: i32,
    pub earliest: i64,
    pub latest: i64,
    /// The oldest offset still indexed. `None` when nothing is.
    pub min_indexed_offset: Option<i64>,
    /// How far indexing has got.
    pub max_indexed_offset: Option<i64>,
    /// Messages after that point which have not been indexed yet.
    pub gap: i64,
}

/// The same for a whole topic.
#[derive(Debug)]
pub struct TopicOffsetStatus {
    pub topic: String,
    /// What the cluster holds, summed across partitions.
    pub kafka_total: i64,
    /// How many are in the index.
    pub indexed_total: i64,
    /// How much of the offset range has been gone over. The identity that holds:
    /// `kafka_total = processed_total + gap`.
    pub processed_total: i64,
    /// What has arrived since indexing last caught up.
    pub gap: i64,
    /// Messages that exist but were deliberately not indexed.
    pub skipped: i64,
    /// Why, broken down. The parts need not add up to `skipped`.
    pub skip_breakdown: SkipBreakdown,
    /// Whether every partition is indexed up to the cluster's latest.
    pub is_caught_up: bool,
    pub partitions: Vec<PartitionOffsetStatus>,
}

/// Why messages that exist are not in the index.
#[derive(Debug, Clone, Copy, PartialEq, Eq, Structural)]
pub enum SkipReason {
    /// The cluster dropped them before indexing reached them.
    Retention,
    /// Older than the count the topic is set to keep.
    CountBased,
    /// Indexing is held back until the user decides on a full re-index.
    FullResyncPending,
    /// Superseded versions on a compacted topic.
    CompactDeduped,
    /// Deletion markers.
    CompactTombstone,
    /// Offsets the cluster never delivered.
    DeliveryLost,
    /// Whatever is left over once the causes above are subtracted.
    CompactGapOrUnknown,
}

/// One skipped range of one partition. `start..end` excludes `end`, as offsets do.
#[derive(Debug, Clone, Copy, PartialEq, Eq, Structural)]
pub struct OffsetRangeSkip {
    pub partition: i32,
    pub start: i64,
    pub end: i64,
    /// `end - start`.
    pub count: i64,
}

/// Skipped messages grouped by cause.
#[derive(Debug)]
pub struct SkipBreakdown {
    /// Ranges, per cause and partition.
    pub by_reason: Vec<SkipReasonGroup>,
    /// The same totalled, including causes that have no ranges to give.
    pub totals: Vec<SkipReasonTotal>,
}

impl Default for SkipBreakdown {
    fn default() -> (r: Self)
        ensures
            r.by_reason@.len() == 0,
            r.totals@.len() == 0,
    {
        SkipBreakdown { by_reason: Vec::new(), totals: Vec::new() }
    }
}

#[derive(Debug)]
pub struct SkipReasonGroup {
    pub reason: SkipReason,
    pub ranges: Vec<OffsetRangeSkip>,
}

#[derive(Debug, Clone, Copy)]
pub struct SkipReasonTotal {
    pub reason: SkipReason,
    pub count: i64,
}

/// A topic's configuration as the cluster reports it.
#[derive(Debug)]
pub struct TopicConfigInfoResponse {
    pub topic: String,
    pub cleanup_policy: String,
    pub retention_ms: Option<i64>,
    pub retention_bytes: Option<i64>,
    pub compression_type: Option<String>,
    pub message_timestamp_type: Option<String>,
    pub partition_count: usize,
    pub replication_factor: usize,
    /// The cluster's own id for the topic.
    pub topic_id: Option<String>,
    pub checked_at: i64,
}

/// A field being selected for indexing.
#[derive(Debug, Clone)]
pub struct IndexedFieldInput {
    pub name: String,
    pub kind: IndexedFieldKind,
    pub is_representative: bool,
    /// Whether to split this field into words.
    pub tokenize: bool,
}

/// The latest schema a registry holds for one subject. For looking at only.
#[derive(Debug, Clone)]
pub struct RegistrySubjectSchema {
    pub subject: String,
    pub schema_id: u32,
    pub version: i32,
    pub schema_text: String,
}

/// Roughly how large a topic is, worked out from offsets alone.
#[derive(Debug)]
pub struct TopicMessageCount {
    pub topic: String,
    /// An upper bound — on a compacted topic the real number is lower.
    pub message_count: i64,
    pub partition_count: u32,
}

/// How far behind a topic's index is. `behind` means nothing when `reachable` is false.
#[derive(Debug)]
pub struct TopicLagStatus {
    pub topic: String,
    /// Estimated messages not yet indexed. Zero when unreachable.
    pub behind: i64,
    /// Whether the cluster answered this time.
    pub reachable: bool,
}

/// Roughly how large a topic is, for deciding whether to index it.
#[derive(Debug)]
pub struct TopicSizeProfile {
    pub topic: String,
    /// Average bytes per message. Zero if nothing was read.
    pub avg_bytes: u64,
    /// How many messages were actually read.
    pub sampled: u32,
    /// The topic's own `cleanup.policy`, when it could be read.
    pub cleanup_policy: Option<String>,
    /// A guess at the value deserializer. A suggestion, not a determination.
    pub suggested_value_deserializer: Option<String>,
    /// One line on why.
    pub suggested_reason: Option<String>,
    /// The same guess for keys.
    pub suggested_key_deserializer: Option<String>,
    /// One line on why.
    pub suggested_key_reason: Option<String>,
}

/// Which fields look worth splitting into words, judged from a sample.
#[derive(Debug)]
pub struct SuggestTokenizeFieldsResponse {
    pub topic: String,
    /// How many messages decoded well enough to look at. Zero means no suggestion.
    pub sampled: u32,
    /// Candidates, best first.
    pub candidates: Vec<TokenizeFieldCandidate>,
}

/// One candidate field.
#[derive(Debug, Clone)]
pub struct TokenizeFieldCandidate {
    /// The field's path, such as `"P.message"`.
    pub field: String,
    /// Average length seen in the sample.
    pub avg_len: u32,
    /// Average number of spaces.
    pub avg_whitespace: u32,
    /// Set on the single best candidate.
    pub recommended: bool,
}

} // verus!
