//! What is known about the fixture's topics, worked out from the messages: their fields,
//! offsets, sizes and message counts. What only a real cluster could say — its brokers,
//! its version — is a fixed stand-in.

use std::collections::HashMap;

use vstd::prelude::*;
use vstd::utf8::encode_utf8;

use crate::engine::TopicMetaApi;
use crate::error::EngineError;
use crate::mock::data::{MockMessage, MockTopic};
use crate::mock::engine::MockEngine;
use crate::mock::search_all::saturate;
use crate::mock::store::{derefs, named, named_topics, topic_index, MockStore};
use crate::order::lemma_first_index_props;
use crate::text::{clone_strings, dec, owned, push_str, u64_to_dec, views};
use crate::cluster::{BrokerInfo, ClusterTopology, KafkaVersionInfo, PartitionTopology, TopicTopology};
use crate::topic_meta::{
    DeserializerSpec, PartitionOffsetStatus, SkipBreakdown, SuggestTokenizeFieldsResponse,
    TopicConfigInfoResponse, TopicFieldMeta, TopicIndexSize, TopicLagStatus, TopicMessageCount,
    TopicOffsetStatus, TopicSizeProfile, WorkspaceStorageStatus,
};
use crate::workspace::CURRENT_SCHEMA_VERSION;

verus! {

broadcast use vstd::std_specs::hash::group_hash_axioms;

// ── Offsets per partition ───────────────────────────────────────────────────

/// The lowest offset per partition, each taken as an `i64`.
pub open spec fn earliest_map(ms: Seq<MockMessage>) -> Map<u32, i64>
    decreases ms.len(),
{
    if ms.len() == 0 {
        Map::empty()
    } else {
        let prev = earliest_map(ms.drop_last());
        let m = ms.last();
        let off = m.offset as i64;
        if prev.contains_key(m.partition) && prev[m.partition] <= off {
            prev
        } else {
            prev.insert(m.partition, off)
        }
    }
}

/// The highest offset per partition, each taken as an `i64`.
pub open spec fn latest_map(ms: Seq<MockMessage>) -> Map<u32, i64>
    decreases ms.len(),
{
    if ms.len() == 0 {
        Map::empty()
    } else {
        let prev = latest_map(ms.drop_last());
        let m = ms.last();
        let off = m.offset as i64;
        if prev.contains_key(m.partition) && prev[m.partition] >= off {
            prev
        } else {
            prev.insert(m.partition, off)
        }
    }
}

/// One past the highest offset per partition: the high watermark, as if fully caught up.
pub open spec fn watermark_map(ms: Seq<MockMessage>) -> Map<u32, i64> {
    latest_map(ms).map_values(|o: i64| (o + 1) as i64)
}

/// No offset, taken as an `i64`, is the largest one, so one past it can be counted.
pub open spec fn watermarks_fit(ms: Seq<MockMessage>) -> bool {
    forall|i: int| 0 <= i < ms.len() ==> (#[trigger] ms[i]).offset as i64 != i64::MAX
}

proof fn lemma_offset_maps(ms: Seq<MockMessage>)
    ensures
        earliest_map(ms).dom() == latest_map(ms).dom(),
        forall|p: u32| #[trigger] earliest_map(ms).contains_key(p) ==> earliest_map(ms)[p] <= latest_map(ms)[p],
        forall|p: u32| #[trigger] latest_map(ms).contains_key(p) ==> exists|i: int|
            0 <= i < ms.len() && ms[i].partition == p && ms[i].offset as i64 == latest_map(ms)[p],
    decreases ms.len(),
{
    if ms.len() > 0 {
        lemma_offset_maps(ms.drop_last());
        let prev = ms.drop_last();
        assert forall|p: u32| #[trigger] latest_map(ms).contains_key(p) implies exists|i: int|
            0 <= i < ms.len() && ms[i].partition == p && ms[i].offset as i64 == latest_map(ms)[p] by {
            if latest_map(ms)[p] == latest_map(prev)[p] && latest_map(prev).contains_key(p) {
                let i = choose|i: int|
                    0 <= i < prev.len() && prev[i].partition == p && prev[i].offset as i64
                        == latest_map(prev)[p];
                assert(ms[i] == prev[i]);
            } else {
                assert(ms[ms.len() - 1] == ms.last());
            }
        }
        assert(earliest_map(ms).dom() =~= latest_map(ms).dom());
    }
}

/// The largest timestamp, taken as an `i64`; 0 with no messages.
pub open spec fn max_ts(ms: Seq<MockMessage>) -> i64
    decreases ms.len(),
{
    if ms.len() == 0 {
        0
    } else if ms.len() == 1 {
        ms[0].ts_millis as i64
    } else {
        let prev = max_ts(ms.drop_last());
        let t = ms.last().ts_millis as i64;
        if t > prev {
            t
        } else {
            prev
        }
    }
}

/// How many field values all the messages hold.
pub open spec fn entry_count(ms: Seq<MockMessage>) -> int
    decreases ms.len(),
{
    if ms.len() == 0 {
        0
    } else {
        entry_count(ms.drop_last()) + ms.last().fields@.len()
    }
}

/// The lowest and highest offset per partition.
fn bounds_maps(ms: &Vec<MockMessage>) -> (r: (HashMap<u32, i64>, HashMap<u32, i64>))
    ensures
        r.0@ == earliest_map(ms@),
        r.1@ == latest_map(ms@),
{
    let mut earliest: HashMap<u32, i64> = HashMap::new();
    let mut latest: HashMap<u32, i64> = HashMap::new();
    let mut i: usize = 0;
    while i < ms.len()
        invariant
            i <= ms@.len(),
            earliest@ == earliest_map(ms@.take(i as int)),
            latest@ == latest_map(ms@.take(i as int)),
        decreases ms.len() - i,
    {
        let m = &ms[i];
        let off = m.offset as i64;
        proof {
            let w = ms@.take(i + 1);
            assert(w.drop_last() == ms@.take(i as int));
            assert(w.last() == ms@[i as int]);
        }
        let lower = match earliest.get(&m.partition) {
            Some(e) => off < *e,
            None => true,
        };
        if lower {
            earliest.insert(m.partition, off);
        }
        let higher = match latest.get(&m.partition) {
            Some(h) => off > *h,
            None => true,
        };
        if higher {
            latest.insert(m.partition, off);
        }
        i += 1;
    }
    assert(ms@.take(ms@.len() as int) == ms@);
    (earliest, latest)
}

/// The lowest and highest offset per partition, and the high watermarks.
fn offset_maps(ms: &Vec<MockMessage>) -> (r: Option<(HashMap<u32, i64>, HashMap<u32, i64>, HashMap<u32, i64>)>)
    ensures
        r is Some <==> watermarks_fit(ms@),
        r matches Some(maps) ==> maps.0@ == earliest_map(ms@) && maps.1@ == latest_map(ms@)
            && maps.2@ == watermark_map(ms@),
{
    let mut earliest: HashMap<u32, i64> = HashMap::new();
    let mut latest: HashMap<u32, i64> = HashMap::new();
    let mut high: HashMap<u32, i64> = HashMap::new();
    let mut i: usize = 0;
    while i < ms.len()
        invariant
            i <= ms@.len(),
            earliest@ == earliest_map(ms@.take(i as int)),
            latest@ == latest_map(ms@.take(i as int)),
            high@ == watermark_map(ms@.take(i as int)),
            watermarks_fit(ms@.take(i as int)),
        decreases ms.len() - i,
    {
        let m = &ms[i];
        let off = m.offset as i64;
        proof {
            let w = ms@.take(i + 1);
            assert(w.drop_last() == ms@.take(i as int));
            assert(w.last() == ms@[i as int]);
        }
        if off == i64::MAX {
            assert(!watermarks_fit(ms@)) by {
                assert(ms@[i as int].offset as i64 == i64::MAX);
            }
            return None;
        }
        let lower = match earliest.get(&m.partition) {
            Some(e) => off < *e,
            None => true,
        };
        if lower {
            earliest.insert(m.partition, off);
        }
        let higher = match latest.get(&m.partition) {
            Some(h) => off > *h,
            None => true,
        };
        if higher {
            latest.insert(m.partition, off);
            high.insert(m.partition, off + 1);
        }
        proof {
            let w = ms@.take(i + 1);
            assert(high@ =~= watermark_map(w));
            assert forall|k: int| 0 <= k < w.len() implies (#[trigger] w[k]).offset as i64 != i64::MAX by {
                if k < i {
                    assert(w[k] == ms@.take(i as int)[k]);
                }
            }
        }
        i += 1;
    }
    assert(ms@.take(ms@.len() as int) == ms@);
    Some((earliest, latest, high))
}

// ── A topic's record ────────────────────────────────────────────────────────

/// `r` is what is shown about topic `t`, whose word-split fields are `tok`: its fields
/// and counts, indexed in full and caught up — every offset it has, up to one past the
/// highest — with its partition count and the newest message time, and otherwise blank.
pub open spec fn meta_of_topic(t: MockTopic, tok: Seq<Seq<char>>, r: TopicFieldMeta) -> bool {
    let ms = t.messages@;
    &&& r.topic@ == t.name@
    &&& views(r.key_fields@) == views(t.key_fields@)
    &&& views(r.payload_fields@) == views(t.payload_fields@)
    &&& r.header_fields@.len() == 0
    &&& r.message_count == ms.len()
    &&& r.index_entry_count == saturate(entry_count(ms))
    &&& r.indexed
    &&& !r.field_subset
    &&& r.latest_indexed_offsets@ == latest_map(ms)
    &&& r.earliest_offsets@ == earliest_map(ms)
    &&& r.kafka_latest_offsets@ == watermark_map(ms)
    &&& r.topic_type is None
    &&& r.topic_policy_checked_at is None
    &&& r.last_incremental_sync_at == Some(max_ts(ms))
    &&& r.last_cleanup_at is None
    &&& r.retention_priority is None
    &&& r.last_search_at is None
    &&& r.field_search_stats@ == Map::<String, crate::domain::FieldSearchStat>::empty()
    &&& r.retention_ms is None
    &&& r.retention_bytes is None
    &&& r.compression_type is None
    &&& r.message_timestamp_type is None
    &&& r.partition_count == Some(t.partition_count as usize)
    &&& r.replication_factor is None
    &&& r.topic_id is None
    &&& r.cleanup_policy is None
    &&& r.max_count is None
    &&& r.indexed_fields@.len() == 0
    &&& r.auto_cleanup_removed_at is None
    &&& r.deserializers is None
    &&& views(r.tokenize_fields@) == tok
    &&& r.compact_superseded_total == 0
    &&& r.compact_tombstone_total == 0
    &&& r.delivery_lost_total == 0
}

/// What is shown about a topic, shown as indexed in full; `tok` are its word-split
/// fields. `None` where an offset is so large that one past it cannot be counted.
pub fn topic_field_meta(t: &MockTopic, tok: &Vec<String>) -> (r: Option<TopicFieldMeta>)
    ensures
        r is Some <==> watermarks_fit(t.messages@),
        r matches Some(meta) ==> meta_of_topic(*t, views(tok@), meta),
{
    let (earliest, latest, high) = match offset_maps(&t.messages) {
        Some(maps) => maps,
        None => {
            return None;
        },
    };
    let ghost ms = t.messages@;
    let mut entries: usize = 0;
    let mut newest: i64 = 0;
    let mut i: usize = 0;
    while i < t.messages.len()
        invariant
            ms == t.messages@,
            i <= ms.len(),
            entries == saturate(entry_count(ms.take(i as int))),
            entry_count(ms.take(i as int)) >= 0,
            newest == max_ts(ms.take(i as int)),
        decreases t.messages.len() - i,
    {
        let m = &t.messages[i];
        proof {
            let w = ms.take(i + 1);
            assert(w.drop_last() == ms.take(i as int));
            assert(w.last() == ms[i as int]);
            if i == 0 {
                assert(w.len() == 1);
                assert(w[0] == ms[0]);
            }
        }
        entries = entries.saturating_add(m.fields.len());
        let ts = m.ts_millis as i64;
        if i == 0 || ts > newest {
            newest = ts;
        }
        i += 1;
    }
    assert(ms.take(ms.len() as int) == ms);
    let r = TopicFieldMeta {
        topic: t.name.clone(),
        key_fields: clone_strings(&t.key_fields),
        payload_fields: clone_strings(&t.payload_fields),
        header_fields: Vec::new(),
        message_count: t.messages.len(),
        index_entry_count: entries,
        indexed: true,
        field_subset: false,
        latest_indexed_offsets: latest,
        earliest_offsets: earliest,
        kafka_latest_offsets: high,
        topic_type: None,
        topic_policy_checked_at: None,
        last_incremental_sync_at: Some(newest),
        last_cleanup_at: None,
        retention_priority: None,
        last_search_at: None,
        field_search_stats: HashMap::new(),
        retention_ms: None,
        retention_bytes: None,
        compression_type: None,
        message_timestamp_type: None,
        partition_count: Some(t.partition_count as usize),
        replication_factor: None,
        topic_id: None,
        cleanup_policy: None,
        max_count: None,
        indexed_fields: Vec::new(),
        auto_cleanup_removed_at: None,
        deserializers: None,
        tokenize_fields: clone_strings(tok),
        compact_superseded_total: 0,
        compact_tombstone_total: 0,
        delivery_lost_total: 0,
    };
    Some(r)
}

// ── Offset status ───────────────────────────────────────────────────────────

/// How one partition stands: indexed from its lowest offset to one past its highest, or
/// empty where it has no messages.
pub open spec fn partition_status(lo: Map<u32, i64>, hi: Map<u32, i64>, p: u32) -> PartitionOffsetStatus {
    if lo.contains_key(p) {
        PartitionOffsetStatus {
            partition: p as i32,
            earliest: lo[p],
            latest: (hi[p] + 1) as i64,
            min_indexed_offset: Some(lo[p]),
            max_indexed_offset: Some(hi[p]),
            gap: 0,
        }
    } else {
        PartitionOffsetStatus {
            partition: p as i32,
            earliest: 0,
            latest: 0,
            min_indexed_offset: None,
            max_indexed_offset: None,
            gap: 0,
        }
    }
}

/// The offsets the first `n` partitions span, summed: for each with messages, one past
/// its highest offset less its lowest.
pub open spec fn offset_span(lo: Map<u32, i64>, hi: Map<u32, i64>, n: nat) -> int
    decreases n,
{
    if n == 0 {
        0
    } else {
        let p = (n - 1) as u32;
        offset_span(lo, hi, (n - 1) as nat) + if lo.contains_key(p) {
            hi[p] + 1 - lo[p]
        } else {
            0
        }
    }
}

/// Whether the status of the first `n` partitions can be counted in an `i64`: no highest
/// offset is the largest `i64`, and the span, and the span less the message count, fit.
pub open spec fn status_fits(ms: Seq<MockMessage>, n: nat) -> bool {
    let lo = earliest_map(ms);
    let hi = latest_map(ms);
    &&& forall|p: u32| p < n && #[trigger] hi.contains_key(p) ==> hi[p] < i64::MAX
    &&& offset_span(lo, hi, n) <= i64::MAX
    &&& i64::MIN <= offset_span(lo, hi, n) - (ms.len() as i64) <= i64::MAX
}

proof fn lemma_span_grows(lo: Map<u32, i64>, hi: Map<u32, i64>, m: nat, n: nat)
    requires
        m <= n,
        lo.dom() == hi.dom(),
        forall|p: u32| #[trigger] lo.contains_key(p) ==> lo[p] <= hi[p],
    ensures
        offset_span(lo, hi, m) <= offset_span(lo, hi, n),
        offset_span(lo, hi, n) >= 0,
    decreases n,
{
    if n > 0 {
        let k: nat = if m < n {
            m
        } else {
            0
        };
        lemma_span_grows(lo, hi, k, (n - 1) as nat);
    }
}

/// `s` is how far indexing has got in topic `t`: every partition indexed from its lowest
/// offset to one past its highest and nothing left to do; the span summed, the message
/// count, and the difference between them as skipped.
pub open spec fn status_of(t: MockTopic, s: TopicOffsetStatus) -> bool {
    let ms = t.messages@;
    let lo = earliest_map(ms);
    let hi = latest_map(ms);
    let n = t.partition_count as nat;
    &&& s.topic@ == t.name@
    &&& s.kafka_total == offset_span(lo, hi, n)
    &&& s.indexed_total == ms.len() as i64
    &&& s.processed_total == s.kafka_total
    &&& s.gap == 0
    &&& s.skipped == s.kafka_total - s.indexed_total
    &&& s.skip_breakdown.by_reason@.len() == 0
    &&& s.skip_breakdown.totals@.len() == 0
    &&& s.is_caught_up
    &&& s.partitions@ == Seq::new(n, |p: int| partition_status(lo, hi, p as u32))
}

/// How far indexing has got in a topic. `None` where a count would not fit an `i64`.
pub fn offset_status(t: &MockTopic) -> (r: Option<TopicOffsetStatus>)
    ensures
        r is Some <==> status_fits(t.messages@, t.partition_count as nat),
        r matches Some(s) ==> status_of(*t, s),
{
    let ghost ms = t.messages@;
    let ghost lo = earliest_map(ms);
    let ghost hi = latest_map(ms);
    let ghost n = t.partition_count as nat;
    proof {
        lemma_offset_maps(ms);
    }
    let (earliest, latest) = bounds_maps(&t.messages);
    let mut partitions: Vec<PartitionOffsetStatus> = Vec::new();
    let mut total: i64 = 0;
    let mut p: u32 = 0;
    while p < t.partition_count
        invariant
            p <= t.partition_count,
            n == t.partition_count as nat,
            earliest@ == lo,
            latest@ == hi,
            lo == earliest_map(ms),
            hi == latest_map(ms),
            ms == t.messages@,
            lo.dom() == hi.dom(),
            forall|q: u32| #[trigger] lo.contains_key(q) ==> lo[q] <= hi[q],
            total == offset_span(lo, hi, p as nat),
            forall|q: u32| q < p && #[trigger] hi.contains_key(q) ==> hi[q] < i64::MAX,
            partitions@ == Seq::new(p as nat, |q: int| partition_status(lo, hi, q as u32)),
        decreases t.partition_count - p,
    {
        proof {
            lemma_span_grows(lo, hi, (p + 1) as nat, n);
            lemma_span_grows(lo, hi, p as nat, p as nat);
        }
        let status = match (earliest.get(&p), latest.get(&p)) {
            (Some(l), Some(h)) => {
                let high = match h.checked_add(1) {
                    Some(v) => v,
                    None => {
                        return None;
                    },
                };
                let span = match high.checked_sub(*l) {
                    Some(v) => v,
                    None => {
                        return None;
                    },
                };
                total = match total.checked_add(span) {
                    Some(v) => v,
                    None => {
                        return None;
                    },
                };
                PartitionOffsetStatus {
                    partition: p as i32,
                    earliest: *l,
                    latest: high,
                    min_indexed_offset: Some(*l),
                    max_indexed_offset: Some(*h),
                    gap: 0,
                }
            },
            _ => PartitionOffsetStatus {
                partition: p as i32,
                earliest: 0,
                latest: 0,
                min_indexed_offset: None,
                max_indexed_offset: None,
                gap: 0,
            },
        };
        partitions.push(status);
        assert(partitions@ =~= Seq::new((p + 1) as nat, |q: int| partition_status(lo, hi, q as u32)));
        p += 1;
    }
    let indexed_total = t.messages.len() as i64;
    let skipped = match total.checked_sub(indexed_total) {
        Some(v) => v,
        None => {
            return None;
        },
    };
    Some(TopicOffsetStatus {
        topic: t.name.clone(),
        kafka_total: total,
        indexed_total,
        processed_total: total,
        gap: 0,
        skipped,
        skip_breakdown: SkipBreakdown::default(),
        is_caught_up: true,
        partitions,
    })
}

// ── Sizes ───────────────────────────────────────────────────────────────────

/// The bytes of a message: its value's UTF-8 and its key's, where it has one.
pub open spec fn message_bytes(m: MockMessage) -> int {
    saturate((encode_utf8(m.value_json@).len() as usize) + match m.key {
        Some(k) => encode_utf8(k@).len() as usize as int,
        None => 0,
    }) as int
}

pub open spec fn total_bytes(ms: Seq<MockMessage>) -> int
    decreases ms.len(),
{
    if ms.len() == 0 {
        0
    } else {
        total_bytes(ms.drop_last()) + message_bytes(ms.last())
    }
}

fn bytes_of(ms: &Vec<MockMessage>) -> (r: usize)
    ensures
        r == saturate(total_bytes(ms@)),
{
    let mut total: usize = 0;
    let mut i: usize = 0;
    while i < ms.len()
        invariant
            i <= ms@.len(),
            total == saturate(total_bytes(ms@.take(i as int))),
            total_bytes(ms@.take(i as int)) >= 0,
        decreases ms.len() - i,
    {
        let m = &ms[i];
        proof {
            let w = ms@.take(i + 1);
            assert(w.drop_last() == ms@.take(i as int));
            assert(w.last() == ms@[i as int]);
        }
        let key_len = match &m.key {
            Some(k) => k.as_str().len(),
            None => 0,
        };
        let one = m.value_json.as_str().len().saturating_add(key_len);
        assert(one == message_bytes(ms@[i as int]));
        let ghost before = total_bytes(ms@.take(i as int));
        total = total.saturating_add(one);
        assert(total == saturate(before + one));
        i += 1;
    }
    assert(ms@.take(ms@.len() as int) == ms@);
    total
}

// ── The cluster's shape ─────────────────────────────────────────────────────

/// A stand-in broker: `mock-broker-{id}` on port `9091 + id`, in `rack-1` or `rack-2` by
/// turns, the first one the controller.
pub open spec fn broker_ok(b: BrokerInfo, id: int) -> bool {
    &&& b.node_id == id
    &&& b.host@ == "mock-broker-"@ + dec(id as nat)
    &&& b.port == 9092 + id - 1
    &&& b.rack matches Some(r) && r@ == "rack-"@ + dec(((id - 1) % 2 + 1) as nat)
    &&& b.is_controller == (id == 1)
}

/// Partition `p` led by broker `p % 3 + 1`, replicated on the next one, both in sync.
pub open spec fn partition_topology_ok(pt: PartitionTopology, p: int) -> bool {
    let leader = p % 3 + 1;
    let second = leader % 3 + 1;
    &&& pt.partition_id == p
    &&& pt.leader_id == leader
    &&& pt.replica_ids@ == seq![leader as i32, second as i32]
    &&& pt.isr_ids@ == seq![leader as i32, second as i32]
}

/// How many partitions a topic is shown with: its count as an `i32`, none where that is
/// not positive.
pub open spec fn shown_partitions(t: MockTopic) -> int {
    let n = t.partition_count as i32;
    if n > 0 {
        n as int
    } else {
        0
    }
}

pub open spec fn topic_topology_ok(tt: TopicTopology, t: MockTopic) -> bool {
    &&& tt.name@ == t.name@
    &&& !tt.is_internal
    &&& tt.partitions@.len() == shown_partitions(t)
    &&& forall|p: int| 0 <= p < tt.partitions@.len() ==> partition_topology_ok(#[trigger] tt.partitions@[p], p)
}

fn broker(id: i32) -> (b: BrokerInfo)
    requires
        1 <= id <= 3,
    ensures
        broker_ok(b, id as int),
{
    let mut host = owned("mock-broker-");
    push_str(&mut host, u64_to_dec(id as u64).as_str());
    let mut rack = owned("rack-");
    push_str(&mut rack, u64_to_dec(((id - 1) % 2 + 1) as u64).as_str());
    proof {
        reveal_strlit("mock-broker-");
        reveal_strlit("rack-");
    }
    BrokerInfo { node_id: id, host, port: 9092 + id - 1, rack: Some(rack), is_controller: id == 1 }
}

fn topology_of(t: &MockTopic) -> (tt: TopicTopology)
    ensures
        topic_topology_ok(tt, *t),
{
    let n = t.partition_count as i32;
    let mut partitions: Vec<PartitionTopology> = Vec::new();
    let mut p: i32 = 0;
    while p < n
        invariant
            n == t.partition_count as i32,
            0 <= p,
            n > 0 ==> p <= n,
            n <= 0 ==> p == 0,
            partitions@.len() == p,
            forall|q: int| 0 <= q < p ==> partition_topology_ok(#[trigger] partitions@[q], q),
        decreases n - p,
    {
        let leader = p % 3 + 1;
        let second = leader % 3 + 1;
        let pt = PartitionTopology {
            partition_id: p,
            leader_id: leader,
            replica_ids: vec![leader, second],
            isr_ids: vec![leader, second],
        };
        assert(pt.replica_ids@ =~= seq![leader, second]);
        assert(pt.isr_ids@ =~= seq![leader, second]);
        partitions.push(pt);
        p += 1;
    }
    TopicTopology { name: t.name.clone(), is_internal: false, partitions }
}

// ── The interface ───────────────────────────────────────────────────────────

/// The refusal where an offset count would not fit an `i64`.
pub open spec fn offset_overflow_error(e: EngineError) -> bool {
    e matches EngineError::Internal(m) && m@ == "offset arithmetic overflow"@
}

fn offset_overflow() -> (e: EngineError)
    ensures
        offset_overflow_error(e),
{
    EngineError::Internal(owned("offset arithmetic overflow"))
}

/// The topics a topology is shown for: none when none are named, so that only the brokers
/// come back; otherwise those named that exist.
pub open spec fn topology_topics(store: MockStore, topics: Seq<String>) -> Seq<MockTopic> {
    if topics.len() == 0 {
        Seq::empty()
    } else {
        named_topics(store.topic_list(), topics)
    }
}

/// A topic's message count and partitions as reported: its own, or 0 and 1 for a topic
/// that does not exist.
pub open spec fn count_ok(store: MockStore, topic: Seq<char>, c: TopicMessageCount) -> bool {
    let i = topic_index(store.topic_list(), topic);
    &&& c.topic@ == topic
    &&& i < store.topic_list().len() ==> c.message_count == store.topic_list()[i as int].messages@.len() as i64
        && c.partition_count == store.topic_list()[i as int].partition_count
    &&& i == store.topic_list().len() ==> c.message_count == 0 && c.partition_count == 1
}

/// What is said of where a topic's deserializers came from.
pub open spec fn declared_reason(o: Option<String>) -> bool {
    o matches Some(r) && r@ == "deserializer declared by mock fixture"@
}

fn message_count(store: &MockStore, topic: &str) -> (c: TopicMessageCount)
    ensures
        count_ok(*store, topic@, c),
{
    proof {
        lemma_first_index_props(store.topic_list(), named(topic@));
    }
    let (count, parts) = match store.topic(topic) {
        Some(t) => (t.messages.len() as i64, t.partition_count),
        None => (0, 1),
    };
    TopicMessageCount { topic: owned(topic), message_count: count, partition_count: parts }
}

impl TopicMetaApi for MockEngine {
    fn list_topic_metas(&self, workspace: &str) -> (r: Result<Vec<TopicFieldMeta>, EngineError>)
        ensures
            ({
                let ts = self.held().topic_list();
                &&& r is Ok <==> forall|i: int| 0 <= i < ts.len() ==> watermarks_fit(#[trigger] ts[i].messages@)
                &&& r matches Ok(v) ==> v@.len() == ts.len() && forall|i: int|
                    0 <= i < ts.len() ==> meta_of_topic(
                        #[trigger] ts[i],
                        self.held().tokenized_fields(ts[i].name@),
                        v@[i],
                    )
                &&& r matches Err(e) ==> offset_overflow_error(e)
            }),
    {
        let ts = self.store().topic_vec();
        let mut out: Vec<TopicFieldMeta> = Vec::new();
        let mut i: usize = 0;
        while i < ts.len()
            invariant
                ts@ == self.held().topic_list(),
                i <= ts@.len(),
                out@.len() == i,
                forall|k: int| 0 <= k < i ==> watermarks_fit(#[trigger] ts@[k].messages@),
                forall|k: int|
                    0 <= k < i ==> meta_of_topic(
                        #[trigger] ts@[k],
                        self.held().tokenized_fields(ts@[k].name@),
                        out@[k],
                    ),
            decreases ts.len() - i,
        {
            let tok = self.store().tokenized_for(ts[i].name.as_str());
            match topic_field_meta(&ts[i], &tok) {
                Some(meta) => out.push(meta),
                None => {
                    return Err(offset_overflow());
                },
            }
            i += 1;
        }
        Ok(out)
    }

    fn get_topic_meta(&self, workspace: &str, topic: &str) -> (r: Result<
        Option<TopicFieldMeta>,
        EngineError,
    >)
        ensures
            ({
                let ts = self.held().topic_list();
                let i = topic_index(ts, topic@);
                &&& i == ts.len() ==> (r matches Ok(o) && o is None)
                &&& i < ts.len() ==> {
                    &&& r is Ok <==> watermarks_fit(ts[i as int].messages@)
                    &&& r matches Ok(o) ==> o matches Some(meta) && meta_of_topic(
                        ts[i as int],
                        self.held().tokenized_fields(topic@),
                        meta,
                    )
                    &&& r matches Err(e) ==> offset_overflow_error(e)
                }
            }),
    {
        proof {
            lemma_first_index_props(self.held().topic_list(), named(topic@));
        }
        match self.store().topic(topic) {
            Some(t) => {
                let tok = self.store().tokenized_for(topic);
                match topic_field_meta(t, &tok) {
                    Some(meta) => Ok(Some(meta)),
                    None => Err(offset_overflow()),
                }
            },
            None => Ok(None),
        }
    }

    fn get_topic_index_sizes(&self, workspace: &str, topics: &[String]) -> (r: Result<
        Vec<TopicIndexSize>,
        EngineError,
    >)
        ensures
            r matches Ok(v) && v@.len() == 0,
    {
        Ok(Vec::new())
    }

    fn check_workspace_storage(&self, workspace: &str) -> (r: Result<
        WorkspaceStorageStatus,
        EngineError,
    >)
        ensures
            r matches Ok(s) && s.schema_version == CURRENT_SCHEMA_VERSION
                && s.current_schema_version == CURRENT_SCHEMA_VERSION && s.topic_cf_count
                == self.held().topic_list().len() && !s.has_legacy_data && !s.requires_reset
                && s.reason@ == "mock engine — local fixture workspace"@,
    {
        Ok(WorkspaceStorageStatus {
            schema_version: CURRENT_SCHEMA_VERSION,
            current_schema_version: CURRENT_SCHEMA_VERSION,
            topic_cf_count: self.store().topic_vec().len(),
            has_legacy_data: false,
            requires_reset: false,
            reason: owned("mock engine — local fixture workspace"),
        })
    }

    fn list_kafka_topics(&self, bootstrap: &str) -> (r: Result<Vec<String>, EngineError>)
        ensures
            r matches Ok(v) && v@.len() == self.held().topic_list().len() && forall|i: int|
                0 <= i < v@.len() ==> (#[trigger] v@[i])@ == self.held().topic_list()[i].name@,
    {
        let ts = self.store().topic_vec();
        let mut out: Vec<String> = Vec::new();
        let mut i: usize = 0;
        while i < ts.len()
            invariant
                ts@ == self.held().topic_list(),
                i <= ts@.len(),
                out@.len() == i,
                forall|k: int| 0 <= k < i ==> (#[trigger] out@[k])@ == ts@[k].name@,
            decreases ts.len() - i,
        {
            out.push(ts[i].name.clone());
            i += 1;
        }
        Ok(out)
    }

    fn fetch_cluster_topology(&self, bootstrap: &str, topics: &[String]) -> (r: Result<
        ClusterTopology,
        EngineError,
    >)
        ensures
            r matches Ok(ct) && {
                let wanted = topology_topics(self.held(), topics@);
                &&& ct.cluster_id matches Some(c) && c@ == "mock-cluster-id"@
                &&& ct.controller_id == 1
                &&& ct.brokers@.len() == 3
                &&& forall|i: int| 0 <= i < 3 ==> broker_ok(#[trigger] ct.brokers@[i], i + 1)
                &&& ct.topics@.len() == wanted.len()
                &&& forall|i: int| 0 <= i < wanted.len() ==> topic_topology_ok(#[trigger] ct.topics@[i], wanted[i])
            },
    {
        // A stand-in three-broker cluster: leaders by turns, each partition on two.
        let mut brokers: Vec<BrokerInfo> = Vec::new();
        let mut id: i32 = 1;
        while id <= 3
            invariant
                1 <= id <= 4,
                brokers@.len() == id - 1,
                forall|i: int| 0 <= i < id - 1 ==> broker_ok(#[trigger] brokers@[i], i + 1),
            decreases 4 - id,
        {
            brokers.push(broker(id));
            id += 1;
        }
        let wanted: Vec<&MockTopic> = if topics.len() == 0 {
            let none: Vec<&MockTopic> = Vec::new();
            assert(derefs(none@) =~= Seq::<MockTopic>::empty());
            none
        } else {
            self.store().topics_for(Some(topics))
        };
        let mut topos: Vec<TopicTopology> = Vec::new();
        let mut i: usize = 0;
        while i < wanted.len()
            invariant
                i <= wanted@.len(),
                derefs(wanted@) == topology_topics(self.held(), topics@),
                topos@.len() == i,
                forall|k: int| 0 <= k < i ==> topic_topology_ok(#[trigger] topos@[k], derefs(wanted@)[k]),
            decreases wanted.len() - i,
        {
            topos.push(topology_of(wanted[i]));
            i += 1;
        }
        Ok(ClusterTopology {
            cluster_id: Some(owned("mock-cluster-id")),
            controller_id: 1,
            brokers,
            topics: topos,
        })
    }

    fn get_topic_message_count(&self, bootstrap: &str, topic: &str) -> (r: Result<
        TopicMessageCount,
        EngineError,
    >)
        ensures
            r matches Ok(c) && count_ok(self.held(), topic@, c),
    {
        Ok(message_count(self.store(), topic))
    }

    fn list_topic_message_counts(&self, bootstrap: &str, topics: &[String]) -> (r: Result<
        Vec<TopicMessageCount>,
        EngineError,
    >)
        ensures
            r matches Ok(v) && v@.len() == topics@.len() && forall|i: int|
                0 <= i < v@.len() ==> count_ok(self.held(), topics@[i]@, #[trigger] v@[i]),
    {
        let mut out: Vec<TopicMessageCount> = Vec::new();
        let mut i: usize = 0;
        while i < topics.len()
            invariant
                i <= topics@.len(),
                out@.len() == i,
                forall|k: int| 0 <= k < i ==> count_ok(self.held(), topics@[k]@, #[trigger] out@[k]),
            decreases topics.len() - i,
        {
            out.push(message_count(self.store(), topics[i].as_str()));
            i += 1;
        }
        Ok(out)
    }

    fn get_topic_size_profile(&self, bootstrap: &str, topic: &str) -> (r: Result<
        TopicSizeProfile,
        EngineError,
    >)
        ensures
            r matches Ok(sp) && {
                let ts = self.held().topic_list();
                let i = topic_index(ts, topic@);
                &&& sp.topic@ == topic@
                &&& sp.cleanup_policy is None
                &&& (i < ts.len() && ts[i as int].messages@.len() > 0) ==> {
                    let ms = ts[i as int].messages@;
                    &&& sp.avg_bytes == (saturate(total_bytes(ms)) / (ms.len() as usize)) as u64
                    &&& sp.sampled == ms.len() as u32
                }
                &&& !(i < ts.len() && ts[i as int].messages@.len() > 0) ==> sp.avg_bytes == 0
                    && sp.sampled == 0
                &&& i < ts.len() ==> {
                    &&& sp.suggested_value_deserializer matches Some(d) && d@
                        == ts[i as int].value_deserializer@
                    &&& sp.suggested_key_deserializer matches Some(d) && d@
                        == ts[i as int].key_deserializer@
                    &&& declared_reason(sp.suggested_reason)
                    &&& declared_reason(sp.suggested_key_reason)
                }
                &&& i == ts.len() ==> sp.suggested_value_deserializer is None
                    && sp.suggested_key_deserializer is None && sp.suggested_reason is None
                    && sp.suggested_key_reason is None
            },
    {
        proof {
            lemma_first_index_props(self.held().topic_list(), named(topic@));
        }
        let t = self.store().topic(topic);
        let (avg_bytes, sampled) = match t {
            Some(t) => {
                if t.messages.len() > 0 {
                    let total = bytes_of(&t.messages);
                    ((total / t.messages.len()) as u64, t.messages.len() as u32)
                } else {
                    (0, 0)
                }
            },
            None => (0, 0),
        };
        let (value_d, reason, key_d, key_reason) = match t {
            Some(t) => (
                Some(t.value_deserializer.clone()),
                Some(owned("deserializer declared by mock fixture")),
                Some(t.key_deserializer.clone()),
                Some(owned("deserializer declared by mock fixture")),
            ),
            None => (None, None, None, None),
        };
        Ok(TopicSizeProfile {
            topic: owned(topic),
            avg_bytes,
            sampled,
            cleanup_policy: None,
            suggested_value_deserializer: value_d,
            suggested_reason: reason,
            suggested_key_deserializer: key_d,
            suggested_key_reason: key_reason,
        })
    }

    fn suggest_tokenize_fields(
        &self,
        bootstrap: &str,
        topic: &str,
        key_spec: DeserializerSpec,
        value_spec: DeserializerSpec,
    ) -> (r: Result<SuggestTokenizeFieldsResponse, EngineError>)
        ensures
            r matches Ok(s) && s.topic@ == topic@ && s.sampled == 0 && s.candidates@.len() == 0,
    {
        Ok(SuggestTokenizeFieldsResponse { topic: owned(topic), sampled: 0, candidates: Vec::new() })
    }

    fn get_cluster_id(&self, bootstrap: &str) -> (r: Result<String, EngineError>)
        ensures
            r matches Ok(c) && c@ == "mock-cluster-id"@,
    {
        Ok(owned("mock-cluster-id"))
    }

    fn get_kafka_version_info(&self, bootstrap: &str) -> (r: Result<KafkaVersionInfo, EngineError>)
        ensures
            r matches Ok(v) && v.inferred_version matches Some(s) && s@ == "≈ Kafka mock"@
                && v.api_versions@.len() == 0,
    {
        Ok(KafkaVersionInfo { inferred_version: Some(owned("≈ Kafka mock")), api_versions: Vec::new() })
    }

    fn save_workspace_cluster_id(&self, workspace: &str, cluster_id: &str) -> (r: Result<
        (),
        EngineError,
    >)
        ensures
            r is Ok,
    {
        Ok(())
    }

    fn get_workspace_cluster_id(&self, workspace: &str) -> (r: Result<Option<String>, EngineError>)
        ensures
            r matches Ok(o) && o matches Some(c) && c@ == "mock-cluster-id"@,
    {
        Ok(Some(owned("mock-cluster-id")))
    }

    fn get_topic_offset_status(&self, workspace: &str, topic: &str, bootstrap: &str) -> (r: Result<
        TopicOffsetStatus,
        EngineError,
    >)
        ensures
            ({
                let ts = self.held().topic_list();
                let i = topic_index(ts, topic@);
                &&& i == ts.len() ==> (r matches Ok(s) && s.topic@ == topic@ && s.kafka_total == 0
                    && s.indexed_total == 0 && s.processed_total == 0 && s.gap == 0 && s.skipped
                    == 0 && s.skip_breakdown.by_reason@.len() == 0
                    && s.skip_breakdown.totals@.len() == 0 && s.is_caught_up
                    && s.partitions@.len() == 0)
                &&& i < ts.len() ==> {
                    &&& r is Ok <==> status_fits(
                        ts[i as int].messages@,
                        ts[i as int].partition_count as nat,
                    )
                    &&& r matches Ok(s) ==> status_of(ts[i as int], s)
                    &&& r matches Err(e) ==> offset_overflow_error(e)
                }
            }),
    {
        proof {
            lemma_first_index_props(self.held().topic_list(), named(topic@));
        }
        match self.store().topic(topic) {
            Some(t) => match offset_status(t) {
                Some(s) => Ok(s),
                None => Err(offset_overflow()),
            },
            None => Ok(TopicOffsetStatus {
                topic: owned(topic),
                kafka_total: 0,
                indexed_total: 0,
                processed_total: 0,
                gap: 0,
                skipped: 0,
                skip_breakdown: SkipBreakdown::default(),
                is_caught_up: true,
                partitions: Vec::new(),
            }),
        }
    }

    fn get_topic_config_info(&self, workspace: &str, bootstrap: &str, topic: &str) -> (r: Result<
        TopicConfigInfoResponse,
        EngineError,
    >)
        ensures
            r matches Ok(c) && {
                let ts = self.held().topic_list();
                let i = topic_index(ts, topic@);
                &&& c.topic@ == topic@
                &&& c.cleanup_policy@ == "delete"@
                &&& c.retention_ms == Some(-1i64)
                &&& c.retention_bytes is None
                &&& c.compression_type is None
                &&& c.message_timestamp_type is None
                &&& c.partition_count == (if i < ts.len() {
                    ts[i as int].partition_count
                } else {
                    1
                }) as usize
                &&& c.replication_factor == 1
                &&& c.topic_id is None
                &&& c.checked_at == 0
            },
    {
        proof {
            lemma_first_index_props(self.held().topic_list(), named(topic@));
        }
        let parts = match self.store().topic(topic) {
            Some(t) => t.partition_count,
            None => 1,
        };
        Ok(TopicConfigInfoResponse {
            topic: owned(topic),
            cleanup_policy: owned("delete"),
            retention_ms: Some(-1),
            retention_bytes: None,
            compression_type: None,
            message_timestamp_type: None,
            partition_count: parts as usize,
            replication_factor: 1,
            topic_id: None,
            checked_at: 0,
        })
    }

    fn list_watched_lag(&self, workspace: &str, bootstrap: &str, topics: Vec<String>) -> (r: Result<
        Vec<TopicLagStatus>,
        EngineError,
    >)
        ensures
            r matches Ok(v) && v@.len() == topics@.len() && forall|i: int|
                0 <= i < v@.len() ==> (#[trigger] v@[i]).topic@ == topics@[i]@ && v@[i].behind == 0
                    && v@[i].reachable,
    {
        let mut out: Vec<TopicLagStatus> = Vec::new();
        let mut i: usize = 0;
        while i < topics.len()
            invariant
                i <= topics@.len(),
                out@.len() == i,
                forall|k: int|
                    0 <= k < i ==> (#[trigger] out@[k]).topic@ == topics@[k]@ && out@[k].behind == 0
                        && out@[k].reachable,
            decreases topics.len() - i,
        {
            out.push(TopicLagStatus { topic: topics[i].clone(), behind: 0, reachable: true });
            i += 1;
        }
        Ok(out)
    }
}

} // verus!
