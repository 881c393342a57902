//! Searching the fixture. Everything is scanned; nothing is indexed.

use vstd::prelude::*;

use crate::engine::SearchApi;
use crate::error::EngineError;
use crate::mock::buckets::{build_offset_buckets, build_time_buckets, is_offset_buckets, is_time_buckets};
use crate::mock::data::{browse_seq, limit_take, rows_seq, result_views, sort_spec, MockTopic};
use crate::mock::engine::MockEngine;
use crate::mock::matching::{bad_range, bad_range_error, query_check, query_ok};
use crate::mock::search_all::{
    after_cursor, after_cursor_spec, keyword_all, keyword_parts, limit_opt, limit_spec, merge_ts,
    merge_ts_spec, multi_all, multi_parts, names_of, picked, range_pos, range_pos_spec,
    saturate, ts_range_of, ts_range_spec,
};
use crate::mock::store::{named, topic_index, MockStore};
use crate::order::lemma_first_index_props;
use crate::search::{
    pair_views,
    loc_views, BucketDetail, BucketsKind, CombinedBucketsResponse, LocItem, LocView,
    MessageResult, MessageResultView, MultiSearchResponse, OffsetBucketsResponse, PosFilter,
    PrefetchSearchLocsResponse, QueryNode, SearchIndexResponse, SearchMode, SearchQuery,
    SortOrder, TestDeserializeResponse, TestDeserializeSample, TimeBucketsResponse, TsRange,
};
use crate::text::{owned, views};
use crate::topic_meta::TopicDeserializers;

verus! {

// ── Specifications ──────────────────────────────────────────────────────────

/// A reference to what an option holds.
pub open spec fn opt_ref<T>(o: &Option<T>) -> Option<&T> {
    match o {
        Some(x) => Some(x),
        None => None,
    }
}

/// The names a list of topics gives, if it gives any.
pub open spec fn names_of_vec(o: Option<Vec<String>>) -> Option<Seq<String>> {
    match o {
        Some(v) => Some(v@),
        None => None,
    }
}

/// Every position a keyword search finds across the picked topics, in order.
pub open spec fn keyword_everything(
    store: MockStore,
    query: Seq<char>,
    fields: Option<&[String]>,
    names: Option<Seq<String>>,
    mode: SearchMode,
    ts: Option<&TsRange>,
    pos: Option<&PosFilter>,
    sort: SortOrder,
) -> Seq<LocView> {
    sort_spec(keyword_parts(picked(store, names), store, query, fields, mode, ts, pos, sort).0, sort)
}

/// Every position a boolean query finds across the picked topics, in order.
pub open spec fn multi_everything(
    store: MockStore,
    node: QueryNode,
    names: Option<Seq<String>>,
    ts: Option<&TsRange>,
    pos: Option<&PosFilter>,
    sort: SortOrder,
) -> Seq<LocView> {
    sort_spec(multi_parts(picked(store, names), store, node, ts, pos, sort).0, sort)
}

/// Every message of a topic, narrowed by time and position, in order; none for a topic
/// that does not exist.
pub open spec fn browse_everything(
    store: MockStore,
    topic: Seq<char>,
    ts: Option<&TsRange>,
    pos: Option<&PosFilter>,
    sort: SortOrder,
) -> Seq<LocView> {
    let i = topic_index(store.topic_list(), topic);
    if i < store.topic_list().len() {
        sort_spec(browse_seq(store.topic_list()[i as int].messages@, ts, pos), sort)
    } else {
        Seq::empty()
    }
}

/// The topic a response about several is labelled with: the first named, or else the
/// first there is, or else none.
pub open spec fn first_topic_spec(names: Option<Seq<String>>, store: MockStore) -> Seq<char> {
    match names {
        Some(n) if n.len() > 0 => n[0]@,
        _ => if store.topic_list().len() > 0 {
            store.topic_list()[0].name@
        } else {
            Seq::empty()
        },
    }
}

/// No offset is so large that its hundred-wide bucket would end past the largest `u64`.
pub open spec fn bucketable(locs: Seq<LocView>) -> bool {
    forall|i: int| 0 <= i < locs.len() ==> (#[trigger] locs[i]).offset < 18_446_744_073_709_551_600u64
}

pub open spec fn wants_offsets(kind: BucketsKind) -> bool {
    kind is Offset || kind is All
}

pub open spec fn wants_time(kind: BucketsKind) -> bool {
    kind is Time || kind is All
}

/// The refusal for offsets too large to bucket.
pub open spec fn bucket_range_error(e: EngineError) -> bool {
    e matches EngineError::Internal(m) && m@ == "offset out of bucket range"@
}

/// Offset buckets of these positions, or the refusal where an offset is too large.
pub open spec fn offset_result(r: Result<OffsetBucketsResponse, EngineError>, topic: Seq<char>, locs: Seq<LocView>) -> bool {
    &&& r is Err <==> !bucketable(locs)
    &&& r matches Ok(b) ==> is_offset_buckets(b, topic, locs)
    &&& r matches Err(e) ==> bucket_range_error(e)
}

/// The buckets of the kinds asked for, or the refusal where offset buckets are asked for
/// and an offset is too large.
pub open spec fn combined_result(
    r: Result<CombinedBucketsResponse, EngineError>,
    topic: Seq<char>,
    locs: Seq<LocView>,
    gran_ms: u64,
    kind: BucketsKind,
) -> bool {
    &&& r is Err <==> (wants_offsets(kind) && !bucketable(locs))
    &&& r matches Err(e) ==> bucket_range_error(e)
    &&& r matches Ok(c) ==> {
        &&& c.offset is Some <==> wants_offsets(kind)
        &&& c.offset matches Some(o) ==> is_offset_buckets(o, topic, locs)
        &&& c.time is Some <==> wants_time(kind)
        &&& c.time matches Some(t) ==> is_time_buckets(t, locs, gran_ms)
    }
}

/// A position filter as given, or one partition's range where any of its bounds is given.
pub open spec fn range_or_filter(
    pos_filter: Option<PosFilter>,
    partition: Option<u32>,
    from: Option<u64>,
    to: Option<u64>,
) -> (bool, Option<PosFilter>) {
    if partition is None && from is None && to is None {
        (false, pos_filter)
    } else {
        (true, None)
    }
}

// ── Helpers ─────────────────────────────────────────────────────────────────

fn first_topic_name(topics: Option<&[String]>, store: &MockStore) -> (r: String)
    ensures
        r@ == first_topic_spec(names_of(topics), *store),
{
    if let Some(t) = topics {
        if t.len() > 0 {
            return t[0].clone();
        }
    }
    let all = store.topic_vec();
    if all.len() > 0 {
        all[0].name.clone()
    } else {
        String::new()
    }
}

fn empty_response() -> (r: SearchIndexResponse)
    ensures
        r.results@.len() == 0,
        r.locs@.len() == 0,
        !r.has_more,
        r.next_browse_cursors@.len() == 0,
        r.next_search_cursors@.len() == 0,
{
    SearchIndexResponse {
        results: Vec::new(),
        locs: Vec::new(),
        has_more: false,
        next_browse_cursors: Vec::new(),
        next_search_cursors: Vec::new(),
    }
}

fn check_bucketable(locs: &Vec<LocItem>) -> (r: bool)
    ensures
        r == bucketable(loc_views(locs@)),
{
    let mut i: usize = 0;
    while i < locs.len()
        invariant
            i <= locs@.len(),
            forall|k: int| 0 <= k < i ==> (#[trigger] locs@[k]).offset < 18_446_744_073_709_551_600u64,
        decreases locs.len() - i,
    {
        if locs[i].offset >= 18_446_744_073_709_551_600u64 {
            assert(loc_views(locs@)[i as int].offset == locs@[i as int].offset);
            return false;
        }
        i += 1;
    }
    assert forall|k: int| 0 <= k < loc_views(locs@).len() implies (#[trigger] loc_views(locs@)[k]).offset
        < 18_446_744_073_709_551_600u64 by {
        assert(loc_views(locs@)[k].offset == locs@[k].offset);
    }
    true
}

fn bucket_range_err() -> (e: EngineError)
    ensures
        bucket_range_error(e),
{
    EngineError::Internal(owned("offset out of bucket range"))
}

/// Offset buckets, where every offset fits a bucket.
fn offset_buckets(topic: &str, locs: &Vec<LocItem>) -> (r: Result<OffsetBucketsResponse, EngineError>)
    ensures
        offset_result(r, topic@, loc_views(locs@)),
{
    if check_bucketable(locs) {
        assert forall|i: int| 0 <= i < locs@.len() implies (#[trigger] locs@[i]).offset
            < 18_446_744_073_709_551_600u64 by {
            assert(loc_views(locs@)[i].offset == locs@[i].offset);
        }
        Ok(build_offset_buckets(topic, locs.as_slice()))
    } else {
        Err(bucket_range_err())
    }
}

/// The buckets of the kinds asked for.
fn combined(topic: &str, locs: &Vec<LocItem>, gran_ms: u64, kind: BucketsKind) -> (r: Result<
    CombinedBucketsResponse,
    EngineError,
>)
    ensures
        combined_result(r, topic@, loc_views(locs@), gran_ms, kind),
{
    let offset = match kind {
        BucketsKind::Offset | BucketsKind::All => match offset_buckets(topic, locs) {
            Ok(b) => Some(b),
            Err(e) => {
                return Err(e);
            },
        },
        BucketsKind::Time => None,
    };
    let time = match kind {
        BucketsKind::Time | BucketsKind::All => Some(build_time_buckets(locs.as_slice(), gran_ms)),
        BucketsKind::Offset => None,
    };
    Ok(CombinedBucketsResponse { offset, time })
}

/// The positions a browse of one topic finds, with the count before any limit.
fn browse(
    store: &MockStore,
    topic: &str,
    ts: Option<&TsRange>,
    pos: Option<&PosFilter>,
    sort: &SortOrder,
    limit: Option<usize>,
) -> (r: (Vec<LocItem>, usize))
    ensures
        loc_views(r.0@) == limit_take(browse_everything(*store, topic@, ts, pos, *sort), limit),
        ({
            let i = topic_index(store.topic_list(), topic@);
            r.1 == if i < store.topic_list().len() {
                browse_seq(store.topic_list()[i as int].messages@, ts, pos).len()
            } else {
                0
            }
        }),
{
    proof {
        lemma_first_index_props(store.topic_list(), named(topic@));
    }
    match store.topic(topic) {
        Some(t) => t.browse_locs(ts, pos, sort, limit),
        None => {
            let v: Vec<LocItem> = Vec::new();
            assert(loc_views(v@) =~= Seq::<LocView>::empty());
            (v, 0)
        },
    }
}

/// A slice of a list of names, where there is a list.
fn as_names(o: &Option<Vec<String>>) -> (r: Option<&[String]>)
    ensures
        names_of(r) == names_of_vec(*o),
{
    match o {
        Some(v) => Some(v.as_slice()),
        None => None,
    }
}

/// A reference to what an option holds.
fn as_opt_ref<T>(o: &Option<T>) -> (r: Option<&T>)
    ensures
        r == opt_ref(o),
{
    match o {
        Some(x) => Some(x),
        None => None,
    }
}

/// The rows of the messages at these positions of a topic; none for a topic that does
/// not exist.
pub open spec fn rows_of(store: MockStore, topic: Seq<char>, locs: Seq<LocItem>, rows: Seq<MessageResult>) -> bool {
    let i = topic_index(store.topic_list(), topic);
    &&& (i == store.topic_list().len() ==> rows.len() == 0)
    &&& (i < store.topic_list().len() ==> result_views(rows) == rows_seq(
        topic,
        store.topic_list()[i as int].messages@,
        locs,
    ))
}

pub(crate) fn rows(store: &MockStore, topic: &str, locs: &Vec<LocItem>) -> (r: Vec<MessageResult>)
    ensures
        rows_of(*store, topic@, locs@, r@),
{
    proof {
        lemma_first_index_props(store.topic_list(), named(topic@));
    }
    match store.topic(topic) {
        Some(t) => {
            let r = t.message_rows(locs.as_slice());
            proof {
                let i = topic_index(store.topic_list(), topic@);
                assert(store.topic_list()[i as int].name@ == topic@) by {
                    lemma_first_index_props(store.topic_list(), named(topic@));
                }
            }
            r
        },
        None => Vec::new(),
    }
}

/// A row as the index alone gives it: payload, key and headers empty, and marked as
/// `meta-only`; everything else as the full row has it.
pub open spec fn meta_only(v: MessageResultView) -> MessageResultView {
    MessageResultView {
        content_source: "meta-only"@,
        key: Seq::empty(),
        payload: Seq::empty(),
        headers: Seq::empty(),
        ..v
    }
}

/// The index-only rows of the messages at these positions of a topic; none for a topic
/// that does not exist.
pub open spec fn meta_rows_of(store: MockStore, topic: Seq<char>, locs: Seq<LocItem>, rows: Seq<MessageResult>) -> bool {
    let i = topic_index(store.topic_list(), topic);
    &&& (i == store.topic_list().len() ==> rows.len() == 0)
    &&& (i < store.topic_list().len() ==> result_views(rows) == rows_seq(
        topic,
        store.topic_list()[i as int].messages@,
        locs,
    ).map_values(|v: MessageResultView| meta_only(v)))
}

fn meta_row(row: MessageResult) -> (r: MessageResult)
    ensures
        r@ == meta_only(row@),
{
    let r = MessageResult {
        content_source: owned("meta-only"),
        key: String::new(),
        payload: String::new(),
        headers: Vec::new(),
        ..row
    };
    proof {
        reveal_strlit("meta-only");
        assert(pair_views(r.headers@) =~= Seq::<(Seq<char>, Seq<char>)>::empty());
        assert(r@ =~= meta_only(row@));
    }
    r
}

fn meta_rows(store: &MockStore, topic: &str, locs: &Vec<LocItem>) -> (r: Vec<MessageResult>)
    ensures
        meta_rows_of(*store, topic@, locs@, r@),
{
    let full = rows(store, topic, locs);
    let ghost fv = result_views(full@);
    let mut rest = full;
    let mut out: Vec<MessageResult> = Vec::new();
    let n = rest.len();
    let mut i: usize = 0;
    while i < n
        invariant
            n == fv.len(),
            i <= n,
            result_views(rest@) == fv.subrange(i as int, n as int),
            result_views(out@) == fv.subrange(0, i as int).map_values(|v: MessageResultView| meta_only(v)),
        decreases n - i,
    {
        let ghost before = rest@;
        assert(result_views(before).len() == before.len());
        assert(before.len() > 0);
        assert(result_views(before)[0] == before[0]@);
        let row = rest.remove(0);
        assert(rest@ == before.subrange(1, before.len() as int));
        assert(result_views(rest@) =~= result_views(before).subrange(1, before.len() as int));
        assert(result_views(rest@) =~= fv.subrange(i + 1, n as int));
        let m = meta_row(row);
        let ghost prev = out@;
        out.push(m);
        assert(result_views(out@) =~= result_views(prev).push(m@));
        assert(fv.subrange(0, i + 1) =~= fv.subrange(0, i as int).push(fv[i as int]));
        assert(result_views(out@) =~= fv.subrange(0, i + 1).map_values(|v: MessageResultView| meta_only(v)));
        i += 1;
    }
    assert(fv.subrange(0, n as int) == fv);
    out
}

/// `samples` are what trying a deserializer gives on the first `n` messages of `t`: each
/// message's position, its key (empty where it has none) and its value, with no errors.
pub open spec fn samples_of(t: MockTopic, n: usize, samples: Seq<TestDeserializeSample>) -> bool {
    let k = if n < t.messages@.len() { n as int } else { t.messages@.len() as int };
    &&& samples.len() == k
    &&& forall|j: int| 0 <= j < k ==> {
        let m = #[trigger] t.messages@[j];
        let s = samples[j];
        &&& s.partition == m.partition as i32
        &&& s.offset == m.offset as i64
        &&& s.key_decoded matches Some(kd) && kd@ == (match m.key {
            Some(key) => key@,
            None => Seq::empty(),
        })
        &&& s.key_error is None
        &&& s.value_decoded matches Some(vd) && vd@ == m.value_json@
        &&& s.value_error is None
    }
}

fn samples(t: &MockTopic, n: usize) -> (r: Vec<TestDeserializeSample>)
    ensures
        samples_of(*t, n, r@),
{
    let mut out: Vec<TestDeserializeSample> = Vec::new();
    let mut i: usize = 0;
    while i < t.messages.len() && i < n
        invariant
            i <= t.messages@.len(),
            i <= n,
            out@.len() == i,
            forall|j: int| 0 <= j < i ==> {
                let m = #[trigger] t.messages@[j];
                let s = out@[j];
                &&& s.partition == m.partition as i32
                &&& s.offset == m.offset as i64
                &&& s.key_decoded matches Some(kd) && kd@ == (match m.key {
                    Some(key) => key@,
                    None => Seq::empty(),
                })
                &&& s.key_error is None
                &&& s.value_decoded matches Some(vd) && vd@ == m.value_json@
                &&& s.value_error is None
            },
        decreases t.messages.len() - i,
    {
        let m = &t.messages[i];
        let key = match &m.key {
            Some(k) => k.clone(),
            None => String::new(),
        };
        out.push(TestDeserializeSample {
            partition: m.partition as i32,
            offset: m.offset as i64,
            key_decoded: Some(key),
            key_error: None,
            value_decoded: Some(m.value_json.clone()),
            value_error: None,
        });
        i += 1;
    }
    out
}

// ── The interface ───────────────────────────────────────────────────────────

impl SearchApi for MockEngine {
    fn cancel_search(&self, workspace: &str) -> (r: Result<u32, EngineError>)
        ensures
            r == Ok::<u32, EngineError>(0),
    {
        Ok(0)
    }

    fn prefetch_search_locs(
        &self,
        workspace: &str,
        query: &str,
        fields: Option<&[String]>,
        topics: Option<&[String]>,
        mode: SearchMode,
        sort_order: SortOrder,
        limit: Option<usize>,
        ts_range: Option<TsRange>,
        pos_filter: Option<PosFilter>,
    ) -> (r: Result<PrefetchSearchLocsResponse, EngineError>)
        ensures
            r matches Ok(resp) && {
                let p = keyword_parts(
                    picked(self.held(), names_of(topics)),
                    self.held(),
                    query@,
                    fields,
                    mode,
                    opt_ref(&ts_range),
                    opt_ref(&pos_filter),
                    sort_order,
                );
                &&& loc_views(resp.locs@) == limit_take(sort_spec(p.0, sort_order), limit)
                &&& views(resp.hit_fields@) == p.1
                &&& resp.total == saturate(p.2)
                &&& resp.capped == (resp.total > resp.locs@.len())
            },
    {
        let (locs, hit_fields, total) = keyword_all(
            self.store(),
            query,
            fields,
            topics,
            &mode,
            as_opt_ref(&ts_range),
            as_opt_ref(&pos_filter),
            &sort_order,
            limit,
        );
        let capped = total > locs.len();
        Ok(PrefetchSearchLocsResponse { locs, total, capped, hit_fields })
    }

    fn multi_search(&self, workspace: &str, query: SearchQuery) -> (r: Result<
        MultiSearchResponse,
        EngineError,
    >)
        ensures
            !query_ok(query.where_node) ==> (r matches Err(e) && bad_range_error(e)),
            query_ok(query.where_node) ==> (r matches Ok(resp) && {
                    let p = multi_parts(
                        picked(self.held(), names_of_vec(query.topics)),
                        self.held(),
                        query.where_node,
                        opt_ref(&query.ts_range),
                        opt_ref(&query.pos_filter),
                        query.sort_order,
                    );
                    &&& loc_views(resp.locs@) == limit_take(
                        sort_spec(p.0, query.sort_order),
                        limit_spec(query.limit),
                    )
                    &&& resp.total == saturate(p.1)
                    &&& resp.capped == (resp.total > resp.locs@.len())
                    &&& resp.strategy@ == "streaming"@
                    &&& resp.per_condition@.len() == 0
                    &&& resp.hit_fields@.len() == 0
                    &&& resp.scan_ms == 0
                    &&& resp.normalized_where is None
                }),
    {
        if !query_check(&query.where_node) {
            return Err(bad_range());
        }
        let (locs, total) = multi_all(
            self.store(),
            &query.where_node,
            as_names(&query.topics),
            as_opt_ref(&query.ts_range),
            as_opt_ref(&query.pos_filter),
            &query.sort_order,
            limit_opt(query.limit),
        );
        let capped = total > locs.len();
        Ok(MultiSearchResponse {
            locs,
            total,
            capped,
            strategy: owned("streaming"),
            per_condition: Vec::new(),
            hit_fields: Vec::new(),
            scan_ms: 0,
            normalized_where: None,
        })
    }

    fn multi_search_time_buckets(
        &self,
        workspace: &str,
        query: SearchQuery,
        gran_ms: u64,
        hard_cap: Option<u64>,
    ) -> (r: Result<TimeBucketsResponse, EngineError>)
        ensures
            !query_ok(query.where_node) ==> (r matches Err(e) && bad_range_error(e)),
            query_ok(query.where_node) ==> (r matches Ok(b) && is_time_buckets(
                    b,
                    multi_everything(
                        self.held(),
                        query.where_node,
                        names_of_vec(query.topics),
                        opt_ref(&query.ts_range),
                        opt_ref(&query.pos_filter),
                        query.sort_order,
                    ),
                    gran_ms,
                )),
    {
        if !query_check(&query.where_node) {
            return Err(bad_range());
        }
        let (locs, _) = multi_all(
            self.store(),
            &query.where_node,
            as_names(&query.topics),
            as_opt_ref(&query.ts_range),
            as_opt_ref(&query.pos_filter),
            &query.sort_order,
            None,
        );
        Ok(build_time_buckets(locs.as_slice(), gran_ms))
    }

    fn multi_search_combined_buckets(
        &self,
        workspace: &str,
        query: SearchQuery,
        gran_ms: u64,
        kind: BucketsKind,
    ) -> (r: Result<CombinedBucketsResponse, EngineError>)
        ensures
            !query_ok(query.where_node) ==> (r matches Err(e) && bad_range_error(e)),
            query_ok(query.where_node) ==> (combined_result(
                    r,
                    first_topic_spec(names_of_vec(query.topics), self.held()),
                    multi_everything(
                        self.held(),
                        query.where_node,
                        names_of_vec(query.topics),
                        opt_ref(&query.ts_range),
                        opt_ref(&query.pos_filter),
                        query.sort_order,
                    ),
                    gran_ms,
                    kind,
                )),
    {
        if !query_check(&query.where_node) {
            return Err(bad_range());
        }
        let topic = first_topic_name(as_names(&query.topics), self.store());
        let (locs, _) = multi_all(
            self.store(),
            &query.where_node,
            as_names(&query.topics),
            as_opt_ref(&query.ts_range),
            as_opt_ref(&query.pos_filter),
            &query.sort_order,
            None,
        );
        combined(topic.as_str(), &locs, gran_ms, kind)
    }

    fn multi_search_locs_in_range(
        &self,
        workspace: &str,
        query: SearchQuery,
        partition: Option<u32>,
        from_offset: Option<u64>,
        to_offset: Option<u64>,
        extra_gte_ms: Option<u64>,
        extra_lte_ms: Option<u64>,
    ) -> (r: Result<Vec<LocItem>, EngineError>)
        ensures
            !query_ok(query.where_node) ==> (r matches Err(e) && bad_range_error(e)),
            query_ok(query.where_node) ==> (r matches Ok(v) && exists|pos: PosFilter|
                    (pos.partitions@, pos.offset_gte, pos.offset_lte) == range_pos_spec(
                        partition,
                        from_offset,
                        to_offset,
                    ) && loc_views(v@) == multi_everything(
                        self.held(),
                        query.where_node,
                        names_of_vec(query.topics),
                        opt_ref(&merge_ts_spec(query.ts_range, extra_gte_ms, extra_lte_ms)),
                        Some(&pos),
                        query.sort_order,
                    )),
    {
        if !query_check(&query.where_node) {
            return Err(bad_range());
        }
        let pos = range_pos(partition, from_offset, to_offset);
        let ts = merge_ts(as_opt_ref(&query.ts_range), extra_gte_ms, extra_lte_ms);
        assert(ts == merge_ts_spec(query.ts_range, extra_gte_ms, extra_lte_ms));
        let (locs, _) = multi_all(
            self.store(),
            &query.where_node,
            as_names(&query.topics),
            as_opt_ref(&ts),
            Some(&pos),
            &query.sort_order,
            None,
        );
        assert(loc_views(locs@) == multi_everything(
            self.held(),
            query.where_node,
            names_of_vec(query.topics),
            opt_ref(&merge_ts_spec(query.ts_range, extra_gte_ms, extra_lte_ms)),
            Some(&pos),
            query.sort_order,
        ));
        Ok(locs)
    }

    fn multi_search_page(
        &self,
        workspace: &str,
        query: SearchQuery,
        after_ts: Option<u64>,
        after_partition: Option<u32>,
        after_offset: Option<u64>,
        limit: usize,
    ) -> (r: Result<Vec<LocItem>, EngineError>)
        ensures
            !query_ok(query.where_node) ==> (r matches Err(e) && bad_range_error(e)),
            query_ok(query.where_node) ==> (r matches Ok(v) && loc_views(v@) == limit_take(
                    after_cursor_spec(
                        multi_everything(
                            self.held(),
                            query.where_node,
                            names_of_vec(query.topics),
                            opt_ref(&query.ts_range),
                            opt_ref(&query.pos_filter),
                            query.sort_order,
                        ),
                        after_ts,
                        after_partition,
                        after_offset,
                    ),
                    Some(limit),
                )),
    {
        if !query_check(&query.where_node) {
            return Err(bad_range());
        }
        let (locs, _) = multi_all(
            self.store(),
            &query.where_node,
            as_names(&query.topics),
            as_opt_ref(&query.ts_range),
            as_opt_ref(&query.pos_filter),
            &query.sort_order,
            None,
        );
        let mut page = after_cursor(locs, after_ts, after_partition, after_offset);
        if limit < page.len() {
            page.truncate(limit);
        }
        Ok(page)
    }

    fn multi_search_offset_buckets(
        &self,
        workspace: &str,
        query: SearchQuery,
        drill: Option<(u32, u64, u64)>,
    ) -> (r: Result<OffsetBucketsResponse, EngineError>)
        ensures
            !query_ok(query.where_node) ==> (r matches Err(e) && bad_range_error(e)),
            query_ok(query.where_node) ==> (drill is None ==> offset_result(
                    r,
                    first_topic_spec(names_of_vec(query.topics), self.held()),
                    multi_everything(
                        self.held(),
                        query.where_node,
                        names_of_vec(query.topics),
                        opt_ref(&query.ts_range),
                        opt_ref(&query.pos_filter),
                        query.sort_order,
                    ),
                )),
            query_ok(query.where_node) ==> (drill matches Some(d) ==> exists|pos: PosFilter|
                    (pos.partitions@, pos.offset_gte, pos.offset_lte) == range_pos_spec(
                        Some(d.0),
                        Some(d.1),
                        Some(d.2),
                    ) && offset_result(
                        r,
                        first_topic_spec(names_of_vec(query.topics), self.held()),
                        multi_everything(
                            self.held(),
                            query.where_node,
                            names_of_vec(query.topics),
                            opt_ref(&query.ts_range),
                            Some(&pos),
                            query.sort_order,
                        ),
                    )),
    {
        if !query_check(&query.where_node) {
            return Err(bad_range());
        }
        let topic = first_topic_name(as_names(&query.topics), self.store());
        let drilled = match drill {
            Some((p, lo, hi)) => Some(range_pos(Some(p), Some(lo), Some(hi))),
            None => None,
        };
        let pos = match &drilled {
            Some(d) => Some(d),
            None => as_opt_ref(&query.pos_filter),
        };
        let (locs, _) = multi_all(
            self.store(),
            &query.where_node,
            as_names(&query.topics),
            as_opt_ref(&query.ts_range),
            pos,
            &query.sort_order,
            None,
        );
        offset_buckets(topic.as_str(), &locs)
    }

    fn search_offset_buckets(
        &self,
        workspace: &str,
        query: &str,
        fields: Option<&[String]>,
        topics: Option<&[String]>,
        mode: SearchMode,
        ts_range: Option<TsRange>,
        sort_order: SortOrder,
    ) -> (r: Result<OffsetBucketsResponse, EngineError>)
        ensures
            offset_result(
                r,
                first_topic_spec(names_of(topics), self.held()),
                keyword_everything(
                    self.held(),
                    query@,
                    fields,
                    names_of(topics),
                    mode,
                    opt_ref(&ts_range),
                    None,
                    sort_order,
                ),
            ),
    {
        let topic = first_topic_name(topics, self.store());
        let (locs, _, _) = keyword_all(
            self.store(),
            query,
            fields,
            topics,
            &mode,
            as_opt_ref(&ts_range),
            None,
            &sort_order,
            None,
        );
        offset_buckets(topic.as_str(), &locs)
    }

    fn search_combined_buckets(
        &self,
        workspace: &str,
        query: &str,
        fields: Option<&[String]>,
        topics: Option<&[String]>,
        mode: SearchMode,
        ts_range: Option<TsRange>,
        gran_ms: u64,
        kind: BucketsKind,
        sort_order: SortOrder,
        pos_filter: Option<PosFilter>,
    ) -> (r: Result<CombinedBucketsResponse, EngineError>)
        ensures
            combined_result(
                r,
                first_topic_spec(names_of(topics), self.held()),
                keyword_everything(
                    self.held(),
                    query@,
                    fields,
                    names_of(topics),
                    mode,
                    opt_ref(&ts_range),
                    opt_ref(&pos_filter),
                    sort_order,
                ),
                gran_ms,
                kind,
            ),
    {
        let topic = first_topic_name(topics, self.store());
        let (locs, _, _) = keyword_all(
            self.store(),
            query,
            fields,
            topics,
            &mode,
            as_opt_ref(&ts_range),
            as_opt_ref(&pos_filter),
            &sort_order,
            None,
        );
        combined(topic.as_str(), &locs, gran_ms, kind)
    }

    fn browse_offset_buckets(
        &self,
        workspace: &str,
        topic: &str,
        ts_range: Option<TsRange>,
        sort_order: SortOrder,
        detail: BucketDetail,
        pos_filter: Option<PosFilter>,
    ) -> (r: Result<OffsetBucketsResponse, EngineError>)
        ensures
            offset_result(
                r,
                topic@,
                browse_everything(
                    self.held(),
                    topic@,
                    opt_ref(&ts_range),
                    opt_ref(&pos_filter),
                    sort_order,
                ),
            ),
    {
        let (locs, _) = browse(
            self.store(),
            topic,
            as_opt_ref(&ts_range),
            as_opt_ref(&pos_filter),
            &sort_order,
            None,
        );
        offset_buckets(topic, &locs)
    }

    fn browse_combined_buckets(
        &self,
        workspace: &str,
        topic: &str,
        ts_range: Option<TsRange>,
        gran_ms: u64,
        kind: BucketsKind,
        sort_order: SortOrder,
        detail: BucketDetail,
        pos_filter: Option<PosFilter>,
    ) -> (r: Result<CombinedBucketsResponse, EngineError>)
        ensures
            combined_result(
                r,
                topic@,
                browse_everything(
                    self.held(),
                    topic@,
                    opt_ref(&ts_range),
                    opt_ref(&pos_filter),
                    sort_order,
                ),
                gran_ms,
                kind,
            ),
    {
        let (locs, _) = browse(
            self.store(),
            topic,
            as_opt_ref(&ts_range),
            as_opt_ref(&pos_filter),
            &sort_order,
            None,
        );
        combined(topic, &locs, gran_ms, kind)
    }

    fn fetch_messages(
        &self,
        workspace: &str,
        topic: &str,
        locs: Vec<LocItem>,
        bootstrap: Option<&str>,
    ) -> (r: Result<Vec<MessageResult>, EngineError>)
        ensures
            r matches Ok(v) && rows_of(self.held(), topic@, locs@, v@),
    {
        Ok(rows(self.store(), topic, &locs))
    }

    fn fetch_meta_rows(&self, workspace: &str, topic: &str, locs: Vec<LocItem>) -> (r: Result<
        Vec<MessageResult>,
        EngineError,
    >)
        ensures
            r matches Ok(v) && meta_rows_of(self.held(), topic@, locs@, v@),
    {
        Ok(meta_rows(self.store(), topic, &locs))
    }

    fn fetch_kafka_messages_raw(&self, workspace: &str, topic: &str, limit: Option<usize>) -> (r:
        Result<SearchIndexResponse, EngineError>)
        ensures
            r matches Ok(resp) && {
                let i = topic_index(self.held().topic_list(), topic@);
                &&& resp.locs@.len() == 0
                &&& !resp.has_more
                &&& resp.next_browse_cursors@.len() == 0
                &&& resp.next_search_cursors@.len() == 0
                &&& (i == self.held().topic_list().len() ==> resp.results@.len() == 0)
                &&& (i < self.held().topic_list().len() ==> exists|locs: Seq<LocItem>|
                    loc_views(locs) == limit_take(
                        browse_everything(self.held(), topic@, None, None, SortOrder::NewestFirst),
                        limit,
                    ) && result_views(resp.results@) == rows_seq(
                        topic@,
                        self.held().topic_list()[i as int].messages@,
                        locs,
                    ))
            },
    {
        proof {
            lemma_first_index_props(self.held().topic_list(), named(topic@));
        }
        let t = match self.store().topic(topic) {
            Some(t) => t,
            None => {
                return Ok(empty_response());
            },
        };
        let (locs, _) = t.browse_locs(None, None, &SortOrder::NewestFirst, limit);
        let results = t.message_rows(locs.as_slice());
        Ok(SearchIndexResponse {
            results,
            locs: Vec::new(),
            has_more: false,
            next_browse_cursors: Vec::new(),
            next_search_cursors: Vec::new(),
        })
    }

    fn fetch_browse_locs_in_bucket(
        &self,
        workspace: &str,
        topic: &str,
        partition: u32,
        from_offset: u64,
        to_offset: u64,
        sort_order: SortOrder,
    ) -> (r: Result<Vec<LocItem>, EngineError>)
        ensures
            r matches Ok(v) && exists|pos: PosFilter|
                (pos.partitions@, pos.offset_gte, pos.offset_lte) == range_pos_spec(
                    Some(partition),
                    Some(from_offset),
                    Some(to_offset),
                ) && loc_views(v@) == browse_everything(
                    self.held(),
                    topic@,
                    None,
                    Some(&pos),
                    sort_order,
                ),
    {
        let pos = range_pos(Some(partition), Some(from_offset), Some(to_offset));
        let (locs, _) = browse(self.store(), topic, None, Some(&pos), &sort_order, None);
        Ok(locs)
    }

    fn fetch_browse_locs_in_ts_range(
        &self,
        workspace: &str,
        topic: &str,
        gte_ms: Option<u64>,
        lte_ms: Option<u64>,
        sort_order: SortOrder,
        limit: Option<usize>,
        pos_filter: Option<PosFilter>,
    ) -> (r: Result<Vec<LocItem>, EngineError>)
        ensures
            r matches Ok(v) && loc_views(v@) == limit_take(
                browse_everything(
                    self.held(),
                    topic@,
                    opt_ref(&ts_range_spec(gte_ms, lte_ms)),
                    opt_ref(&pos_filter),
                    sort_order,
                ),
                limit,
            ),
    {
        let ts = ts_range_of(gte_ms, lte_ms);
        let (locs, _) = browse(
            self.store(),
            topic,
            as_opt_ref(&ts),
            as_opt_ref(&pos_filter),
            &sort_order,
            limit,
        );
        Ok(locs)
    }

    fn fetch_browse_locs_page(
        &self,
        workspace: &str,
        topic: &str,
        gte_ms: Option<u64>,
        lte_ms: Option<u64>,
        sort_order: SortOrder,
        limit: Option<usize>,
        after_ts: Option<u64>,
        after_partition: Option<u32>,
        after_offset: Option<u64>,
        pos_filter: Option<PosFilter>,
    ) -> (r: Result<Vec<LocItem>, EngineError>)
        ensures
            r matches Ok(v) && loc_views(v@) == limit_take(
                after_cursor_spec(
                    browse_everything(
                        self.held(),
                        topic@,
                        opt_ref(&ts_range_spec(gte_ms, lte_ms)),
                        opt_ref(&pos_filter),
                        sort_order,
                    ),
                    after_ts,
                    after_partition,
                    after_offset,
                ),
                limit,
            ),
    {
        let ts = ts_range_of(gte_ms, lte_ms);
        let (all, _) = browse(
            self.store(),
            topic,
            as_opt_ref(&ts),
            as_opt_ref(&pos_filter),
            &sort_order,
            None,
        );
        let mut page = after_cursor(all, after_ts, after_partition, after_offset);
        if let Some(l) = limit {
            if l < page.len() {
                page.truncate(l);
            }
        }
        Ok(page)
    }

    fn fetch_time_buckets(
        &self,
        workspace: &str,
        topic: &str,
        gte_ms: Option<u64>,
        lte_ms: Option<u64>,
        gran_ms: u64,
        sort_order: SortOrder,
        detail: BucketDetail,
        hard_cap: Option<u64>,
        pos_filter: Option<PosFilter>,
    ) -> (r: Result<TimeBucketsResponse, EngineError>)
        ensures
            r matches Ok(b) && is_time_buckets(
                b,
                browse_everything(
                    self.held(),
                    topic@,
                    opt_ref(&ts_range_spec(gte_ms, lte_ms)),
                    opt_ref(&pos_filter),
                    sort_order,
                ),
                gran_ms,
            ),
    {
        let ts = ts_range_of(gte_ms, lte_ms);
        let (locs, _) = browse(
            self.store(),
            topic,
            as_opt_ref(&ts),
            as_opt_ref(&pos_filter),
            &sort_order,
            None,
        );
        Ok(build_time_buckets(locs.as_slice(), gran_ms))
    }

    fn fetch_search_time_buckets(
        &self,
        workspace: &str,
        query: &str,
        fields: Option<&[String]>,
        topics: Option<&[String]>,
        mode: SearchMode,
        ts_range: Option<TsRange>,
        gran_ms: u64,
        sort_order: SortOrder,
        hard_cap: Option<u64>,
        pos_filter: Option<PosFilter>,
    ) -> (r: Result<TimeBucketsResponse, EngineError>)
        ensures
            r matches Ok(b) && is_time_buckets(
                b,
                keyword_everything(
                    self.held(),
                    query@,
                    fields,
                    names_of(topics),
                    mode,
                    opt_ref(&ts_range),
                    opt_ref(&pos_filter),
                    sort_order,
                ),
                gran_ms,
            ),
    {
        let (locs, _, _) = keyword_all(
            self.store(),
            query,
            fields,
            topics,
            &mode,
            as_opt_ref(&ts_range),
            as_opt_ref(&pos_filter),
            &sort_order,
            None,
        );
        Ok(build_time_buckets(locs.as_slice(), gran_ms))
    }

    fn fetch_search_locs_in_range(
        &self,
        workspace: &str,
        query: &str,
        fields: Option<&[String]>,
        topics: Option<&[String]>,
        mode: SearchMode,
        sort_order: SortOrder,
        ts_range: Option<TsRange>,
        partition: Option<u32>,
        from_offset: Option<u64>,
        to_offset: Option<u64>,
        pos_filter: Option<PosFilter>,
    ) -> (r: Result<Vec<LocItem>, EngineError>)
        ensures
            partition is None && from_offset is None && to_offset is None ==> (r matches Ok(v)
                && loc_views(v@) == keyword_everything(
                self.held(),
                query@,
                fields,
                names_of(topics),
                mode,
                opt_ref(&ts_range),
                opt_ref(&pos_filter),
                sort_order,
            )),
            !(partition is None && from_offset is None && to_offset is None) ==> (r matches Ok(v)
                && exists|pos: PosFilter|
                (pos.partitions@, pos.offset_gte, pos.offset_lte) == range_pos_spec(
                    partition,
                    from_offset,
                    to_offset,
                ) && loc_views(v@) == keyword_everything(
                    self.held(),
                    query@,
                    fields,
                    names_of(topics),
                    mode,
                    opt_ref(&ts_range),
                    Some(&pos),
                    sort_order,
                )),
    {
        let ranged = if partition.is_none() && from_offset.is_none() && to_offset.is_none() {
            None
        } else {
            Some(range_pos(partition, from_offset, to_offset))
        };
        let pos = match &ranged {
            Some(p) => Some(p),
            None => as_opt_ref(&pos_filter),
        };
        let (locs, _, _) = keyword_all(
            self.store(),
            query,
            fields,
            topics,
            &mode,
            as_opt_ref(&ts_range),
            pos,
            &sort_order,
            None,
        );
        proof {
            if let Some(p) = ranged {
                assert(loc_views(locs@) == keyword_everything(
                    self.held(),
                    query@,
                    fields,
                    names_of(topics),
                    mode,
                    opt_ref(&ts_range),
                    Some(&p),
                    sort_order,
                ));
            }
        }
        Ok(locs)
    }

    fn fetch_search_locs_page(
        &self,
        workspace: &str,
        query: &str,
        fields: Option<&[String]>,
        topics: Option<&[String]>,
        mode: SearchMode,
        sort_order: SortOrder,
        ts_range: Option<TsRange>,
        limit: Option<usize>,
        after_ts: Option<u64>,
        after_partition: Option<u32>,
        after_offset: Option<u64>,
        pos_filter: Option<PosFilter>,
    ) -> (r: Result<Vec<LocItem>, EngineError>)
        ensures
            r matches Ok(v) && loc_views(v@) == limit_take(
                after_cursor_spec(
                    keyword_everything(
                        self.held(),
                        query@,
                        fields,
                        names_of(topics),
                        mode,
                        opt_ref(&ts_range),
                        opt_ref(&pos_filter),
                        sort_order,
                    ),
                    after_ts,
                    after_partition,
                    after_offset,
                ),
                limit,
            ),
    {
        let (all, _, _) = keyword_all(
            self.store(),
            query,
            fields,
            topics,
            &mode,
            as_opt_ref(&ts_range),
            as_opt_ref(&pos_filter),
            &sort_order,
            None,
        );
        let mut page = after_cursor(all, after_ts, after_partition, after_offset);
        if let Some(l) = limit {
            if l < page.len() {
                page.truncate(l);
            }
        }
        Ok(page)
    }

    fn prefetch_browse_locs(
        &self,
        workspace: &str,
        topic: &str,
        sort_order: SortOrder,
        limit: Option<usize>,
        ts_range: Option<TsRange>,
        pos_filter: Option<PosFilter>,
    ) -> (r: Result<PrefetchSearchLocsResponse, EngineError>)
        ensures
            r matches Ok(resp) && {
                let i = topic_index(self.held().topic_list(), topic@);
                &&& loc_views(resp.locs@) == limit_take(
                    browse_everything(
                        self.held(),
                        topic@,
                        opt_ref(&ts_range),
                        opt_ref(&pos_filter),
                        sort_order,
                    ),
                    limit,
                )
                &&& resp.total == if i < self.held().topic_list().len() {
                    browse_seq(
                        self.held().topic_list()[i as int].messages@,
                        opt_ref(&ts_range),
                        opt_ref(&pos_filter),
                    ).len()
                } else {
                    0
                }
                &&& resp.capped == (resp.total > resp.locs@.len())
                &&& resp.hit_fields@.len() == 0
            },
    {
        let (locs, total) = browse(
            self.store(),
            topic,
            as_opt_ref(&ts_range),
            as_opt_ref(&pos_filter),
            &sort_order,
            limit,
        );
        let capped = total > locs.len();
        Ok(PrefetchSearchLocsResponse { locs, total, capped, hit_fields: Vec::new() })
    }

    fn test_deserializers(
        &self,
        workspace: &str,
        topic: &str,
        deserializers: TopicDeserializers,
        bootstrap: Option<&str>,
        limit: usize,
    ) -> (r: Result<TestDeserializeResponse, EngineError>)
        ensures
            r matches Ok(resp) && {
                let i = topic_index(self.held().topic_list(), topic@);
                &&& (i == self.held().topic_list().len() ==> resp.samples@.len() == 0)
                &&& (i < self.held().topic_list().len() ==> samples_of(
                    self.held().topic_list()[i as int],
                    if limit == 0 { 1 } else { limit },
                    resp.samples@,
                ))
            },
    {
        proof {
            lemma_first_index_props(self.held().topic_list(), named(topic@));
        }
        let samples = match self.store().topic(topic) {
            Some(t) => samples(t, if limit == 0 { 1 } else { limit }),
            None => Vec::new(),
        };
        Ok(TestDeserializeResponse { samples })
    }
}

} // verus!
