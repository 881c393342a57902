//! Searching across the store: every picked topic searched in turn, the results merged
//! and ordered, and the small helpers that shape a request into a search.

use vstd::prelude::*;

use crate::mock::data::{keyword_seq, limit_take, multi_seq, sort_locs, sort_spec, MockTopic};
use crate::mock::store::{derefs, topics_for_spec, MockStore};
use crate::order::{first_index, lemma_first_index};
use crate::search::{loc_views, LocItem, LocView, PosFilter, QueryNode, SearchMode, SortOrder, TsRange};
use crate::text::{contains_str, views};

verus! {

// ── Shaping a request ───────────────────────────────────────────────────────

/// A time range from two optional bounds; none when neither is given.
pub open spec fn ts_range_spec(gte: Option<u64>, lte: Option<u64>) -> Option<TsRange> {
    if gte is None && lte is None {
        None
    } else {
        Some(TsRange { gte_ms: gte, lte_ms: lte })
    }
}

pub fn ts_range_of(gte: Option<u64>, lte: Option<u64>) -> (r: Option<TsRange>)
    ensures
        r == ts_range_spec(gte, lte),
{
    if gte.is_none() && lte.is_none() {
        None
    } else {
        Some(TsRange { gte_ms: gte, lte_ms: lte })
    }
}

/// A limit of zero means the engine decides, which here means no limit.
pub open spec fn limit_spec(limit: usize) -> Option<usize> {
    if limit == 0 {
        None
    } else {
        Some(limit)
    }
}

pub fn limit_opt(limit: usize) -> (r: Option<usize>)
    ensures
        r == limit_spec(limit),
{
    if limit == 0 {
        None
    } else {
        Some(limit)
    }
}

/// Whether a position is the one a cursor names: its time, partition and offset.
pub open spec fn at_cursor(ts: u64, partition: u32, offset: u64) -> spec_fn(LocView) -> bool {
    |l: LocView| l.ts_millis == ts && l.partition == partition && l.offset == offset
}

/// What comes after a cursor. A cursor counts only with all three parts set; with any of
/// them missing, or a position that is not found, the whole list is the first page.
/// Otherwise, what follows the position's first occurrence.
pub open spec fn after_cursor_spec(
    locs: Seq<LocView>,
    ts: Option<u64>,
    partition: Option<u32>,
    offset: Option<u64>,
) -> Seq<LocView> {
    match (ts, partition, offset) {
        (Some(t), Some(p), Some(o)) => {
            let i = first_index(locs, at_cursor(t, p, o));
            if i < locs.len() {
                locs.subrange((i + 1) as int, locs.len() as int)
            } else {
                locs
            }
        },
        _ => locs,
    }
}

/// Keeps only what comes after a given position.
pub fn after_cursor(
    locs: Vec<LocItem>,
    after_ts: Option<u64>,
    after_partition: Option<u32>,
    after_offset: Option<u64>,
) -> (r: Vec<LocItem>)
    ensures
        loc_views(r@) == after_cursor_spec(loc_views(locs@), after_ts, after_partition, after_offset),
{
    let (t, p, o) = match (after_ts, after_partition, after_offset) {
        (Some(t), Some(p), Some(o)) => (t, p, o),
        _ => {
            return locs;
        },
    };
    let ghost lv = loc_views(locs@);
    let ghost f = at_cursor(t, p, o);
    let mut i: usize = 0;
    while i < locs.len()
        invariant
            i <= locs@.len(),
            lv == loc_views(locs@),
            f == at_cursor(t, p, o),
            after_ts == Some(t),
            after_partition == Some(p),
            after_offset == Some(o),
            forall|k: int| 0 <= k < i ==> !f(#[trigger] lv[k]),
        decreases locs.len() - i,
    {
        let l = &locs[i];
        assert(lv[i as int] == l@);
        if l.ts_millis == t && l.partition == p && l.offset == o {
            proof {
                assert(f(lv[i as int]));
                lemma_first_index(lv, f, i as int);
            }
            let mut locs = locs;
            let tail = locs.split_off(i + 1);
            assert(loc_views(tail@) =~= lv.subrange(i + 1, lv.len() as int));
            return tail;
        }
        i += 1;
    }
    proof {
        lemma_first_index(lv, f, lv.len() as int);
    }
    locs
}

/// The position filter of one partition's offset range; no partition keeps all of them.
pub open spec fn range_pos_spec(partition: Option<u32>, from: Option<u64>, to: Option<u64>) -> (
    Seq<u32>,
    Option<u64>,
    Option<u64>,
) {
    (
        match partition {
            Some(p) => seq![p],
            None => Seq::empty(),
        },
        from,
        to,
    )
}

pub fn range_pos(partition: Option<u32>, from: Option<u64>, to: Option<u64>) -> (r: PosFilter)
    ensures
        (r.partitions@, r.offset_gte, r.offset_lte) == range_pos_spec(partition, from, to),
{
    let partitions = match partition {
        Some(p) => vec![p],
        None => Vec::new(),
    };
    let r = PosFilter { partitions, offset_gte: from, offset_lte: to };
    assert(r.partitions@ =~= range_pos_spec(partition, from, to).0);
    r
}

/// The later of two optional lower bounds: either where only one is given.
pub open spec fn max_opt(a: Option<u64>, b: Option<u64>) -> Option<u64> {
    match (a, b) {
        (Some(x), Some(y)) => Some(if x >= y { x } else { y }),
        (Some(x), None) => Some(x),
        (None, y) => y,
    }
}

/// The earlier of two optional upper bounds: either where only one is given.
pub open spec fn min_opt(a: Option<u64>, b: Option<u64>) -> Option<u64> {
    match (a, b) {
        (Some(x), Some(y)) => Some(if x <= y { x } else { y }),
        (Some(x), None) => Some(x),
        (None, y) => y,
    }
}

/// Where two time ranges overlap.
pub open spec fn merge_ts_spec(base: Option<TsRange>, extra_gte: Option<u64>, extra_lte: Option<u64>) -> Option<TsRange> {
    let bg = match base {
        Some(r) => r.gte_ms,
        None => None,
    };
    let bl = match base {
        Some(r) => r.lte_ms,
        None => None,
    };
    ts_range_spec(max_opt(bg, extra_gte), min_opt(bl, extra_lte))
}

pub fn merge_ts(base: Option<&TsRange>, extra_gte: Option<u64>, extra_lte: Option<u64>) -> (r: Option<TsRange>)
    ensures
        r == merge_ts_spec(
            match base {
                Some(b) => Some(*b),
                None => None,
            },
            extra_gte,
            extra_lte,
        ),
{
    let bg = match base {
        Some(r) => r.gte_ms,
        None => None,
    };
    let bl = match base {
        Some(r) => r.lte_ms,
        None => None,
    };
    let gte = match (bg, extra_gte) {
        (Some(a), Some(b)) => Some(if a >= b { a } else { b }),
        (Some(a), None) => Some(a),
        (None, b) => b,
    };
    let lte = match (bl, extra_lte) {
        (Some(a), Some(b)) => Some(if a <= b { a } else { b }),
        (Some(a), None) => Some(a),
        (None, b) => b,
    };
    ts_range_of(gte, lte)
}

// ── Searching every picked topic ────────────────────────────────────────────

/// A count as it is kept: the exact number, or the largest `usize` where it would not
/// fit.
pub open spec fn saturate(n: int) -> usize {
    if n <= usize::MAX {
        n as usize
    } else {
        usize::MAX
    }
}

/// `h` with each text of `s` added in turn, where it is not already there.
pub open spec fn merge_unique(h: Seq<Seq<char>>, s: Seq<Seq<char>>) -> Seq<Seq<char>>
    decreases s.len(),
{
    if s.len() == 0 {
        h
    } else {
        let m = merge_unique(h, s.drop_last());
        if m.contains(s.last()) {
            m
        } else {
            m.push(s.last())
        }
    }
}

/// The names a filter gives, if it gives any.
pub open spec fn names_of(topics: Option<&[String]>) -> Option<Seq<String>> {
    match topics {
        Some(f) => Some(f@),
        None => None,
    }
}

/// The topics a filter of names picks.
pub open spec fn picked(store: MockStore, names: Option<Seq<String>>) -> Seq<MockTopic> {
    topics_for_spec(store.topic_list(), names)
}

/// Searching one topic for a keyword: its positions in the requested order, the fields
/// that matched, and how many positions. An empty query finds nothing.
pub open spec fn topic_keyword(
    t: MockTopic,
    tok: Seq<Seq<char>>,
    query: Seq<char>,
    fields: Option<&[String]>,
    mode: SearchMode,
    ts: Option<&TsRange>,
    pos: Option<&PosFilter>,
    sort: SortOrder,
) -> (Seq<LocView>, Seq<Seq<char>>, nat) {
    if query.len() == 0 {
        (Seq::empty(), Seq::empty(), 0)
    } else {
        let k = keyword_seq(t.name@, t.messages@, query, fields, mode, tok, ts, pos);
        (sort_spec(k.0, sort), k.1, k.0.len())
    }
}

/// Every picked topic searched in turn: the positions one after another, the matched
/// fields each once in the order first met, and the total count.
pub open spec fn keyword_parts(
    ts: Seq<MockTopic>,
    store: MockStore,
    query: Seq<char>,
    fields: Option<&[String]>,
    mode: SearchMode,
    tr: Option<&TsRange>,
    pos: Option<&PosFilter>,
    sort: SortOrder,
) -> (Seq<LocView>, Seq<Seq<char>>, int)
    decreases ts.len(),
{
    if ts.len() == 0 {
        (Seq::empty(), Seq::empty(), 0)
    } else {
        let prev = keyword_parts(ts.drop_last(), store, query, fields, mode, tr, pos, sort);
        let t = ts.last();
        let k = topic_keyword(t, store.tokenized_fields(t.name@), query, fields, mode, tr, pos, sort);
        (prev.0 + k.0, merge_unique(prev.1, k.1), prev.2 + k.2)
    }
}

/// Every picked topic searched with a boolean query in turn: the positions one after
/// another, and the total count.
pub open spec fn multi_parts(
    ts: Seq<MockTopic>,
    store: MockStore,
    node: QueryNode,
    tr: Option<&TsRange>,
    pos: Option<&PosFilter>,
    sort: SortOrder,
) -> (Seq<LocView>, int)
    decreases ts.len(),
{
    if ts.len() == 0 {
        (Seq::empty(), 0)
    } else {
        let prev = multi_parts(ts.drop_last(), store, node, tr, pos, sort);
        let t = ts.last();
        let m = multi_seq(t.messages@, node, store.tokenized_fields(t.name@), tr, pos);
        (prev.0 + sort_spec(m, sort), prev.1 + m.len())
    }
}

/// Runs a keyword search across topics and merges the results: all of them in the
/// requested order, at most `limit`; the fields that matched; and how many there were
/// before the limit.
pub fn keyword_all(
    store: &MockStore,
    query: &str,
    fields: Option<&[String]>,
    topics: Option<&[String]>,
    mode: &SearchMode,
    ts: Option<&TsRange>,
    pos: Option<&PosFilter>,
    sort: &SortOrder,
    limit: Option<usize>,
) -> (r: (Vec<LocItem>, Vec<String>, usize))
    ensures
        ({
            let p = keyword_parts(picked(*store, names_of(topics)), *store, query@, fields, *mode, ts, pos, *sort);
            &&& loc_views(r.0@) == limit_take(sort_spec(p.0, *sort), limit)
            &&& views(r.1@) == p.1
            &&& r.2 == saturate(p.2)
        }),
{
    let chosen = store.topics_for(topics);
    let ghost ts_seq = derefs(chosen@);
    let mut all: Vec<LocItem> = Vec::new();
    let mut hit_fields: Vec<String> = Vec::new();
    let mut total: usize = 0;
    let mut i: usize = 0;
    while i < chosen.len()
        invariant
            i <= chosen@.len(),
            ts_seq == derefs(chosen@),
            ts_seq == picked(*store, names_of(topics)),
            ({
                let p = keyword_parts(ts_seq.take(i as int), *store, query@, fields, *mode, ts, pos, *sort);
                &&& loc_views(all@) == p.0
                &&& views(hit_fields@) == p.1
                &&& total == saturate(p.2)
                &&& p.2 >= 0
            }),
        decreases chosen.len() - i,
    {
        let t: &MockTopic = chosen[i];
        proof {
            let w = ts_seq.take(i + 1);
            assert(w.drop_last() == ts_seq.take(i as int));
            assert(w.last() == *t);
        }
        let tok = store.tokenized_for(t.name.as_str());
        let (mut locs, hf, tot) = t.keyword_locs(query, fields, mode, &tok, ts, pos, sort, None);
        let ghost prev = keyword_parts(ts_seq.take(i as int), *store, query@, fields, *mode, ts, pos, *sort);
        let ghost k = topic_keyword(*t, store.tokenized_fields(t.name@), query@, fields, *mode, ts, pos, *sort);
        assert(loc_views(locs@) == k.0 && views(hf@) == k.1 && tot == k.2);
        total = total.saturating_add(tot);
        let mut j: usize = 0;
        while j < hf.len()
            invariant
                j <= hf@.len(),
                views(hit_fields@) == merge_unique(prev.1, views(hf@).take(j as int)),
            decreases hf.len() - j,
        {
            proof {
                let w = views(hf@).take(j + 1);
                assert(w.drop_last() == views(hf@).take(j as int));
                assert(w.last() == hf@[j as int]@);
            }
            let ghost before = views(hit_fields@);
            if !contains_str(&hit_fields, hf[j].as_str()) {
                hit_fields.push(hf[j].clone());
                assert(views(hit_fields@) =~= before.push(hf@[j as int]@));
            }
            j += 1;
        }
        assert(views(hf@).take(hf@.len() as int) == views(hf@));
        let ghost before_all = loc_views(all@);
        all.append(&mut locs);
        assert(loc_views(all@) =~= before_all + k.0);
        i += 1;
    }
    assert(ts_seq.take(chosen@.len() as int) == ts_seq);
    sort_locs(&mut all, sort);
    if let Some(l) = limit {
        if l < all.len() {
            all.truncate(l);
        }
    }
    proof {
        let p = keyword_parts(ts_seq, *store, query@, fields, *mode, ts, pos, *sort);
        match limit {
            Some(l) => {
                if l < sort_spec(p.0, *sort).len() {
                    assert(loc_views(all@) =~= sort_spec(p.0, *sort).take(l as int));
                }
            },
            None => {},
        }
    }
    (all, hit_fields, total)
}

/// The same for a boolean query: all the positions in the requested order, at most
/// `limit`, and how many there were before the limit.
pub fn multi_all(
    store: &MockStore,
    node: &QueryNode,
    topics: Option<&[String]>,
    ts: Option<&TsRange>,
    pos: Option<&PosFilter>,
    sort: &SortOrder,
    limit: Option<usize>,
) -> (r: (Vec<LocItem>, usize))
    ensures
        ({
            let p = multi_parts(picked(*store, names_of(topics)), *store, *node, ts, pos, *sort);
            &&& loc_views(r.0@) == limit_take(sort_spec(p.0, *sort), limit)
            &&& r.1 == saturate(p.1)
        }),
{
    let chosen = store.topics_for(topics);
    let ghost ts_seq = derefs(chosen@);
    let mut all: Vec<LocItem> = Vec::new();
    let mut total: usize = 0;
    let mut i: usize = 0;
    while i < chosen.len()
        invariant
            i <= chosen@.len(),
            ts_seq == derefs(chosen@),
            ts_seq == picked(*store, names_of(topics)),
            ({
                let p = multi_parts(ts_seq.take(i as int), *store, *node, ts, pos, *sort);
                &&& loc_views(all@) == p.0
                &&& total == saturate(p.1)
                &&& p.1 >= 0
            }),
        decreases chosen.len() - i,
    {
        let t: &MockTopic = chosen[i];
        proof {
            let w = ts_seq.take(i + 1);
            assert(w.drop_last() == ts_seq.take(i as int));
            assert(w.last() == *t);
        }
        let tok = store.tokenized_for(t.name.as_str());
        let (mut locs, tot) = t.multi_locs(node, &tok, ts, pos, sort, None);
        total = total.saturating_add(tot);
        let ghost before_all = loc_views(all@);
        all.append(&mut locs);
        assert(loc_views(all@) =~= before_all + sort_spec(
            multi_seq(t.messages@, *node, store.tokenized_fields(t.name@), ts, pos),
            *sort,
        ));
        i += 1;
    }
    assert(ts_seq.take(chosen@.len() as int) == ts_seq);
    sort_locs(&mut all, sort);
    if let Some(l) = limit {
        if l < all.len() {
            all.truncate(l);
        }
    }
    proof {
        let p = multi_parts(ts_seq, *store, *node, ts, pos, *sort);
        match limit {
            Some(l) => {
                if l < sort_spec(p.0, *sort).len() {
                    assert(loc_views(all@) =~= sort_spec(p.0, *sort).take(l as int));
                }
            },
            None => {},
        }
    }
    (all, total)
}

} // verus!
