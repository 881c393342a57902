//! Counting matches per time bucket and per offset range, with the offsets included.

use vstd::prelude::*;
use vstd::relations::{sorted_by, total_ordering};

use crate::search::{
    LocItem, LocView, OffsetBucket, loc_views, OffsetBucketsDeliveryMode, OffsetBucketsResponse,
    PartitionOffsetBuckets, TimeBucketDeliveryMode, TimeBucketRow, TimeBucketsResponse,
};
use crate::text::owned;

verus! {

/// A matched position reduced to what grouping reads: a partition, the start of the
/// bucket it falls in, and its offset.
pub type Triple = (u32, u64, u64);

pub open spec fn triple_le(a: Triple, b: Triple) -> bool {
    ||| a.0 < b.0
    ||| (a.0 == b.0 && a.1 < b.1)
    ||| (a.0 == b.0 && a.1 == b.1 && a.2 <= b.2)
}

pub open spec fn triple_leq() -> spec_fn(Triple, Triple) -> bool {
    |a: Triple, b: Triple| triple_le(a, b)
}

/// Runs of equal `(partition, start)` in a sorted list, each with its offsets in order.
pub open spec fn group_rows(s: Seq<Triple>) -> Seq<(u32, u64, Seq<u64>)>
    decreases s.len(),
{
    if s.len() == 0 {
        Seq::empty()
    } else {
        let prev = group_rows(s.drop_last());
        let t = s.last();
        if prev.len() > 0 && prev.last().0 == t.0 && prev.last().1 == t.1 {
            prev.update(prev.len() - 1, (t.0, t.1, prev.last().2.push(t.2)))
        } else {
            prev.push((t.0, t.1, seq![t.2]))
        }
    }
}

/// How many offsets a list of groups holds.
pub open spec fn rows_total(rows: Seq<(u32, u64, Seq<u64>)>) -> nat
    decreases rows.len(),
{
    if rows.len() == 0 {
        0
    } else {
        rows_total(rows.drop_last()) + rows.last().2.len()
    }
}

/// Rows grouped further by partition: each partition with its `(start, offsets)` rows.
pub open spec fn group_parts(rows: Seq<(u32, u64, Seq<u64>)>) -> Seq<(u32, Seq<(u64, Seq<u64>)>)>
    decreases rows.len(),
{
    if rows.len() == 0 {
        Seq::empty()
    } else {
        let prev = group_parts(rows.drop_last());
        let r = rows.last();
        if prev.len() > 0 && prev.last().0 == r.0 {
            prev.update(prev.len() - 1, (r.0, prev.last().1.push((r.1, r.2))))
        } else {
            prev.push((r.0, seq![(r.1, r.2)]))
        }
    }
}

pub open spec fn time_triples(locs: Seq<LocView>, gran: u64) -> Seq<Triple> {
    locs.map_values(|l: LocView| (l.partition, ((l.ts_millis / gran) * gran) as u64, l.offset))
}

pub open spec fn offset_triples(locs: Seq<LocView>) -> Seq<Triple> {
    locs.map_values(|l: LocView| (l.partition, ((l.offset / 100) * 100) as u64, l.offset))
}

/// What a time bucket row holds, as plain values.
pub struct TimeRowView {
    pub partition: u32,
    pub gran_start_ms: u64,
    pub count: u64,
    pub offsets: Option<Seq<u64>>,
}

pub open spec fn time_row_view(r: TimeBucketRow) -> TimeRowView {
    TimeRowView {
        partition: r.partition,
        gran_start_ms: r.gran_start_ms,
        count: r.count,
        offsets: match r.offsets {
            Some(v) => Some(v@),
            None => None,
        },
    }
}

pub open spec fn time_rows_spec(rows: Seq<(u32, u64, Seq<u64>)>) -> Seq<TimeRowView> {
    rows.map_values(
        |g: (u32, u64, Seq<u64>)|
            TimeRowView {
                partition: g.0,
                gran_start_ms: g.1,
                count: g.2.len() as u64,
                offsets: Some(g.2),
            },
    )
}

/// What one offset range holds, as plain values.
pub struct BucketView {
    pub from_offset: u64,
    pub to_offset: u64,
    pub count: u32,
    pub offsets: Option<Seq<u64>>,
}

/// What one partition's counts hold, as plain values.
pub struct PartView {
    pub partition: u32,
    pub count: u64,
    pub min_offset: u64,
    pub max_offset: u64,
    pub bucket_unit: u32,
    pub buckets: Seq<BucketView>,
}

pub open spec fn bucket_view(b: OffsetBucket) -> BucketView {
    BucketView {
        from_offset: b.from_offset,
        to_offset: b.to_offset,
        count: b.count,
        offsets: match b.offsets {
            Some(v) => Some(v@),
            None => None,
        },
    }
}

pub open spec fn part_view(p: PartitionOffsetBuckets) -> PartView {
    PartView {
        partition: p.partition,
        count: p.count,
        min_offset: p.min_offset,
        max_offset: p.max_offset,
        bucket_unit: p.bucket_unit,
        buckets: p.buckets@.map_values(|b: OffsetBucket| bucket_view(b)),
    }
}

pub open spec fn buckets_total(bs: Seq<(u64, Seq<u64>)>) -> nat
    decreases bs.len(),
{
    if bs.len() == 0 {
        0
    } else {
        buckets_total(bs.drop_last()) + bs.last().1.len()
    }
}

/// One partition's counts, from its `(start, offsets)` rows in order.
pub open spec fn part_spec(g: (u32, Seq<(u64, Seq<u64>)>)) -> PartView {
    PartView {
        partition: g.0,
        count: buckets_total(g.1) as u64,
        min_offset: g.1[0].1[0],
        max_offset: g.1.last().1.last(),
        bucket_unit: 100,
        buckets: g.1.map_values(
            |b: (u64, Seq<u64>)|
                BucketView {
                    from_offset: b.0,
                    to_offset: (b.0 + 99) as u64,
                    count: b.1.len() as u32,
                    offsets: Some(b.1),
                },
        ),
    }
}

// ── Proofs ──────────────────────────────────────────────────────────────────

pub(crate) proof fn lemma_triple_total()
    ensures
        total_ordering(triple_leq()),
{
}

proof fn lemma_group_rows(s: Seq<Triple>)
    ensures
        rows_total(group_rows(s)) == s.len(),
        forall|i: int| 0 <= i < group_rows(s).len() ==> #[trigger] group_rows(s)[i].2.len() > 0,
        (forall|k: int| 0 <= k < s.len() ==> (#[trigger] s[k]).1 < 18_446_744_073_709_551_501u64)
            ==> forall|i: int| 0 <= i < group_rows(s).len() ==> (#[trigger] group_rows(s)[i]).1
            < 18_446_744_073_709_551_501u64,
    decreases s.len(),
{
    if s.len() > 0 {
        let prev = group_rows(s.drop_last());
        lemma_group_rows(s.drop_last());
        let t = s.last();
        if (forall|k: int| 0 <= k < s.len() ==> (#[trigger] s[k]).1 < 18_446_744_073_709_551_501u64) {
            assert forall|k: int| 0 <= k < s.drop_last().len() implies (#[trigger] s.drop_last()[k]).1
                < 18_446_744_073_709_551_501u64 by {
                assert(s.drop_last()[k] == s[k]);
            }
        }
        if prev.len() > 0 && prev.last().0 == t.0 && prev.last().1 == t.1 {
            let g = group_rows(s);
            assert(g.drop_last() == prev.drop_last());
            assert(prev.drop_last().push(prev.last()) == prev);
        } else {
            assert(group_rows(s).drop_last() == prev);
        }
    }
}

/// Grouping keeps every offset: the counts of the groups add up to the number of
/// positions grouped, and no group is empty.
pub proof fn law_grouping_counts_everything(locs: Seq<LocView>, gran: u64)
    ensures
        rows_total(group_rows(time_triples(locs, gran).sort_by(triple_leq()))) == locs.len(),
        rows_total(group_rows(offset_triples(locs).sort_by(triple_leq()))) == locs.len(),
{
    lemma_triple_total();
    time_triples(locs, gran).lemma_sort_by_ensures(triple_leq());
    offset_triples(locs).lemma_sort_by_ensures(triple_leq());
    lemma_group_rows(time_triples(locs, gran).sort_by(triple_leq()));
    lemma_group_rows(offset_triples(locs).sort_by(triple_leq()));
    time_triples(locs, gran).sort_by(triple_leq()).to_multiset_ensures();
    time_triples(locs, gran).to_multiset_ensures();
    offset_triples(locs).sort_by(triple_leq()).to_multiset_ensures();
    offset_triples(locs).to_multiset_ensures();
}

/// Every group's partition and start come from some grouped position.
pub(crate) proof fn lemma_group_rows_from(s: Seq<Triple>)
    ensures
        forall|i: int|
            0 <= i < group_rows(s).len() ==> exists|j: int|
                0 <= j < s.len() && (#[trigger] s[j]).0 == (#[trigger] group_rows(s)[i]).0
                    && s[j].1 == group_rows(s)[i].1,
    decreases s.len(),
{
    if s.len() > 0 {
        let init = s.drop_last();
        let prev = group_rows(init);
        lemma_group_rows_from(init);
        let g = group_rows(s);
        let n = s.len() - 1;
        assert forall|i: int| 0 <= i < g.len() implies exists|j: int|
            0 <= j < s.len() && (#[trigger] s[j]).0 == (#[trigger] g[i]).0 && s[j].1 == g[i].1 by {
            if i < prev.len() {
                assert(g[i].0 == prev[i].0 && g[i].1 == prev[i].1);
                let j = choose|j: int|
                    0 <= j < init.len() && (#[trigger] init[j]).0 == prev[i].0 && init[j].1
                        == prev[i].1;
                assert(init[j] == s[j]);
            } else {
                assert(s[n].0 == g[i].0 && s[n].1 == g[i].1);
            }
        }
    }
}

/// Every grouped position lands in the group of its partition and start, among that
/// group's offsets.
pub(crate) proof fn lemma_group_rows_holds(s: Seq<Triple>)
    ensures
        forall|j: int|
            0 <= j < s.len() ==> exists|i: int|
                0 <= i < group_rows(s).len() && (#[trigger] group_rows(s)[i]).0 == (#[trigger] s[j]).0
                    && group_rows(s)[i].1 == s[j].1 && group_rows(s)[i].2.contains(s[j].2),
    decreases s.len(),
{
    if s.len() > 0 {
        let init = s.drop_last();
        let prev = group_rows(init);
        lemma_group_rows_holds(init);
        let g = group_rows(s);
        let n = s.len() - 1;
        let t = s[n];
        let merged = prev.len() > 0 && prev.last().0 == t.0 && prev.last().1 == t.1;
        assert forall|j: int| 0 <= j < s.len() implies exists|i: int|
            0 <= i < g.len() && (#[trigger] g[i]).0 == (#[trigger] s[j]).0 && g[i].1 == s[j].1
                && g[i].2.contains(s[j].2) by {
            if j < n {
                assert(init[j] == s[j]);
                let i = choose|i: int|
                    0 <= i < prev.len() && (#[trigger] prev[i]).0 == init[j].0 && prev[i].1
                        == init[j].1 && prev[i].2.contains(init[j].2);
                let k = choose|k: int| 0 <= k < prev[i].2.len() && prev[i].2[k] == init[j].2;
                if merged && i == prev.len() - 1 {
                    assert(g[i].2 == prev[i].2.push(t.2));
                    assert(g[i].2[k] == s[j].2);
                } else {
                    assert(g[i] == prev[i]);
                }
                assert(g[i].2.contains(s[j].2));
            } else {
                if merged {
                    let i = prev.len() - 1;
                    assert(g[i].2 == prev[i].2.push(t.2));
                    assert(g[i].2[g[i].2.len() - 1] == t.2);
                    assert(g[i].2.contains(s[j].2));
                } else {
                    let i = prev.len() as int;
                    assert(g[i].2 == seq![t.2]);
                    assert(g[i].2[0] == t.2);
                    assert(g[i].2.contains(s[j].2));
                }
            }
        }
    }
}

proof fn lemma_floor_multiple(x: u64, g: u64)
    requires
        g > 0,
    ensures
        (x / g) * g <= x,
        ((x / g) * g) % (g as int) == 0,
        x < (x / g) * g + g,
{
    assert((x / g) * g <= x) by (nonlinear_arith)
        requires
            g > 0;
    assert(((x / g) * g) % (g as int) == 0) by (nonlinear_arith)
        requires
            g > 0;
    assert(x < (x / g) * g + g) by (nonlinear_arith)
        requires
            g > 0;
}

/// Whether a row lists this offset among its offsets.
pub open spec fn row_lists(row: TimeBucketRow, offset: u64) -> bool {
    match row.offsets {
        Some(o) => o@.contains(offset),
        None => false,
    }
}

/// Time buckets are the windows of the width asked for, aligned to multiples of it: every
/// row starts at a multiple of the width, and every position is counted, among the
/// offsets, in the row of its partition whose window holds its time — the largest
/// multiple of the width not above it.
pub proof fn law_time_buckets_align_to_the_width(r: TimeBucketsResponse, locs: Seq<LocView>, gran_ms: u64)
    requires
        gran_ms > 0,
        is_time_buckets(r, locs, gran_ms),
    ensures
        r.gran_ms == gran_ms,
        forall|i: int| 0 <= i < r.rows@.len() ==> (#[trigger] r.rows@[i]).gran_start_ms % gran_ms == 0,
        forall|k: int|
            0 <= k < locs.len() ==> exists|i: int|
                0 <= i < r.rows@.len() && (#[trigger] r.rows@[i]).partition == (#[trigger] locs[k]).partition
                    && r.rows@[i].gran_start_ms <= locs[k].ts_millis
                    < r.rows@[i].gran_start_ms + gran_ms
                    && row_lists(r.rows@[i], locs[k].offset),
{
    let tr = time_triples(locs, gran_ms);
    let sorted = tr.sort_by(triple_leq());
    let g = group_rows(sorted);
    lemma_triple_total();
    tr.lemma_sort_by_ensures(triple_leq());
    tr.to_multiset_ensures();
    sorted.to_multiset_ensures();
    lemma_group_rows_from(sorted);
    lemma_group_rows_holds(sorted);
    let views = r.rows@.map_values(|row: TimeBucketRow| time_row_view(row));
    assert(views == time_rows_spec(g));
    assert(views.len() == g.len());
    assert forall|i: int| 0 <= i < r.rows@.len() implies (#[trigger] r.rows@[i]).gran_start_ms % gran_ms == 0 by {
        assert(views[i] == time_rows_spec(g)[i]);
        let j = choose|j: int|
            0 <= j < sorted.len() && (#[trigger] sorted[j]).0 == g[i].0 && sorted[j].1 == g[i].1;
        assert(sorted.contains(sorted[j]));
        assert(tr.contains(sorted[j]));
        let m = choose|m: int| 0 <= m < tr.len() && tr[m] == sorted[j];
        lemma_floor_multiple(locs[m].ts_millis, gran_ms);
    }
    assert forall|k: int| 0 <= k < locs.len() implies exists|i: int|
        0 <= i < r.rows@.len() && (#[trigger] r.rows@[i]).partition == (#[trigger] locs[k]).partition
            && r.rows@[i].gran_start_ms <= locs[k].ts_millis < r.rows@[i].gran_start_ms + gran_ms
            && row_lists(r.rows@[i], locs[k].offset) by {
        lemma_floor_multiple(locs[k].ts_millis, gran_ms);
        assert(tr[k] == (locs[k].partition, ((locs[k].ts_millis / gran_ms) * gran_ms) as u64, locs[k].offset));
        assert(tr.contains(tr[k]));
        assert(tr.to_multiset().count(tr[k]) > 0);
        assert(sorted.to_multiset().count(tr[k]) > 0);
        assert(sorted.contains(tr[k]));
        let j = choose|j: int| 0 <= j < sorted.len() && sorted[j] == tr[k];
        let i = choose|i: int|
            0 <= i < g.len() && (#[trigger] g[i]).0 == (#[trigger] sorted[j]).0 && g[i].1
                == sorted[j].1 && g[i].2.contains(sorted[j].2);
        assert(views[i] == time_rows_spec(g)[i]);
        assert(r.rows@[i].partition == locs[k].partition);
    }
}

// ── Executable ──────────────────────────────────────────────────────────────

fn triple_lt_exec(a: &Triple, b: &Triple) -> (r: bool)
    ensures
        r == !triple_le(*b, *a),
{
    a.0 < b.0 || (a.0 == b.0 && a.1 < b.1) || (a.0 == b.0 && a.1 == b.1 && a.2 < b.2)
}

/// The triples in ascending order.
fn sort_triples(v: Vec<Triple>) -> (r: Vec<Triple>)
    ensures
        r@ == v@.sort_by(triple_leq()),
{
    broadcast use vstd::seq_lib::group_to_multiset_ensures;
    let mut rest = v;
    let ghost input = rest@;
    let mut out: Vec<Triple> = Vec::new();
    let n = rest.len();
    let mut i: usize = 0;
    while i < n
        invariant
            n == input.len(),
            i <= n,
            rest@ == input.subrange(i as int, n as int),
            sorted_by(out@, triple_leq()),
            out@.to_multiset() == input.subrange(0, i as int).to_multiset(),
        decreases n - i,
    {
        let x = rest.remove(0);
        proof {
            assert(x == input[i as int]);
            assert(rest@ =~= input.subrange(i + 1, n as int));
        }
        let mut j: usize = 0;
        while j < out.len() && !triple_lt_exec(&x, &out[j])
            invariant
                j <= out.len(),
                forall|k: int| 0 <= k < j ==> triple_le(#[trigger] out@[k], x),
            decreases out.len() - j,
        {
            j += 1;
        }
        let ghost before = out@;
        out.insert(j, x);
        proof {
            vstd::seq_lib::to_multiset_insert(before, j as int, x);
            let s = input.subrange(0, i + 1);
            assert(s =~= input.subrange(0, i as int).push(x));
            vstd::seq_lib::to_multiset_build(input.subrange(0, i as int), x);
            assert(out@ == before.insert(j as int, x));
            assert forall|a: int, b: int| 0 <= a < b < out@.len() implies (triple_leq())(
                #[trigger] out@[a],
                #[trigger] out@[b],
            ) by {
                if b < j {
                    assert(out@[a] == before[a] && out@[b] == before[b]);
                } else if b == j {
                    assert(out@[a] == before[a]);
                } else if a == j {
                    assert(out@[b] == before[b - 1]);
                    assert(!triple_le(before[j as int], x));
                    if b - 1 > j {
                        assert((triple_leq())(before[j as int], before[b - 1]));
                    }
                } else if a < j {
                    assert(out@[a] == before[a] && out@[b] == before[b - 1]);
                } else {
                    assert(out@[a] == before[a - 1] && out@[b] == before[b - 1]);
                }
            }
        }
        i += 1;
    }
    proof {
        assert(input.subrange(0, n as int) == input);
        lemma_triple_total();
        input.lemma_sort_by_ensures(triple_leq());
        vstd::seq_lib::lemma_sorted_unique(out@, input.sort_by(triple_leq()), triple_leq());
    }
    out
}

pub open spec fn row_views(rows: Seq<(u32, u64, Vec<u64>)>) -> Seq<(u32, u64, Seq<u64>)> {
    rows.map_values(|r: (u32, u64, Vec<u64>)| (r.0, r.1, r.2@))
}

/// Runs of equal `(partition, start)`, each with its offsets.
fn group_sorted(s: &Vec<Triple>) -> (rows: Vec<(u32, u64, Vec<u64>)>)
    ensures
        row_views(rows@) == group_rows(s@),
{
    let mut rows: Vec<(u32, u64, Vec<u64>)> = Vec::new();
    let mut i: usize = 0;
    while i < s.len()
        invariant
            i <= s.len(),
            row_views(rows@) == group_rows(s@.take(i as int)),
        decreases s.len() - i,
    {
        let t = s[i];
        let ghost prev = group_rows(s@.take(i as int));
        proof {
            assert(s@.take(i + 1).drop_last() == s@.take(i as int));
            assert(s@.take(i + 1).last() == t);
        }
        let n = rows.len();
        if n > 0 && rows[n - 1].0 == t.0 && rows[n - 1].1 == t.1 {
            let mut last = rows.pop().unwrap();
            last.2.push(t.2);
            rows.push(last);
            proof {
                assert(row_views(rows@) =~= prev.update(prev.len() - 1, (t.0, t.1, prev.last().2.push(t.2))));
            }
        } else {
            let mut offs: Vec<u64> = Vec::new();
            offs.push(t.2);
            rows.push((t.0, t.1, offs));
            proof {
                assert(row_views(rows@) =~= prev.push((t.0, t.1, seq![t.2])));
            }
        }
        i += 1;
    }
    proof {
        assert(s@.take(s.len() as int) == s@);
    }
    rows
}

/// `r` counts these positions per partition and time bucket of the given width (zero
/// taken as one), with each bucket's offsets in increasing order.
pub open spec fn is_time_buckets(r: TimeBucketsResponse, locs: Seq<LocView>, gran_ms: u64) -> bool {
    let gran = if gran_ms == 0 {
        1
    } else {
        gran_ms
    };
    &&& r.gran_ms == gran
    &&& r.total == locs.len()
    &&& r.rows@.map_values(|row: TimeBucketRow| time_row_view(row)) == time_rows_spec(
        group_rows(time_triples(locs, gran).sort_by(triple_leq())),
    )
    &&& r.delivery_mode == TimeBucketDeliveryMode::OffsetsInline
    &&& r.chosen_plan matches Some(p) && p@ == "mock.time_buckets"@
}

/// `r` counts these positions of a topic per partition and per hundred offsets, with
/// each bucket's offsets in increasing order.
pub open spec fn is_offset_buckets(r: OffsetBucketsResponse, topic: Seq<char>, locs: Seq<LocView>) -> bool {
    &&& r.topic@ == topic
    &&& r.total == locs.len()
    &&& r.partitions@.map_values(|p: PartitionOffsetBuckets| part_view(p)) == group_parts(
        group_rows(offset_triples(locs).sort_by(triple_leq())),
    ).map_values(|g: (u32, Seq<(u64, Seq<u64>)>)| part_spec(g))
    &&& r.delivery_mode == OffsetBucketsDeliveryMode::OffsetsInline
    &&& r.chosen_plan matches Some(p) && p@ == "mock.offset_buckets"@
}

/// Counts per time bucket, with the offsets included. A width of zero counts as one.
pub fn build_time_buckets(locs: &[LocItem], gran_ms: u64) -> (r: TimeBucketsResponse)
    ensures
        is_time_buckets(r, loc_views(locs@), gran_ms),
{
    let gran = if gran_ms == 0 {
        1
    } else {
        gran_ms
    };
    let mut triples: Vec<Triple> = Vec::new();
    let mut i: usize = 0;
    while i < locs.len()
        invariant
            gran > 0,
            i <= locs@.len(),
            triples@ == time_triples(loc_views(locs@), gran).take(i as int),
        decreases locs.len() - i,
    {
        let l = &locs[i];
        proof {
            assert((l.ts_millis / gran) * gran <= l.ts_millis) by (nonlinear_arith)
                requires
                    gran > 0,
            ;
        }
        let start = (l.ts_millis / gran) * gran;
        triples.push((l.partition, start, l.offset));
        proof {
            assert(triples@ =~= time_triples(loc_views(locs@), gran).take(i + 1));
        }
        i += 1;
    }
    proof {
        assert(time_triples(loc_views(locs@), gran).take(locs@.len() as int) == time_triples(loc_views(locs@), gran));
    }
    let sorted = sort_triples(triples);
    let groups = group_sorted(&sorted);
    let mut rows: Vec<TimeBucketRow> = Vec::new();
    let mut k: usize = 0;
    while k < groups.len()
        invariant
            k <= groups.len(),
            rows@.map_values(|row: TimeBucketRow| time_row_view(row)) == time_rows_spec(
                row_views(groups@),
            ).take(k as int),
        decreases groups.len() - k,
    {
        let g = &groups[k];
        let mut offs: Vec<u64> = Vec::new();
        let mut j: usize = 0;
        while j < g.2.len()
            invariant
                j <= g.2.len(),
                offs@ == g.2@.take(j as int),
            decreases g.2.len() - j,
        {
            offs.push(g.2[j]);
            j += 1;
        }
        proof {
            assert(g.2@.take(g.2@.len() as int) == g.2@);
        }
        let row = TimeBucketRow {
            partition: g.0,
            gran_start_ms: g.1,
            count: g.2.len() as u64,
            offsets: Some(offs),
        };
        let ghost prev = rows@.map_values(|row: TimeBucketRow| time_row_view(row));
        rows.push(row);
        proof {
            assert(rows@.map_values(|row: TimeBucketRow| time_row_view(row)) =~= prev.push(
                time_row_view(row),
            ));
            assert(time_rows_spec(row_views(groups@)).take(k + 1) =~= time_rows_spec(
                row_views(groups@),
            ).take(k as int).push(time_rows_spec(row_views(groups@))[k as int]));
        }
        k += 1;
    }
    proof {
        assert(time_rows_spec(row_views(groups@)).take(groups.len() as int) == time_rows_spec(
            row_views(groups@),
        ));
    }
    TimeBucketsResponse {
        gran_ms: gran,
        total: locs.len() as u64,
        rows,
        delivery_mode: TimeBucketDeliveryMode::OffsetsInline,
        chosen_plan: Some(owned("mock.time_buckets")),
    }
}


/// How many offsets a list of partitions holds.
pub open spec fn parts_total(ps: Seq<(u32, Seq<(u64, Seq<u64>)>)>) -> nat
    decreases ps.len(),
{
    if ps.len() == 0 {
        0
    } else {
        parts_total(ps.drop_last()) + buckets_total(ps.last().1)
    }
}

/// Every row keeps a nonempty list, and every partition a nonempty list of rows; the
/// totals add up.
proof fn lemma_group_parts(rows: Seq<(u32, u64, Seq<u64>)>)
    requires
        forall|i: int| 0 <= i < rows.len() ==> #[trigger] rows[i].2.len() > 0,
        forall|i: int| 0 <= i < rows.len() ==> (#[trigger] rows[i]).1 < 18_446_744_073_709_551_501u64,
    ensures
        forall|i: int, k: int|
            0 <= i < group_parts(rows).len() && 0 <= k < group_parts(rows)[i].1.len() ==> (
            #[trigger] group_parts(rows)[i].1[k]).0 < 18_446_744_073_709_551_501u64,
        parts_total(group_parts(rows)) == rows_total(rows),
        forall|i: int| 0 <= i < group_parts(rows).len() ==> (#[trigger] group_parts(rows)[i]).1.len() > 0,
        forall|i: int, k: int|
            0 <= i < group_parts(rows).len() && 0 <= k < group_parts(rows)[i].1.len() ==> (
            #[trigger] group_parts(rows)[i].1[k]).1.len() > 0,
    decreases rows.len(),
{
    if rows.len() > 0 {
        let prev = group_parts(rows.drop_last());
        assert forall|i: int| 0 <= i < rows.drop_last().len() implies #[trigger] rows.drop_last()[i].2.len() > 0
            && rows.drop_last()[i].1 < 18_446_744_073_709_551_501u64 by {
            assert(rows.drop_last()[i] == rows[i]);
        }
        lemma_group_parts(rows.drop_last());
        let r = rows.last();
        assert(r.2.len() > 0);
        assert(rows_total(rows) == rows_total(rows.drop_last()) + r.2.len());
        let g = group_parts(rows);
        if prev.len() > 0 && prev.last().0 == r.0 {
            assert(g.drop_last() == prev.drop_last());
            assert(prev.drop_last().push(prev.last()) == prev);
            let b = prev.last().1;
            assert(b.push((r.1, r.2)).drop_last() == b);
            assert(buckets_total(b.push((r.1, r.2))) == buckets_total(b) + r.2.len());
            assert(parts_total(prev) == parts_total(prev.drop_last()) + buckets_total(b));
            assert(parts_total(g) == parts_total(g.drop_last()) + buckets_total(g.last().1));
        } else {
            assert(g.drop_last() == prev);
            let one = seq![(r.1, r.2)];
            assert(one.drop_last() =~= Seq::<(u64, Seq<u64>)>::empty());
            assert(one.last() == (r.1, r.2));
            assert(buckets_total(Seq::<(u64, Seq<u64>)>::empty()) == 0);
            assert(buckets_total(one) == buckets_total(one.drop_last()) + one.last().1.len());
            assert(buckets_total(one) == r.2.len());
            assert(parts_total(g) == parts_total(g.drop_last()) + buckets_total(g.last().1));
        }
    }
}

proof fn lemma_parts_total_bound(ps: Seq<(u32, Seq<(u64, Seq<u64>)>)>, i: int)
    requires
        0 <= i < ps.len(),
    ensures
        buckets_total(ps[i].1) <= parts_total(ps),
    decreases ps.len(),
{
    if i < ps.len() - 1 {
        lemma_parts_total_bound(ps.drop_last(), i);
    }
}

proof fn lemma_buckets_total_prefix(bs: Seq<(u64, Seq<u64>)>, k: int)
    requires
        0 <= k < bs.len(),
    ensures
        buckets_total(bs.take(k + 1)) == buckets_total(bs.take(k)) + bs[k].1.len(),
        buckets_total(bs.take(k + 1)) <= buckets_total(bs),
    decreases bs.len(),
{
    assert(bs.take(k + 1).drop_last() == bs.take(k));
    if k + 1 < bs.len() {
        lemma_buckets_total_prefix(bs.drop_last(), k);
        assert(bs.drop_last().take(k + 1) == bs.take(k + 1));
        assert(bs.drop_last().take(k) == bs.take(k));
    } else {
        assert(bs.take(k + 1) == bs);
    }
}

pub open spec fn part_views(ps: Seq<(u32, Vec<(u64, Vec<u64>)>)>) -> Seq<(u32, Seq<(u64, Seq<u64>)>)> {
    ps.map_values(
        |p: (u32, Vec<(u64, Vec<u64>)>)|
            (p.0, p.1@.map_values(|b: (u64, Vec<u64>)| (b.0, b.1@))),
    )
}

/// Rows grouped by partition.
fn group_by_partition(rows: Vec<(u32, u64, Vec<u64>)>) -> (ps: Vec<(u32, Vec<(u64, Vec<u64>)>)>)
    ensures
        part_views(ps@) == group_parts(row_views(rows@)),
{
    let ghost all = row_views(rows@);
    let mut rest = rows;
    let mut ps: Vec<(u32, Vec<(u64, Vec<u64>)>)> = Vec::new();
    let n = rest.len();
    let mut i: usize = 0;
    while i < n
        invariant
            n == all.len(),
            i <= n,
            row_views(rest@) == all.subrange(i as int, n as int),
            part_views(ps@) == group_parts(all.take(i as int)),
        decreases n - i,
    {
        let ghost before = rest@;
        proof {
            assert(row_views(before).len() == before.len());
            assert(row_views(before)[0] == all[i as int]);
        }
        let r = rest.remove(0);
        proof {
            assert(rest@ == before.remove(0));
            assert(row_views(rest@) =~= all.subrange(i + 1, n as int)) by {
                assert forall|k: int| 0 <= k < rest@.len() implies row_views(rest@)[k]
                    == all.subrange(i + 1, n as int)[k] by {
                    assert(rest@[k] == before[k + 1]);
                    assert(row_views(before)[k + 1] == all.subrange(i as int, n as int)[k + 1]);
                }
            }
            assert(all.take(i + 1).drop_last() == all.take(i as int));
            assert(all.take(i + 1).last() == all[i as int]);
        }
        let ghost prev = group_parts(all.take(i as int));
        proof {
            assert(all[i as int] == (r.0, r.1, r.2@));
        }
        let ghost rv2 = r.2@;
        let np = ps.len();
        let ghost old_ps = ps@;
        if np > 0 && ps[np - 1].0 == r.0 {
            let mut last = ps.pop().unwrap();
            proof {
                assert(last == old_ps.last());
                assert(ps@ == old_ps.drop_last());
            }
            let ghost old_last_bs = last.1@;
            last.1.push((r.1, r.2));
            ps.push(last);
            proof {
                let lv = (last.0, last.1@.map_values(|b: (u64, Vec<u64>)| (b.0, b.1@)));
                assert(last.1@ == old_last_bs.push((all[i as int].1, last.1@.last().1)));
                assert(lv.1 =~= old_last_bs.map_values(|b: (u64, Vec<u64>)| (b.0, b.1@)).push((all[i as int].1, rv2)));
                assert(part_views(old_ps).last() == (old_ps.last().0, old_last_bs.map_values(|b: (u64, Vec<u64>)| (b.0, b.1@))));
                assert(part_views(ps@) =~= part_views(old_ps).update(old_ps.len() - 1, lv));
                assert(part_views(ps@) =~= prev.update(prev.len() - 1, (r.0, prev.last().1.push((all[i as int].1, all[i as int].2)))));
            }
        } else {
            let mut bs: Vec<(u64, Vec<u64>)> = Vec::new();
            bs.push((r.1, r.2));
            ps.push((r.0, bs));
            proof {
                assert(bs@.map_values(|b: (u64, Vec<u64>)| (b.0, b.1@)) =~= seq![(all[i as int].1, all[i as int].2)]);
                assert(part_views(ps@) =~= prev.push((r.0, seq![(all[i as int].1, all[i as int].2)])));
            }
        }
        i += 1;
    }
    proof {
        assert(all.take(n as int) == all);
    }
    ps
}

/// Counts per offset range of a hundred, with the offsets included.
pub fn build_offset_buckets(topic: &str, locs: &[LocItem]) -> (r: OffsetBucketsResponse)
    requires
        forall|i: int| 0 <= i < locs@.len() ==> (#[trigger] locs@[i]).offset < 18_446_744_073_709_551_600u64,
    ensures
        is_offset_buckets(r, topic@, loc_views(locs@)),
{
    let nlocs = locs.len();
    let mut triples: Vec<Triple> = Vec::new();
    let mut i: usize = 0;
    while i < locs.len()
        invariant
            i <= locs@.len(),
            triples@ == offset_triples(loc_views(locs@)).take(i as int),
            forall|k: int| 0 <= k < triples@.len() ==> (#[trigger] triples@[k]).1 < 18_446_744_073_709_551_501u64,
            forall|i: int| 0 <= i < locs@.len() ==> (#[trigger] locs@[i]).offset < 18_446_744_073_709_551_600u64,
        decreases locs.len() - i,
    {
        let l = &locs[i];
        proof {
            assert((l.offset / 100) * 100 < 18_446_744_073_709_551_501u64) by (nonlinear_arith)
                requires
                    l.offset < 18_446_744_073_709_551_600u64,
            ;
        }
        let from = (l.offset / 100) * 100;
        triples.push((l.partition, from, l.offset));
        proof {
            assert(triples@ =~= offset_triples(loc_views(locs@)).take(i + 1));
        }
        i += 1;
    }
    proof {
        assert(offset_triples(loc_views(locs@)).take(locs@.len() as int) == offset_triples(loc_views(locs@)));
    }
    let ghost sorted_spec = offset_triples(loc_views(locs@)).sort_by(triple_leq());
    let sorted = sort_triples(triples);
    proof {
        lemma_triple_total();
        offset_triples(loc_views(locs@)).lemma_sort_by_ensures(triple_leq());
        assert forall|k: int| 0 <= k < sorted_spec.len() implies (#[trigger] sorted_spec[k]).1 < 18_446_744_073_709_551_501u64 by {
            assert(sorted_spec.contains(sorted_spec[k]));
            assert(offset_triples(loc_views(locs@)).contains(sorted_spec[k]));
        }
    }
    let rows = group_sorted(&sorted);
    let ghost rv = row_views(rows@);
    proof {
        lemma_group_rows(sorted@);
        assert forall|i: int| 0 <= i < rv.len() implies (#[trigger] rv[i]).1 < 18_446_744_073_709_551_501u64 && rv[i].2.len() > 0 by {
            assert(rv[i] == group_rows(sorted@)[i]);
        }
        lemma_group_parts(rv);
        sorted_spec.to_multiset_ensures();
        offset_triples(loc_views(locs@)).to_multiset_ensures();
    }
    let parts = group_by_partition(rows);
    let ghost pv = part_views(parts@);
    let mut out: Vec<PartitionOffsetBuckets> = Vec::new();
    let mut p: usize = 0;
    while p < parts.len()
        invariant
            p <= parts.len(),
            nlocs == locs@.len(),
            pv == part_views(parts@),
            pv == group_parts(rv),
            parts_total(pv) == locs@.len(),
            forall|a: int| 0 <= a < pv.len() ==> (#[trigger] pv[a]).1.len() > 0,
            forall|a: int, k: int|
                0 <= a < pv.len() && 0 <= k < pv[a].1.len() ==> (#[trigger] pv[a].1[k]).1.len() > 0,
            forall|a: int, k: int|
                0 <= a < pv.len() && 0 <= k < pv[a].1.len() ==> (#[trigger] pv[a].1[k]).0 < 18_446_744_073_709_551_501u64,
            out@.map_values(|q: PartitionOffsetBuckets| part_view(q)) == pv.map_values(
                |g: (u32, Seq<(u64, Seq<u64>)>)| part_spec(g),
            ).take(p as int),
        decreases parts.len() - p,
    {
        let (partition, bs) = &parts[p];
        let ghost g = pv[p as int];
        proof {
            lemma_parts_total_bound(pv, p as int);
        }
        let mut buckets: Vec<OffsetBucket> = Vec::new();
        let mut count: u64 = 0;
        let mut k: usize = 0;
        while k < bs.len()
            invariant
                k <= bs.len(),
                nlocs == locs@.len(),
                g == pv[p as int],
                g.1 == bs@.map_values(|b: (u64, Vec<u64>)| (b.0, b.1@)),
                forall|k2: int| 0 <= k2 < g.1.len() ==> (#[trigger] g.1[k2]).0 < 18_446_744_073_709_551_501u64,
                buckets_total(g.1) <= locs@.len(),
                count == buckets_total(g.1.take(k as int)),
                buckets@.map_values(|b: OffsetBucket| bucket_view(b)) == part_spec(g).buckets.take(k as int),
            decreases bs.len() - k,
        {
            let (from, offs) = &bs[k];
            proof {
                lemma_buckets_total_prefix(g.1, k as int);
                assert(g.1[k as int] == (*from, offs@));
                assert(g.1[k as int].0 < 18_446_744_073_709_551_501u64);
                assert(count + offs@.len() == buckets_total(g.1.take(k + 1)));
                assert(count + offs@.len() <= locs@.len());
            }
            let mut copy: Vec<u64> = Vec::new();
            let mut j: usize = 0;
            while j < offs.len()
                invariant
                    j <= offs.len(),
                    copy@ == offs@.take(j as int),
                decreases offs.len() - j,
            {
                copy.push(offs[j]);
                j += 1;
            }
            proof {
                assert(offs@.take(offs@.len() as int) == offs@);
            }
            proof {
                assert(count + offs@.len() <= locs@.len());
                assert(*from < 18_446_744_073_709_551_501u64);
            }
            count = count + offs.len() as u64;
            let b = OffsetBucket {
                from_offset: *from,
                to_offset: *from + 99,
                count: offs.len() as u32,
                offsets: Some(copy),
            };
            let ghost prev = buckets@.map_values(|b: OffsetBucket| bucket_view(b));
            buckets.push(b);
            proof {
                assert(buckets@.map_values(|b: OffsetBucket| bucket_view(b)) =~= prev.push(bucket_view(b)));
                assert(part_spec(g).buckets.take(k + 1) =~= part_spec(g).buckets.take(k as int).push(part_spec(g).buckets[k as int]));
            }
            k += 1;
        }
        proof {
            assert(g.1.take(bs@.len() as int) == g.1);
            assert(part_spec(g).buckets.take(bs@.len() as int) == part_spec(g).buckets);
        }
        let first = &bs[0].1;
        let last = &bs[bs.len() - 1].1;
        let pob = PartitionOffsetBuckets {
            partition: *partition,
            count,
            min_offset: first[0],
            max_offset: last[last.len() - 1],
            bucket_unit: 100,
            buckets,
        };
        let ghost prev = out@.map_values(|q: PartitionOffsetBuckets| part_view(q));
        out.push(pob);
        proof {
            assert(part_view(pob) == part_spec(g));
            assert(out@.map_values(|q: PartitionOffsetBuckets| part_view(q)) =~= prev.push(part_view(pob)));
            let all = pv.map_values(|g: (u32, Seq<(u64, Seq<u64>)>)| part_spec(g));
            assert(all.take(p + 1) =~= all.take(p as int).push(all[p as int]));
        }
        p += 1;
    }
    proof {
        let all = pv.map_values(|g: (u32, Seq<(u64, Seq<u64>)>)| part_spec(g));
        assert(all.take(parts.len() as int) == all);
    }
    OffsetBucketsResponse {
        topic: owned(topic),
        total: locs.len() as u64,
        partitions: out,
        delivery_mode: OffsetBucketsDeliveryMode::OffsetsInline,
        chosen_plan: Some(owned("mock.offset_buckets")),
    }
}
} // verus!
