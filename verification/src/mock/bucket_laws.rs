//! What the offset grouping guarantees: ranges of a hundred offsets, aligned, each under
//! its partition, with every position listed in the range that holds it.

use vstd::prelude::*;

use crate::mock::buckets::{
    group_parts, group_rows, is_offset_buckets, lemma_group_rows_from, lemma_group_rows_holds,
    lemma_triple_total, offset_triples, part_spec, part_view, bucket_view, triple_leq,
};
use crate::search::{LocView, OffsetBucket, OffsetBucketsResponse, PartitionOffsetBuckets};

verus! {

/// Every partition's range comes from some row of that partition.
proof fn lemma_group_parts_from(rows: Seq<(u32, u64, Seq<u64>)>)
    ensures
        forall|i: int, j: int|
            #![trigger group_parts(rows)[i].1[j]]
            0 <= i < group_parts(rows).len() && 0 <= j < group_parts(rows)[i].1.len() ==> exists|r: int|
                0 <= r < rows.len() && (#[trigger] rows[r]).0 == group_parts(rows)[i].0 && rows[r].1
                    == group_parts(rows)[i].1[j].0 && rows[r].2 == group_parts(rows)[i].1[j].1,
    decreases rows.len(),
{
    if rows.len() > 0 {
        let init = rows.drop_last();
        let prev = group_parts(init);
        lemma_group_parts_from(init);
        let g = group_parts(rows);
        let n = rows.len() - 1;
        let last = rows[n];
        let merged = prev.len() > 0 && prev.last().0 == last.0;
        assert forall|i: int, j: int| #![trigger g[i].1[j]] 0 <= i < g.len() && 0 <= j < g[i].1.len() implies exists|r: int|
            0 <= r < rows.len() && (#[trigger] rows[r]).0 == g[i].0 && rows[r].1
                == g[i].1[j].0 && rows[r].2 == g[i].1[j].1 by {
            if merged && i == prev.len() - 1 {
                assert(g[i].1 == prev[i].1.push((last.1, last.2)));
                if j < prev[i].1.len() {
                    assert(g[i].1[j] == prev[i].1[j]);
                    assert(prev[i].1[j] == prev[i].1[j]);
                    let r = choose|r: int| 0 <= r < init.len() && (#[trigger] init[r]).0 == prev[i].0
                        && init[r].1 == prev[i].1[j].0 && init[r].2 == prev[i].1[j].1;
                    assert(init[r] == rows[r]);
                } else {
                    assert(g[i].1[j] == (rows[n].1, rows[n].2));
                }
            } else if i < prev.len() {
                assert(g[i] == prev[i]);
                assert(prev[i].1[j] == prev[i].1[j]);
                let r = choose|r: int| 0 <= r < init.len() && (#[trigger] init[r]).0 == prev[i].0
                    && init[r].1 == prev[i].1[j].0 && init[r].2 == prev[i].1[j].1;
                assert(init[r] == rows[r]);
            } else {
                assert(g[i] == (last.0, seq![(last.1, last.2)]));
                assert(g[i].1[j] == (rows[n].1, rows[n].2));
            }
        }
    }
}

/// Every row is a range of its partition's entry.
proof fn lemma_group_parts_holds(rows: Seq<(u32, u64, Seq<u64>)>)
    ensures
        forall|r: int|
            #![trigger rows[r]]
            0 <= r < rows.len() ==> exists|i: int, j: int|
                0 <= i < group_parts(rows).len() && 0 <= j < group_parts(rows)[i].1.len()
                    && group_parts(rows)[i].0 == rows[r].0
                    && #[trigger] group_parts(rows)[i].1[j].0 == rows[r].1 && group_parts(rows)[i].1[j].1 == rows[r].2,
    decreases rows.len(),
{
    if rows.len() > 0 {
        let init = rows.drop_last();
        let prev = group_parts(init);
        lemma_group_parts_holds(init);
        let g = group_parts(rows);
        let n = rows.len() - 1;
        let last = rows[n];
        let merged = prev.len() > 0 && prev.last().0 == last.0;
        assert forall|r: int| #![trigger rows[r]] 0 <= r < rows.len() implies exists|i: int, j: int|
            0 <= i < g.len() && 0 <= j < g[i].1.len() && g[i].0 == rows[r].0
                && #[trigger] g[i].1[j].0 == rows[r].1 && g[i].1[j].1 == rows[r].2 by {
            if r < n {
                assert(init[r] == rows[r]);
                let (i, j) = choose|i: int, j: int|
                    0 <= i < prev.len() && 0 <= j < prev[i].1.len() && prev[i].0
                        == init[r].0 && #[trigger] prev[i].1[j].0 == init[r].1 && prev[i].1[j].1 == init[r].2;
                if merged && i == prev.len() - 1 {
                    assert(g[i].1 == prev[i].1.push((last.1, last.2)));
                    assert(g[i].1[j] == prev[i].1[j]);
                    assert(g[i].0 == rows[r].0);
                } else {
                    assert(g[i] == prev[i]);
                }
                assert(g[i].1[j].0 == rows[r].1 && g[i].1[j].1 == rows[r].2 && g[i].0 == rows[r].0);
            } else {
                if merged {
                    let i = prev.len() - 1;
                    assert(g[i].1 == prev[i].1.push((last.1, last.2)));
                    let j = g[i].1.len() - 1;
                    assert(g[i].1[j] == (rows[r].1, rows[r].2));
                    assert(g[i].0 == rows[r].0);
                    assert(g[i].1[j].0 == rows[r].1 && g[i].1[j].1 == rows[r].2);
                } else {
                    let i = prev.len() as int;
                    assert(g[i] == (last.0, seq![(last.1, last.2)]));
                    assert(g[i].1[0] == (rows[r].1, rows[r].2));
                    assert(g[i].1[0].0 == rows[r].1 && g[i].1[0].1 == rows[r].2 && g[i].0 == rows[r].0);
                }
            }
        }
    }
}

/// The groups a response was built from.
pub open spec fn offset_groups(locs: Seq<LocView>) -> Seq<(u32, Seq<(u64, Seq<u64>)>)> {
    group_parts(group_rows(offset_triples(locs).sort_by(triple_leq())))
}

proof fn lemma_entry_count(r: OffsetBucketsResponse, topic: Seq<char>, locs: Seq<LocView>)
    requires
        is_offset_buckets(r, topic, locs),
    ensures
        r.partitions@.len() == offset_groups(locs).len(),
{
    let pv = r.partitions@.map_values(|p: PartitionOffsetBuckets| part_view(p));
    assert(pv.len() == offset_groups(locs).map_values(|x: (u32, Seq<(u64, Seq<u64>)>)| part_spec(x)).len());
}

/// What one entry and one range of the response hold, read off its groups.
proof fn lemma_entry(r: OffsetBucketsResponse, topic: Seq<char>, locs: Seq<LocView>, i: int)
    requires
        is_offset_buckets(r, topic, locs),
        0 <= i < r.partitions@.len(),
    ensures
        r.partitions@.len() == offset_groups(locs).len(),
        r.partitions@[i].partition == offset_groups(locs)[i].0,
        r.partitions@[i].buckets@.len() == offset_groups(locs)[i].1.len(),
        forall|j: int| 0 <= j < r.partitions@[i].buckets@.len() ==> {
            let b = #[trigger] r.partitions@[i].buckets@[j];
            &&& b.from_offset == offset_groups(locs)[i].1[j].0
            &&& b.to_offset == (offset_groups(locs)[i].1[j].0 + 99) as u64
            &&& b.offsets matches Some(o) && o@ == offset_groups(locs)[i].1[j].1
        },
{
    let g = offset_groups(locs);
    let pv = r.partitions@.map_values(|p: PartitionOffsetBuckets| part_view(p));
    assert(pv == g.map_values(|x: (u32, Seq<(u64, Seq<u64>)>)| part_spec(x)));
    assert(pv.len() == g.len());
    assert(pv[i] == part_spec(g[i]));
    let bs = r.partitions@[i].buckets@;
    assert(bs.map_values(|b: OffsetBucket| bucket_view(b)) == part_spec(g[i]).buckets);
    assert forall|j: int| 0 <= j < bs.len() implies {
        let b = #[trigger] bs[j];
        &&& b.from_offset == g[i].1[j].0
        &&& b.to_offset == (g[i].1[j].0 + 99) as u64
        &&& b.offsets matches Some(o) && o@ == g[i].1[j].1
    } by {
        assert(bucket_view(bs[j]) == part_spec(g[i]).buckets[j]);
    }
}

/// Sorting keeps the same positions.
proof fn lemma_same_elements(tr: Seq<(u32, u64, u64)>)
    ensures
        forall|x: (u32, u64, u64)| #[trigger] tr.sort_by(triple_leq()).contains(x) <==> tr.contains(x),
{
    let sorted = tr.sort_by(triple_leq());
    lemma_triple_total();
    tr.lemma_sort_by_ensures(triple_leq());
    tr.to_multiset_ensures();
    sorted.to_multiset_ensures();
    assert forall|x: (u32, u64, u64)| #[trigger] sorted.contains(x) <==> tr.contains(x) by {
        assert(sorted.contains(x) <==> sorted.to_multiset().count(x) > 0);
        assert(tr.contains(x) <==> tr.to_multiset().count(x) > 0);
    }
}

/// Grouping twice, by partition and start and then by partition: each range comes from a
/// position.
proof fn lemma_ranges_from_positions(s: Seq<(u32, u64, u64)>)
    ensures
        forall|i: int, j: int|
            #![trigger group_parts(group_rows(s))[i].1[j]]
            0 <= i < group_parts(group_rows(s)).len() && 0 <= j < group_parts(group_rows(s))[i].1.len()
                ==> exists|t: int| 0 <= t < s.len() && (#[trigger] s[t]).1 == group_parts(group_rows(s))[i].1[j].0,
{
    let rows = group_rows(s);
    let g = group_parts(rows);
    assert forall|i: int, j: int|
        #![trigger g[i].1[j]]
        0 <= i < g.len() && 0 <= j < g[i].1.len()
        implies exists|t: int| 0 <= t < s.len() && (#[trigger] s[t]).1 == g[i].1[j].0 by {
        lemma_group_parts_from(rows);
        assert(g[i].1[j] == g[i].1[j]);
        let x = choose|x: int| 0 <= x < rows.len() && (#[trigger] rows[x]).0 == g[i].0 && rows[x].1
            == g[i].1[j].0 && rows[x].2 == g[i].1[j].1;
        lemma_group_rows_from(s);
        assert(rows[x] == rows[x]);
        let t = choose|t: int| 0 <= t < s.len() && (#[trigger] s[t]).0 == (#[trigger] rows[x]).0
            && s[t].1 == rows[x].1;
    }
}

/// Grouping twice: each position lands, with its offset, in the range of its partition and
/// start.
proof fn lemma_positions_in_ranges(s: Seq<(u32, u64, u64)>)
    ensures
        forall|t: int|
            #![trigger s[t]]
            0 <= t < s.len() ==> exists|i: int, j: int|
                0 <= i < group_parts(group_rows(s)).len() && 0 <= j < group_parts(group_rows(s))[i].1.len()
                    && group_parts(group_rows(s))[i].0 == s[t].0
                    && #[trigger] group_parts(group_rows(s))[i].1[j].0 == s[t].1
                    && group_parts(group_rows(s))[i].1[j].1.contains(s[t].2),
{
    let rows = group_rows(s);
    let g = group_parts(rows);
    assert forall|t: int|
        #![trigger s[t]]
        0 <= t < s.len() implies exists|i: int, j: int|
            0 <= i < g.len() && 0 <= j < g[i].1.len() && g[i].0 == s[t].0
                && #[trigger] g[i].1[j].0 == s[t].1 && g[i].1[j].1.contains(s[t].2) by {
        lemma_group_rows_holds(s);
        assert(s[t] == s[t]);
        let x = choose|x: int|
            0 <= x < rows.len() && (#[trigger] rows[x]).0 == (#[trigger] s[t]).0 && rows[x].1
                == s[t].1 && rows[x].2.contains(s[t].2);
        lemma_group_parts_holds(rows);
        assert(rows[x] == rows[x]);
        let (i, j) = choose|i: int, j: int|
            0 <= i < g.len() && 0 <= j < g[i].1.len() && g[i].0 == rows[x].0
                && #[trigger] g[i].1[j].0 == rows[x].1 && g[i].1[j].1 == rows[x].2;
    }
}

/// Whether a range lists this offset among its offsets.
pub open spec fn bucket_lists(b: OffsetBucket, offset: u64) -> bool {
    match b.offsets {
        Some(o) => o@.contains(offset),
        None => false,
    }
}

/// Offset buckets are ranges of a hundred offsets aligned to multiples of a hundred, each
/// under its partition: every range starts at a multiple of a hundred and ends ninety-nine
/// later, and every position is listed, in its partition's entry, in the range that holds
/// its offset.
pub proof fn law_offset_buckets_are_aligned_hundreds(r: OffsetBucketsResponse, topic: Seq<char>, locs: Seq<LocView>)
    requires
        is_offset_buckets(r, topic, locs),
        forall|k: int| 0 <= k < locs.len() ==> (#[trigger] locs[k]).offset < 18_446_744_073_709_551_600u64,
    ensures
        forall|i: int, j: int|
            0 <= i < r.partitions@.len() && 0 <= j < r.partitions@[i].buckets@.len() ==> {
                let b = #[trigger] r.partitions@[i].buckets@[j];
                b.from_offset % 100 == 0 && b.to_offset == b.from_offset + 99
            },
        forall|k: int|
            #![trigger locs[k]]
            0 <= k < locs.len() ==> exists|i: int, j: int|
                0 <= i < r.partitions@.len() && 0 <= j < r.partitions@[i].buckets@.len()
                    && r.partitions@[i].partition == locs[k].partition
                    && r.partitions@[i].buckets@[j].from_offset <= locs[k].offset
                    <= r.partitions@[i].buckets@[j].to_offset
                    && #[trigger] bucket_lists(r.partitions@[i].buckets@[j], locs[k].offset),
{
    let tr = offset_triples(locs);
    let sorted = tr.sort_by(triple_leq());
    let g = offset_groups(locs);
    lemma_same_elements(tr);
    assert forall|i: int, j: int|
        0 <= i < r.partitions@.len() && 0 <= j < r.partitions@[i].buckets@.len() implies {
            let b = #[trigger] r.partitions@[i].buckets@[j];
            b.from_offset % 100 == 0 && b.to_offset == b.from_offset + 99
        } by {
        lemma_entry(r, topic, locs, i);
        lemma_ranges_from_positions(sorted);
        assert(g[i].1[j] == g[i].1[j]);
        let t = choose|t: int| 0 <= t < sorted.len() && (#[trigger] sorted[t]).1 == g[i].1[j].0;
        assert(sorted.contains(sorted[t]));
        assert(tr.contains(sorted[t]));
        let m = choose|m: int| 0 <= m < tr.len() && tr[m] == sorted[t];
        let off = locs[m].offset;
        assert(tr[m] == (locs[m].partition, ((off / 100) * 100) as u64, off));
        assert((off / 100) * 100 <= off) by (nonlinear_arith);
        assert(((off / 100) * 100) % 100 == 0) by (nonlinear_arith);
    }
    assert forall|k: int| #![trigger locs[k]] 0 <= k < locs.len() implies exists|i: int, j: int|
        0 <= i < r.partitions@.len() && 0 <= j < r.partitions@[i].buckets@.len()
            && r.partitions@[i].partition == locs[k].partition
            && r.partitions@[i].buckets@[j].from_offset <= locs[k].offset
            <= r.partitions@[i].buckets@[j].to_offset
            && #[trigger] bucket_lists(r.partitions@[i].buckets@[j], locs[k].offset) by {
        let off = locs[k].offset;
        assert((off / 100) * 100 <= off) by (nonlinear_arith);
        assert(off < (off / 100) * 100 + 100) by (nonlinear_arith);
        assert(tr[k] == (locs[k].partition, ((off / 100) * 100) as u64, off));
        assert(tr.contains(tr[k]));
        assert(sorted.contains(tr[k]));
        let t = choose|t: int| 0 <= t < sorted.len() && sorted[t] == tr[k];
        lemma_entry_count(r, topic, locs);
        lemma_positions_in_ranges(sorted);
        assert(sorted[t] == sorted[t]);
        let (i, j) = choose|i: int, j: int|
            0 <= i < g.len() && 0 <= j < g[i].1.len() && g[i].0 == sorted[t].0
                && #[trigger] g[i].1[j].0 == sorted[t].1 && g[i].1[j].1.contains(sorted[t].2);
        lemma_entry(r, topic, locs, i);
        let b = r.partitions@[i].buckets@[j];
        assert(bucket_lists(b, off));
    }
}
} // verus!
