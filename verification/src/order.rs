//! Searching and ordering lists: the first element that passes a test, a stable sort by a
//! "strictly before" relation, and sorted sets of text.

use vstd::prelude::*;

use crate::text::{
    lemma_seq_le_antisym, lemma_seq_le_refl, lemma_seq_le_total, lemma_seq_le_trans, seq_le,
    seq_lt, str_eq, str_le, views,
};

verus! {

/// The index of the first element of `s` satisfying `p`; `s.len()` if there is none.
pub open spec fn first_index<A>(s: Seq<A>, p: spec_fn(A) -> bool) -> nat
    decreases s.len(),
{
    if s.len() == 0 {
        0
    } else if p(s[0]) {
        0
    } else {
        1 + first_index(s.drop_first(), p)
    }
}

/// `j` is the first index whose element passes.
pub proof fn lemma_first_index<A>(s: Seq<A>, p: spec_fn(A) -> bool, j: int)
    requires
        0 <= j <= s.len(),
        forall|k: int| 0 <= k < j ==> !p(#[trigger] s[k]),
        j == s.len() || p(s[j]),
    ensures
        first_index(s, p) == j,
    decreases j,
{
    if j > 0 {
        assert forall|k: int| 0 <= k < j - 1 implies !p(#[trigger] s.drop_first()[k]) by {
            assert(s.drop_first()[k] == s[k + 1]);
        }
        if j < s.len() {
            assert(s.drop_first()[j - 1] == s[j]);
        }
        assert(!p(s[0]));
        lemma_first_index(s.drop_first(), p, j - 1);
    }
}

/// What `first_index` says about the elements before it and at it.
pub proof fn lemma_first_index_props<A>(s: Seq<A>, p: spec_fn(A) -> bool)
    ensures
        first_index(s, p) <= s.len(),
        forall|k: int| 0 <= k < first_index(s, p) ==> !p(#[trigger] s[k]),
        first_index(s, p) < s.len() ==> p(s[first_index(s, p) as int]),
    decreases s.len(),
{
    if s.len() > 0 && !p(s[0]) {
        lemma_first_index_props(s.drop_first(), p);
        assert forall|k: int| 0 <= k < first_index(s, p) implies !p(#[trigger] s[k]) by {
            if k > 0 {
                assert(s[k] == s.drop_first()[k - 1]);
            }
        }
    }
}

/// Where the first passing element of `s.push(e)` is, from where it is in `s`.
pub proof fn lemma_first_index_push<A>(s: Seq<A>, p: spec_fn(A) -> bool, e: A)
    ensures
        first_index(s.push(e), p) == (if first_index(s, p) < s.len() {
            first_index(s, p)
        } else if p(e) {
            s.len()
        } else {
            s.len() + 1
        }),
{
    lemma_first_index_props(s, p);
    let t = s.push(e);
    let j = first_index(s, p) as int;
    assert forall|k: int| 0 <= k < j implies !p(#[trigger] t[k]) by {
        assert(t[k] == s[k]);
    }
    if j < s.len() {
        assert(t[j] == s[j]);
        lemma_first_index(t, p, j);
    } else if p(e) {
        assert(t[j] == e);
        lemma_first_index(t, p, j);
    } else {
        assert forall|k: int| 0 <= k < t.len() implies !p(#[trigger] t[k]) by {
            if k < s.len() {
                assert(t[k] == s[k]);
            }
        }
        lemma_first_index(t, p, t.len() as int);
    }
}

/// `s` stably sorted: each element goes before the first element it is strictly before,
/// so elements that are not ordered either way keep the order they came in.
pub open spec fn stable_sort<A>(s: Seq<A>, before: spec_fn(A, A) -> bool) -> Seq<A>
    decreases s.len(),
{
    if s.len() == 0 {
        s
    } else {
        let t = stable_sort(s.drop_last(), before);
        let x = s.last();
        t.insert(first_index(t, |y: A| before(x, y)) as int, x)
    }
}

/// `s` is ordered by `before`: no element is strictly before one that comes earlier.
pub open spec fn ordered_by<A>(s: Seq<A>, before: spec_fn(A, A) -> bool) -> bool {
    forall|i: int, j: int| 0 <= i < j < s.len() ==> !before(#[trigger] s[j], #[trigger] s[i])
}

/// `before` is a strict order: never reflexive, and transitive.
pub open spec fn strict_order<A>(before: spec_fn(A, A) -> bool) -> bool {
    &&& forall|a: A| !#[trigger] before(a, a)
    &&& forall|a: A, b: A, c: A| #[trigger] before(a, b) && #[trigger] before(b, c) ==> before(a, c)
}

/// A stable sort by a strict order keeps every element, as many times as it came, and
/// puts them in order.
pub proof fn law_stable_sort<A>(s: Seq<A>, before: spec_fn(A, A) -> bool)
    requires
        strict_order(before),
    ensures
        stable_sort(s, before).to_multiset() =~= s.to_multiset(),
        stable_sort(s, before).len() == s.len(),
        ordered_by(stable_sort(s, before), before),
    decreases s.len(),
{
    broadcast use vstd::seq_lib::group_to_multiset_ensures;
    if s.len() > 0 {
        let t = stable_sort(s.drop_last(), before);
        law_stable_sort(s.drop_last(), before);
        let x = s.last();
        let q = |y: A| before(x, y);
        let p = first_index(t, q) as int;
        lemma_first_index_props(t, q);
        vstd::seq_lib::to_multiset_insert(t, p, x);
        assert(s.drop_last().push(x) == s);
        let u = t.insert(p, x);
        assert(stable_sort(s, before) == u);
        assert forall|i: int, j: int| 0 <= i < j < u.len() implies !before(#[trigger] u[j], #[trigger] u[i]) by {
            if j < p {
                assert(u[i] == t[i] && u[j] == t[j]);
            } else if j == p {
                assert(u[j] == x && u[i] == t[i]);
                assert(!q(t[i]));
            } else if i == p {
                assert(u[i] == x && u[j] == t[j - 1]);
                assert(q(t[p]));
                if before(t[j - 1], x) {
                    assert(before(t[j - 1], t[p]));
                    if j - 1 == p {
                        assert(before(t[p], t[p]));
                    }
                }
            } else if i < p {
                assert(u[i] == t[i] && u[j] == t[j - 1]);
            } else {
                assert(u[i] == t[i - 1] && u[j] == t[j - 1]);
            }
        }
    }
}

/// The set of texts in `s`, strictly increasing: what collecting into an ordered set
/// gives.
pub open spec fn sorted_insert(s: Seq<Seq<char>>, x: Seq<char>) -> Seq<Seq<char>> {
    let j = first_index(s, |y: Seq<char>| seq_le(x, y));
    if j < s.len() && s[j as int] == x {
        s
    } else {
        s.insert(j as int, x)
    }
}

pub open spec fn sorted_set(s: Seq<Seq<char>>) -> Seq<Seq<char>>
    decreases s.len(),
{
    if s.len() == 0 {
        Seq::empty()
    } else {
        sorted_insert(sorted_set(s.drop_last()), s.last())
    }
}

pub open spec fn strictly_increasing(s: Seq<Seq<char>>) -> bool {
    forall|i: int, j: int| 0 <= i < j < s.len() ==> seq_lt(#[trigger] s[i], #[trigger] s[j])
}

proof fn lemma_sorted_insert(s: Seq<Seq<char>>, x: Seq<char>)
    requires
        strictly_increasing(s),
    ensures
        strictly_increasing(sorted_insert(s, x)),
        sorted_insert(s, x).to_set() == s.to_set().insert(x),
{
    let p = |y: Seq<char>| seq_le(x, y);
    lemma_first_index_props(s, p);
    let j = first_index(s, p) as int;
    let r = sorted_insert(s, x);
    if j < s.len() && s[j] == x {
        assert(s.to_set() =~= s.to_set().insert(x)) by {
            assert(s.contains(x));
        }
    } else {
        assert(r == s.insert(j, x));
        assert forall|a: int, b: int| 0 <= a < b < r.len() implies seq_lt(#[trigger] r[a], #[trigger] r[b]) by {
            if b < j {
                assert(r[a] == s[a] && r[b] == s[b]);
            } else if b == j {
                assert(r[a] == s[a] && r[b] == x);
                assert(!seq_le(x, s[a]));
                lemma_seq_le_total(x, s[a]);
            } else if a == j {
                assert(r[a] == x && r[b] == s[b - 1]);
                assert(seq_le(x, s[j]));
                assert(x != s[j]);
                if b - 1 > j {
                    assert(seq_lt(s[j], s[b - 1]));
                    lemma_seq_le_trans(x, s[j], s[b - 1]);
                    if x == s[b - 1] {
                        lemma_seq_le_antisym(x, s[j]);
                    }
                }
            } else if a < j {
                assert(r[a] == s[a] && r[b] == s[b - 1]);
            } else {
                assert(r[a] == s[a - 1] && r[b] == s[b - 1]);
            }
        }
        assert(r.to_set() =~= s.to_set().insert(x)) by {
            assert forall|y: Seq<char>| r.to_set().contains(y) implies s.to_set().insert(x).contains(y) by {
                let k = choose|k: int| 0 <= k < r.len() && r[k] == y;
                if k < j {
                    assert(s[k] == y);
                } else if k > j {
                    assert(s[k - 1] == y);
                }
            }
            assert forall|y: Seq<char>| s.to_set().insert(x).contains(y) implies r.to_set().contains(y) by {
                if y == x {
                    assert(r[j] == x);
                } else {
                    let k = choose|k: int| 0 <= k < s.len() && s[k] == y;
                    if k < j {
                        assert(r[k] == y);
                    } else {
                        assert(r[k + 1] == y);
                    }
                }
            }
        }
    }
}

/// Collecting texts into an ordered set keeps each of them once, in increasing order.
pub proof fn law_sorted_set(s: Seq<Seq<char>>)
    ensures
        strictly_increasing(sorted_set(s)),
        sorted_set(s).to_set() == s.to_set(),
    decreases s.len(),
{
    if s.len() == 0 {
        assert(s.to_set() =~= Set::empty());
        assert(sorted_set(s).to_set() =~= Set::empty());
    } else {
        law_sorted_set(s.drop_last());
        lemma_sorted_insert(sorted_set(s.drop_last()), s.last());
        assert(s.to_set() =~= s.drop_last().to_set().insert(s.last())) by {
            assert(s == s.drop_last().push(s.last()));
            s.drop_last().lemma_push_to_set_commute(s.last());
        }
    }
}

/// Collects texts into an ordered set: each one once, in increasing order.
pub fn collect_sorted_set(v: &Vec<String>) -> (r: Vec<String>)
    ensures
        views(r@) == sorted_set(views(v@)),
{
    let ghost s = views(v@);
    let mut out: Vec<String> = Vec::new();
    let n = v.len();
    let mut i: usize = 0;
    while i < n
        invariant
            n == v.len(),
            s == views(v@),
            i <= n,
            views(out@) == sorted_set(s.subrange(0, i as int)),
        decreases n - i,
    {
        let x = &v[i];
        let ghost t = views(out@);
        let mut j: usize = 0;
        while j < out.len() && !str_le(x.as_str(), out[j].as_str())
            invariant
                j <= out.len(),
                t == views(out@),
                forall|k: int| 0 <= k < j ==> !seq_le(x@, #[trigger] t[k]),
            decreases out.len() - j,
        {
            assert(t[j as int] == out@[j as int]@);
            j += 1;
        }
        proof {
            if j < out.len() {
                assert(t[j as int] == out@[j as int]@);
            }
            lemma_first_index(t, |y: Seq<char>| seq_le(x@, y), j as int);
            let w = s.subrange(0, i + 1);
            assert(w.drop_last() == s.subrange(0, i as int));
            assert(w.last() == x@);
        }
        if j < out.len() && str_eq(out[j].as_str(), x.as_str()) {
            assert(t[j as int] == x@);
        } else {
            out.insert(j, x.clone());
            assert(views(out@) =~= t.insert(j as int, x@));
        }
        i += 1;
    }
    proof {
        assert(s.subrange(0, n as int) == s);
    }
    out
}

} // verus!
