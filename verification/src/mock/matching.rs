//! Deciding whether a message matches: by time, by position, by a keyword, or by a tree
//! of conditions.

use vstd::prelude::*;

use crate::error::EngineError;
use crate::mock::data::MockMessage;
use crate::search::{PosFilter, QueryNode, RangeLeaf, SearchMode, TsRange};
use crate::text::{
    contains_str, owned, seq_le, seq_starts_with, split_whitespace, starts_with, str_eq, str_le, views,
    words,
};

verus! {

// ── Specifications ──────────────────────────────────────────────────────────

pub open spec fn ts_ok_spec(ts_millis: u64, ts: Option<&TsRange>) -> bool {
    match ts {
        None => true,
        Some(r) => (r.gte_ms matches Some(lo) ==> ts_millis >= lo) && (r.lte_ms matches Some(hi)
            ==> ts_millis <= hi),
    }
}

pub open spec fn pos_ok_spec(partition: u32, offset: u64, pos: Option<&PosFilter>) -> bool {
    match pos {
        None => true,
        Some(p) => p.spec_passes(partition, offset),
    }
}

/// Whether a field path is among those chosen; `None` chooses all of them.
pub open spec fn field_selected_spec(path: Seq<char>, fields: Option<&[String]>) -> bool {
    match fields {
        None => true,
        Some(fs) => views(fs@).contains(path),
    }
}

/// Whether one piece of text matches the query on its own.
pub open spec fn hit(s: Seq<char>, q: Seq<char>, mode: SearchMode) -> bool {
    match mode {
        SearchMode::Exact => s == q,
        SearchMode::Prefix => seq_starts_with(s, q),
    }
}

/// Whether any of `ws` matches `q`.
pub open spec fn any_hit(ws: Seq<Seq<char>>, q: Seq<char>, mode: SearchMode) -> bool {
    exists|i: int| 0 <= i < ws.len() && hit(ws[i], q, mode)
}

/// Whether one value matches. When the field is split into words, a word in the middle of
/// a sentence is findable; otherwise only the value as a whole is. A query of several
/// words needs every one of them to find a word of its own.
pub open spec fn value_matches_spec(
    val: Seq<char>,
    query: Seq<char>,
    mode: SearchMode,
    tokenized: bool,
) -> bool {
    if !tokenized {
        hit(val, query, mode)
    } else {
        let vt = words(val);
        let qt = words(query);
        if qt.len() <= 1 {
            any_hit(vt, query, mode)
        } else {
            forall|j: int| 0 <= j < qt.len() ==> #[trigger] any_hit(vt, qt[j], mode)
        }
    }
}

/// Whether a field path is the one a leaf names; `None` names every field.
pub open spec fn field_match_spec(path: Seq<char>, field: Option<String>) -> bool {
    match field {
        None => true,
        Some(f) => path == f@,
    }
}

pub open spec fn tok_contains(tok: Seq<Seq<char>>, path: Seq<char>) -> bool {
    tok.contains(path)
}

/// Whether one `(path, value)` pair satisfies a leaf of the given kind.
pub open spec fn pair_satisfies_text(
    pair: (String, String),
    field: Option<String>,
    value: Seq<char>,
    mode: SearchMode,
    tok: Seq<Seq<char>>,
) -> bool {
    field_match_spec(pair.0@, field) && value_matches_spec(
        pair.1@,
        value,
        mode,
        tok_contains(tok, pair.0@),
    )
}

pub open spec fn pair_in_range(
    pair: (String, String),
    field: Seq<char>,
    gte: Option<String>,
    lte: Option<String>,
) -> bool {
    &&& pair.0@ == field
    &&& (gte matches Some(lo) ==> seq_le(lo@, pair.1@))
    &&& (lte matches Some(hi) ==> seq_le(pair.1@, hi@))
}

/// Whether a message with these fields satisfies the condition tree.
pub open spec fn eval_spec(fields: Seq<(String, String)>, node: QueryNode, tok: Seq<Seq<char>>) -> bool
    decreases node, 1int,
{
    match node {
        QueryNode::Term(t) => exists|i: int|
            0 <= i < fields.len() && #[trigger] pair_satisfies_text(
                fields[i],
                t.field,
                t.value@,
                SearchMode::Exact,
                tok,
            ),
        QueryNode::Prefix(p) => exists|i: int|
            0 <= i < fields.len() && #[trigger] pair_satisfies_text(
                fields[i],
                p.field,
                p.value@,
                SearchMode::Prefix,
                tok,
            ),
        QueryNode::Exists(e) => exists|i: int| 0 <= i < fields.len() && #[trigger] fields[i].0@ == e.field@,
        QueryNode::Range(r) => exists|i: int|
            0 <= i < fields.len() && #[trigger] pair_in_range(fields[i], r.field@, r.gte, r.lte),
        QueryNode::Bool(b) => {
            let must_ok = count_true(fields, b.must@, tok) == b.must@.len();
            let must_not_ok = count_true(fields, b.must_not@, tok) == 0;
            let should_ok = if b.should@.len() == 0 {
                true
            } else {
                let min: u32 = match b.minimum_should_match {
                    Some(n) => n,
                    None => if b.must@.len() == 0 {
                        1
                    } else {
                        0
                    },
                };
                (count_true(fields, b.should@, tok) as u32) >= min
            };
            must_ok && must_not_ok && should_ok
        },
    }
}

/// How many of `nodes` a message with these fields satisfies.
pub open spec fn count_true(fields: Seq<(String, String)>, nodes: Seq<QueryNode>, tok: Seq<Seq<char>>) -> nat
    decreases nodes, 0int,
{
    if nodes.len() == 0 {
        0
    } else {
        count_true(fields, nodes.subrange(0, nodes.len() - 1), tok) + if eval_spec(
            fields,
            nodes[nodes.len() - 1],
            tok,
        ) {
            1nat
        } else {
            0nat
        }
    }
}

// ── Which queries are accepted ──────────────────────────────────────────────

/// A range needs at least one end, and its lower end may not sit above its upper end, as
/// text.
pub open spec fn range_ok(r: RangeLeaf) -> bool {
    &&& (r.gte is Some || r.lte is Some)
    &&& match (r.gte, r.lte) {
        (Some(lo), Some(hi)) => seq_le(lo@, hi@),
        _ => true,
    }
}

/// Whether every range anywhere in the condition tree is acceptable.
pub open spec fn query_ok(node: QueryNode) -> bool
    decreases node, 1int,
{
    match node {
        QueryNode::Range(r) => range_ok(r),
        QueryNode::Bool(b) => nodes_ok(b.must@) && nodes_ok(b.should@) && nodes_ok(b.must_not@),
        _ => true,
    }
}

/// Whether every one of `nodes` is acceptable.
pub open spec fn nodes_ok(nodes: Seq<QueryNode>) -> bool
    decreases nodes, 0int,
{
    if nodes.len() == 0 {
        true
    } else {
        nodes_ok(nodes.subrange(0, nodes.len() - 1)) && query_ok(nodes[nodes.len() - 1])
    }
}

/// The refusal of a query holding an unacceptable range.
pub open spec fn bad_range_error(e: EngineError) -> bool {
    e matches EngineError::InvalidArgument(m) && m@
        == "range needs gte or lte, and gte may not sort above lte"@
}

pub fn bad_range() -> (e: EngineError)
    ensures
        bad_range_error(e),
{
    EngineError::InvalidArgument(owned("range needs gte or lte, and gte may not sort above lte"))
}

proof fn lemma_nodes_ok_step(nodes: Seq<QueryNode>, i: int)
    requires
        0 <= i < nodes.len(),
    ensures
        nodes_ok(nodes.subrange(0, i + 1)) == (nodes_ok(nodes.subrange(0, i)) && query_ok(nodes[i])),
{
    let s = nodes.subrange(0, i + 1);
    assert(s.subrange(0, s.len() - 1) == nodes.subrange(0, i));
    assert(s[s.len() - 1] == nodes[i]);
}

fn nodes_check(nodes: &Vec<QueryNode>) -> (r: bool)
    ensures
        r == nodes_ok(nodes@),
    decreases nodes, 0int,
{
    let mut i: usize = 0;
    while i < nodes.len()
        invariant
            i <= nodes.len(),
            nodes_ok(nodes@.subrange(0, i as int)),
        decreases nodes.len() - i,
    {
        proof {
            lemma_nodes_ok_step(nodes@, i as int);
            assert(decreases_to!(nodes => nodes@[i as int]));
        }
        if !query_check(&nodes[i]) {
            proof {
                lemma_nodes_ok_prefix(nodes@, i as int + 1);
            }
            return false;
        }
        i += 1;
    }
    proof {
        assert(nodes@.subrange(0, nodes.len() as int) == nodes@);
    }
    true
}

/// A list whose prefix is not acceptable is not acceptable.
proof fn lemma_nodes_ok_prefix(nodes: Seq<QueryNode>, k: int)
    requires
        0 <= k <= nodes.len(),
        !nodes_ok(nodes.subrange(0, k)),
    ensures
        !nodes_ok(nodes),
    decreases nodes.len() - k,
{
    if k < nodes.len() {
        lemma_nodes_ok_step(nodes, k);
        lemma_nodes_ok_prefix(nodes, k + 1);
    } else {
        assert(nodes.subrange(0, k) == nodes);
    }
}

/// Whether every range in the condition tree is acceptable.
pub fn query_check(node: &QueryNode) -> (r: bool)
    ensures
        r == query_ok(*node),
    decreases node, 1int,
{
    match node {
        QueryNode::Range(r) => {
            let has_end = r.gte.is_some() || r.lte.is_some();
            let ordered = match &r.gte {
                Some(lo) => match &r.lte {
                    Some(hi) => str_le(lo.as_str(), hi.as_str()),
                    None => true,
                },
                None => true,
            };
            has_end && ordered
        },
        QueryNode::Bool(b) => nodes_check(&b.must) && nodes_check(&b.should) && nodes_check(
            &b.must_not,
        ),
        _ => true,
    }
}

// ── Executable checks ───────────────────────────────────────────────────────

pub fn ts_ok(m: &MockMessage, ts: Option<&TsRange>) -> (r: bool)
    ensures
        r == ts_ok_spec(m.ts_millis, ts),
{
    match ts {
        None => true,
        Some(r) => {
            let lo_ok = match r.gte_ms {
                Some(lo) => m.ts_millis >= lo,
                None => true,
            };
            let hi_ok = match r.lte_ms {
                Some(hi) => m.ts_millis <= hi,
                None => true,
            };
            lo_ok && hi_ok
        },
    }
}

pub fn pos_ok(m: &MockMessage, pos: Option<&PosFilter>) -> (r: bool)
    ensures
        r == pos_ok_spec(m.partition, m.offset, pos),
{
    match pos {
        None => true,
        Some(p) => p.passes(m.partition, m.offset),
    }
}

pub fn field_selected(path: &str, fields: Option<&[String]>) -> (r: bool)
    ensures
        r == field_selected_spec(path@, fields),
{
    match fields {
        None => true,
        Some(fs) => {
            let mut i: usize = 0;
            while i < fs.len()
                invariant
                    fields == Some(fs),
                    i <= fs@.len(),
                    forall|j: int| 0 <= j < i ==> fs@[j]@ != path@,
                decreases fs.len() - i,
            {
                if str_eq(fs[i].as_str(), path) {
                    assert(views(fs@)[i as int] == path@);
                    assert(views(fs@).len() == fs@.len());
                    assert(views(fs@).contains(path@));
                    return true;
                }
                i += 1;
            }
            proof {
                if views(fs@).contains(path@) {
                    let j = choose|j: int| 0 <= j < views(fs@).len() && views(fs@)[j] == path@;
                    assert(fs@[j]@ == path@);
                }
            }
            false
        },
    }
}

fn hit_exec(s: &str, q: &str, mode: &SearchMode) -> (r: bool)
    ensures
        r == hit(s@, q@, *mode),
{
    match mode {
        SearchMode::Exact => str_eq(s, q),
        SearchMode::Prefix => starts_with(s, q),
    }
}

fn any_hit_exec(ws: &Vec<String>, q: &str, mode: &SearchMode) -> (r: bool)
    ensures
        r == any_hit(views(ws@), q@, *mode),
{
    let mut i: usize = 0;
    while i < ws.len()
        invariant
            i <= ws.len(),
            forall|j: int| 0 <= j < i ==> !hit(ws@[j]@, q@, *mode),
        decreases ws.len() - i,
    {
        if hit_exec(ws[i].as_str(), q, mode) {
            assert(hit(views(ws@)[i as int], q@, *mode));
            return true;
        }
        i += 1;
    }
    proof {
        if any_hit(views(ws@), q@, *mode) {
            let j = choose|j: int| 0 <= j < views(ws@).len() && hit(views(ws@)[j], q@, *mode);
            assert(views(ws@)[j] == ws@[j]@);
        }
    }
    false
}

/// Matches one value. When the field is split into words, a word in the middle of a
/// sentence is findable; otherwise only the value as a whole is.
pub fn value_matches(val: &str, query: &str, mode: &SearchMode, tokenized: bool) -> (r: bool)
    ensures
        r == value_matches_spec(val@, query@, *mode, tokenized),
{
    if !tokenized {
        return hit_exec(val, query, mode);
    }
    let val_toks = split_whitespace(val);
    let q_toks = split_whitespace(query);
    if q_toks.len() <= 1 {
        // One term: match it against each word.
        any_hit_exec(&val_toks, query, mode)
    } else {
        // Several: every one of them has to find a word of its own.
        let mut j: usize = 0;
        while j < q_toks.len()
            invariant
                tokenized,
                q_toks.len() > 1,
                j <= q_toks.len(),
                views(val_toks@) == words(val@),
                views(q_toks@) == words(query@),
                forall|k: int| 0 <= k < j ==> #[trigger] any_hit(words(val@), words(query@)[k], *mode),
            decreases q_toks.len() - j,
        {
            if !any_hit_exec(&val_toks, q_toks[j].as_str(), mode) {
                assert(words(query@)[j as int] == q_toks@[j as int]@);
                assert(views(q_toks@).len() == q_toks@.len());
                assert(!any_hit(words(val@), words(query@)[j as int], *mode));
                return false;
            }
            assert(words(query@)[j as int] == q_toks@[j as int]@);
            j += 1;
        }
        true
    }
}

fn field_match(path: &str, field: &Option<String>) -> (r: bool)
    ensures
        r == field_match_spec(path@, *field),
{
    match field {
        None => true,
        Some(f) => str_eq(path, f.as_str()),
    }
}

fn text_leaf(
    m: &MockMessage,
    field: &Option<String>,
    value: &str,
    mode: &SearchMode,
    tok: &Vec<String>,
) -> (r: bool)
    ensures
        r == exists|i: int|
            0 <= i < m.fields@.len() && #[trigger] pair_satisfies_text(
                m.fields@[i],
                *field,
                value@,
                *mode,
                views(tok@),
            ),
{
    let mut i: usize = 0;
    while i < m.fields.len()
        invariant
            i <= m.fields.len(),
            forall|j: int|
                0 <= j < i ==> !#[trigger] pair_satisfies_text(
                    m.fields@[j],
                    *field,
                    value@,
                    *mode,
                    views(tok@),
                ),
        decreases m.fields.len() - i,
    {
        let (p, v) = &m.fields[i];
        if field_match(p.as_str(), field) && value_matches(
            v.as_str(),
            value,
            mode,
            contains_str(tok, p.as_str()),
        ) {
            assert(pair_satisfies_text(m.fields@[i as int], *field, value@, *mode, views(tok@)));
            return true;
        }
        i += 1;
    }
    false
}

fn exists_leaf(m: &MockMessage, field: &str) -> (r: bool)
    ensures
        r == exists|i: int| 0 <= i < m.fields@.len() && #[trigger] m.fields@[i].0@ == field@,
{
    let mut i: usize = 0;
    while i < m.fields.len()
        invariant
            i <= m.fields.len(),
            forall|j: int| 0 <= j < i ==> #[trigger] m.fields@[j].0@ != field@,
        decreases m.fields.len() - i,
    {
        if str_eq(m.fields[i].0.as_str(), field) {
            return true;
        }
        i += 1;
    }
    false
}

fn range_leaf(m: &MockMessage, field: &str, gte: &Option<String>, lte: &Option<String>) -> (r: bool)
    ensures
        r == exists|i: int|
            0 <= i < m.fields@.len() && #[trigger] pair_in_range(m.fields@[i], field@, *gte, *lte),
{
    let mut i: usize = 0;
    while i < m.fields.len()
        invariant
            i <= m.fields.len(),
            forall|j: int|
                0 <= j < i ==> !#[trigger] pair_in_range(m.fields@[j], field@, *gte, *lte),
        decreases m.fields.len() - i,
    {
        let (p, v) = &m.fields[i];
        let lo_ok = match gte {
            Some(lo) => str_le(lo.as_str(), v.as_str()),
            None => true,
        };
        let hi_ok = match lte {
            Some(hi) => str_le(v.as_str(), hi.as_str()),
            None => true,
        };
        if str_eq(p.as_str(), field) && lo_ok && hi_ok {
            assert(pair_in_range(m.fields@[i as int], field@, *gte, *lte));
            return true;
        }
        i += 1;
    }
    false
}

proof fn lemma_count_true_step(fields: Seq<(String, String)>, nodes: Seq<QueryNode>, tok: Seq<Seq<char>>, i: int)
    requires
        0 <= i < nodes.len(),
    ensures
        count_true(fields, nodes.subrange(0, i + 1), tok) == count_true(
            fields,
            nodes.subrange(0, i),
            tok,
        ) + if eval_spec(fields, nodes[i], tok) {
            1nat
        } else {
            0nat
        },
{
    let s = nodes.subrange(0, i + 1);
    assert(s.subrange(0, s.len() - 1) == nodes.subrange(0, i));
    assert(s[s.len() - 1] == nodes[i]);
}

proof fn lemma_count_true_bound(fields: Seq<(String, String)>, nodes: Seq<QueryNode>, tok: Seq<Seq<char>>)
    ensures
        count_true(fields, nodes, tok) <= nodes.len(),
    decreases nodes.len(),
{
    if nodes.len() > 0 {
        lemma_count_true_bound(fields, nodes.subrange(0, nodes.len() - 1), tok);
    }
}

/// How many of `nodes` the message satisfies.
fn count_nodes(m: &MockMessage, nodes: &Vec<QueryNode>, tok: &Vec<String>) -> (r: usize)
    ensures
        r == count_true(m.fields@, nodes@, views(tok@)),
    decreases nodes, 0int,
{
    let mut c: usize = 0;
    let mut i: usize = 0;
    while i < nodes.len()
        invariant
            i <= nodes.len(),
            c == count_true(m.fields@, nodes@.subrange(0, i as int), views(tok@)),
            c <= i,
        decreases nodes.len() - i,
    {
        proof {
            lemma_count_true_step(m.fields@, nodes@, views(tok@), i as int);
            assert(decreases_to!(nodes => nodes@[i as int]));
        }
        if eval_node(m, &nodes[i], tok) {
            c += 1;
        }
        i += 1;
    }
    proof {
        assert(nodes@.subrange(0, nodes.len() as int) == nodes@);
    }
    c
}

/// Whether the message satisfies the condition tree.
pub fn eval_node(m: &MockMessage, node: &QueryNode, tok: &Vec<String>) -> (r: bool)
    ensures
        r == eval_spec(m.fields@, *node, views(tok@)),
        *node matches QueryNode::Bool(b) ==> r == bool_rule(m.fields@, b, views(tok@)),
    decreases node, 1int,
{
    match node {
        QueryNode::Term(t) => text_leaf(m, &t.field, t.value.as_str(), &SearchMode::Exact, tok),
        QueryNode::Prefix(p) => text_leaf(m, &p.field, p.value.as_str(), &SearchMode::Prefix, tok),
        QueryNode::Exists(e) => exists_leaf(m, e.field.as_str()),
        QueryNode::Range(r) => range_leaf(m, r.field.as_str(), &r.gte, &r.lte),
        QueryNode::Bool(b) => {
            proof {
                law_bool_node(m.fields@, *b, views(tok@));
            }
            let must_ok = count_nodes(m, &b.must, tok) == b.must.len();
            let must_not_ok = count_nodes(m, &b.must_not, tok) == 0;
            let should_ok = if b.should.len() == 0 {
                true
            } else {
                let min: u32 = match b.minimum_should_match {
                    Some(n) => n,
                    None => if b.must.len() == 0 {
                        1
                    } else {
                        0
                    },
                };
                (count_nodes(m, &b.should, tok) as u32) >= min
            };
            must_ok && must_not_ok && should_ok
        },
    }
}

// ── Laws ────────────────────────────────────────────────────────────────────

proof fn lemma_count_all(fields: Seq<(String, String)>, nodes: Seq<QueryNode>, tok: Seq<Seq<char>>)
    ensures
        (count_true(fields, nodes, tok) == nodes.len()) == (forall|i: int|
            0 <= i < nodes.len() ==> #[trigger] eval_spec(fields, nodes[i], tok)),
        (count_true(fields, nodes, tok) == 0) == (forall|i: int|
            0 <= i < nodes.len() ==> !#[trigger] eval_spec(fields, nodes[i], tok)),
    decreases nodes.len(),
{
    if nodes.len() > 0 {
        let n = nodes.len() - 1;
        let init = nodes.subrange(0, n);
        lemma_count_all(fields, init, tok);
        lemma_count_true_bound(fields, init, tok);
        let last = eval_spec(fields, nodes[n], tok);
        assert(count_true(fields, nodes, tok) == count_true(fields, init, tok) + if last {
            1nat
        } else {
            0nat
        });
        let all_init = forall|i: int| 0 <= i < init.len() ==> #[trigger] eval_spec(fields, init[i], tok);
        let all = forall|i: int| 0 <= i < nodes.len() ==> #[trigger] eval_spec(fields, nodes[i], tok);
        assert(all == (all_init && last)) by {
            if all {
                assert forall|i: int| 0 <= i < init.len() implies #[trigger] eval_spec(fields, init[i], tok) by {
                    assert(init[i] == nodes[i]);
                }
            }
            if all_init && last {
                assert forall|i: int| 0 <= i < nodes.len() implies #[trigger] eval_spec(fields, nodes[i], tok) by {
                    if i < n {
                        assert(init[i] == nodes[i]);
                    }
                }
            }
        }
        let none_init = forall|i: int| 0 <= i < init.len() ==> !#[trigger] eval_spec(fields, init[i], tok);
        let none = forall|i: int| 0 <= i < nodes.len() ==> !#[trigger] eval_spec(fields, nodes[i], tok);
        assert(none == (none_init && !last)) by {
            if none {
                assert forall|i: int| 0 <= i < init.len() implies !#[trigger] eval_spec(fields, init[i], tok) by {
                    assert(init[i] == nodes[i]);
                }
            }
            if none_init && !last {
                assert forall|i: int| 0 <= i < nodes.len() implies !#[trigger] eval_spec(fields, nodes[i], tok) by {
                    if i < n {
                        assert(init[i] == nodes[i]);
                    }
                }
            }
        }
    }
}

/// Whether a condition holds of a message with these fields, as a predicate on conditions.
pub open spec fn holds(fields: Seq<(String, String)>, tok: Seq<Seq<char>>) -> spec_fn(QueryNode) -> bool {
    |n: QueryNode| eval_spec(fields, n, tok)
}

proof fn lemma_count_is_filter(fields: Seq<(String, String)>, nodes: Seq<QueryNode>, tok: Seq<Seq<char>>)
    ensures
        count_true(fields, nodes, tok) == nodes.filter(holds(fields, tok)).len(),
    decreases nodes.len(),
{
    reveal(Seq::filter);
    if nodes.len() > 0 {
        let init = nodes.subrange(0, nodes.len() - 1);
        assert(init == nodes.drop_last());
        lemma_count_is_filter(fields, init, tok);
    }
}

/// The rule for a group, over whether each of its conditions holds: every `must` holds,
/// no `must_not` does, and, where there are `should` conditions, as many of them hold (a
/// count taken as a `u32`) as `minimum_should_match` asks, or else one when there is no
/// `must` and none when there is.
pub open spec fn bool_rule(fields: Seq<(String, String)>, b: crate::search::BoolNode, tok: Seq<Seq<char>>) -> bool {
    &&& forall|i: int| 0 <= i < b.must@.len() ==> #[trigger] eval_spec(fields, b.must@[i], tok)
    &&& forall|i: int|
        0 <= i < b.must_not@.len() ==> !#[trigger] eval_spec(fields, b.must_not@[i], tok)
    &&& (b.should@.len() == 0 || (b.should@.filter(holds(fields, tok)).len() as u32) >= match b.minimum_should_match {
        Some(n) => n,
        None => if b.must@.len() == 0 {
            1u32
        } else {
            0u32
        },
    })
}

/// A group matches exactly when every `must` condition matches, no `must_not` condition
/// does, and, where there are `should` conditions, the number of them that match (counted
/// as a `u32`) reaches `minimum_should_match`, or else one when there is no `must` and
/// none when there is.
pub proof fn law_bool_node(fields: Seq<(String, String)>, b: crate::search::BoolNode, tok: Seq<Seq<char>>)
    ensures
        eval_spec(fields, QueryNode::Bool(b), tok) == bool_rule(fields, b, tok),
{
    lemma_count_all(fields, b.must@, tok);
    lemma_count_all(fields, b.must_not@, tok);
    lemma_count_is_filter(fields, b.should@, tok);
}

/// Where a field is not split into words, a prefix query matches only a value that starts
/// with it, so a word in the middle of a sentence is not found; where it is split, a
/// one-word query matches any value with a word that starts with it.
pub proof fn law_mid_sentence_word(val: Seq<char>, q: Seq<char>, k: int)
    requires
        words(q).len() <= 1,
        0 <= k < words(val).len(),
        seq_starts_with(words(val)[k], q),
    ensures
        value_matches_spec(val, q, SearchMode::Prefix, true),
        value_matches_spec(val, q, SearchMode::Prefix, false) == seq_starts_with(val, q),
{
    assert(hit(words(val)[k], q, SearchMode::Prefix));
}

/// In a field split into words, a query of several words matches a value exactly when
/// every one of its words finds a word of the value: one word found no match for is
/// enough to rule the value out, however many others are found.
/// Whether some word of `vt` is hit by the query word `w`.
pub open spec fn word_found(vt: Seq<Seq<char>>, w: Seq<char>, mode: SearchMode) -> bool {
    exists|k: int| 0 <= k < vt.len() && hit(#[trigger] vt[k], w, mode)
}

proof fn lemma_word_found(vt: Seq<Seq<char>>, w: Seq<char>, mode: SearchMode)
    ensures
        any_hit(vt, w, mode) == word_found(vt, w, mode),
{
    if any_hit(vt, w, mode) {
        let k = choose|k: int| 0 <= k < vt.len() && hit(vt[k], w, mode);
        assert(0 <= k < vt.len() && hit(vt[k], w, mode));
    }
    if word_found(vt, w, mode) {
        let k = choose|k: int| 0 <= k < vt.len() && hit(#[trigger] vt[k], w, mode);
        assert(hit(vt[k], w, mode));
    }
}

/// In a field split into words, a query of several words matches a value exactly when
/// every one of its words finds a word of the value; one query word that finds none rules
/// the value out, however many others are found.
pub proof fn law_every_query_word_needs_a_word(val: Seq<char>, q: Seq<char>, mode: SearchMode)
    requires
        words(q).len() > 1,
    ensures
        value_matches_spec(val, q, mode, true) == (forall|j: int|
            0 <= j < words(q).len() ==> #[trigger] word_found(words(val), words(q)[j], mode)),
        forall|j: int|
            0 <= j < words(q).len() && !#[trigger] word_found(words(val), words(q)[j], mode)
                ==> !value_matches_spec(val, q, mode, true),
{
    assert forall|j: int| 0 <= j < words(q).len() implies any_hit(words(val), words(q)[j], mode)
        == #[trigger] word_found(words(val), words(q)[j], mode) by {
        lemma_word_found(words(val), words(q)[j], mode);
    }
    if value_matches_spec(val, q, mode, true) {
        assert forall|j: int| 0 <= j < words(q).len() implies #[trigger] word_found(
            words(val),
            words(q)[j],
            mode,
        ) by {
            assert(any_hit(words(val), words(q)[j], mode));
        }
    }
    if forall|j: int| 0 <= j < words(q).len() ==> #[trigger] word_found(words(val), words(q)[j], mode) {
        assert forall|j: int| 0 <= j < words(q).len() implies #[trigger] any_hit(
            words(val),
            words(q)[j],
            mode,
        ) by {
            assert(word_found(words(val), words(q)[j], mode));
        }
    }
}

proof fn lemma_pair_on_unsplit(pair: (String, String), field: Option<String>, value: String, tok: Seq<Seq<char>>)
    requires
        !tok.contains(pair.0@),
    ensures
        pair_satisfies_text(pair, field, value@, SearchMode::Prefix, tok) == (names(field, pair.0@)
            && seq_starts_with(pair.1@, value@)),
        pair_satisfies_text(pair, field, value@, SearchMode::Exact, tok) == (names(field, pair.0@)
            && pair.1@ == value@),
{
    assert(!tok_contains(tok, pair.0@));
}

/// A prefix condition on fields not split into words holds exactly when some field it
/// names has a value starting with its text; a term condition, exactly when some such
/// value equals its text.
pub proof fn law_text_leaves_on_unsplit_fields(
    fields: Seq<(String, String)>,
    field: Option<String>,
    value: String,
    tok: Seq<Seq<char>>,
)
    requires
        forall|i: int| 0 <= i < fields.len() ==> !tok.contains((#[trigger] fields[i]).0@),
    ensures
        eval_spec(fields, QueryNode::Prefix(crate::search::PrefixLeaf { field, value }), tok)
            == exists|i: int|
            0 <= i < fields.len() && names(field, (#[trigger] fields[i]).0@) && seq_starts_with(
                fields[i].1@,
                value@,
            ),
        eval_spec(fields, QueryNode::Term(crate::search::TermLeaf { field, value }), tok)
            == exists|i: int|
            0 <= i < fields.len() && names(field, (#[trigger] fields[i]).0@) && fields[i].1@
                == value@,
{
    let p = crate::search::PrefixLeaf { field, value };
    let t = crate::search::TermLeaf { field, value };
    assert forall|i: int| 0 <= i < fields.len() implies (pair_satisfies_text(
        #[trigger] fields[i],
        field,
        value@,
        SearchMode::Prefix,
        tok,
    ) == (names(field, fields[i].0@) && seq_starts_with(fields[i].1@, value@))) && (pair_satisfies_text(
        fields[i],
        field,
        value@,
        SearchMode::Exact,
        tok,
    ) == (names(field, fields[i].0@) && fields[i].1@ == value@)) by {
        lemma_pair_on_unsplit(fields[i], field, value, tok);
    }
    assert(p.field == field && p.value@ == value@);
    assert(t.field == field && t.value@ == value@);
}

/// Whether a leaf's field names this path: any path when it names none.
pub open spec fn names(field: Option<String>, path: Seq<char>) -> bool {
    match field {
        None => true,
        Some(f) => f@ == path,
    }
}

/// Where a field is not split into words, an exact search matches only the whole value and
/// a prefix search only a value that starts with the query; where it is, a one-word query
/// matches a value some word of which it hits.
pub proof fn law_value_match_modes(val: Seq<char>, q: Seq<char>)
    ensures
        value_matches_spec(val, q, SearchMode::Exact, false) == (val == q),
        value_matches_spec(val, q, SearchMode::Prefix, false) == (val.len() >= q.len()
            && val.subrange(0, q.len() as int) == q),
        words(q).len() <= 1 ==> value_matches_spec(val, q, SearchMode::Prefix, true) == exists|k: int|
            0 <= k < words(val).len() && #[trigger] seq_starts_with(words(val)[k], q),
{
    lemma_word_found(words(val), q, SearchMode::Prefix);
    if words(q).len() <= 1 {
        if value_matches_spec(val, q, SearchMode::Prefix, true) {
            let k = choose|k: int| 0 <= k < words(val).len() && hit(#[trigger] words(val)[k], q, SearchMode::Prefix);
            assert(seq_starts_with(words(val)[k], q));
        }
        if exists|k: int| 0 <= k < words(val).len() && #[trigger] seq_starts_with(words(val)[k], q) {
            let k = choose|k: int| 0 <= k < words(val).len() && #[trigger] seq_starts_with(words(val)[k], q);
            assert(hit(words(val)[k], q, SearchMode::Prefix));
        }
    }
}

} // verus!
