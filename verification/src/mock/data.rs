//! The data this engine reads, held in memory, and the queries it answers over it.
//!
//! Field paths follow the notation a real engine produces: `P.orderId`,
//! `P.items[*].name`, `K.id`.

use vstd::prelude::*;
use vstd::utf8::encode_utf8;

use crate::mock::matching::{eval_node, eval_spec, field_selected, field_selected_spec, hit, law_mid_sentence_word, pos_ok, pos_ok_spec, tok_contains, ts_ok, ts_ok_spec, value_matches, value_matches_spec};
use crate::mock::timefmt::{fmt_ts, ts_text};
use crate::order::{first_index, lemma_first_index};
use crate::search::{
    LocItem, LocView, MessageResult, MessageResultView, PosFilter, QueryNode, SearchMode,
    SortOrder, TsRange, loc_views, opt_view, pair_views,
};
use crate::text::{
    clone_opt, clone_pairs, dec, hex, owned, push_str, split_whitespace, to_hex, u64_to_dec,
    seq_starts_with, views, words,
};

verus! {

/// One message of a topic.
#[derive(Debug)]
pub struct MockMessage {
    pub partition: u32,
    pub offset: u64,
    pub ts_millis: u64,
    /// The message key, if it has one.
    pub key: Option<String>,
    /// The message body, formatted for reading.
    pub value_json: String,
    /// Its fields, flattened to paths and values — what searching looks at.
    pub fields: Vec<(String, String)>,
}

/// A message as its contracts see it: each text by its characters.
pub struct MessageView {
    pub partition: u32,
    pub offset: u64,
    pub ts_millis: u64,
    pub key: Option<Seq<char>>,
    pub value_json: Seq<char>,
    pub fields: Seq<(Seq<char>, Seq<char>)>,
}

impl View for MockMessage {
    type V = MessageView;

    open spec fn view(&self) -> MessageView {
        MessageView {
            partition: self.partition,
            offset: self.offset,
            ts_millis: self.ts_millis,
            key: opt_view(self.key),
            value_json: self.value_json@,
            fields: pair_views(self.fields@),
        }
    }
}

pub open spec fn message_views(s: Seq<MockMessage>) -> Seq<MessageView> {
    s.map_values(|m: MockMessage| m@)
}

/// One topic and its messages.
#[derive(Debug)]
pub struct MockTopic {
    pub name: String,
    pub partition_count: u32,
    pub key_deserializer: String,
    pub value_deserializer: String,
    pub key_fields: Vec<String>,
    pub payload_fields: Vec<String>,
    /// Ordered by partition, then offset.
    pub messages: Vec<MockMessage>,
}

// ── Ordering positions ──────────────────────────────────────────────────────

/// `(ts, partition, offset)` of `a` sorts strictly before that of `b`.
pub open spec fn key_lt(a: LocView, b: LocView) -> bool {
    ||| a.ts_millis < b.ts_millis
    ||| (a.ts_millis == b.ts_millis && a.partition < b.partition)
    ||| (a.ts_millis == b.ts_millis && a.partition == b.partition && a.offset < b.offset)
}

/// Whether `a` belongs strictly before `b` in the requested order.
pub open spec fn precedes(sort: SortOrder, a: LocView, b: LocView) -> bool {
    match sort {
        SortOrder::NewestFirst => key_lt(b, a),
        SortOrder::OldestFirst => key_lt(a, b),
    }
}

/// Where `x` goes in `s`: before the first element it strictly precedes, so that it
/// lands after every element equal to it.
pub open spec fn insert_pos(s: Seq<LocView>, x: LocView, sort: SortOrder) -> nat
    decreases s.len(),
{
    if s.len() == 0 {
        0
    } else if precedes(sort, x, s[0]) {
        0
    } else {
        1 + insert_pos(s.drop_first(), x, sort)
    }
}

/// `s` in the requested order, elements with equal keys keeping the order they came in
/// (a stable sort).
pub open spec fn sort_spec(s: Seq<LocView>, sort: SortOrder) -> Seq<LocView>
    decreases s.len(),
{
    if s.len() == 0 {
        s
    } else {
        let t = sort_spec(s.drop_last(), sort);
        t.insert(insert_pos(t, s.last(), sort) as int, s.last())
    }
}

/// Whether `s` is in the requested order.
pub open spec fn in_order(s: Seq<LocView>, sort: SortOrder) -> bool {
    forall|i: int, j: int| 0 <= i < j < s.len() ==> !precedes(sort, #[trigger] s[j], #[trigger] s[i])
}

/// At most `limit` of `s`, from the front; `None` keeps all of it.
pub open spec fn limit_take<A>(s: Seq<A>, limit: Option<usize>) -> Seq<A> {
    match limit {
        None => s,
        Some(l) => if l < s.len() {
            s.take(l as int)
        } else {
            s
        },
    }
}

proof fn lemma_insert_pos(s: Seq<LocView>, x: LocView, sort: SortOrder, j: int)
    requires
        0 <= j <= s.len(),
        forall|k: int| 0 <= k < j ==> !precedes(sort, x, #[trigger] s[k]),
        j == s.len() || precedes(sort, x, s[j]),
    ensures
        insert_pos(s, x, sort) == j,
    decreases j,
{
    if j > 0 {
        assert(!precedes(sort, x, s[0]));
        assert forall|k: int| 0 <= k < j - 1 implies !precedes(sort, x, #[trigger] s.drop_first()[k]) by {
            assert(s.drop_first()[k] == s[k + 1]);
        }
        if j < s.len() {
            assert(s.drop_first()[j - 1] == s[j]);
        }
        lemma_insert_pos(s.drop_first(), x, sort, j - 1);
    }
}

proof fn lemma_insert_pos_bounds(s: Seq<LocView>, x: LocView, sort: SortOrder)
    ensures
        insert_pos(s, x, sort) <= s.len(),
        forall|k: int| 0 <= k < insert_pos(s, x, sort) ==> !precedes(sort, x, #[trigger] s[k]),
        insert_pos(s, x, sort) < s.len() ==> precedes(sort, x, s[insert_pos(s, x, sort) as int]),
    decreases s.len(),
{
    if s.len() > 0 && !precedes(sort, x, s[0]) {
        lemma_insert_pos_bounds(s.drop_first(), x, sort);
        assert forall|k: int| 0 <= k < insert_pos(s, x, sort) implies !precedes(sort, x, #[trigger] s[k]) by {
            if k > 0 {
                assert(s[k] == s.drop_first()[k - 1]);
            }
        }
    }
}

/// Sorting leaves the same positions, each as many times as before, in the requested
/// order.
pub proof fn law_sort_is_ordered_permutation(s: Seq<LocView>, sort: SortOrder)
    ensures
        sort_spec(s, sort).to_multiset() =~= s.to_multiset(),
        in_order(sort_spec(s, sort), sort),
        sort_spec(s, sort).len() == s.len(),
    decreases s.len(),
{
    broadcast use vstd::seq_lib::group_to_multiset_ensures;
    if s.len() > 0 {
        let t = sort_spec(s.drop_last(), sort);
        law_sort_is_ordered_permutation(s.drop_last(), sort);
        let x = s.last();
        let p = insert_pos(t, x, sort) as int;
        lemma_insert_pos_bounds(t, x, sort);
        vstd::seq_lib::to_multiset_insert(t, p, x);
        assert(s.drop_last().push(x) == s);
        let u = t.insert(p, x);
        assert forall|i: int, j: int| 0 <= i < j < u.len() implies !precedes(sort, #[trigger] u[j], #[trigger] u[i]) by {
            if j < p {
                assert(u[i] == t[i] && u[j] == t[j]);
            } else if j == p {
                assert(u[j] == x && u[i] == t[i]);
            } else if i == p {
                assert(u[i] == x && u[j] == t[j - 1]);
                // x strictly precedes t[p], and t[p] is not after t[j - 1].
                if j - 1 > p {
                    assert(!precedes(sort, t[j - 1], t[p]));
                }
            } else if i < p {
                assert(u[i] == t[i] && u[j] == t[j - 1]);
            } else {
                assert(u[i] == t[i - 1] && u[j] == t[j - 1]);
            }
        }
    }
}

/// Puts positions in the requested order, keeping the order of equal keys.
pub fn sort_locs(v: &mut Vec<LocItem>, sort: &SortOrder)
    ensures
        loc_views(final(v)@) == sort_spec(loc_views(old(v)@), *sort),
{
    let ghost input = loc_views(v@);
    let mut rest: Vec<LocItem> = Vec::new();
    std::mem::swap(&mut rest, v);
    let mut out: Vec<LocItem> = Vec::new();
    let n = rest.len();
    let mut i: usize = 0;
    while i < n
        invariant
            n == input.len(),
            i <= n,
            loc_views(rest@) == input.subrange(i as int, n as int),
            loc_views(out@) == sort_spec(input.subrange(0, i as int), *sort),
        decreases n - i,
    {
        let ghost before = rest@;
        proof {
            assert(loc_views(before).len() == before.len());
            assert(loc_views(before)[0] == before[0]@);
            assert(input.subrange(i as int, n as int)[0] == input[i as int]);
        }
        let x = rest.remove(0);
        proof {
            assert(x@ == input[i as int]);
            assert(rest@ == before.subrange(1, before.len() as int));
            assert forall|k: int| 0 <= k < rest@.len() implies loc_views(rest@)[k]
                == input.subrange(i + 1, n as int)[k] by {
                assert(loc_views(before)[k + 1] == before[k + 1]@);
                assert(input.subrange(i as int, n as int)[k + 1] == input[i + 1 + k]);
            }
            assert(loc_views(rest@) =~= input.subrange(i + 1, n as int));
        }
        let ghost t = loc_views(out@);
        let mut j: usize = 0;
        while j < out.len() && !item_precedes(sort, &x, &out[j])
            invariant
                j <= out.len(),
                t == loc_views(out@),
                forall|k: int| 0 <= k < j ==> !precedes(*sort, x@, #[trigger] t[k]),
            decreases out.len() - j,
        {
            j += 1;
        }
        proof {
            lemma_insert_pos(t, x@, *sort, j as int);
            let s = input.subrange(0, i + 1);
            assert(s.drop_last() == input.subrange(0, i as int));
            assert(s.last() == x@);
        }
        out.insert(j, x);
        proof {
            assert(loc_views(out@) =~= t.insert(j as int, x@));
        }
        i += 1;
    }
    proof {
        assert(input.subrange(0, n as int) == input);
    }
    *v = out;
}

fn item_precedes(sort: &SortOrder, a: &LocItem, b: &LocItem) -> (r: bool)
    ensures
        r == precedes(*sort, a@, b@),
{
    let lt = |x: &LocItem, y: &LocItem| -> (r: bool)
        ensures
            r == key_lt(x@, y@),
        {
            x.ts_millis < y.ts_millis || (x.ts_millis == y.ts_millis && x.partition < y.partition)
                || (x.ts_millis == y.ts_millis && x.partition == y.partition && x.offset
                < y.offset)
        };
    match sort {
        SortOrder::NewestFirst => lt(b, a),
        SortOrder::OldestFirst => lt(a, b),
    }
}

/// Keeps at most `limit` positions from the front.
fn truncate_to(v: &mut Vec<LocItem>, limit: Option<usize>)
    ensures
        final(v)@ == limit_take(old(v)@, limit),
{
    if let Some(l) = limit {
        if l < v.len() {
            v.truncate(l);
        }
    }
}

// ── Positions as a search reports them ──────────────────────────────────────

pub open spec fn index_key_text(
    topic: Seq<char>,
    field: Seq<char>,
    term: Seq<char>,
    partition: u32,
    offset: u64,
) -> Seq<char> {
    "I | "@ + topic + " | "@ + field + " | "@ + term + " | p"@ + dec(partition as nat) + " | o"@
        + dec(offset as nat)
}

pub open spec fn meta_key_text(topic: Seq<char>, partition: u32, offset: u64) -> Seq<char> {
    "M | "@ + topic + " | p"@ + dec(partition as nat) + " | o"@ + dec(offset as nat)
}

/// The hex form of text: two digits for each byte of its UTF-8 encoding.
pub open spec fn text_hex(s: Seq<char>) -> Seq<char> {
    hex(encode_utf8(s))
}

pub open spec fn browse_loc_view(m: MockMessage) -> LocView {
    LocView {
        ts_millis: m.ts_millis,
        partition: m.partition,
        offset: m.offset,
        matched_field: None,
        pretty_index_key: None,
        raw_index_key_hex: None,
    }
}

pub open spec fn hit_loc_view(topic: Seq<char>, m: MockMessage, field: Seq<char>, term: Seq<char>) -> LocView {
    let pretty = index_key_text(topic, field, term, m.partition, m.offset);
    LocView {
        ts_millis: m.ts_millis,
        partition: m.partition,
        offset: m.offset,
        matched_field: Some(field),
        pretty_index_key: Some(pretty),
        raw_index_key_hex: Some(text_hex(pretty)),
    }
}

/// The readable form of an index key.
pub fn fmt_index_key(topic: &str, field: &str, term: &str, partition: u32, offset: u64) -> (s: String)
    ensures
        s@ == index_key_text(topic@, field@, term@, partition, offset),
{
    let mut s = owned("I | ");
    push_str(&mut s, topic);
    push_str(&mut s, " | ");
    push_str(&mut s, field);
    push_str(&mut s, " | ");
    push_str(&mut s, term);
    push_str(&mut s, " | p");
    let p = u64_to_dec(partition as u64);
    push_str(&mut s, p.as_str());
    push_str(&mut s, " | o");
    let o = u64_to_dec(offset);
    push_str(&mut s, o.as_str());
    s
}

/// The readable form of a message's meta key.
pub fn fmt_meta_key(topic: &str, partition: u32, offset: u64) -> (s: String)
    ensures
        s@ == meta_key_text(topic@, partition, offset),
{
    let mut s = owned("M | ");
    push_str(&mut s, topic);
    push_str(&mut s, " | p");
    let p = u64_to_dec(partition as u64);
    push_str(&mut s, p.as_str());
    push_str(&mut s, " | o");
    let o = u64_to_dec(offset);
    push_str(&mut s, o.as_str());
    s
}

/// The hex form of a piece of text.
pub fn text_to_hex(s: &str) -> (r: String)
    ensures
        r@ == text_hex(s@),
{
    to_hex(s.as_bytes())
}

fn browse_loc(m: &MockMessage) -> (l: LocItem)
    ensures
        l@ == browse_loc_view(*m),
{
    LocItem {
        ts_millis: m.ts_millis,
        partition: m.partition,
        offset: m.offset,
        matched_field: None,
        pretty_index_key: None,
        raw_index_key_hex: None,
    }
}

fn hit_loc(topic: &str, m: &MockMessage, field: &str, term: &str) -> (l: LocItem)
    ensures
        l@ == hit_loc_view(topic@, *m, field@, term@),
{
    let pretty = fmt_index_key(topic, field, term, m.partition, m.offset);
    LocItem {
        ts_millis: m.ts_millis,
        partition: m.partition,
        offset: m.offset,
        matched_field: Some(owned(field)),
        raw_index_key_hex: Some(text_to_hex(pretty.as_str())),
        pretty_index_key: Some(pretty),
    }
}


// ── Querying one topic ──────────────────────────────────────────────────────

/// Whether a message passes the time and position filters.
pub open spec fn passes(m: MockMessage, ts: Option<&TsRange>, pos: Option<&PosFilter>) -> bool {
    ts_ok_spec(m.ts_millis, ts) && pos_ok_spec(m.partition, m.offset, pos)
}

/// Every message passing the filters, as an unordered list of positions.
pub open spec fn browse_seq(ms: Seq<MockMessage>, ts: Option<&TsRange>, pos: Option<&PosFilter>) -> Seq<LocView>
    decreases ms.len(),
{
    if ms.len() == 0 {
        Seq::empty()
    } else {
        let prev = browse_seq(ms.drop_last(), ts, pos);
        if passes(ms.last(), ts, pos) {
            prev.push(browse_loc_view(ms.last()))
        } else {
            prev
        }
    }
}

/// Results come in time order: newest first puts no position before one that is newer,
/// oldest first none before one that is older; a limit keeps at most that many, from the
/// front, in the same order.
pub proof fn law_results_in_time_order(s: Seq<LocView>, sort: SortOrder, limit: Option<usize>)
    ensures
        sort == SortOrder::NewestFirst ==> forall|i: int, j: int|
            0 <= i < j < sort_spec(s, sort).len() ==> (#[trigger] sort_spec(s, sort)[i]).ts_millis
                >= (#[trigger] sort_spec(s, sort)[j]).ts_millis,
        sort == SortOrder::OldestFirst ==> forall|i: int, j: int|
            0 <= i < j < sort_spec(s, sort).len() ==> (#[trigger] sort_spec(s, sort)[i]).ts_millis
                <= (#[trigger] sort_spec(s, sort)[j]).ts_millis,
        limit matches Some(l) ==> limit_take(s, limit).len() <= l,
        limit_take(s, limit).len() <= s.len(),
        forall|i: int| 0 <= i < limit_take(s, limit).len() ==> #[trigger] limit_take(s, limit)[i] == s[i],
        limit is None || s.len() <= limit->0 ==> limit_take(s, limit) == s,
{
    law_sort_is_ordered_permutation(s, sort);
    let t = sort_spec(s, sort);
    assert forall|i: int, j: int| 0 <= i < j < t.len() implies !precedes(sort, #[trigger] t[j], #[trigger] t[i]) by {}
}

/// Whether a time lies in a range: not before its start, not after its end, where given.
pub open spec fn in_time_range(t: u64, ts: Option<&TsRange>) -> bool {
    match ts {
        None => true,
        Some(r) => (match r.gte_ms {
            Some(lo) => lo <= t,
            None => true,
        }) && (match r.lte_ms {
            Some(hi) => t <= hi,
            None => true,
        }),
    }
}

/// Whether a message is inside both the time range and the position filter.
pub open spec fn kept_by(ts: Option<&TsRange>, pos: Option<&PosFilter>) -> spec_fn(MockMessage) -> bool {
    |m: MockMessage| in_time_range(m.ts_millis, ts) && pos_ok_spec(m.partition, m.offset, pos)
}

/// Browsing keeps exactly the messages inside the time range and the position filter:
/// every position it gives lies inside both, every message inside both is given, and
/// as many positions come back as there are such messages.
pub proof fn law_browse_keeps_exactly_the_range(ms: Seq<MockMessage>, ts: Option<&TsRange>, pos: Option<&PosFilter>)
    ensures
        forall|i: int| 0 <= i < browse_seq(ms, ts, pos).len() ==> {
            let l = #[trigger] browse_seq(ms, ts, pos)[i];
            in_time_range(l.ts_millis, ts) && pos_ok_spec(l.partition, l.offset, pos)
        },
        forall|k: int|
            0 <= k < ms.len() && kept_by(ts, pos)(#[trigger] ms[k]) ==> browse_seq(ms, ts, pos).contains(
                browse_loc_view(ms[k]),
            ),
        browse_seq(ms, ts, pos).len() == ms.filter(kept_by(ts, pos)).len(),
    decreases ms.len(),
{
    reveal(Seq::filter);
    if ms.len() > 0 {
        let init = ms.drop_last();
        law_browse_keeps_exactly_the_range(init, ts, pos);
        let prev = browse_seq(init, ts, pos);
        let b = browse_seq(ms, ts, pos);
        let m = ms.last();
        assert(passes(m, ts, pos) == kept_by(ts, pos)(m));
        assert forall|i: int| 0 <= i < b.len() implies {
            let l = #[trigger] b[i];
            in_time_range(l.ts_millis, ts) && pos_ok_spec(l.partition, l.offset, pos)
        } by {
            if i < prev.len() {
                assert(b[i] == prev[i]);
            }
        }
        assert forall|k: int| 0 <= k < ms.len() && kept_by(ts, pos)(#[trigger] ms[k]) implies b.contains(
            browse_loc_view(ms[k]),
        ) by {
            if k < init.len() {
                assert(init[k] == ms[k]);
                let j = choose|j: int| 0 <= j < prev.len() && prev[j] == browse_loc_view(init[k]);
                assert(b[j] == prev[j]);
            } else {
                assert(b[b.len() - 1] == browse_loc_view(m));
            }
        }
    }
}

/// Every message passing the filters and the condition tree.
pub open spec fn multi_seq(
    ms: Seq<MockMessage>,
    node: QueryNode,
    tok: Seq<Seq<char>>,
    ts: Option<&TsRange>,
    pos: Option<&PosFilter>,
) -> Seq<LocView>
    decreases ms.len(),
{
    if ms.len() == 0 {
        Seq::empty()
    } else {
        let prev = multi_seq(ms.drop_last(), node, tok, ts, pos);
        if passes(ms.last(), ts, pos) && eval_spec(ms.last().fields@, node, tok) {
            prev.push(browse_loc_view(ms.last()))
        } else {
            prev
        }
    }
}

/// The test a word passes to be reported as the matching term.
pub open spec fn word_hit_pred(query: Seq<char>, mode: SearchMode) -> spec_fn(Seq<char>) -> bool {
    |w: Seq<char>| hit(w, query, mode)
}

/// The test a field passes to be a keyword hit.
pub open spec fn field_hit_pred(
    sel: Option<&[String]>,
    query: Seq<char>,
    mode: SearchMode,
    tok: Seq<Seq<char>>,
) -> spec_fn((String, String)) -> bool {
    |f: (String, String)| field_hit(f, sel, query, mode, tok)
}

/// Whether one `(path, value)` pair is a keyword hit.
pub open spec fn field_hit(
    f: (String, String),
    sel: Option<&[String]>,
    query: Seq<char>,
    mode: SearchMode,
    tok: Seq<Seq<char>>,
) -> bool {
    field_selected_spec(f.0@, sel) && value_matches_spec(f.1@, query, mode, tok_contains(tok, f.0@))
}

/// What a hit reports as its term: for a field split into words, the first word that
/// matched rather than the sentence it sat in.
pub open spec fn report_term(value: Seq<char>, query: Seq<char>, mode: SearchMode, tokenized: bool) -> Seq<char> {
    if tokenized {
        let ws = words(value);
        let j = first_index(ws, word_hit_pred(query, mode));
        if j < ws.len() {
            ws[j as int]
        } else {
            value
        }
    } else {
        value
    }
}

/// Keyword hits in message order, and the fields they were found in, each once, in the
/// order first met.
pub open spec fn keyword_seq(
    name: Seq<char>,
    ms: Seq<MockMessage>,
    query: Seq<char>,
    sel: Option<&[String]>,
    mode: SearchMode,
    tok: Seq<Seq<char>>,
    ts: Option<&TsRange>,
    pos: Option<&PosFilter>,
) -> (Seq<LocView>, Seq<Seq<char>>)
    decreases ms.len(),
{
    if ms.len() == 0 {
        (Seq::empty(), Seq::empty())
    } else {
        let prev = keyword_seq(name, ms.drop_last(), query, sel, mode, tok, ts, pos);
        let m = ms.last();
        let i = first_index(m.fields@, field_hit_pred(sel, query, mode, tok));
        if passes(m, ts, pos) && i < m.fields@.len() {
            let f = m.fields@[i as int];
            let term = report_term(f.1@, query, mode, tok_contains(tok, f.0@));
            (
                prev.0.push(hit_loc_view(name, m, f.0@, term)),
                if prev.1.contains(f.0@) {
                    prev.1
                } else {
                    prev.1.push(f.0@)
                },
            )
        } else {
            prev
        }
    }
}

proof fn lemma_take_last<A>(s: Seq<A>, i: int)
    requires
        0 <= i < s.len(),
    ensures
        s.take(i + 1).drop_last() == s.take(i),
        s.take(i + 1).last() == s[i],
{
    assert(s.take(i + 1).drop_last() =~= s.take(i));
}

/// The term a hit reports.
fn find_term(value: &str, query: &str, mode: &SearchMode, tokenized: bool) -> (t: String)
    ensures
        t@ == report_term(value@, query@, *mode, tokenized),
{
    if !tokenized {
        return owned(value);
    }
    let ws = split_whitespace(value);
    let ghost p = word_hit_pred(query@, *mode);
    let mut j: usize = 0;
    while j < ws.len()
        invariant
            j <= ws.len(),
            views(ws@) == words(value@),
            p == word_hit_pred(query@, *mode),
            tokenized,
            forall|k: int| 0 <= k < j ==> !p(#[trigger] views(ws@)[k]),
        decreases ws.len() - j,
    {
        if hit_text(ws[j].as_str(), query, mode) {
            proof {
                assert(views(ws@)[j as int] == ws@[j as int]@);
                lemma_first_index(views(ws@), p, j as int);
            }
            return ws[j].clone();
        }
        assert(views(ws@)[j as int] == ws@[j as int]@);
        j += 1;
    }
    proof {
        lemma_first_index(views(ws@), p, j as int);
    }
    owned(value)
}

fn hit_text(s: &str, q: &str, mode: &SearchMode) -> (r: bool)
    ensures
        r == hit(s@, q@, *mode),
{
    match mode {
        SearchMode::Exact => crate::text::str_eq(s, q),
        SearchMode::Prefix => crate::text::starts_with(s, q),
    }
}

/// A boolean search and a keyword search only ever give positions inside the time range
/// and the position filter, and a boolean search gives exactly the messages that are
/// inside both and satisfy the condition tree.
pub proof fn law_searches_stay_in_range(
    name: Seq<char>,
    ms: Seq<MockMessage>,
    node: QueryNode,
    query: Seq<char>,
    sel: Option<&[String]>,
    mode: SearchMode,
    tok: Seq<Seq<char>>,
    ts: Option<&TsRange>,
    pos: Option<&PosFilter>,
)
    ensures
        forall|i: int| 0 <= i < multi_seq(ms, node, tok, ts, pos).len() ==> {
            let l = #[trigger] multi_seq(ms, node, tok, ts, pos)[i];
            in_time_range(l.ts_millis, ts) && pos_ok_spec(l.partition, l.offset, pos)
        },
        forall|i: int| 0 <= i < keyword_seq(name, ms, query, sel, mode, tok, ts, pos).0.len() ==> {
            let l = #[trigger] keyword_seq(name, ms, query, sel, mode, tok, ts, pos).0[i];
            in_time_range(l.ts_millis, ts) && pos_ok_spec(l.partition, l.offset, pos)
        },
        forall|k: int|
            0 <= k < ms.len() && kept_by(ts, pos)(#[trigger] ms[k]) && eval_spec(ms[k].fields@, node, tok)
                ==> multi_seq(ms, node, tok, ts, pos).contains(browse_loc_view(ms[k])),
    decreases ms.len(),
{
    if ms.len() > 0 {
        let init = ms.drop_last();
        law_searches_stay_in_range(name, init, node, query, sel, mode, tok, ts, pos);
        let m = ms.last();
        assert(passes(m, ts, pos) == kept_by(ts, pos)(m));
        let mp = multi_seq(init, node, tok, ts, pos);
        let mb = multi_seq(ms, node, tok, ts, pos);
        assert forall|i: int| 0 <= i < mb.len() implies {
            let l = #[trigger] mb[i];
            in_time_range(l.ts_millis, ts) && pos_ok_spec(l.partition, l.offset, pos)
        } by {
            if i < mp.len() {
                assert(mb[i] == mp[i]);
            }
        }
        let kp = keyword_seq(name, init, query, sel, mode, tok, ts, pos).0;
        let kb = keyword_seq(name, ms, query, sel, mode, tok, ts, pos).0;
        assert forall|i: int| 0 <= i < kb.len() implies {
            let l = #[trigger] kb[i];
            in_time_range(l.ts_millis, ts) && pos_ok_spec(l.partition, l.offset, pos)
        } by {
            if i < kp.len() {
                assert(kb[i] == kp[i]);
            }
        }
        assert forall|k: int|
            0 <= k < ms.len() && kept_by(ts, pos)(#[trigger] ms[k]) && eval_spec(ms[k].fields@, node, tok)
            implies mb.contains(browse_loc_view(ms[k])) by {
            if k < init.len() {
                assert(init[k] == ms[k]);
                let j = choose|j: int| 0 <= j < mp.len() && mp[j] == browse_loc_view(init[k]);
                assert(mb[j] == mp[j]);
            } else {
                assert(mb[mb.len() - 1] == browse_loc_view(m));
            }
        }
    }
}

/// Where no field is split into words, a prefix search finds nothing unless some chosen
/// field's whole value starts with the query: a word in the middle of a sentence is not
/// found.
pub proof fn law_unsplit_prefix_needs_the_value_start(
    name: Seq<char>,
    ms: Seq<MockMessage>,
    query: Seq<char>,
    sel: Option<&[String]>,
    ts: Option<&TsRange>,
    pos: Option<&PosFilter>,
)
    requires
        forall|i: int, j: int|
            0 <= i < ms.len() && 0 <= j < ms[i].fields@.len() && field_selected_spec(
                (#[trigger] ms[i].fields@[j]).0@,
                sel,
            ) ==> !seq_starts_with(ms[i].fields@[j].1@, query),
    ensures
        keyword_seq(name, ms, query, sel, SearchMode::Prefix, Seq::empty(), ts, pos).0.len() == 0,
    decreases ms.len(),
{
    if ms.len() > 0 {
        let init = ms.drop_last();
        assert forall|i: int, j: int|
            0 <= i < init.len() && 0 <= j < init[i].fields@.len() && field_selected_spec(
                (#[trigger] init[i].fields@[j]).0@,
                sel,
            ) implies !seq_starts_with(init[i].fields@[j].1@, query) by {
            assert(init[i] == ms[i]);
        }
        law_unsplit_prefix_needs_the_value_start(name, init, query, sel, ts, pos);
        let m = ms.last();
        let p = field_hit_pred(sel, query, SearchMode::Prefix, Seq::empty());
        assert forall|k: int| 0 <= k < m.fields@.len() implies !p(#[trigger] m.fields@[k]) by {
            assert(m == ms[ms.len() - 1]);
            if field_selected_spec(m.fields@[k].0@, sel) {
                assert(!seq_starts_with(ms[ms.len() - 1].fields@[k].1@, query));
            }
            assert(!tok_contains(Seq::empty(), m.fields@[k].0@));
        }
        lemma_first_index(m.fields@, p, m.fields@.len() as int);
    }
}

/// Where a chosen field is split into words, a one-word prefix search finds a message
/// that passes the filters and has a word in that field starting with the query, even in
/// the middle of a sentence.
pub proof fn law_split_field_finds_a_word(
    name: Seq<char>,
    ms: Seq<MockMessage>,
    query: Seq<char>,
    sel: Option<&[String]>,
    tok: Seq<Seq<char>>,
    ts: Option<&TsRange>,
    pos: Option<&PosFilter>,
    i: int,
    j: int,
    w: int,
)
    requires
        0 <= i < ms.len(),
        passes(ms[i], ts, pos),
        0 <= j < ms[i].fields@.len(),
        field_selected_spec(ms[i].fields@[j].0@, sel),
        tok.contains(ms[i].fields@[j].0@),
        words(query).len() <= 1,
        0 <= w < words(ms[i].fields@[j].1@).len(),
        seq_starts_with(words(ms[i].fields@[j].1@)[w], query),
    ensures
        keyword_seq(name, ms, query, sel, SearchMode::Prefix, tok, ts, pos).0.len() >= 1,
    decreases ms.len(),
{
    let n = ms.len() - 1;
    let init = ms.drop_last();
    let m = ms.last();
    let p = field_hit_pred(sel, query, SearchMode::Prefix, tok);
    if i < n {
        assert(init[i] == ms[i]);
        law_split_field_finds_a_word(name, init, query, sel, tok, ts, pos, i, j, w);
    } else {
        let f = m.fields@[j];
        law_mid_sentence_word(f.1@, query, w);
        assert(p(m.fields@[j]));
        crate::order::lemma_first_index_props(m.fields@, p);
    }
}

impl MockTopic {
    /// Every message, narrowed by time and position only.
    pub fn browse_locs(
        &self,
        ts: Option<&TsRange>,
        pos: Option<&PosFilter>,
        sort: &SortOrder,
        limit: Option<usize>,
    ) -> (r: (Vec<LocItem>, usize))
        ensures
            loc_views(r.0@) == limit_take(sort_spec(browse_seq(self.messages@, ts, pos), *sort), limit),
            r.1 == browse_seq(self.messages@, ts, pos).len(),
    {
        let mut v: Vec<LocItem> = Vec::new();
        let mut i: usize = 0;
        while i < self.messages.len()
            invariant
                i <= self.messages.len(),
                loc_views(v@) == browse_seq(self.messages@.take(i as int), ts, pos),
                v@.len() <= i,
            decreases self.messages.len() - i,
        {
            let m = &self.messages[i];
            proof {
                lemma_take_last(self.messages@, i as int);
            }
            if ts_ok(m, ts) && pos_ok(m, pos) {
                let l = browse_loc(m);
                v.push(l);
                proof {
                    assert(loc_views(v@) =~= browse_seq(self.messages@.take(i as int), ts, pos).push(l@));
                }
            }
            i += 1;
        }
        proof {
            assert(self.messages@.take(self.messages.len() as int) == self.messages@);
        }
        sort_locs(&mut v, sort);
        proof {
            law_sort_is_ordered_permutation(browse_seq(self.messages@, ts, pos), *sort);
        }
        let total = v.len();
        let ghost sorted = v@;
        truncate_to(&mut v, limit);
        proof {
            assert(loc_views(v@) =~= limit_take(loc_views(sorted), limit));
        }
        (v, total)
    }

    /// Messages satisfying a boolean query. No single field is reported.
    pub fn multi_locs(
        &self,
        node: &QueryNode,
        tok: &Vec<String>,
        ts: Option<&TsRange>,
        pos: Option<&PosFilter>,
        sort: &SortOrder,
        limit: Option<usize>,
    ) -> (r: (Vec<LocItem>, usize))
        ensures
            loc_views(r.0@) == limit_take(
                sort_spec(multi_seq(self.messages@, *node, views(tok@), ts, pos), *sort),
                limit,
            ),
            r.1 == multi_seq(self.messages@, *node, views(tok@), ts, pos).len(),
    {
        let mut v: Vec<LocItem> = Vec::new();
        let mut i: usize = 0;
        while i < self.messages.len()
            invariant
                i <= self.messages.len(),
                loc_views(v@) == multi_seq(self.messages@.take(i as int), *node, views(tok@), ts, pos),
            decreases self.messages.len() - i,
        {
            let m = &self.messages[i];
            proof {
                lemma_take_last(self.messages@, i as int);
            }
            if ts_ok(m, ts) && pos_ok(m, pos) && eval_node(m, node, tok) {
                let l = browse_loc(m);
                v.push(l);
                proof {
                    assert(loc_views(v@) =~= multi_seq(self.messages@.take(i as int), *node, views(tok@), ts, pos).push(l@));
                }
            }
            i += 1;
        }
        proof {
            assert(self.messages@.take(self.messages.len() as int) == self.messages@);
            law_sort_is_ordered_permutation(multi_seq(self.messages@, *node, views(tok@), ts, pos), *sort);
        }
        sort_locs(&mut v, sort);
        let total = v.len();
        let ghost sorted = v@;
        truncate_to(&mut v, limit);
        proof {
            assert(loc_views(v@) =~= limit_take(loc_views(sorted), limit));
        }
        (v, total)
    }

    /// Messages where any of the chosen fields matches. The first field to match is the
    /// one reported. An empty query matches nothing.
    pub fn keyword_locs(
        &self,
        query: &str,
        fields: Option<&[String]>,
        mode: &SearchMode,
        tok: &Vec<String>,
        ts: Option<&TsRange>,
        pos: Option<&PosFilter>,
        sort: &SortOrder,
        limit: Option<usize>,
    ) -> (r: (Vec<LocItem>, Vec<String>, usize))
        ensures
            query@.len() == 0 ==> r.0@.len() == 0 && r.1@.len() == 0 && r.2 == 0,
            query@.len() > 0 ==> {
                let k = keyword_seq(self.name@, self.messages@, query@, fields, *mode, views(tok@), ts, pos);
                &&& loc_views(r.0@) == limit_take(sort_spec(k.0, *sort), limit)
                &&& views(r.1@) == k.1
                &&& r.2 == k.0.len()
            },
    {
        let mut locs: Vec<LocItem> = Vec::new();
        let mut hit_fields: Vec<String> = Vec::new();
        if query.is_empty() {
            return (locs, hit_fields, 0);
        }
        let ghost name = self.name@;
        let ghost ms = self.messages@;
        let mut i: usize = 0;
        while i < self.messages.len()
            invariant
                i <= self.messages.len(),
                ms == self.messages@,
                name == self.name@,
                (loc_views(locs@), views(hit_fields@)) == keyword_seq(name, ms.take(i as int), query@, fields, *mode, views(tok@), ts, pos),
            decreases self.messages.len() - i,
        {
            let m = &self.messages[i];
            proof {
                lemma_take_last(ms, i as int);
            }
            if ts_ok(m, ts) && pos_ok(m, pos) {
                let ghost p = field_hit_pred(fields, query@, *mode, views(tok@));
                let mut j: usize = 0;
                let mut found = false;
                while j < m.fields.len()
                    invariant
                        j <= m.fields.len(),
                        p == field_hit_pred(fields, query@, *mode, views(tok@)),
                        found ==> j < m.fields.len() && p(m.fields@[j as int]),
                        forall|k: int| 0 <= k < j ==> !p(#[trigger] m.fields@[k]),
                    ensures
                        forall|k: int| 0 <= k < j ==> !p(#[trigger] m.fields@[k]),
                        found ==> j < m.fields.len() && p(m.fields@[j as int]),
                        !found ==> j == m.fields.len(),
                    decreases m.fields.len() - j, if found { 0int } else { 1int },
                {
                    let (path, value) = &m.fields[j];
                    if field_selected(path.as_str(), fields) && value_matches(
                        value.as_str(),
                        query,
                        mode,
                        crate::text::contains_str(tok, path.as_str()),
                    ) {
                        found = true;
                        break;
                    }
                    j += 1;
                }
                proof {
                    lemma_first_index(m.fields@, p, j as int);
                }
                if found {
                    let (path, value) = &m.fields[j];
                    let ghost prev_hits = views(hit_fields@);
                    if !crate::text::contains_str(&hit_fields, path.as_str()) {
                        hit_fields.push(path.clone());
                        proof {
                            assert(views(hit_fields@) =~= prev_hits.push(path@));
                        }
                    }
                    let tokenized = crate::text::contains_str(tok, path.as_str());
                    let term = find_term(value.as_str(), query, mode, tokenized);
                    let l = hit_loc(self.name.as_str(), m, path.as_str(), term.as_str());
                    let ghost prev_locs = loc_views(locs@);
                    locs.push(l);
                    proof {
                        assert(loc_views(locs@) =~= prev_locs.push(l@));
                    }
                }
            }
            i += 1;
        }
        proof {
            assert(ms.take(self.messages.len() as int) == ms);
            law_sort_is_ordered_permutation(keyword_seq(name, ms, query@, fields, *mode, views(tok@), ts, pos).0, *sort);
        }
        sort_locs(&mut locs, sort);
        let total = locs.len();
        let ghost sorted = locs@;
        truncate_to(&mut locs, limit);
        proof {
            assert(loc_views(locs@) =~= limit_take(loc_views(sorted), limit));
        }
        (locs, hit_fields, total)
    }
}

// ── Reading messages back ───────────────────────────────────────────────────

/// The index entry a field of a message is reachable by.
pub open spec fn meta_entries(topic: Seq<char>, m: MockMessage) -> Seq<(Seq<char>, Seq<char>)> {
    m.fields@.map_values(
        |f: (String, String)| (f.0@, index_key_text(topic, f.0@, f.1@, m.partition, m.offset)),
    )
}

/// A message as a search returns it, read in full from what is held.
pub open spec fn message_result_view(
    topic: Seq<char>,
    m: MockMessage,
    matched_field: Option<Seq<char>>,
    pretty_index_key: Option<Seq<char>>,
) -> MessageResultView {
    MessageResultView {
        matched_field,
        raw_index_key_hex: match pretty_index_key {
            Some(k) => Some(text_hex(k)),
            None => None,
        },
        pretty_index_key,
        raw_meta_key_hex: text_hex(meta_key_text(topic, m.partition, m.offset)),
        pretty_meta_key: meta_key_text(topic, m.partition, m.offset),
        content_source: "full"@,
        meta_index_entries: meta_entries(topic, m),
        raw_meta_value_json: Some(m.value_json@),
        field_values: pair_views(m.fields@),
        topic,
        partition: m.partition as i32,
        offset: m.offset as i64,
        timestamp: ts_text(m.ts_millis),
        key: match m.key {
            Some(k) => k@,
            None => Seq::empty(),
        },
        payload: m.value_json@,
        headers: Seq::empty(),
        json: m.value_json@,
    }
}

pub open spec fn result_views(s: Seq<MessageResult>) -> Seq<MessageResultView> {
    s.map_values(|r: MessageResult| r@)
}

/// The index of the last message at a position, or -1 when there is none. Where two
/// messages share a position, the later one is the one read.
pub open spec fn last_index_at(ms: Seq<MockMessage>, partition: u32, offset: u64) -> int
    decreases ms.len(),
{
    if ms.len() == 0 {
        -1
    } else if ms.last().partition == partition && ms.last().offset == offset {
        ms.len() - 1
    } else {
        last_index_at(ms.drop_last(), partition, offset)
    }
}

/// The messages at those positions, skipping any that are not there.
pub open spec fn rows_seq(topic: Seq<char>, ms: Seq<MockMessage>, locs: Seq<LocItem>) -> Seq<MessageResultView>
    decreases locs.len(),
{
    if locs.len() == 0 {
        Seq::empty()
    } else {
        let prev = rows_seq(topic, ms, locs.drop_last());
        let l = locs.last();
        let k = last_index_at(ms, l.partition, l.offset);
        if k >= 0 {
            prev.push(
                message_result_view(
                    topic,
                    ms[k],
                    opt_view(l.matched_field),
                    opt_view(l.pretty_index_key),
                ),
            )
        } else {
            prev
        }
    }
}

proof fn lemma_last_index_at(ms: Seq<MockMessage>, partition: u32, offset: u64)
    ensures
        -1 <= last_index_at(ms, partition, offset) < ms.len(),
    decreases ms.len(),
{
    if ms.len() > 0 {
        lemma_last_index_at(ms.drop_last(), partition, offset);
    }
}

impl MockTopic {
    /// Reads the messages at those positions, skipping any that are not there.
    pub fn message_rows(&self, locs: &[LocItem]) -> (r: Vec<MessageResult>)
        ensures
            result_views(r@) == rows_seq(self.name@, self.messages@, locs@),
    {
        let mut out: Vec<MessageResult> = Vec::new();
        let mut i: usize = 0;
        while i < locs.len()
            invariant
                i <= locs@.len(),
                result_views(out@) == rows_seq(self.name@, self.messages@, locs@.take(i as int)),
            decreases locs.len() - i,
        {
            let loc = &locs[i];
            proof {
                lemma_take_last(locs@, i as int);
                lemma_last_index_at(self.messages@, loc.partition, loc.offset);
            }
            // Scan from the end: where two messages share a position, the later one wins.
            let mut k: usize = self.messages.len();
            let mut found = false;
            proof {
                assert(self.messages@.take(k as int) == self.messages@);
            }
            while k > 0
                invariant_except_break
                    k <= self.messages.len(),
                    !found,
                    last_index_at(self.messages@, loc.partition, loc.offset)
                        == last_index_at(self.messages@.take(k as int), loc.partition, loc.offset),
                ensures
                    found ==> k < self.messages.len() && k as int == last_index_at(
                        self.messages@,
                        loc.partition,
                        loc.offset,
                    ),
                    !found ==> last_index_at(self.messages@, loc.partition, loc.offset) == -1,
                decreases k,
            {
                let m = &self.messages[k - 1];
                proof {
                    lemma_take_last(self.messages@, k - 1);
                }
                if m.partition == loc.partition && m.offset == loc.offset {
                    proof {
                        assert(last_index_at(self.messages@.take(k as int), loc.partition, loc.offset)
                            == k - 1);
                    }
                    k = k - 1;
                    found = true;
                    break;
                }
                proof {
                    assert(last_index_at(self.messages@.take(k as int), loc.partition, loc.offset)
                        == last_index_at(self.messages@.take(k - 1), loc.partition, loc.offset));
                    if k == 1 {
                        assert(self.messages@.take(0).len() == 0);
                    }
                }
                k = k - 1;
            }
            if found {
                let row = self.message_result(
                    &self.messages[k],
                    clone_opt(&loc.matched_field),
                    clone_opt(&loc.pretty_index_key),
                );
                let ghost prev = result_views(out@);
                out.push(row);
                proof {
                    assert(result_views(out@) =~= prev.push(row@));
                }
            }
            i += 1;
        }
        proof {
            assert(locs@.take(locs@.len() as int) == locs@);
        }
        out
    }

    /// One message as a search returns it.
    pub fn message_result(
        &self,
        m: &MockMessage,
        matched_field: Option<String>,
        pretty_index_key: Option<String>,
    ) -> (r: MessageResult)
        ensures
            r@ == message_result_view(self.name@, *m, opt_view(matched_field), opt_view(pretty_index_key)),
    {
        let mut meta_index_entries: Vec<(String, String)> = Vec::new();
        let mut i: usize = 0;
        while i < m.fields.len()
            invariant
                i <= m.fields.len(),
                pair_views(meta_index_entries@) == meta_entries(self.name@, *m).take(i as int),
            decreases m.fields.len() - i,
        {
            let (p, v) = &m.fields[i];
            let k = fmt_index_key(self.name.as_str(), p.as_str(), v.as_str(), m.partition, m.offset);
            let ghost prev = pair_views(meta_index_entries@);
            meta_index_entries.push((p.clone(), k));
            proof {
                let me = meta_entries(self.name@, *m);
                assert(me[i as int] == (p@, k@));
                assert(me.take(i + 1) =~= me.take(i as int).push(me[i as int]));
                assert(pair_views(meta_index_entries@) =~= prev.push((p@, k@)));
            }
            i += 1;
        }
        proof {
            assert(meta_entries(self.name@, *m).take(m.fields.len() as int) == meta_entries(self.name@, *m));
        }
        let raw_index_key_hex = match &pretty_index_key {
            Some(k) => Some(text_to_hex(k.as_str())),
            None => None,
        };
        let meta_key = fmt_meta_key(self.name.as_str(), m.partition, m.offset);
        let r = MessageResult {
            matched_field,
            raw_index_key_hex,
            pretty_index_key,
            raw_meta_key_hex: text_to_hex(meta_key.as_str()),
            pretty_meta_key: meta_key,
            content_source: owned("full"),
            meta_index_entries,
            raw_meta_value_json: Some(m.value_json.clone()),
            field_values: clone_pairs(&m.fields),
            topic: self.name.clone(),
            partition: m.partition as i32,
            offset: m.offset as i64,
            timestamp: fmt_ts(m.ts_millis),
            key: match &m.key {
                Some(k) => k.clone(),
                None => String::new(),
            },
            payload: m.value_json.clone(),
            headers: Vec::new(),
            json: m.value_json.clone(),
        };
        proof {
            assert(pair_views(r.headers@) =~= Seq::<(Seq<char>, Seq<char>)>::empty());
        }
        r
    }
}
} // verus!
