//! The fixture the engine is loaded from, and how it becomes topics.
//!
//! The fixture is JSON: topics, each with messages whose keys and values are JSON
//! values. Reading the text is done before it reaches here; what arrives is the parsed
//! tree. The text a message shows (indented JSON of its value, compact JSON of a
//! structured key) is written by `serde_json` while topics are built.
//!
//! Field paths follow the notation a real engine produces: `P.orderId`,
//! `P.items[*].name`, `K.id`.

use vstd::prelude::*;

use std::collections::BTreeMap;

use serde_json::Value;

use crate::mock::data::{message_views, MessageView, MockMessage, MockTopic};
use crate::mock::store::MockStore;
use crate::order::{lemma_first_index, stable_sort};
use crate::search::{opt_view, pair_views};
use crate::text::{contains_str, owned, push_str, seq_starts_with, starts_with, str_eq, views};

verus! {

broadcast use vstd::laws_cmp::group_laws_cmp, vstd::std_specs::btree::group_btree_axioms;

/// A JSON value, as the fixture holds it.
#[derive(Debug)]
pub enum JsonValue {
    Null,
    Bool(bool),
    /// A number, as the text it is written as.
    Number(String),
    Str(String),
    Array(Vec<JsonValue>),
    /// An object's members, in the order they are read.
    Object(Vec<(String, JsonValue)>),
}

/// One message as the fixture gives it.
#[derive(Debug)]
pub struct FxMessage {
    pub partition: u32,
    /// Made up, per partition, where left out.
    pub offset: Option<u64>,
    /// Made up, a minute apart, where left out.
    pub ts_millis: Option<u64>,
    pub key: Option<JsonValue>,
    pub value: JsonValue,
}

/// One topic as the fixture gives it.
#[derive(Debug)]
pub struct FxTopic {
    pub name: String,
    /// How many partitions it has; worked out from the messages where left out.
    pub partitions: Option<u32>,
    /// `json` where left out.
    pub key_deserializer: Option<String>,
    /// `json` where left out.
    pub value_deserializer: Option<String>,
    pub messages: Vec<FxMessage>,
}

/// The whole fixture.
#[derive(Debug)]
pub struct FxRoot {
    pub topics: Vec<FxTopic>,
}

// ── JSON text from `serde_json` ─────────────────────────────────────────────

#[verifier::external_type_specification]
#[verifier::external_body]
pub struct ExSerdeJsonValue(Value);

/// What `serde_json::to_string_pretty` gives for a value: its indented JSON text, or
/// nothing where the value cannot be handed to `serde_json` (a number whose text is not
/// a JSON number) or writing fails.
pub uninterp spec fn json_pretty_text(v: JsonValue) -> Option<Seq<char>>;

/// What `serde_json::to_string` gives for a value: its compact JSON text, or nothing in
/// the same cases.
pub uninterp spec fn json_compact_text(v: JsonValue) -> Option<Seq<char>>;

/// The value as `serde_json` holds it, member for member; an object's members go into a
/// `serde_json::Map` in order, so a repeated name keeps its last value. `None` where a
/// number's text does not read as a JSON number. Used only to hand a value to the two
/// writers below.
#[verifier::external_body]
fn serde_value(v: &JsonValue) -> Option<Value> {
    match v {
        JsonValue::Null => Some(Value::Null),
        JsonValue::Bool(b) => Some(Value::Bool(*b)),
        JsonValue::Number(t) => t.parse().ok().map(Value::Number),
        JsonValue::Str(s) => Some(Value::String(s.clone())),
        JsonValue::Array(a) => a.iter().map(serde_value).collect::<Option<_>>().map(Value::Array),
        JsonValue::Object(m) => {
            m.iter().map(|(k, x)| Some((k.clone(), serde_value(x)?))).collect::<Option<_>>().map(Value::Object)
        },
    }
}

/// Calls `serde_json::to_string_pretty` on the value. The result is named
/// `json_pretty_text` of the value; the layout itself is left to `serde_json`.
#[verifier::external_body]
fn json_pretty(v: &JsonValue) -> (r: Option<String>)
    ensures
        match r {
            Some(t) => json_pretty_text(*v) == Some(t@),
            None => json_pretty_text(*v) is None,
        },
{
    match serde_value(v) {
        Some(x) => serde_json::to_string_pretty(&x).ok(),
        None => None,
    }
}

/// Calls `serde_json::to_string` on the value. The result is named `json_compact_text`
/// of the value; the text itself is left to `serde_json`.
#[verifier::external_body]
fn json_compact(v: &JsonValue) -> (r: Option<String>)
    ensures
        match r {
            Some(t) => json_compact_text(*v) == Some(t@),
            None => json_compact_text(*v) is None,
        },
{
    match serde_value(v) {
        Some(x) => serde_json::to_string(&x).ok(),
        None => None,
    }
}

/// A rendering's text, or nothing where there is none.
pub open spec fn or_empty(t: Option<Seq<char>>) -> Seq<char> {
    match t {
        Some(x) => x,
        None => Seq::empty(),
    }
}

/// How a message's value is shown: indented JSON, or compact JSON where that cannot be
/// written, or nothing where neither can.
pub open spec fn value_text(v: JsonValue) -> Seq<char> {
    match json_pretty_text(v) {
        Some(t) => t,
        None => or_empty(json_compact_text(v)),
    }
}

fn value_text_of(v: &JsonValue) -> (r: String)
    ensures
        r@ == value_text(*v),
{
    match json_pretty(v) {
        Some(t) => t,
        None => match json_compact(v) {
            Some(t) => t,
            None => String::new(),
        },
    }
}

/// The text of a boolean.
pub open spec fn bool_text(b: bool) -> Seq<char> {
    if b {
        seq!['t', 'r', 'u', 'e']
    } else {
        seq!['f', 'a', 'l', 's', 'e']
    }
}

/// The path of an object member: `prefix.key`.
pub open spec fn member_path(prefix: Seq<char>, key: Seq<char>) -> Seq<char> {
    prefix + seq!['.'] + key
}

/// The path of an array's items: `prefix[*]`.
pub open spec fn items_path(prefix: Seq<char>) -> Seq<char> {
    prefix + seq!['[', '*', ']']
}

/// A value flattened to `(path, text)` pairs: an object's members under `prefix.key`,
/// an array's items all under `prefix[*]`, a scalar as itself, `null` as nothing.
pub open spec fn flat(prefix: Seq<char>, v: JsonValue) -> Seq<(Seq<char>, Seq<char>)>
    decreases v, 1int,
{
    match v {
        JsonValue::Null => Seq::empty(),
        JsonValue::Bool(b) => seq![(prefix, bool_text(b))],
        JsonValue::Number(n) => seq![(prefix, n@)],
        JsonValue::Str(s) => seq![(prefix, s@)],
        JsonValue::Array(items) => flat_items(items_path(prefix), items@),
        JsonValue::Object(members) => flat_members(prefix, members@),
    }
}

/// Array items flattened, one after another, all under the same path.
pub open spec fn flat_items(path: Seq<char>, items: Seq<JsonValue>) -> Seq<(Seq<char>, Seq<char>)>
    decreases items, 0int,
{
    if items.len() == 0 {
        Seq::empty()
    } else {
        flat_items(path, items.subrange(0, items.len() - 1)) + flat(path, items[items.len() - 1])
    }
}

/// Object members flattened, one after another, each under its own path.
pub open spec fn flat_members(prefix: Seq<char>, members: Seq<(String, JsonValue)>) -> Seq<
    (Seq<char>, Seq<char>),
>
    decreases members, 0int,
{
    if members.len() == 0 {
        Seq::empty()
    } else {
        let last = members[members.len() - 1];
        flat_members(prefix, members.subrange(0, members.len() - 1)) + flat(
            member_path(prefix, last.0@),
            last.1,
        )
    }
}

/// Every path in `ps` begins with `prefix`.
pub open spec fn all_under(ps: Seq<(Seq<char>, Seq<char>)>, prefix: Seq<char>) -> bool {
    forall|i: int| 0 <= i < ps.len() ==> seq_starts_with(#[trigger] ps[i].0, prefix)
}

proof fn lemma_starts_with_trans(s: Seq<char>, q: Seq<char>, p: Seq<char>)
    requires
        seq_starts_with(s, q),
        seq_starts_with(q, p),
    ensures
        seq_starts_with(s, p),
{
    assert(s.subrange(0, p.len() as int) =~= q.subrange(0, p.len() as int));
}

proof fn lemma_all_under_concat(a: Seq<(Seq<char>, Seq<char>)>, b: Seq<(Seq<char>, Seq<char>)>, p: Seq<char>)
    requires
        all_under(a, p),
        all_under(b, p),
    ensures
        all_under(a + b, p),
{
    assert forall|i: int| 0 <= i < (a + b).len() implies seq_starts_with(#[trigger] (a + b)[i].0, p) by {
        if i < a.len() {
            assert((a + b)[i] == a[i]);
        } else {
            assert((a + b)[i] == b[i - a.len()]);
        }
    }
}

proof fn lemma_all_under_weaken(ps: Seq<(Seq<char>, Seq<char>)>, q: Seq<char>, p: Seq<char>)
    requires
        all_under(ps, q),
        seq_starts_with(q, p),
    ensures
        all_under(ps, p),
{
    assert forall|i: int| 0 <= i < ps.len() implies seq_starts_with(#[trigger] ps[i].0, p) by {
        lemma_starts_with_trans(ps[i].0, q, p);
    }
}

/// Every path a value flattens to begins with the prefix it was flattened under.
pub proof fn law_flat_paths_under_prefix(prefix: Seq<char>, v: JsonValue)
    ensures
        all_under(flat(prefix, v), prefix),
    decreases v, 1int,
{
    match v {
        JsonValue::Array(items) => {
            lemma_items_under(items_path(prefix), items@);
            assert(items_path(prefix).subrange(0, prefix.len() as int) =~= prefix);
            lemma_all_under_weaken(flat(prefix, v), items_path(prefix), prefix);
        },
        JsonValue::Object(members) => {
            lemma_members_under(prefix, members@);
        },
        _ => {
            assert(prefix.subrange(0, prefix.len() as int) =~= prefix);
        },
    }
}

proof fn lemma_items_under(path: Seq<char>, items: Seq<JsonValue>)
    ensures
        all_under(flat_items(path, items), path),
    decreases items, 0int,
{
    if items.len() > 0 {
        let init = items.subrange(0, items.len() - 1);
        assert(decreases_to!(items => items[items.len() - 1]));
        lemma_items_under(path, init);
        law_flat_paths_under_prefix(path, items[items.len() - 1]);
        lemma_all_under_concat(flat_items(path, init), flat(path, items[items.len() - 1]), path);
    }
}

proof fn lemma_members_under(prefix: Seq<char>, members: Seq<(String, JsonValue)>)
    ensures
        all_under(flat_members(prefix, members), prefix),
    decreases members, 0int,
{
    if members.len() > 0 {
        let init = members.subrange(0, members.len() - 1);
        let last = members[members.len() - 1];
        let mp = member_path(prefix, last.0@);
        assert(decreases_to!(members => last.1));
        lemma_members_under(prefix, init);
        law_flat_paths_under_prefix(mp, last.1);
        assert(mp.subrange(0, prefix.len() as int) =~= prefix);
        lemma_all_under_weaken(flat(mp, last.1), mp, prefix);
        lemma_all_under_concat(flat_members(prefix, init), flat(mp, last.1), prefix);
    }
}

/// Flattens a value to `(path, text)` pairs, appended to `out`. Arrays are written as
/// `prefix[*]`, the same notation a real engine produces.
pub fn flatten_json(prefix: &str, value: &JsonValue, out: &mut Vec<(String, String)>)
    ensures
        pair_views(final(out)@) == pair_views(old(out)@) + flat(prefix@, *value),
    decreases value, 1int,
{
    let ghost start = pair_views(out@);
    match value {
        JsonValue::Null => {
            assert(pair_views(out@) =~= start + flat(prefix@, *value));
        },
        JsonValue::Bool(b) => {
            let text = if *b {
                let t = owned("true");
                proof {
                    reveal_strlit("true");
                }
                assert(t@ == bool_text(true));
                t
            } else {
                let t = owned("false");
                proof {
                    reveal_strlit("false");
                }
                assert(t@ == bool_text(false));
                t
            };
            assert(text@ == bool_text(*b));
            out.push((owned(prefix), text));
            assert(pair_views(out@) =~= start + flat(prefix@, *value));
        },
        JsonValue::Number(n) => {
            out.push((owned(prefix), n.clone()));
            assert(pair_views(out@) =~= start + flat(prefix@, *value));
        },
        JsonValue::Str(s) => {
            out.push((owned(prefix), s.clone()));
            assert(pair_views(out@) =~= start + flat(prefix@, *value));
        },
        JsonValue::Array(items) => {
            let mut path = owned(prefix);
            proof {
                reveal_strlit("[*]");
            }
            push_str(&mut path, "[*]");
            assert(path@ == items_path(prefix@));
            flatten_items(path.as_str(), items, out);
        },
        JsonValue::Object(members) => {
            flatten_members(prefix, members, out);
        },
    }
}

fn flatten_items(path: &str, items: &Vec<JsonValue>, out: &mut Vec<(String, String)>)
    ensures
        pair_views(final(out)@) == pair_views(old(out)@) + flat_items(path@, items@),
    decreases items, 0int,
{
    let ghost start = pair_views(out@);
    let mut i: usize = 0;
    while i < items.len()
        invariant
            i <= items@.len(),
            pair_views(out@) == start + flat_items(path@, items@.subrange(0, i as int)),
        decreases items.len() - i,
    {
        proof {
            let w = items@.subrange(0, i + 1);
            assert(w.subrange(0, w.len() - 1) == items@.subrange(0, i as int));
            assert(w[w.len() - 1] == items@[i as int]);
            assert(decreases_to!(items => items@[i as int]));
        }
        flatten_json(path, &items[i], out);
        assert(pair_views(out@) =~= start + flat_items(path@, items@.subrange(0, i + 1)));
        i += 1;
    }
    assert(items@.subrange(0, items@.len() as int) == items@);
}

fn flatten_members(prefix: &str, members: &Vec<(String, JsonValue)>, out: &mut Vec<(String, String)>)
    ensures
        pair_views(final(out)@) == pair_views(old(out)@) + flat_members(prefix@, members@),
    decreases members, 0int,
{
    let ghost start = pair_views(out@);
    let mut i: usize = 0;
    while i < members.len()
        invariant
            i <= members@.len(),
            pair_views(out@) == start + flat_members(prefix@, members@.subrange(0, i as int)),
        decreases members.len() - i,
    {
        proof {
            let w = members@.subrange(0, i + 1);
            assert(w.subrange(0, w.len() - 1) == members@.subrange(0, i as int));
            assert(w[w.len() - 1] == members@[i as int]);
            assert(decreases_to!(members => members@[i as int].1));
        }
        let mut path = owned(prefix);
        proof {
            reveal_strlit(".");
        }
        push_str(&mut path, ".");
        push_str(&mut path, members[i].0.as_str());
        assert(path@ == member_path(prefix@, members@[i as int].0@));
        flatten_json(path.as_str(), &members[i].1, out);
        assert(pair_views(out@) =~= start + flat_members(prefix@, members@.subrange(0, i + 1)));
        i += 1;
    }
    assert(members@.subrange(0, members@.len() as int) == members@);
}

// ── Building a topic ────────────────────────────────────────────────────────

/// Where made-up timestamps start: 2024-01-01T00:00:00Z.
pub const BASE_TS_MS: u64 = 1_704_067_200_000;

/// How far apart made-up timestamps are: one minute.
pub const TS_STEP_MS: u64 = 60_000;

/// The timestamp made up for the `i`-th message.
pub open spec fn default_ts(i: int) -> int {
    BASE_TS_MS + i * TS_STEP_MS
}

/// The offset a message gets, given the next offset per partition so far: its own, or
/// the next one of its partition, from 0.
pub open spec fn assigned_offset(next: Map<u32, u64>, m: FxMessage) -> u64 {
    match m.offset {
        Some(o) => o,
        None => if next.contains_key(m.partition) {
            next[m.partition]
        } else {
            0
        },
    }
}

/// The next offset per partition after these messages: one past the offset the last
/// message of that partition got.
pub open spec fn next_offsets(ms: Seq<FxMessage>) -> Map<u32, u64>
    decreases ms.len(),
{
    if ms.len() == 0 {
        Map::empty()
    } else {
        let prev = next_offsets(ms.drop_last());
        let m = ms.last();
        prev.insert(m.partition, (assigned_offset(prev, m) + 1) as u64)
    }
}

/// The offset the `i`-th message gets.
pub open spec fn offset_at(ms: Seq<FxMessage>, i: int) -> u64 {
    assigned_offset(next_offsets(ms.take(i)), ms[i])
}

/// No offset given or made up is the largest `u64`, so the next one can be counted.
pub open spec fn offsets_fit(ms: Seq<FxMessage>) -> bool {
    forall|i: int| 0 <= i < ms.len() ==> #[trigger] offset_at(ms, i) < u64::MAX
}

/// The key as text: a string, number or boolean as itself, `null` as nothing, an array
/// or object as compact JSON.
pub open spec fn key_text(key: JsonValue) -> Seq<char> {
    match key {
        JsonValue::Str(s) => s@,
        JsonValue::Number(n) => n@,
        JsonValue::Bool(b) => bool_text(b),
        JsonValue::Null => Seq::empty(),
        _ => or_empty(json_compact_text(key)),
    }
}

/// The searchable fields of a message: its key's under `K`, then its value's under `P`.
pub open spec fn message_fields(m: FxMessage) -> Seq<(Seq<char>, Seq<char>)> {
    (match m.key {
        Some(k) => flat(seq!['K'], k),
        None => Seq::empty(),
    }) + flat(seq!['P'], m.value)
}

/// The `i`-th message as built, before sorting.
pub open spec fn built_message(ms: Seq<FxMessage>, i: int) -> MessageView {
    let m = ms[i];
    MessageView {
        partition: m.partition,
        offset: offset_at(ms, i),
        ts_millis: match m.ts_millis {
            Some(t) => t,
            None => default_ts(i) as u64,
        },
        key: match m.key {
            Some(k) => Some(key_text(k)),
            None => None,
        },
        value_json: value_text(m.value),
        fields: message_fields(m),
    }
}

pub open spec fn built_messages(ms: Seq<FxMessage>) -> Seq<MessageView> {
    Seq::new(ms.len(), |i: int| built_message(ms, i))
}

/// `a` comes strictly before `b` by partition, then offset.
pub open spec fn position_before() -> spec_fn(MessageView, MessageView) -> bool {
    |a: MessageView, b: MessageView| a.partition < b.partition || (a.partition == b.partition
        && a.offset < b.offset)
}

/// The paths of a message's fields, in order.
pub open spec fn field_paths(m: MessageView) -> Seq<Seq<char>> {
    m.fields.map_values(|p: (Seq<char>, Seq<char>)| p.0)
}

/// The paths of every field of every message, in order.
pub open spec fn all_paths(ms: Seq<MessageView>) -> Seq<Seq<char>>
    decreases ms.len(),
{
    if ms.len() == 0 {
        Seq::empty()
    } else {
        all_paths(ms.drop_last()) + field_paths(ms.last())
    }
}

/// Whether a path is `root` or lies under `root.`.
pub open spec fn under_root(root: Seq<char>) -> spec_fn(Seq<char>) -> bool {
    |p: Seq<char>| seq_starts_with(p, root.push('.')) || p == root
}

/// `s` with each element kept only where it first occurs.
pub open spec fn dedup(s: Seq<Seq<char>>) -> Seq<Seq<char>>
    decreases s.len(),
{
    if s.len() == 0 {
        Seq::empty()
    } else {
        let d = dedup(s.drop_last());
        if d.contains(s.last()) {
            d
        } else {
            d.push(s.last())
        }
    }
}

/// The distinct paths under `root`, in the order they first occur.
pub open spec fn unique_paths_spec(ms: Seq<MessageView>, root: Seq<char>) -> Seq<Seq<char>> {
    dedup(all_paths(ms).filter(under_root(root)))
}

/// The largest partition plus one, or 0 with no messages.
pub open spec fn partitions_seen(ms: Seq<MessageView>) -> int
    decreases ms.len(),
{
    if ms.len() == 0 {
        0
    } else {
        let rest = partitions_seen(ms.drop_last());
        let p = ms.last().partition + 1;
        if p > rest {
            p
        } else {
            rest
        }
    }
}

/// How many partitions a topic has: as given, or one past the largest seen; at least 1.
pub open spec fn partition_count_spec(given: Option<u32>, ms: Seq<MessageView>) -> int {
    let n = match given {
        Some(p) => p as int,
        None => partitions_seen(ms),
    };
    if n < 1 {
        1
    } else {
        n
    }
}

/// A deserializer name, `json` where none is given.
pub open spec fn deser_or_json(d: Option<String>) -> Seq<char> {
    match d {
        Some(s) => s@,
        None => seq!['j', 's', 'o', 'n'],
    }
}

/// What building a topic needs so that no count overflows: offsets that fit, made-up
/// timestamps that fit, and, where the partition count is left out, partitions below
/// the largest `u32`.
pub open spec fn topic_fits(fx: FxTopic) -> bool {
    &&& offsets_fit(fx.messages@)
    &&& (fx.messages@.len() == 0 || default_ts(fx.messages@.len() - 1) <= u64::MAX)
    &&& (fx.partitions is None ==> forall|i: int|
        0 <= i < fx.messages@.len() ==> #[trigger] fx.messages@[i].partition < u32::MAX)
}

/// `t` is the topic built from `fx`: its messages made up where left out, sorted by
/// partition then offset (keeping the fixture's order among equals), with the distinct
/// key and payload paths in the order they first occur.
pub open spec fn builds(fx: FxTopic, t: MockTopic) -> bool {
    let ms = message_views(t.messages@);
    &&& t.name@ == fx.name@
    &&& ms == stable_sort(built_messages(fx.messages@), position_before())
    &&& t.partition_count == partition_count_spec(fx.partitions, built_messages(fx.messages@))
    &&& t.key_deserializer@ == deser_or_json(fx.key_deserializer)
    &&& t.value_deserializer@ == deser_or_json(fx.value_deserializer)
    &&& views(t.key_fields@) == unique_paths_spec(ms, seq!['K'])
    &&& views(t.payload_fields@) == unique_paths_spec(ms, seq!['P'])
}

/// The offset of each message, given or made up; `None` where one would be the largest
/// `u64`, so that the next could not be counted.
fn assign_offsets(ms: &Vec<FxMessage>) -> (r: Option<Vec<u64>>)
    ensures
        r is Some <==> offsets_fit(ms@),
        r matches Some(v) ==> v@.len() == ms@.len() && forall|i: int|
            0 <= i < ms@.len() ==> #[trigger] v@[i] == offset_at(ms@, i),
{
    let mut next: BTreeMap<u32, u64> = BTreeMap::new();
    let mut out: Vec<u64> = Vec::new();
    let n = ms.len();
    let mut i: usize = 0;
    proof {
        assert(ms@.take(0) =~= Seq::<FxMessage>::empty());
    }
    while i < n
        invariant
            n == ms@.len(),
            i <= n,
            next@ == next_offsets(ms@.take(i as int)),
            out@.len() == i,
            forall|k: int| 0 <= k < i ==> #[trigger] out@[k] == offset_at(ms@, k),
            forall|k: int| 0 <= k < i ==> #[trigger] offset_at(ms@, k) < u64::MAX,
        decreases n - i,
    {
        let m = &ms[i];
        let o: u64 = match m.offset {
            Some(o) => o,
            None => match next.get(&m.partition) {
                Some(v) => *v,
                None => 0,
            },
        };
        assert(o == offset_at(ms@, i as int));
        if o == u64::MAX {
            return None;
        }
        next.insert(m.partition, o + 1);
        proof {
            let w = ms@.take(i + 1);
            assert(w.drop_last() == ms@.take(i as int));
            assert(w.last() == ms@[i as int]);
        }
        out.push(o);
        i += 1;
    }
    proof {
        assert(offsets_fit(ms@));
    }
    Some(out)
}

/// The key as text: a string, number or boolean as itself, `null` as nothing, an array
/// or object as compact JSON.
fn scalar_or_compact(key: &JsonValue) -> (r: String)
    ensures
        r@ == key_text(*key),
{
    match key {
        JsonValue::Str(s) => s.clone(),
        JsonValue::Number(n) => n.clone(),
        JsonValue::Bool(b) => {
            if *b {
                let t = owned("true");
                proof {
                    reveal_strlit("true");
                }
                assert(t@ == bool_text(true));
                t
            } else {
                let t = owned("false");
                proof {
                    reveal_strlit("false");
                }
                assert(t@ == bool_text(false));
                t
            }
        },
        JsonValue::Null => String::new(),
        _ => match json_compact(key) {
            Some(t) => t,
            None => String::new(),
        },
    }
}

/// The `i`-th message as built, with the offset it was given.
fn build_message(ms: &Vec<FxMessage>, i: usize, offset: u64) -> (r: MockMessage)
    requires
        i < ms@.len(),
        offset == offset_at(ms@, i as int),
        default_ts(i as int) <= u64::MAX,
    ensures
        r@ == built_message(ms@, i as int),
{
    let m = &ms[i];
    let ts_millis = match m.ts_millis {
        Some(t) => t,
        None => BASE_TS_MS + (i as u64) * TS_STEP_MS,
    };
    let mut fields: Vec<(String, String)> = Vec::new();
    let key = match &m.key {
        Some(k) => {
            proof {
                reveal_strlit("K");
            }
            flatten_json("K", k, &mut fields);
            Some(scalar_or_compact(k))
        },
        None => None,
    };
    let ghost key_part = pair_views(fields@);
    proof {
        reveal_strlit("P");
    }
    flatten_json("P", &m.value, &mut fields);
    let r = MockMessage {
        partition: m.partition,
        offset,
        ts_millis,
        key,
        value_json: value_text_of(&m.value),
        fields,
    };
    proof {
        reveal_strlit("K");
        reveal_strlit("P");
        assert("K"@ == seq!['K']);
        assert("P"@ == seq!['P']);
        assert(pair_views(r.fields@) =~= message_fields(*m));
        assert(opt_view(r.key) == (match m.key {
            Some(k) => Some(key_text(k)),
            None => None,
        }));
    }
    r
}

/// Whether `a` goes strictly before `b`: by partition, then offset.
fn message_before(a: &MockMessage, b: &MockMessage) -> (r: bool)
    ensures
        r == position_before()(a@, b@),
{
    a.partition < b.partition || (a.partition == b.partition && a.offset < b.offset)
}

/// Sorts messages by partition, then offset, keeping the order of equals.
fn sort_messages(v: &mut Vec<MockMessage>)
    ensures
        message_views(final(v)@) == stable_sort(message_views(old(v)@), position_before()),
{
    let ghost input = message_views(v@);
    let mut rest: Vec<MockMessage> = Vec::new();
    std::mem::swap(&mut rest, v);
    let mut out: Vec<MockMessage> = Vec::new();
    let n = rest.len();
    let mut i: usize = 0;
    while i < n
        invariant
            n == input.len(),
            i <= n,
            message_views(rest@) == input.subrange(i as int, n as int),
            message_views(out@) == stable_sort(input.subrange(0, i as int), position_before()),
        decreases n - i,
    {
        let ghost before = rest@;
        proof {
            assert(message_views(before).len() == before.len());
            assert(message_views(before)[0] == before[0]@);
            assert(input.subrange(i as int, n as int)[0] == input[i as int]);
        }
        let x = rest.remove(0);
        proof {
            assert(x@ == input[i as int]);
            assert(rest@ == before.subrange(1, before.len() as int));
            assert forall|k: int| 0 <= k < rest@.len() implies message_views(rest@)[k]
                == input.subrange(i + 1, n as int)[k] by {
                assert(message_views(before)[k + 1] == before[k + 1]@);
                assert(input.subrange(i as int, n as int)[k + 1] == input[i + 1 + k]);
            }
            assert(message_views(rest@) =~= input.subrange(i + 1, n as int));
        }
        let ghost t = message_views(out@);
        let mut j: usize = 0;
        while j < out.len() && !message_before(&x, &out[j])
            invariant
                j <= out.len(),
                t == message_views(out@),
                forall|k: int| 0 <= k < j ==> !position_before()(x@, #[trigger] t[k]),
            decreases out.len() - j,
        {
            j += 1;
        }
        proof {
            lemma_first_index(t, |y: MessageView| position_before()(x@, y), j as int);
            let w = input.subrange(0, i + 1);
            assert(w.drop_last() == input.subrange(0, i as int));
            assert(w.last() == x@);
        }
        out.insert(j, x);
        proof {
            assert(message_views(out@) =~= t.insert(j as int, x@));
        }
        i += 1;
    }
    proof {
        assert(input.subrange(0, n as int) == input);
    }
    *v = out;
}

/// The distinct paths that are `root` or lie under `root.`, in the order they first occur.
fn unique_paths(messages: &Vec<MockMessage>, root: &str) -> (r: Vec<String>)
    ensures
        views(r@) == unique_paths_spec(message_views(messages@), root@),
{
    let ghost mv = message_views(messages@);
    let ghost u = under_root(root@);
    let mut dotted = owned(root);
    proof {
        reveal_strlit(".");
    }
    push_str(&mut dotted, ".");
    assert(dotted@ == root@.push('.'));
    let mut seen: Vec<String> = Vec::new();
    let n = messages.len();
    let mut i: usize = 0;
    proof {
        assert(mv.take(0) =~= Seq::<MessageView>::empty());
        assert(all_paths(mv.take(0)).filter(u) =~= Seq::<Seq<char>>::empty());
    }
    while i < n
        invariant
            n == messages@.len(),
            mv == message_views(messages@),
            u == under_root(root@),
            dotted@ == root@.push('.'),
            i <= n,
            views(seen@) == dedup(all_paths(mv.take(i as int)).filter(u)),
        decreases n - i,
    {
        let m = &messages[i];
        let ghost fp = field_paths(mv[i as int]);
        let ghost base = all_paths(mv.take(i as int));
        let mut j: usize = 0;
        proof {
            assert(fp.take(0) =~= Seq::<Seq<char>>::empty());
            assert(base + fp.take(0) =~= base);
        }
        while j < m.fields.len()
            invariant
                m == messages@[i as int],
                fp == field_paths(m@),
                fp.len() == m.fields@.len(),
                u == under_root(root@),
                dotted@ == root@.push('.'),
                j <= m.fields@.len(),
                views(seen@) == dedup((base + fp.take(j as int)).filter(u)),
            decreases m.fields.len() - j,
        {
            let p = &m.fields[j].0;
            let ghost a = base + fp.take(j as int);
            proof {
                assert(fp[j as int] == p@);
                assert(base + fp.take(j + 1) =~= a.push(p@));
                a.lemma_filter_push(p@, u);
            }
            let under = starts_with(p.as_str(), dotted.as_str()) || str_eq(p.as_str(), root);
            assert(under == u(p@));
            if under {
                let ghost f = a.filter(u);
                proof {
                    assert(a.push(p@).filter(u) == f.push(p@));
                    assert(f.push(p@).drop_last() == f);
                }
                if !contains_str(&seen, p.as_str()) {
                    seen.push(p.clone());
                    assert(views(seen@) =~= dedup(f).push(p@));
                }
            }
            j += 1;
        }
        proof {
            assert(fp.take(fp.len() as int) == fp);
            let w = mv.take(i + 1);
            assert(w.drop_last() == mv.take(i as int));
            assert(w.last() == mv[i as int]);
            assert(mv[i as int] == m@);
        }
        i += 1;
    }
    proof {
        assert(mv.take(n as int) == mv);
    }
    seen
}

/// How many partitions a topic has: as given, or one past the largest seen; at least 1.
fn partition_count(given: Option<u32>, messages: &Vec<MockMessage>) -> (r: u32)
    requires
        given is None ==> forall|i: int|
            0 <= i < messages@.len() ==> #[trigger] messages@[i].partition < u32::MAX,
    ensures
        r == partition_count_spec(given, message_views(messages@)),
{
    let n: u32 = match given {
        Some(p) => p,
        None => {
            let ghost mv = message_views(messages@);
            let mut mx: u32 = 0;
            let mut i: usize = 0;
            while i < messages.len()
                invariant
                    given is None,
                    mv == message_views(messages@),
                    i <= messages@.len(),
                    mx == partitions_seen(mv.take(i as int)),
                    forall|i: int|
                        0 <= i < messages@.len() ==> #[trigger] messages@[i].partition < u32::MAX,
                decreases messages.len() - i,
            {
                proof {
                    let w = mv.take(i + 1);
                    assert(w.drop_last() == mv.take(i as int));
                    assert(w.last() == messages@[i as int]@);
                }
                let p = messages[i].partition + 1;
                if p > mx {
                    mx = p;
                }
                i += 1;
            }
            proof {
                assert(mv.take(messages@.len() as int) == mv);
            }
            mx
        },
    };
    if n < 1 {
        1
    } else {
        n
    }
}

/// Builds a topic from the fixture: offsets made up per partition where left out,
/// timestamps a minute apart where left out, fields flattened, messages sorted by
/// partition then offset, and the distinct key and payload paths collected.
pub fn build_topic(fx: FxTopic) -> (t: MockTopic)
    requires
        topic_fits(fx),
    ensures
        builds(fx, t),
{
    let ghost input = fx;
    let FxTopic { name, partitions, key_deserializer, value_deserializer, messages: fixture } =
        fx;
    let offsets = assign_offsets(&fixture);
    let offsets = offsets.unwrap();
    let n = fixture.len();
    let mut messages: Vec<MockMessage> = Vec::new();
    let mut i: usize = 0;
    while i < n
        invariant
            fixture@ == input.messages@,
            n == fixture@.len(),
            i <= n,
            topic_fits(input),
            offsets@.len() == n,
            forall|k: int| 0 <= k < n ==> #[trigger] offsets@[k] == offset_at(fixture@, k),
            message_views(messages@) == built_messages(fixture@).take(i as int),
        decreases n - i,
    {
        assert(default_ts(i as int) <= default_ts(n - 1));
        let m = build_message(&fixture, i, offsets[i]);
        let ghost before = messages@;
        messages.push(m);
        proof {
            assert(messages@ == before.push(m));
            assert(message_views(messages@) =~= message_views(before).push(m@));
            assert(built_messages(fixture@)[i as int] == built_message(fixture@, i as int));
            assert(message_views(messages@) =~= built_messages(fixture@).take(i + 1));
        }
        i += 1;
    }
    assert(built_messages(fixture@).take(n as int) =~= built_messages(fixture@));
    proof {
        assert forall|k: int| 0 <= k < messages@.len() implies #[trigger] messages@[k].partition
            == fixture@[k].partition by {
            assert(message_views(messages@)[k] == messages@[k]@);
            assert(built_messages(fixture@)[k] == built_message(fixture@, k));
        }
    }
    let ghost unsorted = message_views(messages@);
    let partition_count = partition_count(partitions, &messages);
    sort_messages(&mut messages);
    proof {
        reveal_strlit("K");
        reveal_strlit("P");
        reveal_strlit("json");
    }
    let key_fields = unique_paths(&messages, "K");
    let payload_fields = unique_paths(&messages, "P");
    let key_deserializer = match key_deserializer {
        Some(d) => d,
        None => owned("json"),
    };
    let value_deserializer = match value_deserializer {
        Some(d) => d,
        None => owned("json"),
    };
    let t = MockTopic {
        name,
        partition_count,
        key_deserializer,
        value_deserializer,
        key_fields,
        payload_fields,
        messages,
    };
    proof {
        assert("K"@ == seq!['K']);
        assert("P"@ == seq!['P']);
        assert("json"@ == seq!['j', 's', 'o', 'n']);
        assert(unsorted == built_messages(input.messages@));
    }
    t
}

/// Whether a topic can be built without a count overflowing.
pub fn topic_fits_check(fx: &FxTopic) -> (r: bool)
    ensures
        r == topic_fits(*fx),
{
    let offsets_ok = assign_offsets(&fx.messages).is_some();
    let n = fx.messages.len();
    // The most messages whose made-up timestamps all fit, less one.
    let last_fitting: u64 = 307_445_706_160_705;
    let ts_ok = n == 0 || (n - 1) as u64 <= last_fitting;
    assert(ts_ok == (n == 0 || default_ts(n - 1) <= u64::MAX));
    let mut partitions_ok = true;
    if fx.partitions.is_none() {
        let mut i: usize = 0;
        while i < n
            invariant
                n == fx.messages@.len(),
                i <= n,
                partitions_ok == forall|k: int| 0 <= k < i ==> #[trigger] fx.messages@[k].partition
                    < u32::MAX,
            decreases n - i,
        {
            if fx.messages[i].partition == u32::MAX {
                partitions_ok = false;
            }
            i += 1;
        }
    }
    offsets_ok && ts_ok && partitions_ok
}

/// Whether every topic of a fixture can be built without a count overflowing.
pub fn fixture_fits(root: &FxRoot) -> (r: bool)
    ensures
        r == forall|i: int| 0 <= i < root.topics@.len() ==> topic_fits(#[trigger] root.topics@[i]),
{
    let mut i: usize = 0;
    while i < root.topics.len()
        invariant
            i <= root.topics@.len(),
            forall|k: int| 0 <= k < i ==> topic_fits(#[trigger] root.topics@[k]),
        decreases root.topics.len() - i,
    {
        if !topic_fits_check(&root.topics[i]) {
            return false;
        }
        i += 1;
    }
    true
}

impl MockStore {
    /// A store of the topics a fixture describes, with no field split into words and no
    /// registry saved.
    pub fn from_fixture(root: FxRoot) -> (s: Self)
        requires
            forall|i: int| 0 <= i < root.topics@.len() ==> topic_fits(#[trigger] root.topics@[i]),
        ensures
            s.topic_list().len() == root.topics@.len(),
            forall|i: int| 0 <= i < root.topics@.len() ==> builds(#[trigger] root.topics@[i], s.topic_list()[i]),
            forall|t: Seq<char>| #[trigger] s.tokenized_fields(t) == Seq::<Seq<char>>::empty(),
            s.registry_list() == Seq::<crate::registry::RegistryResource>::empty(),
    {
        let ghost input = root.topics@;
        let mut rest = root.topics;
        let mut topics: Vec<MockTopic> = Vec::new();
        let n = rest.len();
        let mut i: usize = 0;
        while i < n
            invariant
                n == input.len(),
                i <= n,
                forall|k: int| 0 <= k < n ==> topic_fits(#[trigger] input[k]),
                rest@ == input.subrange(i as int, n as int),
                topics@.len() == i,
                forall|k: int| 0 <= k < i ==> builds(#[trigger] input[k], topics@[k]),
            decreases n - i,
        {
            let ghost before = rest@;
            assert(before[0] == input[i as int]);
            let fx = rest.remove(0);
            assert(rest@ =~= input.subrange(i + 1, n as int));
            topics.push(build_topic(fx));
            i += 1;
        }
        MockStore::with_topics(topics)
    }
}

} // verus!
