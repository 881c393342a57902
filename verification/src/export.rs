//! Writing search results out to a file.
//!
//! JSONL keeps the record whole; CSV and TSV flatten it for reading elsewhere.
//!
//! The serialization here is free of any I/O so that every engine writes byte-identical
//! files — writing and compressing belong elsewhere.

use vstd::prelude::*;

use serde_json::Value;

use crate::search::{opt_view, pair_views, MessageResult, PosFilter, SearchMode, SearchQuery, SortOrder, TsRange};
use crate::text::{
    contains_char, dec_int, double_char, double_quotes, i64_to_dec, join, join_strings, owned,
    push_str, replace_chars, replace_controls_with_space, views,
};

verus! {

/// The output format. JSONL preserves structure; CSV and TSV flatten it.
#[derive(Debug, Clone, Copy, PartialEq, Eq, Structural)]
pub enum ExportFormat {
    Jsonl,
    Csv,
    Tsv,
}

/// Optional compression.
#[derive(Debug, Clone, Copy, PartialEq, Eq, Structural)]
pub enum ExportCompression {
    /// Written as is.
    Uncompressed,
    Gzip,
    Zstd,
}

/// What to export: the same parameters the search used, plus where to write.
///
/// Which kind of search is meant follows from what is set — a boolean query if one is
/// given, otherwise a keyword search, or everything when the query is empty.
#[derive(Debug)]
pub struct ExportRequest {
    pub topic: String,
    pub query: String,
    pub fields: Option<Vec<String>>,
    pub mode: SearchMode,
    pub sort_order: SortOrder,
    pub ts_range: Option<TsRange>,
    pub pos_filter: Option<PosFilter>,
    /// Set to export the results of a boolean query.
    pub search_query: Option<SearchQuery>,
    /// Where to write it.
    pub dest_path: String,
    pub format: ExportFormat,
    pub compression: ExportCompression,
}

/// What was written.
#[derive(Debug, Clone)]
pub struct ExportResult {
    /// Records written.
    pub rows: usize,
    /// Final file size in bytes, after compression.
    pub bytes: u64,
    pub path: String,
}

/// A finished export, ready to be written: where, the text, and how many records it
/// holds.
#[derive(Debug, Clone)]
pub struct ExportFile {
    pub path: String,
    pub contents: String,
    pub rows: usize,
}

// ── JSON text from `serde_json` ─────────────────────────────────────────────

/// What `serde_json::to_string` gives for the JSON object of one exported record: the
/// members `topic`, `partition`, `offset`, `ts`, `key`, `headers` (an object of the
/// header pairs) and `payload`, each string a JSON string and each number a JSON number;
/// nothing where writing fails.
pub uninterp spec fn json_record_text(
    topic: Seq<char>,
    partition: i32,
    offset: i64,
    ts: Seq<char>,
    key: Seq<char>,
    headers: Seq<(Seq<char>, Seq<char>)>,
    payload: Seq<char>,
) -> Option<Seq<char>>;

/// What `serde_json::to_string` gives for an object built from `(name, text)` pairs, each
/// value a JSON string, inserted in order into a `serde_json::Map`.
pub uninterp spec fn json_headers_text(pairs: Seq<(Seq<char>, Seq<char>)>) -> Option<Seq<char>>;

/// Builds the record object of a row's columns as `serde_json` values, collected into a
/// `serde_json::Map` in the order named above and the headers into a map of their own,
/// and calls `serde_json::to_string` on it. The result is named `json_record_text` of
/// those columns (`None` where writing fails); the text itself, key order included, is
/// left to `serde_json`.
#[verifier::external_body]
fn json_record(topic: &str, partition: i32, offset: i64, ts: &str, key: &str, headers: &Vec<(String, String)>, payload: &str) -> (r: Option<String>)
    ensures
        opt_view(r) == json_record_text(topic@, partition, offset, ts@, key@, pair_views(headers@), payload@),
{
    let headers: serde_json::Map<String, Value> =
        headers.iter().map(|(k, v)| (k.clone(), v.as_str().into())).collect();
    let members: [(&str, Value); 7] = [
        ("topic", topic.into()),
        ("partition", partition.into()),
        ("offset", offset.into()),
        ("ts", ts.into()),
        ("key", key.into()),
        ("headers", headers.into()),
        ("payload", payload.into()),
    ];
    let obj: serde_json::Map<String, Value> = members.into_iter().map(|(k, v)| (k.to_string(), v)).collect();
    serde_json::to_string(&obj).ok()
}

/// Calls `serde_json::to_string` on a JSON object whose members are the given pairs,
/// each value a string, inserted in order into a `serde_json::Map` — so a repeated name
/// keeps the last value and the members come out in the map's own order. The result is
/// named `json_headers_text` of the pairs; nothing more is claimed of it.
#[verifier::external_body]
fn json_headers(headers: &Vec<(String, String)>) -> (r: Option<String>)
    ensures
        match r {
            Some(t) => json_headers_text(pair_views(headers@)) == Some(t@),
            None => json_headers_text(pair_views(headers@)) is None,
        },
{
    let mut map = serde_json::Map::new();
    for (k, v) in headers.iter() {
        map.insert(k.clone(), serde_json::Value::String(v.clone()));
    }
    serde_json::to_string(&serde_json::Value::Object(map)).ok()
}

// ── Specifications ──────────────────────────────────────────────────────────

/// The columns, in the order the header and every row use.
pub open spec fn columns_spec() -> Seq<Seq<char>> {
    seq!["topic"@, "partition"@, "offset"@, "timestamp"@, "key"@, "headers"@, "payload"@]
}

pub open spec fn delim_of(format: ExportFormat) -> char {
    match format {
        ExportFormat::Tsv => '\t',
        _ => ',',
    }
}

/// The header row for CSV and TSV, ending with a newline; none for JSONL.
pub open spec fn header_spec(format: ExportFormat) -> Option<Seq<char>> {
    match format {
        ExportFormat::Jsonl => None,
        _ => Some(join(columns_spec(), seq![delim_of(format)]).push('\n')),
    }
}

/// One field escaped. TSV has no agreed quoting, so tabs and line breaks become spaces.
/// CSV quotes a field holding a quote, the delimiter or a line break, doubling any quote
/// inside; any other field is written as it is.
pub open spec fn escape_spec(s: Seq<char>, delim: char) -> Seq<char> {
    if delim == '\t' {
        replace_chars(s, |c: char| c == '\t' || c == '\r' || c == '\n', ' ')
    } else if s.contains('"') || s.contains(delim) || s.contains('\n') || s.contains('\r') {
        seq!['"'] + double_char(s, '"') + seq!['"']
    } else {
        s
    }
}

/// A row's headers as a JSON object; `{}` where that cannot be written.
pub open spec fn headers_spec(row: MessageResult) -> Seq<char> {
    match json_headers_text(pair_views(row.headers@)) {
        Some(t) => t,
        None => "{}"@,
    }
}

/// The columns of one row, in order.
pub open spec fn row_fields(row: MessageResult) -> Seq<Seq<char>> {
    seq![
        row.topic@,
        dec_int(row.partition as int),
        dec_int(row.offset as int),
        row.timestamp@,
        row.key@,
        headers_spec(row),
        row.payload@,
    ]
}

/// One row as a CSV or TSV line: each column escaped, joined by the delimiter, ending
/// with a newline.
pub open spec fn delimited_spec(row: MessageResult, delim: char) -> Seq<char> {
    join(row_fields(row).map_values(|f: Seq<char>| escape_spec(f, delim)), seq![delim]).push(
        '\n',
    )
}

/// One row as a JSONL record: the JSON object `serde_json` writes for its seven columns,
/// then a newline. Which field matched is an artefact of searching, not of the message,
/// and is left out. `{}` where the object cannot be written.
pub open spec fn jsonl_spec(row: MessageResult) -> Seq<char> {
    match json_record_text(
        row.topic@,
        row.partition,
        row.offset,
        row.timestamp@,
        row.key@,
        pair_views(row.headers@),
        row.payload@,
    ) {
        Some(t) => t.push('\n'),
        None => "{}"@.push('\n'),
    }
}

/// One row in the given format.
pub open spec fn row_spec(row: MessageResult, format: ExportFormat) -> Seq<char> {
    match format {
        ExportFormat::Jsonl => jsonl_spec(row),
        _ => delimited_spec(row, delim_of(format)),
    }
}

// ── Writing ─────────────────────────────────────────────────────────────────

/// The header row for CSV and TSV; `None` for JSONL. Ends with a newline.
pub fn export_header_line(format: ExportFormat) -> (r: Option<String>)
    ensures
        match header_spec(format) {
            Some(h) => r matches Some(s) && s@ == h,
            None => r is None,
        },
{
    let delim: &str = match format {
        ExportFormat::Csv => ",",
        ExportFormat::Tsv => "\t",
        ExportFormat::Jsonl => {
            return None;
        },
    };
    let columns: Vec<String> = vec![
        owned("topic"),
        owned("partition"),
        owned("offset"),
        owned("timestamp"),
        owned("key"),
        owned("headers"),
        owned("payload"),
    ];
    proof {
        reveal_strlit(",");
        reveal_strlit("\t");
        assert(views(columns@) =~= columns_spec());
        assert(delim@ =~= seq![delim_of(format)]);
    }
    let mut s = join_strings(&columns, delim);
    s.push('\n');
    Some(s)
}

/// One record as one line, ending with a newline.
pub fn serialize_export_row(row: &MessageResult, format: ExportFormat) -> (r: String)
    ensures
        r@ == row_spec(*row, format),
{
    match format {
        ExportFormat::Jsonl => serialize_jsonl(row),
        ExportFormat::Csv => serialize_delimited(row, ','),
        ExportFormat::Tsv => serialize_delimited(row, '\t'),
    }
}

/// Message headers as a JSON object. Headers may repeat a name, but are written as an
/// object — where a name repeats, the last one wins and the others are lost.
fn headers_to_json(row: &MessageResult) -> (r: String)
    ensures
        r@ == headers_spec(*row),
{
    match json_headers(&row.headers) {
        Some(t) => t,
        None => owned("{}"),
    }
}

fn serialize_jsonl(row: &MessageResult) -> (r: String)
    ensures
        r@ == jsonl_spec(*row),
{
    let mut s = match json_record(
        row.topic.as_str(),
        row.partition,
        row.offset,
        row.timestamp.as_str(),
        row.key.as_str(),
        &row.headers,
        row.payload.as_str(),
    ) {
        Some(t) => t,
        None => owned("{}"),
    };
    s.push('\n');
    s
}

/// Escapes one field for CSV or TSV.
fn escape_field(s: &str, delim: char) -> (r: String)
    ensures
        r@ == escape_spec(s@, delim),
        delim == ',' ==> unquote_csv(r@) == s@,
        delim == '\t' ==> r@.len() == s@.len() && forall|i: int|
            0 <= i < s@.len() ==> {
                let c = #[trigger] r@[i];
                c != '\t' && c != '\r' && c != '\n'
            },
{
    proof {
        law_csv_escape_round_trips(s@);
        law_tsv_escape_clears_breaks(s@);
    }
    if delim == '\t' {
        return replace_controls_with_space(s);
    }
    if contains_char(s, '"') || contains_char(s, delim) || contains_char(s, '\n')
        || contains_char(s, '\r') {
        let mut out = owned("\"");
        push_str(&mut out, double_quotes(s).as_str());
        out.push('"');
        proof {
            reveal_strlit("\"");
        }
        assert(out@ =~= seq!['"'] + double_char(s@, '"') + seq!['"']);
        out
    } else {
        owned(s)
    }
}

fn serialize_delimited(row: &MessageResult, delim: char) -> (r: String)
    ensures
        r@ == delimited_spec(*row, delim),
{
    let fields: Vec<String> = vec![
        row.topic.clone(),
        i64_to_dec(row.partition as i64),
        i64_to_dec(row.offset),
        row.timestamp.clone(),
        row.key.clone(),
        headers_to_json(row),
        row.payload.clone(),
    ];
    let ghost want = row_fields(*row).map_values(|f: Seq<char>| escape_spec(f, delim));
    assert(views(fields@) =~= row_fields(*row));
    let mut escaped: Vec<String> = Vec::new();
    let mut i: usize = 0;
    while i < fields.len()
        invariant
            i <= fields@.len(),
            fields@.len() == 7,
            views(fields@) == row_fields(*row),
            want == row_fields(*row).map_values(|f: Seq<char>| escape_spec(f, delim)),
            views(escaped@) == want.subrange(0, i as int),
        decreases fields.len() - i,
    {
        let e = escape_field(fields[i].as_str(), delim);
        let ghost before = escaped@;
        escaped.push(e);
        proof {
            assert(views(fields@)[i as int] == fields@[i as int]@);
            assert(want[i as int] == escape_spec(views(fields@)[i as int], delim));
            assert(escaped@ == before.push(e));
            assert(views(escaped@) =~= views(before).push(e@));
        }
        assert(views(escaped@) =~= want.subrange(0, i + 1));
        i += 1;
    }
    assert(want.subrange(0, 7) == want);
    let mut sep = String::new();
    sep.push(delim);
    let mut out = join_strings(&escaped, sep.as_str());
    out.push('\n');
    out
}

// ── Laws ────────────────────────────────────────────────────────────────────

/// CSV unquoting: a field wrapped in quotes loses them and has each doubled quote inside
/// read as one; any other field is read as it stands.
pub open spec fn unquote_csv(r: Seq<char>) -> Seq<char> {
    if r.len() >= 2 && r[0] == '"' && r.last() == '"' {
        undouble_quotes(r.subrange(1, r.len() - 1))
    } else {
        r
    }
}

/// Each pair of quotes read as one quote.
pub open spec fn undouble_quotes(s: Seq<char>) -> Seq<char>
    decreases s.len(),
{
    if s.len() == 0 {
        Seq::empty()
    } else if s.len() >= 2 && s.last() == '"' && s[s.len() - 2] == '"' {
        undouble_quotes(s.take(s.len() - 2)).push('"')
    } else {
        undouble_quotes(s.drop_last()).push(s.last())
    }
}

proof fn lemma_undouble_double(s: Seq<char>)
    ensures
        undouble_quotes(double_char(s, '"')) == s,
    decreases s.len(),
{
    if s.len() > 0 {
        let rest = double_char(s.drop_last(), '"');
        lemma_undouble_double(s.drop_last());
        if s.last() == '"' {
            let d = rest.push('"').push('"');
            assert(d.take(d.len() - 2) == rest);
            assert(s.drop_last().push('"') == s);
        } else {
            let d = rest.push(s.last());
            assert(d.drop_last() == rest);
            assert(s.drop_last().push(s.last()) == s);
        }
    }
}

/// Quoting a CSV field is undone by unquoting it: what is read back is the field exactly.
pub proof fn law_csv_escape_round_trips(s: Seq<char>)
    ensures
        unquote_csv(escape_spec(s, ',')) == s,
{
    let r = escape_spec(s, ',');
    if s.contains('"') || s.contains(',') || s.contains('\n') || s.contains('\r') {
        let inner = double_char(s, '"');
        assert(r == seq!['"'] + inner + seq!['"']);
        assert(r.subrange(1, r.len() - 1) == inner);
        lemma_undouble_double(s);
    } else {
        if s.len() >= 2 && s[0] == '"' {
            assert(s.contains('"'));
        }
    }
}

/// TSV escaping keeps the length and leaves no tab or line break behind.
pub proof fn law_tsv_escape_clears_breaks(s: Seq<char>)
    ensures
        escape_spec(s, '\t').len() == s.len(),
        forall|i: int| 0 <= i < s.len() ==> {
            let c = #[trigger] escape_spec(s, '\t')[i];
            c != '\t' && c != '\r' && c != '\n'
        },
{
}

/// Whether two rows agree on the seven columns an export writes.
pub open spec fn same_columns(a: MessageResult, b: MessageResult) -> bool {
    &&& a.topic@ == b.topic@
    &&& a.partition == b.partition
    &&& a.offset == b.offset
    &&& a.timestamp@ == b.timestamp@
    &&& a.key@ == b.key@
    &&& pair_views(a.headers@) == pair_views(b.headers@)
    &&& a.payload@ == b.payload@
}

/// Rows that agree on topic, partition, offset, timestamp, key, headers and payload are
/// written alike in every format, whatever else about them differs (which field matched,
/// index and meta keys, where the content came from).
pub proof fn law_rows_agreeing_serialize_alike(a: MessageResult, b: MessageResult, format: ExportFormat)
    requires
        same_columns(a, b),
    ensures
        row_spec(a, format) == row_spec(b, format),
{
    assert(row_fields(a) == row_fields(b));
}

} // verus!
