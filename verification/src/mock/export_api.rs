//! Exporting results, by searching itself and formatting what comes back, and what the
//! engine says it can do.
//!
//! Compression is not offered: files are produced uncompressed whatever was asked for.

use vstd::prelude::*;

use crate::engine::{EngineCapabilities, ExportApi, KafkaToolEngine, SearchApi};
use crate::error::EngineError;
use crate::export::{export_header_line, header_spec, row_spec, serialize_export_row, ExportFile, ExportRequest, ExportFormat};
use crate::mock::data::{limit_take, MockMessage, MockTopic};
use crate::mock::engine::MockEngine;
use crate::mock::search_all::{after_cursor_spec, names_of, saturate};
use crate::mock::search_api::{
    browse_everything, keyword_everything, multi_everything, names_of_vec, opt_ref, rows,
    rows_of,
};
use crate::mock::matching::{bad_range_error, query_ok};
use crate::mock::store::MockStore;
use crate::search::{loc_views, LocItem, MessageResult};
use crate::text::{is_whitespace, is_ws, owned, push_str, views};

verus! {

/// Whether a text is empty once surrounding whitespace is trimmed.
pub open spec fn blank(s: Seq<char>) -> bool {
    forall|i: int| 0 <= i < s.len() ==> is_ws(#[trigger] s[i])
}

fn is_blank(s: &str) -> (r: bool)
    ensures
        r == blank(s@),
{
    let n = s.unicode_len();
    let mut i: usize = 0;
    while i < n
        invariant
            n == s@.len(),
            i <= n,
            forall|k: int| 0 <= k < i ==> is_ws(#[trigger] s@[k]),
        decreases n - i,
    {
        if !is_whitespace(s.get_char(i)) {
            return false;
        }
        i += 1;
    }
    true
}

/// Which positions an export covers: a boolean query's if one is given, otherwise every
/// message of the topic for a blank query, otherwise the keyword's within the topic.
pub open spec fn export_locs(store: MockStore, req: ExportRequest, locs: Seq<LocItem>) -> bool {
    match req.search_query {
        Some(sq) => loc_views(locs) == limit_take(
            after_cursor_spec(
                multi_everything(
                    store,
                    sq.where_node,
                    names_of_vec(sq.topics),
                    opt_ref(&sq.ts_range),
                    opt_ref(&sq.pos_filter),
                    sq.sort_order,
                ),
                None,
                None,
                None,
            ),
            Some(usize::MAX),
        ),
        None => if blank(req.query@) {
            loc_views(locs) == browse_everything(
                store,
                req.topic@,
                opt_ref(&req.ts_range),
                opt_ref(&req.pos_filter),
                req.sort_order,
            )
        } else {
            exists|names: Seq<String>, fs: Option<&[String]>|
                views(names) == seq![req.topic@] && names_of(fs) == names_of_vec(req.fields)
                    && loc_views(locs) == keyword_everything(
                    store,
                    req.query@,
                    fs,
                    Some(names),
                    req.mode,
                    opt_ref(&req.ts_range),
                    opt_ref(&req.pos_filter),
                    req.sort_order,
                )
        },
    }
}

/// Whether the boolean query of an export, where it has one, holds only acceptable ranges.
pub open spec fn export_query_ok(req: ExportRequest) -> bool {
    match req.search_query {
        Some(sq) => query_ok(sq.where_node),
        None => true,
    }
}

/// The rows in the given format, one after another.
pub open spec fn rows_text(rows: Seq<MessageResult>, format: ExportFormat) -> Seq<char>
    decreases rows.len(),
{
    if rows.len() == 0 {
        Seq::empty()
    } else {
        rows_text(rows.drop_last(), format) + row_spec(rows.last(), format)
    }
}

/// The whole file: the header where the format has one, then every row.
pub open spec fn file_text(rows: Seq<MessageResult>, format: ExportFormat) -> Seq<char> {
    match header_spec(format) {
        Some(h) => h + rows_text(rows, format),
        None => rows_text(rows, format),
    }
}

fn render(rows: &Vec<MessageResult>, format: ExportFormat) -> (r: String)
    ensures
        r@ == file_text(rows@, format),
{
    let mut out = String::new();
    if let Some(header) = export_header_line(format) {
        push_str(&mut out, header.as_str());
    }
    let ghost start = out@;
    let mut i: usize = 0;
    while i < rows.len()
        invariant
            i <= rows@.len(),
            out@ == start + rows_text(rows@.take(i as int), format),
            start == match header_spec(format) {
                Some(h) => h,
                None => Seq::<char>::empty(),
            },
        decreases rows.len() - i,
    {
        proof {
            let w = rows@.take(i + 1);
            assert(w.drop_last() == rows@.take(i as int));
            assert(w.last() == rows@[i as int]);
        }
        push_str(&mut out, serialize_export_row(&rows[i], format).as_str());
        i += 1;
    }
    assert(rows@.take(rows@.len() as int) == rows@);
    out
}

impl ExportApi for MockEngine {
    /// Everything at once: the fixture is small enough that streaming would be ceremony.
    /// The rows are the full messages held, as `fetch_messages` gives them, payload, key
    /// and headers included; not the index-only rows of `fetch_meta_rows`, whose bodies
    /// are empty and would leave a file without its payloads. The store holds the bodies,
    /// so exporting works with nothing reachable. A boolean query holding an
    /// unacceptable range is refused, as searching refuses it.
    fn export_search_results(&self, workspace: &str, req: ExportRequest) -> (r: Result<
        ExportFile,
        EngineError,
    >)
        ensures
            !export_query_ok(req) ==> (r matches Err(e) && bad_range_error(e)),
            export_query_ok(req) ==> (r matches Ok(f) && exists|locs: Seq<LocItem>, rows: Seq<MessageResult>|
                export_locs(self.held(), req, locs) && rows_of(self.held(), req.topic@, locs, rows)
                    && f.path@ == req.dest_path@ && f.rows == rows.len() && f.contents@ == file_text(
                    rows,
                    req.format,
                )),
    {
        let ghost given = req;
        let ExportRequest {
            topic,
            query,
            fields,
            mode,
            sort_order,
            ts_range,
            pos_filter,
            search_query,
            dest_path,
            format,
            compression,
        } = req;
        let locs = match search_query {
            Some(sq) => match self.multi_search_page(workspace, sq, None, None, None, usize::MAX) {
                Ok(v) => {
                    assert(export_locs(self.held(), given, v@));
                    v
                },
                Err(e) => {
                    return Err(e);
                },
            },
            None => {
                if is_blank(query.as_str()) {
                    match self.prefetch_browse_locs(
                        workspace,
                        topic.as_str(),
                        sort_order,
                        None,
                        ts_range,
                        pos_filter,
                    ) {
                        Ok(p) => {
                            assert(export_locs(self.held(), given, p.locs@));
                            p.locs
                        },
                        Err(e) => {
                            return Err(e);
                        },
                    }
                } else {
                    let topics = vec![topic.clone()];
                    assert(views(topics@) =~= seq![topic@]);
                    let field_slice = match &fields {
                        Some(f) => Some(f.as_slice()),
                        None => None,
                    };
                    let topic_slice = topics.as_slice();
                    match self.prefetch_search_locs(
                        workspace,
                        query.as_str(),
                        field_slice,
                        Some(topic_slice),
                        mode,
                        sort_order,
                        None,
                        ts_range,
                        pos_filter,
                    ) {
                        Ok(p) => {
                            assert(names_of(Some(topic_slice)) == Some(topics@));
                            assert(names_of(field_slice) == names_of_vec(fields));
                            assert(loc_views(p.locs@) == keyword_everything(
                                self.held(),
                                query@,
                                field_slice,
                                Some(topics@),
                                mode,
                                opt_ref(&ts_range),
                                opt_ref(&pos_filter),
                                sort_order,
                            ));
                            assert(export_locs(self.held(), given, p.locs@));
                            p.locs
                        },
                        Err(e) => {
                            return Err(e);
                        },
                    }
                }
            },
        };
        let ghost chosen = locs@;
        let bodies = rows(self.store(), topic.as_str(), &locs);
        let contents = render(&bodies, format);
        let rows = bodies.len();
        assert(export_locs(self.held(), given, chosen));
        Ok(ExportFile { path: dest_path, contents, rows })
    }

    /// Nothing runs long enough to stop.
    fn cancel_export(&self, workspace: &str) -> (r: Result<u32, EngineError>)
        ensures
            r == Ok::<u32, EngineError>(0),
    {
        Ok(0)
    }
}

// ── What the engine can do ──────────────────────────────────────────────────

/// How many messages all the topics hold.
pub open spec fn message_total(ts: Seq<MockTopic>) -> int
    decreases ts.len(),
{
    if ts.len() == 0 {
        0
    } else {
        message_total(ts.drop_last()) + ts.last().messages@.len()
    }
}

impl KafkaToolEngine for MockEngine {
    /// JSON and plain text, no registry, no assisted features, at most every message of
    /// the fixture.
    fn capabilities(&self) -> (c: EngineCapabilities)
        ensures
            views(c.supported_deserializers@) == seq!["json"@, "plain"@],
            !c.supports_schema_registry,
            !c.supports_ai,
            c.max_indexed_messages == Some(saturate(message_total(self.held().topic_list())) as u64),
            c.engine_id@ == "kaflow-mock-engine"@,
    {
        let ts = self.store().topic_vec();
        let mut total: usize = 0;
        let mut i: usize = 0;
        while i < ts.len()
            invariant
                i <= ts@.len(),
                total == saturate(message_total(ts@.take(i as int))),
                message_total(ts@.take(i as int)) >= 0,
            decreases ts.len() - i,
        {
            proof {
                let w = ts@.take(i + 1);
                assert(w.drop_last() == ts@.take(i as int));
                assert(w.last() == ts@[i as int]);
            }
            total = total.saturating_add(ts[i].messages.len());
            i += 1;
        }
        assert(ts@.take(ts@.len() as int) == ts@);
        let kinds = vec![owned("json"), owned("plain")];
        assert(views(kinds@) =~= seq!["json"@, "plain"@]);
        EngineCapabilities {
            supported_deserializers: kinds,
            supports_schema_registry: false,
            supports_ai: false,
            max_indexed_messages: Some(total as u64),
            engine_id: owned("kaflow-mock-engine"),
        }
    }
}

} // verus!
