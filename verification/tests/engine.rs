use kaflow::engine::{
    ExportApi, FieldMgmtApi, KafkaToolEngine, RegistryApi, SearchApi, TopicMetaApi,
};
use kaflow::error::EngineError;
use kaflow::export::{ExportCompression, ExportFormat, ExportRequest};
use kaflow::mock::engine::MockEngine;
use kaflow::mock::fixture::{fixture_fits, FxMessage, FxRoot, FxTopic, JsonValue};
use kaflow::mock::store::MockStore;
use kaflow::registry::RegistryResource;
use kaflow::search::{
    LocItem, QueryNode, RangeLeaf, SearchMode, SearchQuery, SortOrder, TermLeaf,
};

fn msg(partition: u32, offset: Option<u64>, customer: &str) -> FxMessage {
    FxMessage {
        partition,
        offset,
        ts_millis: None,
        key: None,
        value: JsonValue::Object(vec![(
            "customer".to_string(),
            JsonValue::Str(customer.to_string()),
        )]),
    }
}

fn engine_with(messages: Vec<FxMessage>, partitions: Option<u32>) -> MockEngine {
    let root = FxRoot {
        topics: vec![FxTopic {
            name: "orders".to_string(),
            partitions,
            key_deserializer: None,
            value_deserializer: Some("avro".to_string()),
            messages,
        }],
    };
    assert!(fixture_fits(&root));
    MockEngine::new(MockStore::from_fixture(root))
}

fn engine() -> MockEngine {
    engine_with(
        vec![
            msg(0, Some(5), "alice"),
            msg(1, Some(3), "bob"),
            msg(0, Some(7), "alina"),
        ],
        Some(3),
    )
}

#[test]
fn offset_status_follows_the_offsets_held() {
    let e = engine();
    let s = e.get_topic_offset_status("w", "orders", "b").unwrap();
    assert_eq!(s.kafka_total, 4);
    assert_eq!(s.indexed_total, 3);
    assert_eq!(s.processed_total, 4);
    assert_eq!(s.skipped, 1);
    assert_eq!(s.gap, 0);
    assert!(s.is_caught_up);
    assert_eq!(s.partitions.len(), 3);
    assert_eq!(s.partitions[0].earliest, 5);
    assert_eq!(s.partitions[0].latest, 8);
    assert_eq!(s.partitions[0].min_indexed_offset, Some(5));
    assert_eq!(s.partitions[0].max_indexed_offset, Some(7));
    assert_eq!(s.partitions[1].earliest, 3);
    assert_eq!(s.partitions[1].latest, 4);
    assert_eq!(s.partitions[2].latest, 0);
    assert_eq!(s.partitions[2].max_indexed_offset, None);
}

#[test]
fn offset_status_of_unknown_topic_is_empty() {
    let e = engine();
    let s = e.get_topic_offset_status("w", "nope", "b").unwrap();
    assert_eq!(s.topic, "nope");
    assert_eq!(s.kafka_total, 0);
    assert!(s.partitions.is_empty());
    assert!(s.is_caught_up);
}

#[test]
fn offset_at_the_top_of_the_range_is_an_error() {
    let e = engine_with(vec![msg(0, Some(i64::MAX as u64), "x")], None);
    match e.get_topic_offset_status("w", "orders", "b") {
        Err(EngineError::Internal(m)) => assert_eq!(m, "offset arithmetic overflow"),
        other => panic!("unexpected: {other:?}"),
    }
    assert!(matches!(
        e.get_topic_meta("w", "orders"),
        Err(EngineError::Internal(_))
    ));
}

#[test]
fn topology_spreads_leaders_by_turns() {
    let e = engine();
    let t = e.fetch_cluster_topology("b", &["orders".to_string()]).unwrap();
    assert_eq!(t.cluster_id.as_deref(), Some("mock-cluster-id"));
    assert_eq!(t.controller_id, 1);
    assert_eq!(t.brokers.len(), 3);
    assert_eq!(t.brokers[0].host, "mock-broker-1");
    assert_eq!(t.brokers[0].port, 9092);
    assert_eq!(t.brokers[1].rack.as_deref(), Some("rack-2"));
    assert!(t.brokers[0].is_controller && !t.brokers[2].is_controller);
    assert_eq!(t.topics.len(), 1);
    let parts = &t.topics[0].partitions;
    assert_eq!(parts.len(), 3);
    assert_eq!(parts[0].leader_id, 1);
    assert_eq!(parts[0].replica_ids, vec![1, 2]);
    assert_eq!(parts[2].leader_id, 3);
    assert_eq!(parts[2].replica_ids, vec![3, 1]);
    assert_eq!(parts[2].isr_ids, vec![3, 1]);

    let none = e.fetch_cluster_topology("b", &["nope".to_string()]).unwrap();
    assert!(none.topics.is_empty());
}

#[test]
fn size_profile_reports_declared_deserializers() {
    let e = engine();
    let p = e.get_topic_size_profile("b", "orders").unwrap();
    assert_eq!(p.sampled, 3);
    assert_eq!(p.suggested_value_deserializer.as_deref(), Some("avro"));
    assert_eq!(p.suggested_key_deserializer.as_deref(), Some("json"));
    assert_eq!(
        p.suggested_reason.as_deref(),
        Some("deserializer declared by mock fixture")
    );
    let missing = e.get_topic_size_profile("b", "nope").unwrap();
    assert_eq!(missing.sampled, 0);
    assert_eq!(missing.avg_bytes, 0);
    assert!(missing.suggested_value_deserializer.is_none());
}

#[test]
fn keyword_prefetch_counts_every_match() {
    let e = engine();
    let r = e
        .prefetch_search_locs(
            "w",
            "ali",
            None,
            None,
            SearchMode::Prefix,
            SortOrder::OldestFirst,
            Some(1),
            None,
            None,
        )
        .unwrap();
    assert_eq!(r.total, 2);
    assert_eq!(r.locs.len(), 1);
    assert_eq!(r.hit_fields, vec!["P.customer".to_string()]);
}

#[test]
fn capabilities_count_the_messages() {
    let e = engine();
    let c = e.capabilities();
    assert_eq!(c.engine_id, "kaflow-mock-engine");
    assert_eq!(c.max_indexed_messages, Some(3));
    assert_eq!(
        c.supported_deserializers,
        vec!["json".to_string(), "plain".to_string()]
    );
    assert!(e.set_license(None).is_ok());
}

#[test]
fn registry_through_the_engine() {
    let mut e = engine();
    e.save_registry_resource(RegistryResource {
        id: "r1".to_string(),
        name: "Main".to_string(),
        url: "http://localhost:8081".to_string(),
        basic_auth: None,
    })
    .unwrap();
    assert_eq!(e.list_registry_resources().unwrap().len(), 1);
    e.delete_registry_resource("r1").unwrap();
    assert!(e.list_registry_resources().unwrap().is_empty());
}

#[test]
fn export_writes_a_header_and_a_row_per_match() {
    let e = engine();
    let req = ExportRequest {
        topic: "orders".to_string(),
        query: "alice".to_string(),
        fields: None,
        mode: SearchMode::Exact,
        sort_order: SortOrder::OldestFirst,
        ts_range: None,
        pos_filter: None,
        search_query: None,
        dest_path: "/tmp/out.csv".to_string(),
        format: ExportFormat::Csv,
        compression: ExportCompression::Uncompressed,
    };
    let f = e.export_search_results("w", req).unwrap();
    assert_eq!(f.path, "/tmp/out.csv");
    assert_eq!(f.rows, 1);
    let header = "topic,partition,offset,timestamp,key,headers,payload\n";
    assert!(f.contents.starts_with(header));
    let row = &f.contents[header.len()..];
    assert!(row.starts_with("orders,0,5,"));
    // The payload is indented JSON, so it is quoted and spans lines.
    assert!(row.ends_with(",\"{\n  \"\"customer\"\": \"\"alice\"\"\n}\"\n"));
}

#[test]
fn blank_export_query_takes_every_message() {
    let e = engine();
    let req = ExportRequest {
        topic: "orders".to_string(),
        query: "  ".to_string(),
        fields: None,
        mode: SearchMode::Prefix,
        sort_order: SortOrder::OldestFirst,
        ts_range: None,
        pos_filter: None,
        search_query: None,
        dest_path: "out.jsonl".to_string(),
        format: ExportFormat::Jsonl,
        compression: ExportCompression::Gzip,
    };
    let f = e.export_search_results("w", req).unwrap();
    assert_eq!(f.rows, 3);
    assert_eq!(f.contents.lines().count(), 3);
    assert!(f.contents.contains("\"payload\":\"{\\n  \\\"customer\\\": \\\"alice\\\"\\n}\""));
}

fn query(node: QueryNode) -> SearchQuery {
    SearchQuery {
        topics: None,
        where_node: node,
        sort_order: SortOrder::OldestFirst,
        limit: 0,
        ts_range: None,
        pos_filter: None,
    }
}

fn range(gte: Option<&str>, lte: Option<&str>) -> QueryNode {
    QueryNode::Range(RangeLeaf {
        field: "P.customer".to_string(),
        gte: gte.map(|s| s.to_string()),
        lte: lte.map(|s| s.to_string()),
    })
}

#[test]
fn topology_without_topics_is_brokers_only() {
    let e = engine();
    let t = e.fetch_cluster_topology("b", &[]).unwrap();
    assert_eq!(t.brokers.len(), 3);
    assert!(t.topics.is_empty());
}

#[test]
fn tokenize_fields_past_the_plan_cap_are_refused() {
    let mut e = engine();
    match e.set_tokenize_fields("w", "orders", vec!["P.a".to_string(), "P.b".to_string()]) {
        Err(EngineError::InvalidArgument(m)) => assert!(m.starts_with("plan limit:")),
        other => panic!("unexpected: {other:?}"),
    }
    assert!(e.store().tokenized_for("orders").is_empty());
    e.set_tokenize_fields("w", "orders", vec!["P.customer".to_string()]).unwrap();
    assert_eq!(e.store().tokenized_for("orders"), vec!["P.customer".to_string()]);
}

#[test]
fn ranges_without_ends_or_inverted_are_refused() {
    let e = engine();
    for node in [range(None, None), range(Some("z"), Some("a"))] {
        match e.multi_search("w", query(node)) {
            Err(EngineError::InvalidArgument(_)) => {}
            other => panic!("unexpected: {other:?}"),
        }
    }
    let nested = QueryNode::Bool(kaflow::search::BoolNode {
        should: vec![range(None, None)],
        ..Default::default()
    });
    assert!(e.multi_search_page("w", query(nested), None, None, None, 5).is_err());
    let ok = e.multi_search("w", query(range(Some("alice"), Some("alina")))).unwrap();
    assert_eq!(ok.total, 2);
    let open_top = e.multi_search("w", query(range(Some("b"), None))).unwrap();
    assert_eq!(open_top.total, 1);
}

#[test]
fn page_of_limit_zero_is_empty() {
    let e = engine();
    let node = QueryNode::Term(TermLeaf {
        field: None,
        value: "alice".to_string(),
    });
    let page = e.multi_search_page("w", query(node), None, None, None, 0).unwrap();
    assert!(page.is_empty());
}

#[test]
fn meta_rows_leave_the_body_out() {
    let e = engine();
    let locs = e
        .prefetch_browse_locs("w", "orders", SortOrder::OldestFirst, None, None, None)
        .unwrap()
        .locs;
    let full = e.fetch_messages("w", "orders", locs.iter().map(copy_loc).collect(), None).unwrap();
    let meta = e.fetch_meta_rows("w", "orders", locs).unwrap();
    assert_eq!(meta.len(), 3);
    assert_eq!(full[0].content_source, "full");
    assert!(!full[0].payload.is_empty());
    for (m, f) in meta.iter().zip(full.iter()) {
        assert_eq!(m.content_source, "meta-only");
        assert!(m.payload.is_empty() && m.key.is_empty() && m.headers.is_empty());
        assert_eq!(m.offset, f.offset);
        assert_eq!(m.field_values, f.field_values);
    }
}

fn copy_loc(l: &LocItem) -> LocItem {
    LocItem {
        ts_millis: l.ts_millis,
        partition: l.partition,
        offset: l.offset,
        matched_field: l.matched_field.clone(),
        pretty_index_key: l.pretty_index_key.clone(),
        raw_index_key_hex: l.raw_index_key_hex.clone(),
    }
}

#[test]
fn a_cursor_missing_a_part_gives_the_first_page() {
    let e = engine();
    let first = e
        .fetch_search_locs_page(
            "w", "al", None, None, SearchMode::Prefix, SortOrder::OldestFirst, None, None,
            None, None, None, None,
        )
        .unwrap();
    assert_eq!(first.len(), 2);
    let (ts, off) = (first[0].ts_millis, first[0].offset);
    let partial = e
        .fetch_search_locs_page(
            "w", "al", None, None, SearchMode::Prefix, SortOrder::OldestFirst, None, None,
            Some(ts), None, Some(off), None,
        )
        .unwrap();
    assert_eq!(partial.len(), 2);
    let next = e
        .fetch_search_locs_page(
            "w", "al", None, None, SearchMode::Prefix, SortOrder::OldestFirst, None, None,
            Some(ts), Some(first[0].partition), Some(off), None,
        )
        .unwrap();
    assert_eq!(next.len(), 1);
    assert_eq!(next[0].offset, first[1].offset);
}

#[test]
fn message_text_is_written_as_json() {
    let root = FxRoot {
        topics: vec![FxTopic {
            name: "t".to_string(),
            partitions: None,
            key_deserializer: None,
            value_deserializer: None,
            messages: vec![
                FxMessage {
                    partition: 0,
                    offset: None,
                    ts_millis: None,
                    key: Some(JsonValue::Array(vec![
                        JsonValue::Number("1".to_string()),
                        JsonValue::Str("a".to_string()),
                    ])),
                    value: JsonValue::Object(vec![
                        ("b".to_string(), JsonValue::Bool(true)),
                        ("a".to_string(), JsonValue::Number("2.5".to_string())),
                    ]),
                },
                FxMessage {
                    partition: 0,
                    offset: None,
                    ts_millis: None,
                    key: None,
                    value: JsonValue::Number("not a number".to_string()),
                },
            ],
        }],
    };
    assert!(fixture_fits(&root));
    let s = MockStore::from_fixture(root);
    let t = s.topic("t").unwrap();
    assert_eq!(t.messages[0].key.as_deref(), Some("[1,\"a\"]"));
    assert_eq!(t.messages[0].value_json, "{\n  \"a\": 2.5,\n  \"b\": true\n}");
    assert_eq!(t.messages[1].value_json, "");
}

#[test]
fn export_of_a_query_with_a_bad_range_is_refused() {
    let e = engine();
    let req = ExportRequest {
        topic: "orders".to_string(),
        query: String::new(),
        fields: None,
        mode: SearchMode::Prefix,
        sort_order: SortOrder::OldestFirst,
        ts_range: None,
        pos_filter: None,
        search_query: Some(query(range(None, None))),
        dest_path: "out.csv".to_string(),
        format: ExportFormat::Csv,
        compression: ExportCompression::Uncompressed,
    };
    assert!(matches!(
        e.export_search_results("w", req),
        Err(EngineError::InvalidArgument(_))
    ));
}
