use kaflow::mock::buckets::{build_offset_buckets, build_time_buckets};
use kaflow::mock::fixture::{
    fixture_fits, flatten_json, FxMessage, FxRoot, FxTopic, JsonValue,
};
use kaflow::mock::store::MockStore;
use kaflow::search::{BoolNode, QueryNode, SearchMode, SortOrder, TermLeaf};

fn s(v: &str) -> JsonValue {
    JsonValue::Str(v.to_string())
}

fn obj(members: Vec<(&str, JsonValue)>) -> JsonValue {
    JsonValue::Object(
        members
            .into_iter()
            .map(|(k, v)| (k.to_string(), v))
            .collect(),
    )
}

fn msg(partition: u32, key: Option<JsonValue>, value: JsonValue) -> FxMessage {
    FxMessage {
        partition,
        offset: None,
        ts_millis: None,
        key,
        value,
    }
}

fn topic(name: &str, messages: Vec<FxMessage>) -> FxTopic {
    FxTopic {
        name: name.to_string(),
        partitions: None,
        key_deserializer: None,
        value_deserializer: None,
        messages,
    }
}

/// A small fixture in the shape of the shipped one: an orders topic and a topic of
/// Korean reviews whose body is a sentence.
fn fixture() -> FxRoot {
    let orders = topic(
        "orders",
        vec![
            msg(
                0,
                Some(s("ord-1")),
                obj(vec![
                    ("customer", s("alice")),
                    (
                        "items",
                        JsonValue::Array(vec![
                            obj(vec![("name", s("apple"))]),
                            obj(vec![("name", s("banana"))]),
                        ]),
                    ),
                ]),
            ),
            msg(
                1,
                Some(s("ord-2")),
                obj(vec![
                    ("customer", s("bob")),
                    ("items", JsonValue::Array(vec![obj(vec![("name", s("cherry"))])])),
                ]),
            ),
            msg(0, Some(s("ord-3")), obj(vec![("customer", s("alina"))])),
        ],
    );
    let reviews = topic(
        "reviews-ko",
        vec![
            msg(
                0,
                None,
                obj(vec![
                    ("body", s("배송이 빠르고 포장이 꼼꼼해요")),
                    ("rating", JsonValue::Number("5".to_string())),
                ]),
            ),
            msg(
                0,
                None,
                obj(vec![
                    ("body", s("가격 대비 품질이 좋습니다")),
                    ("rating", JsonValue::Number("4".to_string())),
                ]),
            ),
        ],
    );
    FxRoot {
        topics: vec![orders, reviews],
    }
}

fn store() -> MockStore {
    let root = fixture();
    assert!(fixture_fits(&root));
    MockStore::from_fixture(root)
}

#[test]
fn fixture_loads_topics_and_fields() {
    let s = store();
    assert!(!s.topics.is_empty(), "default fixture must have topics");
    let t = &s.topics[0];
    assert!(!t.messages.is_empty());
    assert!(
        t.payload_fields
            .iter()
            .all(|f| f.starts_with("P.") || f == "P"),
        "payload fields must use the P notation: {:?}",
        t.payload_fields
    );
}

#[test]
fn flatten_uses_star_for_arrays() {
    let mut out = Vec::new();
    let v = obj(vec![(
        "items",
        JsonValue::Array(vec![obj(vec![("name", s("a"))]), obj(vec![("name", s("b"))])]),
    )]);
    flatten_json("P", &v, &mut out);
    assert!(out.contains(&("P.items[*].name".to_string(), "a".to_string())));
    assert!(out.contains(&("P.items[*].name".to_string(), "b".to_string())));
}

#[test]
fn keyword_prefix_matches_and_collects_hit_fields() {
    let s = store();
    let t = &s.topics[0];
    let (path, val) = t.messages[0].fields[0].clone();
    let prefix: String = val.chars().take(2).collect();
    let (locs, hits, total) = t.keyword_locs(
        &prefix,
        None,
        &SearchMode::Prefix,
        &Vec::new(),
        None,
        None,
        &SortOrder::NewestFirst,
        None,
    );
    assert!(total >= 1);
    assert!(!locs.is_empty());
    assert!(hits.contains(&path) || !hits.is_empty());
}

#[test]
fn tokenized_field_matches_mid_sentence_word() {
    let s = store();
    let t = s.topic("reviews-ko").expect("reviews-ko fixture");
    let body = t.messages[0]
        .fields
        .iter()
        .find(|(p, _)| p == "P.body")
        .map(|(_, v)| v.clone())
        .expect("P.body");
    let words: Vec<&str> = body.split_whitespace().collect();
    assert!(words.len() >= 3, "body must be multiple words: {body}");
    let mid = words[2];
    let fields = vec!["P.body".to_string()];

    let plain = t.keyword_locs(
        mid,
        Some(&fields),
        &SearchMode::Prefix,
        &Vec::new(),
        None,
        None,
        &SortOrder::NewestFirst,
        None,
    );
    assert_eq!(plain.2, 0, "without tokenize, middle words must not match");

    let tok = vec!["P.body".to_string()];
    let toked = t.keyword_locs(
        mid,
        Some(&fields),
        &SearchMode::Prefix,
        &tok,
        None,
        None,
        &SortOrder::NewestFirst,
        None,
    );
    assert!(toked.2 >= 1, "with tokenize, middle words must match");
}

#[test]
fn multi_term_eval() {
    let s = store();
    let t = &s.topics[0];
    let (field, value) = t.messages[0].fields[0].clone();
    let node = QueryNode::Bool(BoolNode {
        must: vec![QueryNode::Term(TermLeaf {
            field: Some(field),
            value,
        })],
        ..Default::default()
    });
    let (locs, total) = t.multi_locs(
        &node,
        &Vec::new(),
        None,
        None,
        &SortOrder::NewestFirst,
        None,
    );
    assert!(total >= 1);
    assert!(!locs.is_empty());
}

#[test]
fn buckets_count_matches_locs() {
    let s = store();
    let t = &s.topics[0];
    let (locs, total) = t.browse_locs(None, None, &SortOrder::OldestFirst, None);
    let tb = build_time_buckets(&locs, 60_000);
    assert_eq!(tb.total as usize, total);
    let ob = build_offset_buckets(&t.name, &locs);
    assert_eq!(ob.total as usize, total);
}

#[test]
fn messages_are_ordered_by_partition_then_offset() {
    let s = store();
    let t = &s.topics[0];
    let pos: Vec<(u32, u64)> = t.messages.iter().map(|m| (m.partition, m.offset)).collect();
    // Offsets are made up per partition, in the order the fixture lists them.
    assert_eq!(pos, vec![(0, 0), (0, 1), (1, 0)]);
    assert_eq!(t.partition_count, 2);
    assert_eq!(t.key_deserializer, "json");
    assert_eq!(t.key_fields, vec!["K".to_string()]);
}

#[test]
fn browse_limit_and_order() {
    let s = store();
    let t = &s.topics[0];
    let (locs, total) = t.browse_locs(None, None, &SortOrder::NewestFirst, Some(2));
    assert_eq!(total, 3);
    assert_eq!(locs.len(), 2);
    assert!(locs[0].ts_millis >= locs[1].ts_millis);
}

#[test]
fn exact_mode_needs_the_whole_value() {
    let s = store();
    let t = &s.topics[0];
    let exact = t.keyword_locs(
        "ali",
        None,
        &SearchMode::Exact,
        &Vec::new(),
        None,
        None,
        &SortOrder::OldestFirst,
        None,
    );
    assert_eq!(exact.2, 0);
    let prefix = t.keyword_locs(
        "ali",
        None,
        &SearchMode::Prefix,
        &Vec::new(),
        None,
        None,
        &SortOrder::OldestFirst,
        None,
    );
    assert_eq!(prefix.2, 2);
    assert_eq!(prefix.1, vec!["P.customer".to_string()]);
}

#[test]
fn empty_query_matches_nothing() {
    let s = store();
    let t = &s.topics[0];
    let r = t.keyword_locs(
        "",
        None,
        &SearchMode::Prefix,
        &Vec::new(),
        None,
        None,
        &SortOrder::OldestFirst,
        None,
    );
    assert_eq!(r.2, 0);
    assert!(r.0.is_empty());
    assert!(r.1.is_empty());
}

#[test]
fn unknown_topic_is_none() {
    let s = store();
    assert!(s.topic("missing").is_none());
    assert_eq!(s.topic("orders").map(|t| t.messages.len()), Some(3));
}

#[test]
fn should_clauses_count_towards_the_minimum() {
    let s = store();
    let t = &s.topics[0];
    let term = |v: &str| {
        QueryNode::Term(TermLeaf {
            field: Some("P.customer".to_string()),
            value: v.to_string(),
        })
    };
    let node = |min: Option<u32>| {
        QueryNode::Bool(BoolNode {
            should: vec![term("alice"), term("bob"), term("nobody")],
            minimum_should_match: min,
            ..Default::default()
        })
    };
    // Each message matches at most one of the three.
    assert_eq!(t.multi_locs(&node(None), &Vec::new(), None, None, &SortOrder::OldestFirst, None).1, 2);
    assert_eq!(t.multi_locs(&node(Some(2)), &Vec::new(), None, None, &SortOrder::OldestFirst, None).1, 0);
    let with_must_not = QueryNode::Bool(BoolNode {
        should: vec![term("alice"), term("bob")],
        must_not: vec![term("bob")],
        ..Default::default()
    });
    assert_eq!(t.multi_locs(&with_must_not, &Vec::new(), None, None, &SortOrder::OldestFirst, None).1, 1);
}
