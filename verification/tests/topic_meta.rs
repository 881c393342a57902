use kaflow::domain::{IndexState, IndexedField, IndexedFieldKind};
use kaflow::topic_meta::{
    cleanup_policy_from_shape, cleanup_policy_tag, indexed_fields_from_entries, CleanupPolicy,
    CleanupPolicyShape, IndexedFieldEntry, TopicFieldMeta,
};

#[test]
fn cleanup_policy_shapes() {
    assert_eq!(cleanup_policy_from_shape(None), Ok(None));
    assert_eq!(
        cleanup_policy_from_shape(Some(CleanupPolicyShape::One(CleanupPolicy::FieldBased))),
        Ok(Some(CleanupPolicy::FieldBased))
    );
    assert_eq!(
        cleanup_policy_from_shape(Some(CleanupPolicyShape::Many(vec![
            CleanupPolicy::CountBased { max_count: 7 },
            CleanupPolicy::DropIndex,
        ]))),
        Ok(Some(CleanupPolicy::CountBased { max_count: 7 }))
    );
    assert_eq!(
        cleanup_policy_from_shape(Some(CleanupPolicyShape::Many(Vec::new()))),
        Ok(None)
    );
    assert_eq!(
        cleanup_policy_from_shape(Some(CleanupPolicyShape::Tag("count_based".to_string()))),
        Ok(Some(CleanupPolicy::CountBased { max_count: 0 }))
    );
    assert_eq!(
        cleanup_policy_from_shape(Some(CleanupPolicyShape::Tag("drop_index".to_string()))),
        Ok(Some(CleanupPolicy::DropIndex))
    );
}

#[test]
fn unknown_cleanup_tag_is_refused() {
    assert_eq!(
        cleanup_policy_from_shape(Some(CleanupPolicyShape::Tag("shrink".to_string()))),
        Err("unknown cleanup_policy tag: shrink".to_string())
    );
}

#[test]
fn cleanup_tags() {
    assert_eq!(cleanup_policy_tag(&None), None);
    assert_eq!(cleanup_policy_tag(&Some(CleanupPolicy::DropIndex)), Some("drop_index"));
    assert_eq!(cleanup_policy_tag(&Some(CleanupPolicy::FieldBased)), Some("field_based"));
    assert_eq!(
        cleanup_policy_tag(&Some(CleanupPolicy::CountBased { max_count: 9 })),
        Some("count_based")
    );
}

#[test]
fn indexed_field_entries() {
    assert_eq!(indexed_fields_from_entries(None), Ok(Vec::new()));
    let r = indexed_fields_from_entries(Some(vec![
        IndexedFieldEntry::Name("P.a".to_string()),
        IndexedFieldEntry::Full(IndexedField {
            name: "P.b".to_string(),
            kind: IndexedFieldKind::Required,
            is_representative: true,
            tokenize: true,
        }),
    ]))
    .unwrap();
    assert_eq!(r.len(), 2);
    assert_eq!(r[0], IndexedField::optional("P.a".to_string()));
    assert_eq!(r[1].kind, IndexedFieldKind::Required);
    assert!(r[1].tokenize);
}

#[test]
fn unnamed_full_entry_is_refused() {
    let r = indexed_fields_from_entries(Some(vec![
        IndexedFieldEntry::Name("P.a".to_string()),
        IndexedFieldEntry::Full(IndexedField::required(String::new())),
    ]));
    assert_eq!(r, Err("indexed field name must not be empty".to_string()));
}

#[test]
fn field_name_views() {
    let mut meta = TopicFieldMeta::default();
    assert_eq!(meta.derived_index_state(), IndexState::NotIndexed);
    meta.indexed = true;
    assert_eq!(meta.derived_index_state(), IndexState::Full);
    meta.field_subset = true;
    assert_eq!(meta.derived_index_state(), IndexState::PartialField);

    let mut tok = IndexedField::optional("P.body".to_string());
    tok.tokenize = true;
    meta.indexed_fields = vec![
        IndexedField::required("P.id".to_string()),
        tok,
        IndexedField::required("P.id".to_string()),
    ];
    meta.tokenize_fields = vec!["P.title".to_string(), "P.body".to_string()];

    let mut names = meta.indexed_field_names();
    names.sort();
    assert_eq!(names, vec!["P.body".to_string(), "P.id".to_string()]);
    assert_eq!(meta.required_field_names(), vec!["P.id".to_string()]);
    let mut toks = meta.effective_tokenized_fields();
    toks.sort();
    assert_eq!(toks, vec!["P.body".to_string(), "P.title".to_string()]);
}
