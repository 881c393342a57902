use kaflow::mock::store::MockStore;
use kaflow::registry::RegistryResource;

fn res(id: &str, name: &str) -> RegistryResource {
    RegistryResource {
        id: id.to_string(),
        name: name.to_string(),
        url: "http://localhost:8081".to_string(),
        basic_auth: None,
    }
}

#[test]
fn crud_roundtrip() {
    let mut store = MockStore::default();
    assert!(store.list_registries().is_empty());

    store.save_registry(res("a", "staging"));
    store.save_registry(res("b", "local"));
    let list = store.list_registries();
    assert_eq!(list.len(), 2);
    assert_eq!(list[0].name, "local");

    store.save_registry(res("a", "prod"));
    let list = store.list_registries();
    assert_eq!(list.len(), 2);
    assert!(list.iter().any(|r| r.id == "a" && r.name == "prod"));

    store.delete_registry("a");
    let list = store.list_registries();
    assert_eq!(list.len(), 1);
    assert_eq!(list[0].id, "b");
}

#[test]
fn registries_are_ordered_ignoring_case() {
    let mut store = MockStore::default();
    store.save_registry(res("1", "beta"));
    store.save_registry(res("2", "Alpha"));
    store.save_registry(res("3", "ALPHA"));
    let list = store.list_registries();
    let ids: Vec<&str> = list.iter().map(|r| r.id.as_str()).collect();
    // Equal names, ignoring case, keep the order they were saved in.
    assert_eq!(ids, vec!["2", "3", "1"]);
}

#[test]
fn deleting_an_unknown_id_changes_nothing() {
    let mut store = MockStore::default();
    store.save_registry(res("x", "one"));
    store.delete_registry("nope");
    let list = store.list_registries();
    assert_eq!(list.len(), 1);
    assert_eq!(list[0].id, "x");
}

#[test]
fn tokenized_fields_read_back() {
    let mut store = MockStore::default();
    assert!(store.tokenized_for("t").is_empty());
    store.set_tokenized("t", vec!["P.b".to_string(), "P.a".to_string(), "P.b".to_string()]);
    assert_eq!(store.tokenized_for("t"), vec!["P.a".to_string(), "P.b".to_string()]);
    assert!(store.tokenized_for("other").is_empty());
    store.set_tokenized("t", Vec::new());
    assert!(store.tokenized_for("t").is_empty());
}

#[test]
fn the_last_choice_for_a_topic_decides() {
    let mut store = MockStore::default();
    store.set_tokenized("t", vec!["P.a".to_string()]);
    store.set_tokenized("u", vec!["P.x".to_string()]);
    store.set_tokenized("t", vec!["P.c".to_string(), "P.b".to_string()]);
    store.set_tokenized("u", Vec::new());
    assert_eq!(store.tokenized_for("t"), vec!["P.b".to_string(), "P.c".to_string()]);
    assert!(store.tokenized_for("u").is_empty());
    assert!(store.tokenized_for("never").is_empty());
}
