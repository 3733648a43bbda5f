use aisix::store::{EntityStore, EventOutcome, FetchedEntry, ResourceStore, StoreEvent};

#[derive(Debug, Clone, PartialEq)]
struct Item {
    name: String,
    tag: String,
}

fn item(name: &str, tag: &str) -> Item {
    Item { name: name.to_string(), tag: tag.to_string() }
}

/// The keys an item has in the `by_name` and `by_tag` indexes.
fn keys(v: &Item) -> Vec<Option<String>> {
    vec![Some(v.name.clone()), Some(v.tag.clone())]
}

fn store() -> EntityStore<Item> {
    EntityStore::new("/items/".to_string(), vec!["by_name".to_string(), "by_tag".to_string()])
}

/// What the validator of these tests says: an empty name is refused.
fn valid(v: &Item) -> bool {
    !v.name.is_empty()
}

fn fetched(key: &str, v: Item, revision: i64, validate: bool) -> FetchedEntry<Item> {
    let accepted = !validate || valid(&v);
    FetchedEntry { key: key.to_string(), index_keys: keys(&v), value: v, revision, accepted }
}

fn put(key: &str, v: Item, revision: i64, validate: bool) -> StoreEvent<Item> {
    let accepted = !validate || valid(&v);
    StoreEvent::Put { key: key.to_string(), index_keys: keys(&v), parsed: Some(v), accepted, revision }
}

#[test]
fn entity_store_full_load() {
    let mut s = store();
    s.apply_full_load(vec![fetched("/items/a", item("alice", "admin"), 1, false), fetched("/items/b", item("bob", "user"), 2, false)]);

    assert!(s.get("a").is_some());
    assert!(s.get("b").is_some());
    assert!(s.get("c").is_none());
    assert_eq!(s.len(), 2);
}

#[test]
fn entity_store_watch_put_adds_entry() {
    let mut s = store();
    assert_eq!(s.consume_event(put("/items/c", item("carol", "mod"), 10, false)), EventOutcome::Stored);

    assert_eq!(s.get("c").expect("entry c should exist after Put event").value.name, "carol");
    assert_eq!(s.latest_mod_revision(), 10);
}

#[test]
fn entity_store_watch_delete_removes_entry() {
    let mut s = store();
    s.apply_full_load(vec![fetched("/items/a", item("alice", "admin"), 1, false)]);
    assert!(s.get("a").is_some());

    assert_eq!(s.consume_event(StoreEvent::Delete { key: "/items/a".to_string(), revision: 5 }), EventOutcome::Deleted);

    assert!(s.get("a").is_none());
    assert_eq!(s.latest_mod_revision(), 5);
}

#[test]
fn entity_store_validator_skips_invalid_on_full_load() {
    let mut s = store();
    s.apply_full_load(vec![fetched("/items/good", item("alice", "admin"), 1, true), fetched("/items/bad", item("", "admin"), 2, true)]);

    assert!(s.get("good").is_some());
    assert!(s.get("bad").is_none());
}

#[test]
fn entity_store_validator_skips_invalid_on_watch_put() {
    let mut s = store();
    assert_eq!(s.consume_event(put("/items/bad", item("", "x"), 1, true)), EventOutcome::Rejected);

    assert!(s.get("bad").is_none());
    assert_eq!(s.len(), 0);
}

#[test]
fn entity_store_secondary_index_available_after_full_load() {
    let mut s = store();
    s.apply_full_load(vec![fetched("/items/a", item("alice", "admin"), 1, false)]);

    assert!(s.get_by_secondary("by_name", "alice").is_some());
    assert!(s.get_by_secondary("by_tag", "admin").is_some());
}

#[test]
fn entity_store_secondary_index_updated_via_watch() {
    let mut s = store();
    s.consume_event(put("/items/a", item("alice", "admin"), 1, false));
    assert!(s.get_by_secondary("by_name", "alice").is_some());

    s.consume_event(put("/items/a", item("bob", "admin"), 2, false));

    assert!(s.get_by_secondary("by_name", "alice").is_none());
    assert!(s.get_by_secondary("by_name", "bob").is_some());
}

#[test]
fn entity_store_secondary_index_cleared_on_delete() {
    let mut s = store();
    s.apply_full_load(vec![fetched("/items/a", item("alice", "admin"), 1, false)]);
    assert!(s.get_by_secondary("by_name", "alice").is_some());

    s.consume_event(StoreEvent::Delete { key: "/items/a".to_string(), revision: 3 });

    assert!(s.get_by_secondary("by_name", "alice").is_none());
}

#[test]
fn resource_store_secondary_lookup_follows_upsert_and_delete() {
    let mut s: ResourceStore<Item> = ResourceStore::new(vec!["by_name".to_string()]);
    s.upsert("a".to_string(), item("alice", "t"), vec![Some("alice".to_string())], 4);
    assert_eq!(s.get_by_secondary("by_name", "alice").map(|e| e.revision), Some(4));

    s.upsert("a".to_string(), item("ann", "t"), vec![Some("ann".to_string())], 6);
    assert!(s.get_by_secondary("by_name", "alice").is_none());
    assert_eq!(s.get_by_secondary("by_name", "ann").map(|e| e.value.name.clone()), Some("ann".to_string()));

    s.upsert("b".to_string(), item("bea", "t"), vec![Some("bea".to_string())], 7);
    assert!(s.delete("a", 8));
    assert!(s.get_by_secondary("by_name", "ann").is_none());
    assert_eq!(s.get_by_secondary("by_name", "bea").map(|e| e.id.clone()), Some("b".to_string()));
    assert_eq!(s.latest_mod_revision(), 8);
}
