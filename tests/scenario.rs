use vote_store::protocol::{CreateOutcome, UpdateOutcome};
use vote_store::store::MemStore;
use vote_store::topic::TopicData;

const VOTE_JSON: &[u8] = b"{}";
const BREAKFAST: &str = "BA1mGqcirUEmJW981Fo1fcQDCvGJuk7VqtKmEMZjPZSF";
const LUNCH: &str = "D1JLpSVN5YbBiSK5v23zQdEzojs965UVALbWWyvPRGgy";
const BREAKFAST_JSON: &str = r#"{"title":"Breakfast","description":"what to eat"}"#;
const LUNCH_JSON: &str = r#"{"title":"Lunch","description":"what to eat"}"#;

fn created_breakfast() -> (MemStore, TopicData) {
    let mut store = MemStore::new();
    let topic = TopicData::new("U", "Breakfast", "what to eat");
    let r = store.create_topic(&topic, VOTE_JSON, BREAKFAST_JSON);
    assert_eq!(
        r,
        CreateOutcome::Created { hash: BREAKFAST.to_string(), id: "U".to_string() }
    );
    (store, topic)
}

#[test]
fn create_sets_pointer_and_history() {
    let (store, _) = created_breakfast();
    let h = store.resolve("U").unwrap();
    assert_eq!(h.id, "U");
    assert_eq!(h.hash, BREAKFAST);
    assert_eq!(h.title, "Breakfast");
    assert_eq!(store.history("U"), vec![BREAKFAST.to_string()]);
}

#[test]
fn update_title_moves_pointer_and_extends_history() {
    let (mut store, mut topic) = created_breakfast();
    topic.set_field("title", "Lunch".to_string()).unwrap();
    let r = store.update_topic(&topic, VOTE_JSON, LUNCH_JSON);
    assert_eq!(r, UpdateOutcome::Updated { hash: LUNCH.to_string() });
    assert_ne!(LUNCH, BREAKFAST);
    let h = store.resolve("U").unwrap();
    assert_eq!(h.hash, LUNCH);
    assert_eq!(h.title, "Lunch");
    assert_eq!(store.history("U"), vec![LUNCH.to_string(), BREAKFAST.to_string()]);
}

#[test]
fn resubmitting_current_content_changes_nothing() {
    let (mut store, mut topic) = created_breakfast();
    topic.set_field("title", "Lunch".to_string()).unwrap();
    store.update_topic(&topic, VOTE_JSON, LUNCH_JSON);
    let r = store.update_topic(&topic, VOTE_JSON, LUNCH_JSON);
    assert_eq!(r, UpdateOutcome::NoChange);
    assert_eq!(store.history("U"), vec![LUNCH.to_string(), BREAKFAST.to_string()]);
    assert_eq!(store.list("topic").len(), 2);
}

#[test]
fn fetch_by_id_returns_current_content() {
    let (mut store, mut topic) = created_breakfast();
    topic.set_field("title", "Lunch".to_string()).unwrap();
    store.update_topic(&topic, VOTE_JSON, LUNCH_JSON);
    assert_eq!(store.fetch_topic_by_id("U"), Some(LUNCH_JSON.to_string()));
    assert_eq!(store.fetch_topic_by_id("V"), None);
}

#[test]
fn fetch_by_hash_serves_old_versions() {
    let (mut store, mut topic) = created_breakfast();
    topic.set_field("title", "Lunch".to_string()).unwrap();
    store.update_topic(&topic, VOTE_JSON, LUNCH_JSON);
    assert_eq!(store.fetch_topic_by_hash(BREAKFAST), Some(BREAKFAST_JSON.to_string()));
    assert_eq!(store.fetch_topic_by_hash(LUNCH), Some(LUNCH_JSON.to_string()));
    assert_eq!(store.fetch_topic_by_hash("nothing"), None);
}

#[test]
fn duplicate_create_is_idempotent() {
    let (mut store, topic) = created_breakfast();
    let r = store.create_topic(&topic, VOTE_JSON, BREAKFAST_JSON);
    assert_eq!(
        r,
        CreateOutcome::Duplicate { hash: BREAKFAST.to_string(), id: "U".to_string() }
    );
    assert_eq!(store.history("U"), vec![BREAKFAST.to_string()]);
    assert_eq!(store.list("topic"), vec![BREAKFAST.to_string()]);
}

#[test]
fn update_of_unknown_id_is_refused() {
    let mut store = MemStore::new();
    let topic = TopicData::new("nobody", "Breakfast", "what to eat");
    let r = store.update_topic(&topic, VOTE_JSON, BREAKFAST_JSON);
    assert_eq!(r, UpdateOutcome::NoSuchEntity);
    assert!(store.resolve("nobody").is_none());
    assert!(store.history("nobody").is_empty());
    assert!(store.list("topic").is_empty());
}

#[test]
fn pointer_always_resolves_to_content() {
    let (mut store, mut topic) = created_breakfast();
    for (i, t) in ["a", "b", "c"].iter().enumerate() {
        topic.set_field("description", t.to_string()).unwrap();
        let json = format!("v{}", i);
        store.update_topic(&topic, VOTE_JSON, &json);
        let h = store.resolve("U").unwrap();
        assert_eq!(store.fetch_topic_by_hash(&h.hash), Some(json));
    }
}

#[test]
fn history_lists_versions_newest_first() {
    let (mut store, mut topic) = created_breakfast();
    let mut hashes = vec![BREAKFAST.to_string()];
    for d in ["one", "two", "three"] {
        topic.set_field("description", d.to_string()).unwrap();
        match store.update_topic(&topic, VOTE_JSON, d) {
            UpdateOutcome::Updated { hash } => hashes.push(hash),
            other => panic!("unexpected {:?}", other),
        }
    }
    hashes.reverse();
    assert_eq!(store.history("U"), hashes);
}

#[test]
fn listing_only_grows() {
    let (mut store, mut topic) = created_breakfast();
    let before = store.list("topic");
    topic.set_field("title", "Lunch".to_string()).unwrap();
    store.update_topic(&topic, VOTE_JSON, LUNCH_JSON);
    store.update_topic(&topic, VOTE_JSON, LUNCH_JSON);
    let after = store.list("topic");
    for h in &before {
        assert!(after.contains(h));
    }
    assert_eq!(after.len(), 2);
    assert_eq!(store.list("header"), vec!["U".to_string()]);
}

#[test]
fn put_get_and_list_blobs() {
    let mut store = MemStore::new();
    assert!(store.put("result", "h1", "{\"x\":1}"));
    assert!(store.put("result", "h1", "{\"x\":2}"));
    assert!(store.put("result", "h2", "{}"));
    assert_eq!(store.get("result", "h1"), Some("{\"x\":2}".to_string()));
    assert_eq!(store.get("topic", "h1"), None);
    let mut l = store.list("result");
    l.sort();
    assert_eq!(l, vec!["h1".to_string(), "h2".to_string()]);
}

#[test]
fn history_append_reports_new_length() {
    let mut store = MemStore::new();
    assert_eq!(store.push_history("U", "h1"), 1);
    assert_eq!(store.push_history("V", "x"), 1);
    assert_eq!(store.push_history("U", "h2"), 2);
    assert_eq!(store.history("U"), vec!["h2".to_string(), "h1".to_string()]);
}

#[test]
fn compare_and_swap_detects_lost_update() {
    let (mut store, _) = created_breakfast();
    assert_eq!(store.commit_if_current("topic", "U", BREAKFAST, "H2", "Lunch", "{}"), Ok(()));
    assert_eq!(
        store.commit_if_current("topic", "U", BREAKFAST, "H3", "Dinner", "{}"),
        Err(vote_store::protocol::Conflict)
    );
    assert_eq!(store.resolve("U").unwrap().hash, "H2");
    assert_eq!(store.history("U"), vec!["H2".to_string(), BREAKFAST.to_string()]);
    assert_eq!(store.fetch_topic_by_hash("H3"), None);
}
