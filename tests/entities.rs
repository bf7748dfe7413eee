use vote_store::digest::content_address;
use vote_store::header::{topic_domain_prefix, TopicCalculationResult, TopicHeader};
use vote_store::history::newest_first;
use vote_store::keys::{domain_key, history_key, plural_prefix};
use vote_store::protocol::{is_duplicate, update_step, CommitReport, UpdateStep};
use vote_store::registry::{reps_key, RepresentativeInfo};
use vote_store::topic::{Field, FieldError, PartialTopic, TopicData, Weight};
use vote_store::vote_info::{params_hash, VoteInfo};

fn w(target: &str, x: f64) -> Weight {
    Weight { target: target.to_string(), bits: x.to_bits() }
}

#[test]
fn content_address_of_empty_input() {
    assert_eq!(content_address(b""), "GKot5hBsd81kMupNCXHaqbhv3huEbxAFMLnpcX2hniwn");
}

#[test]
fn content_address_is_deterministic() {
    let a = content_address("héllo".as_bytes());
    let b = content_address("héllo".as_bytes());
    assert_eq!(a, b);
    assert_eq!(a, "54KSvNF3zF8iZj54oQgRhaTdpUmJCA8sq9YTGxJJfi96");
}

#[test]
fn topic_hash_covers_policies_and_delegates() {
    let mut t = TopicData::new("U", "Breakfast", "what to eat");
    assert_eq!(t.hash(b"{}"), "BA1mGqcirUEmJW981Fo1fcQDCvGJuk7VqtKmEMZjPZSF");
    t.add_new_policy("p1".to_string(), "coffee".to_string());
    t.add_delegate("d1".to_string(), "Alice".to_string());
    assert_eq!(t.hash_bytes(b"{}"), b"Breakfastwhat to eatcoffeeAlice{}".to_vec());
    assert_eq!(t.hash(b"{}"), "EZT4KTKRC7BvqEfPyoPcAiqtoGvTBChnPMgXzbRNb9vH");
    let u = TopicData::new("other id", "Breakfast", "what to eat");
    assert_eq!(u.hash(b"{}"), TopicData::new("U", "Breakfast", "what to eat").hash(b"{}"));
}

#[test]
fn vote_info_hash() {
    let p = params_hash(br#"{"a":{"b":0.5}}"#);
    assert_eq!(p, "9qyf9XFRezLgjWAxaLPoyfXiSvvq9emrCbxa9tsq1UWM");
    let v = VoteInfo::new("v1", "Budget", "share the funds", "borda");
    assert_eq!(v.hash_bytes(&p), format!("v1{}Budgetshare the fundsborda", p).into_bytes());
    assert_eq!(v.hash(br#"{"a":{"b":0.5}}"#), "DSXWURhxoZgjnXqfEAWETGgPorRdavA8UvJA7dsL8Zj8");
}

#[test]
fn field_updates() {
    let mut t = TopicData::new("U", "Breakfast", "what to eat");
    assert_eq!(Field::from_name("title"), Some(Field::Title));
    assert_eq!(Field::from_name("description"), Some(Field::Description));
    assert_eq!(t.set_field("description", "what to drink".to_string()), Ok(()));
    assert_eq!(t.description, "what to drink");
    assert_eq!(t.set_field("owner", "x".to_string()), Err(FieldError::InvalidField));
    assert_eq!(t.title, "Breakfast");
    assert_eq!(t.description, "what to drink");
}

#[test]
fn ballot_is_replaced_whole() {
    let mut t = TopicData::new("U", "Breakfast", "what to eat");
    t.apply_user_vote("voter".to_string(), "Vera".to_string(), vec![w("a", 0.5)]);
    assert!(t.has_delegate("voter"));
    assert_eq!(t.delegates.len(), 1);
    assert_eq!(t.delegates[0].name, "Vera");
    t.apply_user_vote("voter".to_string(), "Vera".to_string(), vec![w("b", 0.5)]);
    assert_eq!(t.delegates.len(), 1);
    assert_eq!(t.votes.len(), 1);
    assert_eq!(t.votes[0].weights.len(), 1);
    assert_eq!(t.votes[0].weights[0].target, "b");
    assert_eq!(f64::from_bits(t.votes[0].weights[0].bits), 0.5);
}

#[test]
fn ballots_of_other_voters_are_kept() {
    let mut t = TopicData::new("U", "T", "D");
    t.overwrite_vote_for("x".to_string(), vec![w("a", 1.0)]);
    t.overwrite_vote_for("y".to_string(), vec![w("b", 0.25)]);
    t.overwrite_vote_for("x".to_string(), vec![]);
    assert_eq!(t.votes.len(), 2);
    assert_eq!(t.votes[0].voter, "x");
    assert!(t.votes[0].weights.is_empty());
    assert_eq!(t.votes[1].weights[0].target, "b");
    assert!(!t.has_delegate("x"));
}

#[test]
fn policies_and_delegates_in_insertion_order() {
    let mut t = TopicData::new("U", "T", "D");
    t.add_new_policy("2".to_string(), "second".to_string());
    t.add_new_policy("1".to_string(), "first".to_string());
    assert_eq!(t.policies_values(), vec!["second".to_string(), "first".to_string()]);
    t.add_delegate("z".to_string(), "Zed".to_string());
    t.add_delegate("a".to_string(), "Ann".to_string());
    assert_eq!(t.delegates_values(), vec!["Zed".to_string(), "Ann".to_string()]);
}

#[test]
fn keys_are_formed_from_prefixes() {
    assert_eq!(domain_key("topic", "abc"), "topic:abc");
    assert_eq!(plural_prefix("header"), "headers");
    assert_eq!(history_key("U"), "history:U");
    assert_eq!(reps_key(), "reps");
    assert_eq!(TopicHeader::domain_prefix(), "header");
    assert_eq!(TopicCalculationResult::domain_prefix(), "result");
    assert_eq!(topic_domain_prefix(), "topic");
}

#[test]
fn history_read_drops_empty_entries() {
    let entries = vec!["h1".to_string(), String::new(), "h2".to_string(), "h3".to_string()];
    assert_eq!(
        newest_first(&entries),
        vec!["h3".to_string(), "h2".to_string(), "h1".to_string()]
    );
    assert!(newest_first(&Vec::new()).is_empty());
}

#[test]
fn decisions_on_pointer() {
    let h = Some(TopicHeader::new("U", "H1", "T"));
    assert!(is_duplicate(&h, "H1"));
    assert!(!is_duplicate(&h, "H2"));
    assert!(!is_duplicate(&None, "H1"));
    assert_eq!(update_step(&None, "H1"), UpdateStep::NoSuchEntity);
    assert_eq!(update_step(&h, "H1"), UpdateStep::NoChange);
    assert_eq!(update_step(&h, "H2"), UpdateStep::Commit);
}

#[test]
fn commit_success_is_the_content_write() {
    let r = CommitReport { content_written: true, pointer_written: false, history_appended: false };
    assert!(r.succeeded());
    assert!(!r.consistent());
    let r = CommitReport { content_written: false, pointer_written: true, history_appended: true };
    assert!(!r.succeeded());
}

#[test]
fn records_and_new_topics() {
    let h = TopicHeader::new("U", "H", "T");
    assert_eq!(h.address(), "U");
    let r = TopicCalculationResult::new("H", "{}");
    assert_eq!(r.address(), "H");
    let p = PartialTopic { title: "T".to_string(), description: "D".to_string() };
    let t = p.into_topic("U");
    assert_eq!((t.id.as_str(), t.title.as_str(), t.description.as_str()), ("U", "T", "D"));
    let i = RepresentativeInfo::new("Rep".to_string(), None, Some("x".to_string()));
    assert_eq!(i.name, "Rep");
}
