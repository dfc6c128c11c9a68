use ip_story::data::Data;
use ip_story::entry::Entry;
use ip_story::tag::{Tag, TagSet};

fn texts(set: &TagSet) -> Vec<String> {
    (0..set.len()).map(|i| set.get(i).as_str().to_string()).collect()
}

#[test]
fn a_tag_is_kept_in_lower_case() {
    assert_eq!(Tag::new("Scanner").as_str(), "scanner");
    assert_eq!(Tag::new("TOR-EXIT").as_str(), "tor-exit");
    assert_eq!(Tag::new("already lower 42").as_str(), "already lower 42");
    assert_eq!(Tag::new("").as_str(), "");
    assert_eq!(Tag::new("AZ@[`az{").as_str(), "az@[`az{");
}

#[test]
fn lower_case_leaves_other_alphabets_alone() {
    assert_eq!(Tag::new("ÉCOLE Ünïcode ΑΒΓ").as_str(), "École Ünïcode ΑΒΓ");
}

#[test]
fn tags_compare_without_regard_to_case() {
    assert!(Tag::new("Botnet").same(&Tag::new("bOTNET")));
    assert!(!Tag::new("Botnet").same(&Tag::new("botnets")));
    assert_eq!(Tag::new("Botnet"), Tag::new("BOTNET"));
    assert_eq!(Tag::new("Botnet").clone().as_str(), "botnet");
}

#[test]
fn a_set_holds_each_tag_once() {
    let mut set = TagSet::new();
    assert_eq!(set.len(), 0);
    assert!(set.insert(Tag::new("Spam")));
    assert!(set.insert(Tag::new("phishing")));
    assert!(!set.insert(Tag::new("SPAM")));
    assert!(set.insert(Tag::new("c2")));
    assert!(!set.insert(Tag::new("Phishing")));
    assert_eq!(set.len(), 3);
    assert_eq!(texts(&set), vec!["spam", "phishing", "c2"]);
    assert!(set.contains(&Tag::new("C2")));
    assert!(!set.contains(&Tag::new("c3")));
}

#[test]
fn a_copy_of_a_set_holds_the_same_tags() {
    let mut set = TagSet::new();
    set.insert(Tag::new("one"));
    set.insert(Tag::new("Two"));
    let copy = set.clone();
    assert_eq!(texts(&copy), vec!["one", "two"]);
    assert_eq!(texts(&set), vec!["one", "two"]);
    assert_eq!(texts(&TagSet::new().clone()), Vec::<String>::new());
}

#[test]
fn a_copy_of_an_entry_keeps_every_field() {
    let mut tags = TagSet::new();
    tags.insert(Tag::new("Seen"));
    let e = Entry {
        uuid: Some(5),
        description: Some("first sighting".to_string()),
        ctime: Some(ip_story::time::Timestamp { secs: 9, nanos: 1 }),
        mtime: Some(ip_story::time::Timestamp { secs: 10, nanos: 2 }),
        tags: Some(tags),
        data: Data::Text("hello".to_string()),
    };
    let c = e.clone();
    assert_eq!(c.uuid, e.uuid);
    assert_eq!(c.description, e.description);
    assert_eq!(c.ctime, e.ctime);
    assert_eq!(c.mtime, e.mtime);
    assert_eq!(texts(c.tags.as_ref().unwrap()), vec!["seen"]);
    assert_eq!(c.data, e.data);
}
