use ip_story::data::Data;
use ip_story::entry::Entry;
use ip_story::history::History;
use ip_story::kind::{DataKind, SearchOrder};
use ip_story::model::StoreError;
use ip_story::store::{
    append_entry_with, create_if_absent, delete_entry, search_entries, update_entry_with,
    IpAddress, IpStory,
};
use ip_story::time::Timestamp;

fn at(secs: i64) -> Timestamp {
    Timestamp { secs, nanos: 0 }
}

fn draft(data: Data, ctime: Option<Timestamp>) -> Entry {
    Entry { uuid: None, description: None, ctime, mtime: None, tags: None, data }
}

fn text(s: &str) -> Data {
    Data::Text(s.to_string())
}

fn ten_zero_zero_one() -> IpAddress {
    IpAddress::V4(0x0a00_0001)
}

/// A story with five entries: text at 10, asn at 20, text at 30, asn at 40, text at 50,
/// with the identities 1 to 5.
fn sample() -> Option<IpStory> {
    let mut slot = None;
    create_if_absent(&mut slot, ten_zero_zero_one());
    let payloads = vec![text("a"), Data::Asn(64500), text("b"), Data::Asn(64501), text("c")];
    let mut n: i64 = 0;
    for data in payloads {
        n += 1;
        let r = append_entry_with(&mut slot, draft(data, Some(at(10 * n))), n as u128, at(0));
        assert_eq!(r, Ok(true));
    }
    slot
}

fn identities(found: &[Entry]) -> Vec<u128> {
    found.iter().map(|e| e.uuid.unwrap()).collect()
}

fn stored(slot: &Option<IpStory>) -> Vec<u128> {
    identities(slot.as_ref().unwrap().history.entries())
}

#[test]
fn register_creates_an_empty_story_once() {
    let mut slot = None;
    let ip = ten_zero_zero_one();
    assert_eq!(create_if_absent(&mut slot, ip), ip);
    assert_eq!(slot.as_ref().unwrap().ip, ip);
    assert_eq!(slot.as_ref().unwrap().history.len(), 0);
    assert_eq!(create_if_absent(&mut slot, ip), ip);
    assert_eq!(slot.as_ref().unwrap().history.len(), 0);
}

#[test]
fn register_keeps_a_story_that_is_there() {
    let mut slot = sample();
    assert_eq!(create_if_absent(&mut slot, ten_zero_zero_one()), ten_zero_zero_one());
    assert_eq!(stored(&slot), vec![1, 2, 3, 4, 5]);
}

#[test]
fn operations_on_a_missing_story_are_not_found() {
    let mut slot: Option<IpStory> = None;
    assert_eq!(
        append_entry_with(&mut slot, draft(text("x"), None), 1, at(1)),
        Err(StoreError::NotFound)
    );
    let mut amended = draft(text("x"), None);
    amended.uuid = Some(1);
    assert_eq!(update_entry_with(&mut slot, amended, at(1)), Err(StoreError::NotFound));
    assert!(matches!(delete_entry(&mut slot, Some(1)), Err(StoreError::NotFound)));
    assert!(matches!(
        search_entries(&slot, None, None, None, None),
        Err(StoreError::NotFound)
    ));
    assert!(slot.is_none());
}

#[test]
fn append_assigns_identity_and_keeps_given_time() {
    let mut slot = None;
    create_if_absent(&mut slot, ten_zero_zero_one());
    let mut d = draft(text("note"), Some(at(100)));
    d.uuid = Some(999);
    d.description = Some("why".to_string());
    assert_eq!(append_entry_with(&mut slot, d, 42, at(5)), Ok(true));
    let entries = slot.as_ref().unwrap().history.entries();
    assert_eq!(entries.len(), 1);
    assert_eq!(entries[0].uuid, Some(42));
    assert_eq!(entries[0].ctime, Some(at(100)));
    assert_eq!(entries[0].mtime, None);
    assert_eq!(entries[0].description, Some("why".to_string()));
    assert_eq!(entries[0].data, text("note"));
}

#[test]
fn append_without_time_is_created_now() {
    let mut slot = None;
    create_if_absent(&mut slot, ten_zero_zero_one());
    let now = Timestamp { secs: 1_700_000_000, nanos: 123 };
    assert_eq!(append_entry_with(&mut slot, draft(text("note"), None), 1, now), Ok(true));
    assert_eq!(slot.as_ref().unwrap().history.entries()[0].ctime, Some(now));
}

#[test]
fn append_keeps_the_history_in_order_of_creation() {
    let mut slot = None;
    create_if_absent(&mut slot, ten_zero_zero_one());
    for (id, secs) in [(1u128, 30i64), (2, 10), (3, 20), (4, 40), (5, 5)] {
        assert_eq!(
            append_entry_with(&mut slot, draft(Data::Asn(1), Some(at(secs))), id, at(0)),
            Ok(true)
        );
    }
    assert_eq!(stored(&slot), vec![5, 2, 3, 1, 4]);
}

#[test]
fn append_orders_by_seconds_then_nanoseconds() {
    let mut slot = None;
    create_if_absent(&mut slot, ten_zero_zero_one());
    let times = [
        (1u128, Timestamp { secs: 5, nanos: 7 }),
        (2, Timestamp { secs: 5, nanos: 3 }),
        (3, Timestamp { secs: -1, nanos: 999_999_999 }),
        (4, Timestamp { secs: 4, nanos: 1_500_000_000 }),
    ];
    for (id, t) in times {
        assert_eq!(append_entry_with(&mut slot, draft(Data::Asn(1), Some(t)), id, at(0)), Ok(true));
    }
    assert_eq!(stored(&slot), vec![3, 4, 2, 1]);
}

#[test]
fn append_at_a_taken_time_is_a_conflict() {
    let mut slot = sample();
    assert_eq!(
        append_entry_with(&mut slot, draft(text("late"), Some(at(30))), 6, at(0)),
        Err(StoreError::Conflict)
    );
    assert_eq!(
        append_entry_with(&mut slot, draft(text("late"), None), 6, at(50)),
        Err(StoreError::Conflict)
    );
    assert_eq!(stored(&slot), vec![1, 2, 3, 4, 5]);
    assert_eq!(slot.as_ref().unwrap().history.entries()[2].data, text("b"));
}

#[test]
fn append_under_a_used_identity_is_refused() {
    let mut slot = sample();
    assert_eq!(
        append_entry_with(&mut slot, draft(text("clash"), Some(at(35))), 3, at(0)),
        Err(StoreError::IdentityInUse)
    );
    assert_eq!(stored(&slot), vec![1, 2, 3, 4, 5]);
}

#[test]
fn append_grows_the_history_by_one() {
    let mut slot = sample();
    assert_eq!(
        append_entry_with(&mut slot, draft(text("new"), Some(at(25))), 6, at(0)),
        Ok(true)
    );
    assert_eq!(slot.as_ref().unwrap().history.len(), 6);
    assert_eq!(stored(&slot), vec![1, 2, 6, 3, 4, 5]);
}

#[test]
fn update_of_an_unknown_identity_changes_nothing() {
    let mut slot = sample();
    let mut e = draft(text("z"), Some(at(15)));
    e.uuid = Some(77);
    assert_eq!(update_entry_with(&mut slot, e, at(1000)), Ok(false));
    assert_eq!(update_entry_with(&mut slot, draft(text("z"), Some(at(15))), at(1000)), Ok(false));
    assert_eq!(stored(&slot), vec![1, 2, 3, 4, 5]);
    for e in slot.as_ref().unwrap().history.entries() {
        assert_eq!(e.mtime, None);
    }
}

#[test]
fn update_replaces_the_entry_and_keeps_its_identity() {
    let mut slot = sample();
    let mut e = draft(Data::Vulnerable("CVE-2024-0001".to_string()), Some(at(30)));
    e.uuid = Some(3);
    assert_eq!(update_entry_with(&mut slot, e, at(1000)), Ok(true));
    let entries = slot.as_ref().unwrap().history.entries();
    assert_eq!(identities(entries), vec![1, 2, 3, 4, 5]);
    assert_eq!(entries[2].data, Data::Vulnerable("CVE-2024-0001".to_string()));
    assert_eq!(entries[2].ctime, Some(at(30)));
    assert_eq!(entries[2].mtime, Some(at(1000)));
}

#[test]
fn update_without_time_keeps_the_time_of_creation() {
    let mut slot = sample();
    let mut e = draft(text("kept"), None);
    e.uuid = Some(2);
    assert_eq!(update_entry_with(&mut slot, e, at(1000)), Ok(true));
    let entries = slot.as_ref().unwrap().history.entries();
    assert_eq!(identities(entries), vec![1, 2, 3, 4, 5]);
    assert_eq!(entries[1].ctime, Some(at(20)));
    assert_eq!(entries[1].data, text("kept"));
}

#[test]
fn update_with_a_new_time_moves_the_entry() {
    let mut slot = sample();
    let mut e = draft(text("moved"), Some(at(45)));
    e.uuid = Some(1);
    assert_eq!(update_entry_with(&mut slot, e, at(1000)), Ok(true));
    let entries = slot.as_ref().unwrap().history.entries();
    assert_eq!(identities(entries), vec![2, 3, 4, 1, 5]);
    assert_eq!(entries[3].ctime, Some(at(45)));
    assert_eq!(entries[3].mtime, Some(at(1000)));
}

#[test]
fn update_onto_the_time_of_another_entry_is_a_conflict() {
    let mut slot = sample();
    let mut e = draft(text("moved"), Some(at(40)));
    e.uuid = Some(1);
    assert_eq!(update_entry_with(&mut slot, e, at(1000)), Err(StoreError::Conflict));
    let entries = slot.as_ref().unwrap().history.entries();
    assert_eq!(identities(entries), vec![1, 2, 3, 4, 5]);
    assert_eq!(entries[0].data, text("a"));
    assert_eq!(entries[0].mtime, None);
    assert_eq!(entries[3].data, Data::Asn(64501));
}

#[test]
fn delete_removes_and_returns_the_entry() {
    let mut slot = sample();
    let gone = delete_entry(&mut slot, Some(4)).unwrap().unwrap();
    assert_eq!(gone.uuid, Some(4));
    assert_eq!(gone.ctime, Some(at(40)));
    assert_eq!(gone.data, Data::Asn(64501));
    assert_eq!(stored(&slot), vec![1, 2, 3, 5]);
    for order in [None, Some(SearchOrder::Asc), Some(SearchOrder::Desc)] {
        for kind in [None, Some(DataKind::Asn), Some(DataKind::Text)] {
            let found = search_entries(&slot, kind, None, None, order).unwrap();
            assert!(!identities(&found).contains(&4));
        }
    }
}

#[test]
fn delete_of_an_unknown_identity_changes_nothing() {
    let mut slot = sample();
    assert!(delete_entry(&mut slot, Some(9)).unwrap().is_none());
    assert!(delete_entry(&mut slot, None).unwrap().is_none());
    assert_eq!(stored(&slot), vec![1, 2, 3, 4, 5]);
}

#[test]
fn delete_frees_the_time_and_the_identity() {
    let mut slot = sample();
    assert!(delete_entry(&mut slot, Some(3)).unwrap().is_some());
    assert_eq!(
        append_entry_with(&mut slot, draft(text("again"), Some(at(30))), 3, at(0)),
        Ok(true)
    );
    assert_eq!(stored(&slot), vec![1, 2, 3, 4, 5]);
    assert_eq!(slot.as_ref().unwrap().history.entries()[2].data, text("again"));
}

#[test]
fn search_without_filters_returns_the_history() {
    let slot = sample();
    let found = search_entries(&slot, None, None, None, None).unwrap();
    assert_eq!(identities(&found), vec![1, 2, 3, 4, 5]);
    let found = search_entries(&slot, None, None, None, Some(SearchOrder::Asc)).unwrap();
    assert_eq!(identities(&found), vec![1, 2, 3, 4, 5]);
    let found = search_entries(&slot, None, None, None, Some(SearchOrder::Desc)).unwrap();
    assert_eq!(identities(&found), vec![5, 4, 3, 2, 1]);
}

#[test]
fn search_by_kind_compares_the_tag_only() {
    let slot = sample();
    let found = search_entries(&slot, Some(DataKind::Asn), None, None, None).unwrap();
    assert_eq!(identities(&found), vec![2, 4]);
    assert_eq!(found[0].data, Data::Asn(64500));
    assert_eq!(found[1].data, Data::Asn(64501));
    let found = search_entries(&slot, Some(DataKind::Text), None, None, Some(SearchOrder::Desc))
        .unwrap();
    assert_eq!(identities(&found), vec![5, 3, 1]);
    let found = search_entries(&slot, Some(DataKind::Owner), None, None, None).unwrap();
    assert!(found.is_empty());
}

#[test]
fn search_pages_the_filtered_entries() {
    let slot = sample();
    let ids = |kind, limit, offset, order| {
        identities(&search_entries(&slot, kind, limit, offset, order).unwrap())
    };
    assert_eq!(ids(None, Some(2), None, None), vec![1, 2]);
    assert_eq!(ids(None, Some(2), Some(1), None), vec![2, 3]);
    assert_eq!(ids(None, None, Some(3), None), vec![4, 5]);
    assert_eq!(ids(None, Some(0), None, None), Vec::<u128>::new());
    assert_eq!(ids(None, Some(9), Some(4), None), vec![5]);
    assert_eq!(ids(None, None, Some(5), None), Vec::<u128>::new());
    assert_eq!(ids(None, Some(3), Some(9), None), Vec::<u128>::new());
    assert_eq!(ids(None, Some(usize::MAX), Some(usize::MAX), None), Vec::<u128>::new());
    assert_eq!(ids(None, Some(usize::MAX), None, None), vec![1, 2, 3, 4, 5]);
    assert_eq!(ids(Some(DataKind::Text), Some(1), Some(1), None), vec![3]);
    assert_eq!(ids(Some(DataKind::Text), Some(2), Some(1), Some(SearchOrder::Desc)), vec![3, 1]);
    assert_eq!(ids(Some(DataKind::Asn), None, Some(1), Some(SearchOrder::Desc)), vec![2]);
    assert_eq!(ids(None, Some(1), None, Some(SearchOrder::Desc)), vec![5]);
}

#[test]
fn search_leaves_the_history_as_it_is() {
    let slot = sample();
    let _ = search_entries(&slot, Some(DataKind::Asn), Some(1), Some(1), Some(SearchOrder::Desc));
    assert_eq!(stored(&slot), vec![1, 2, 3, 4, 5]);
}

#[test]
fn story_end_to_end() {
    let mut slot = None;
    assert_eq!(create_if_absent(&mut slot, ten_zero_zero_one()), ten_zero_zero_one());
    let t1 = at(1_000);
    let t2 = at(2_000);
    assert_eq!(append_entry_with(&mut slot, draft(text("first"), Some(t1)), 11, at(0)), Ok(true));
    assert_eq!(append_entry_with(&mut slot, draft(Data::Asn(3333), Some(t2)), 22, at(0)), Ok(true));

    let found = search_entries(&slot, Some(DataKind::Asn), None, None, None).unwrap();
    assert_eq!(found.len(), 1);
    assert_eq!(found[0].uuid, Some(22));
    assert_eq!(found[0].data, Data::Asn(3333));

    let found = search_entries(&slot, None, Some(1), None, Some(SearchOrder::Desc)).unwrap();
    assert_eq!(found.len(), 1);
    assert_eq!(found[0].uuid, Some(22));

    let text_id = search_entries(&slot, Some(DataKind::Text), None, None, None).unwrap()[0].uuid;
    assert_eq!(text_id, Some(11));
    let gone = delete_entry(&mut slot, text_id).unwrap().unwrap();
    assert_eq!(gone.data, text("first"));

    let found = search_entries(&slot, None, None, None, None).unwrap();
    assert_eq!(found.len(), 1);
    assert_eq!(found[0].uuid, Some(22));
    assert_eq!(found[0].ctime, Some(t2));
    assert_eq!(found[0].data, Data::Asn(3333));
}

#[test]
fn restore_accepts_a_history() {
    let slot = sample();
    let entries: Vec<Entry> = slot.as_ref().unwrap().history.entries().clone();
    let story = IpStory::restore(IpAddress::V6(1), entries).unwrap();
    assert_eq!(story.ip, IpAddress::V6(1));
    assert_eq!(identities(story.history.entries()), vec![1, 2, 3, 4, 5]);
    assert_eq!(IpStory::restore(IpAddress::V6(1), Vec::new()).unwrap().history.len(), 0);
}

#[test]
fn restore_refuses_what_is_no_history() {
    let stored = |id: u128, secs: i64| {
        let mut e = draft(Data::Asn(1), Some(at(secs)));
        e.uuid = Some(id);
        e
    };
    let ip = ten_zero_zero_one();
    let out_of_order = vec![stored(1, 20), stored(2, 10)];
    assert!(matches!(IpStory::restore(ip, out_of_order), Err(StoreError::Storage)));
    let same_time = vec![stored(1, 10), stored(2, 10)];
    assert!(matches!(IpStory::restore(ip, same_time), Err(StoreError::Storage)));
    let same_identity = vec![stored(1, 10), stored(2, 20), stored(1, 30)];
    assert!(matches!(IpStory::restore(ip, same_identity), Err(StoreError::Storage)));
    let no_identity = vec![stored(1, 10), draft(Data::Asn(1), Some(at(20)))];
    assert!(matches!(IpStory::restore(ip, no_identity), Err(StoreError::Storage)));
    let mut timeless = stored(2, 20);
    timeless.ctime = None;
    assert!(matches!(IpStory::restore(ip, vec![stored(1, 10), timeless]), Err(StoreError::Storage)));
    assert!(History::from_entries(vec![stored(1, 10), stored(2, 20)]).is_some());
    assert!(History::from_entries(vec![stored(1, 20), stored(2, 20)]).is_none());
}
