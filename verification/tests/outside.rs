use ip_story::data::{Data, MispEvent};
use ip_story::entry::Entry;
use ip_story::kind::DataKind;
use ip_story::store::{
    append_entry, create_if_absent, search_entries, update_entry, IpAddress, IpStory,
};
use ip_story::time::Timestamp;

fn draft(data: Data, ctime: Option<Timestamp>) -> Entry {
    Entry { uuid: None, description: None, ctime, mtime: None, tags: None, data }
}

fn empty_story() -> Option<IpStory> {
    let mut slot = None;
    create_if_absent(&mut slot, IpAddress::V4(0x0a00_0001));
    slot
}

fn seconds_now() -> i64 {
    chrono::Utc::now().timestamp()
}

#[test]
fn append_draws_a_random_uuid() {
    let mut slot = empty_story();
    for secs in 0..20 {
        let d = draft(Data::Asn(1), Some(Timestamp { secs, nanos: 0 }));
        assert_eq!(append_entry(&mut slot, d), Ok(true));
    }
    let entries = slot.as_ref().unwrap().history.entries();
    assert_eq!(entries.len(), 20);
    let mut seen = Vec::new();
    for e in entries {
        let id = e.uuid.unwrap();
        let uuid = uuid::Uuid::from_u128(id);
        assert_eq!(uuid.get_version_num(), 4);
        assert_eq!(uuid.get_variant(), uuid::Variant::RFC4122);
        assert_eq!((id >> 76) & 0xf, 4);
        assert_eq!((id >> 62) & 0x3, 2);
        assert!(!seen.contains(&id));
        seen.push(id);
    }
}

#[test]
fn append_replaces_an_identity_that_the_draft_brings() {
    let mut slot = empty_story();
    let mut d = draft(Data::Asn(1), Some(Timestamp { secs: 1, nanos: 0 }));
    d.uuid = Some(1);
    assert_eq!(append_entry(&mut slot, d), Ok(true));
    assert_ne!(slot.as_ref().unwrap().history.entries()[0].uuid, Some(1));
}

#[test]
fn append_without_time_reads_the_clock() {
    let mut slot = empty_story();
    let before = seconds_now();
    assert_eq!(append_entry(&mut slot, draft(Data::Asn(1), None)), Ok(true));
    let after = seconds_now();
    let t = slot.as_ref().unwrap().history.entries()[0].ctime.unwrap();
    assert!(before <= t.secs && t.secs <= after);
    assert!(t.nanos < 1_000_000_000);
}

#[test]
fn append_with_time_keeps_it() {
    let mut slot = empty_story();
    let t = Timestamp { secs: 86_400, nanos: 5 };
    assert_eq!(append_entry(&mut slot, draft(Data::Asn(1), Some(t))), Ok(true));
    assert_eq!(slot.as_ref().unwrap().history.entries()[0].ctime, Some(t));
    let back = chrono::DateTime::from_timestamp(t.secs, t.nanos).unwrap();
    assert_eq!((back.timestamp(), back.timestamp_subsec_nanos()), (t.secs, t.nanos));
}

#[test]
fn update_stamps_the_time_of_modification() {
    let mut slot = empty_story();
    let t = Timestamp { secs: 100, nanos: 0 };
    assert_eq!(append_entry(&mut slot, draft(Data::Text("old".to_string()), Some(t))), Ok(true));
    let id = slot.as_ref().unwrap().history.entries()[0].uuid;
    let mut e = draft(Data::Text("new".to_string()), Some(t));
    e.uuid = id;
    let before = seconds_now();
    assert_eq!(update_entry(&mut slot, e), Ok(true));
    let after = seconds_now();
    let entries = slot.as_ref().unwrap().history.entries();
    assert_eq!(entries.len(), 1);
    assert_eq!(entries[0].uuid, id);
    assert_eq!(entries[0].data, Data::Text("new".to_string()));
    let m = entries[0].mtime.unwrap();
    assert!(before <= m.secs && m.secs <= after);

    let mut unknown = draft(Data::Text("x".to_string()), None);
    unknown.uuid = Some(0);
    assert_eq!(update_entry(&mut slot, unknown), Ok(false));
}

#[test]
fn search_copies_what_the_library_only_carries() {
    let mut slot = empty_story();
    let server = url::Url::parse("https://misp.example.org/events/view/9").unwrap();
    let json = serde_json::from_str::<serde_json::Value>("{\"a\":[1,{\"b\":null}]}").unwrap();
    let t1 = Timestamp { secs: 1, nanos: 0 };
    let t2 = Timestamp { secs: 2, nanos: 0 };
    let event = Data::MispEvent(MispEvent { server: Some(server.clone()), uuid: 77 });
    assert_eq!(append_entry(&mut slot, draft(event, Some(t1))), Ok(true));
    assert_eq!(append_entry(&mut slot, draft(Data::Json(json.clone()), Some(t2))), Ok(true));
    let found = search_entries(&slot, None, None, None, None).unwrap();
    assert_eq!(found.len(), 2);
    assert_eq!(found[0].data, Data::MispEvent(MispEvent { server: Some(server), uuid: 77 }));
    assert_eq!(found[1].data, Data::Json(json));
    let found = search_entries(&slot, Some(DataKind::Json), None, None, None).unwrap();
    assert_eq!(found.len(), 1);
    assert_eq!(found[0].ctime, Some(t2));
}
