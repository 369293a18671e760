//! The storage backend (cache and database round trips) and the JSON
//! import/export round trip.

use softtoken::attribute::{from_bool, from_bytes, from_string, from_ulong};
use softtoken::interface::{
    CkAttribute, CKA_CLASS, CKA_LABEL, CKA_TOKEN, CKA_UNIQUE_ID, CKA_VALUE,
};
use softtoken::json::{json_to_objects, objects_to_json, JsonAttribute, JsonObject, JsonValue};
use softtoken::object::Object;
use softtoken::storage::sqlite::sqlite;

fn entry(id: u64, value: Vec<u8>) -> CkAttribute {
    let len = value.len() as u64;
    CkAttribute { id, value: Some(value), len }
}

fn token_object(uid: &[u8], label: &[u8]) -> Object {
    let mut o = Object::new(0);
    o.set_attr(from_ulong(CKA_CLASS, 0)).unwrap();
    o.set_attr(from_string(CKA_UNIQUE_ID, uid.to_vec())).unwrap();
    o.set_attr(from_bool(CKA_TOKEN, true)).unwrap();
    o.set_attr(from_string(CKA_LABEL, label.to_vec())).unwrap();
    o.set_attr(from_bytes(CKA_VALUE, vec![1, 2, 3, 4])).unwrap();
    o
}

#[test]
fn store_flush_reopen_fetch_round_trip() {
    // a shared in-memory database survives while one connection holds it
    let uri = String::from("file:round_trip_db?mode=memory&cache=shared");
    let mut s1 = sqlite().unwrap();
    let _ = s1.open(&uri);
    s1.reinit().unwrap();

    let uid = b"0f0e0d0c-0b0a-0908-0706-050403020100".to_vec();
    let obj = token_object(&uid, b"round trip");
    let attrs_before: Vec<(u64, Vec<u8>)> = obj
        .get_attributes()
        .iter()
        .map(|a| (a.get_type(), a.get_value().clone()))
        .collect();

    s1.store(&uid, obj).unwrap();
    s1.flush().unwrap();

    // a second store over the same connection set sees the rows
    let mut s2 = sqlite().unwrap();
    let _ = s2.open(&uri);
    let fetched = s2.fetch_by_uid(&uid).unwrap();
    let attrs_after: Vec<(u64, Vec<u8>)> = fetched
        .get_attributes()
        .iter()
        .map(|a| (a.get_type(), a.get_value().clone()))
        .collect();
    // attribute-equal: the database does not promise a row order inside
    // one object, so compare as sets
    let mut xs = attrs_before.clone();
    let mut ys = attrs_after.clone();
    xs.sort();
    ys.sort();
    assert_eq!(xs, ys);
}

#[test]
fn template_search_finds_exactly_the_match() {
    // in-memory private database
    let mut s = sqlite().unwrap();
    s.reinit().unwrap();
    let uid_a = b"aaaaaaaa-0000-0000-0000-000000000001".to_vec();
    let uid_b = b"bbbbbbbb-0000-0000-0000-000000000002".to_vec();
    s.store(&uid_a, token_object(&uid_a, b"a")).unwrap();
    s.store(&uid_b, token_object(&uid_b, b"b")).unwrap();

    let t = vec![entry(CKA_LABEL, b"a".to_vec())];
    let found = s.search(&t).unwrap();
    assert_eq!(found.len(), 1);
    assert_eq!(
        found[0].get_attr_as_string(CKA_UNIQUE_ID).unwrap(),
        uid_a
    );

    // and on a file-backed (shared in-memory) database as well
    let uri = String::from("file:search_db?mode=memory&cache=shared");
    let mut s1 = sqlite().unwrap();
    let _ = s1.open(&uri);
    s1.reinit().unwrap();
    s1.store(&uid_a, token_object(&uid_a, b"a")).unwrap();
    s1.store(&uid_b, token_object(&uid_b, b"b")).unwrap();
    s1.flush().unwrap();
    let mut s2 = sqlite().unwrap();
    let _ = s2.open(&uri);
    let found2 = s2.search(&t).unwrap();
    assert_eq!(found2.len(), 1);
    assert_eq!(
        found2[0].get_attr_as_string(CKA_UNIQUE_ID).unwrap(),
        uid_a
    );
}

#[test]
fn remove_by_uid_drops_cache_and_rows() {
    let mut s = sqlite().unwrap();
    s.reinit().unwrap();
    let uid = b"cccccccc-0000-0000-0000-000000000003".to_vec();
    s.store(&uid, token_object(&uid, b"gone")).unwrap();
    assert!(s.get_cached_by_uid(&uid).is_ok());
    s.remove_by_uid(&uid).unwrap();
    assert!(s.get_cached_by_uid(&uid).is_err());
    assert!(s.fetch_by_uid(&uid).is_err());
}

#[test]
fn store_keeps_handle_and_session_of_replaced_entry() {
    let mut s = sqlite().unwrap();
    s.reinit().unwrap();
    let uid = b"dddddddd-0000-0000-0000-000000000004".to_vec();
    let mut first = token_object(&uid, b"one");
    first.set_handle(42);
    first.set_session(7);
    s.store(&uid, first).unwrap();

    let second = token_object(&uid, b"two");
    s.store(&uid, second).unwrap();
    let cached = s.get_cached_by_uid(&uid).unwrap();
    assert_eq!(cached.get_handle(), 42);
    assert_eq!(cached.get_session(), 7);
    assert_eq!(
        cached.get_attr_as_string(CKA_LABEL).unwrap(),
        b"two".to_vec()
    );
    // the cache never holds a dirty object right after a store
    assert!(!cached.is_modified());
}

#[test]
fn mutable_cache_access_fetches_and_edits_in_place() {
    let mut s = sqlite().unwrap();
    s.reinit().unwrap();
    let uid = b"99999999-0000-0000-0000-000000000009".to_vec();
    s.store(&uid, token_object(&uid, b"before")).unwrap();
    {
        let m = s.get_cached_by_uid_mut(&uid).unwrap();
        m.set_attr(from_string(CKA_LABEL, b"after".to_vec())).unwrap();
    }
    let cached = s.get_cached_by_uid(&uid).unwrap();
    assert_eq!(cached.get_attr_as_string(CKA_LABEL).unwrap(), b"after".to_vec());
    assert!(cached.is_modified());
    // a miss loads from the database
    s.flush().unwrap();
    let mut s2 = sqlite().unwrap();
    s2.reinit().unwrap();
    assert!(s2.get_cached_by_uid_mut(&uid).is_err());
}

#[test]
fn json_round_trip_preserves_observable_attributes() {
    let objs = vec![
        token_object(b"eeeeeeee-0000-0000-0000-000000000005", b"alpha"),
        token_object(b"ffffffff-0000-0000-0000-000000000006", b"beta"),
    ];
    let exported = objects_to_json(&objs);
    assert_eq!(exported.len(), 2);
    let imported = json_to_objects(&exported);
    assert_eq!(imported.len(), 2);
    for (a, b) in objs.iter().zip(imported.iter()) {
        assert_eq!(a.get_handle(), b.get_handle());
        let xs: Vec<(u64, Vec<u8>)> = a
            .get_attributes()
            .iter()
            .map(|x| (x.get_type(), x.get_value().clone()))
            .collect();
        let ys: Vec<(u64, Vec<u8>)> = b
            .get_attributes()
            .iter()
            .map(|x| (x.get_type(), x.get_value().clone()))
            .collect();
        assert_eq!(xs, ys);
    }
}

#[test]
fn json_import_drops_unknown_names() {
    let jo = JsonObject {
        handle: 3,
        attributes: vec![
            JsonAttribute { id: CKA_LABEL, value: JsonValue::Str(b"kept".to_vec()) },
            JsonAttribute { id: 0xdead, value: JsonValue::Str(b"dropped".to_vec()) },
            JsonAttribute { id: CKA_VALUE, value: JsonValue::Str(b"wrong kind".to_vec()) },
        ],
    };
    let objs = json_to_objects(&vec![jo]);
    assert_eq!(objs.len(), 1);
    assert_eq!(objs[0].get_attributes().len(), 1);
    assert_eq!(
        objs[0].get_attr_as_string(CKA_LABEL).unwrap(),
        b"kept".to_vec()
    );
}
