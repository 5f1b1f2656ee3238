use kvshard::api::{delete_key, get_key, post_key, put_key};
use kvshard::store::{KeyStore, StoreError};
use kvshard::value::{object_get, Value};

fn num(s: &str) -> Value {
    Value::Number(s.as_bytes().to_vec())
}

fn text(s: &str) -> Value {
    Value::Text(s.as_bytes().to_vec())
}

fn key(s: &str) -> Vec<u8> {
    s.as_bytes().to_vec()
}

#[test]
fn create_then_read_returns_value() {
    let mut store = KeyStore::new();
    let loc = store.create(key("users.42"), num("7")).expect("fresh key must create");
    assert_eq!(loc.uri, b"/keys/users.42".to_vec());
    let got = store.read(&key("users.42")).expect("created key must read");
    assert_eq!(*got, num("7"));
}

#[test]
fn create_twice_conflicts_and_keeps_first() {
    let mut store = KeyStore::new();
    store.create(key("k"), text("first")).expect("fresh key must create");
    match store.create(key("k"), text("second")) {
        Err(StoreError::Conflict(loc)) => assert_eq!(loc.uri, b"/keys/k".to_vec()),
        other => panic!("second create must conflict, got {:?}", other),
    }
    assert_eq!(*store.read(&key("k")).unwrap(), text("first"));
}

#[test]
fn update_absent_fails_and_does_not_create() {
    let mut store = KeyStore::new();
    match store.update(&key("ghost"), num("1")) {
        Err(StoreError::NotFound(loc)) => assert_eq!(loc.uri, b"/keys/ghost".to_vec()),
        other => panic!("update of an absent key must fail, got {:?}", other),
    }
    assert!(store.read(&key("ghost")).is_none());
    assert!(!store.contains(&key("ghost")));
}

#[test]
fn update_present_replaces_value() {
    let mut store = KeyStore::new();
    store.create(key("k"), num("1")).unwrap();
    store.update(&key("k"), num("2")).expect("present key must update");
    assert_eq!(*store.read(&key("k")).unwrap(), num("2"));
}

#[test]
fn delete_present_succeeds_once_then_not_found() {
    let mut store = KeyStore::new();
    store.create(key("k"), Value::Null).unwrap();
    let loc = store.delete(&key("k")).expect("present key must delete");
    assert_eq!(loc.uri, b"/keys/k".to_vec());
    assert!(matches!(store.delete(&key("k")), Err(StoreError::NotFound(_))));
    assert!(store.read(&key("k")).is_none());
}

#[test]
fn location_percent_encodes_the_key() {
    let mut store = KeyStore::new();
    let loc = store.create(key("a b/c"), Value::Null).unwrap();
    assert_eq!(loc.uri, b"/keys/a%20b%2Fc".to_vec());
}

#[test]
fn post_key_gives_created_then_conflict() {
    let mut store = KeyStore::new();
    let created = post_key(&mut store, key("a"), num("1"));
    assert_eq!(created.status, 201);
    let uri = object_get(&created.body, &key("uri")).expect("body must carry uri");
    assert_eq!(*uri, text("/keys/a"));
    let conflict = post_key(&mut store, key("a"), num("2"));
    assert_eq!(conflict.status, 409);
    assert_eq!(conflict.body, created.body);
    assert_eq!(*store.read(&key("a")).unwrap(), num("1"));
}

#[test]
fn get_key_answers_value_or_not_found() {
    let mut store = KeyStore::new();
    store.create(key("a"), num("5")).unwrap();
    let (status, found) = get_key(&store, &key("a"));
    assert_eq!(status, 200);
    assert_eq!(*found.unwrap(), num("5"));
    let (status, missing) = get_key(&store, &key("b"));
    assert_eq!(status, 404);
    let body = missing.expect_err("absent key must answer a diagnostic");
    let reason = object_get(&body, &key("error")).unwrap();
    assert_eq!(*reason, text("Key not found"));
}

#[test]
fn put_key_and_delete_key_statuses() {
    let mut store = KeyStore::new();
    assert_eq!(put_key(&mut store, &key("a"), num("1")).status, 404);
    store.create(key("a"), num("1")).unwrap();
    let updated = put_key(&mut store, &key("a"), num("2"));
    assert_eq!(updated.status, 200);
    assert_eq!(
        *object_get(&updated.body, &key("uri")).unwrap(),
        text("/keys/a")
    );
    assert_eq!(delete_key(&mut store, &key("a")).status, 200);
    assert_eq!(delete_key(&mut store, &key("a")).status, 404);
}

#[test]
fn distinct_creates_are_isolated() {
    let mut store = KeyStore::new();
    let keys = ["a", "b", "c", "d"];
    for (i, k) in keys.iter().enumerate() {
        store
            .create(key(k), num(&i.to_string()))
            .expect("distinct keys must all create");
    }
    for (i, k) in keys.iter().enumerate() {
        assert_eq!(*store.read(&key(k)).unwrap(), num(&i.to_string()));
    }
}

#[test]
fn same_key_creates_succeed_exactly_once() {
    let mut store = KeyStore::new();
    let mut successes = 0;
    let mut conflicts = 0;
    for i in 0..5 {
        match store.create(key("contended"), num(&i.to_string())) {
            Ok(_) => successes += 1,
            Err(StoreError::Conflict(_)) => conflicts += 1,
            Err(e) => panic!("unexpected error {:?}", e),
        }
    }
    assert_eq!(successes, 1);
    assert_eq!(conflicts, 4);
    assert_eq!(*store.read(&key("contended")).unwrap(), num("0"));
}
