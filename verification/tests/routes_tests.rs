use kvshard::routes::{ConfigError, RouteEntry, RouteTable};

fn entry(prefix: &str, target: &str) -> RouteEntry {
    RouteEntry {
        prefix: prefix.as_bytes().to_vec(),
        target: target.as_bytes().to_vec(),
    }
}

fn table(entries: Vec<RouteEntry>) -> RouteTable {
    RouteTable::build(entries).expect("table must build")
}

fn resolve(t: &RouteTable, key: &str) -> Option<(Vec<u8>, Vec<u8>)> {
    t.find_route(&key.as_bytes().to_vec())
}

#[test]
fn longest_prefix_wins() {
    let t = table(vec![entry("a", "http://x:1"), entry("a.b", "http://y:2")]);
    let (prefix, suffix) = resolve(&t, "a.b.c").expect("a.b.c must resolve");
    assert_eq!(prefix, b"a.b".to_vec());
    assert_eq!(suffix, b".c".to_vec());
}

#[test]
fn shorter_prefix_matches_other_children() {
    let t = table(vec![entry("a", "http://x:1"), entry("a.b", "http://y:2")]);
    let (prefix, suffix) = resolve(&t, "a.z").expect("a.z must resolve");
    assert_eq!(prefix, b"a".to_vec());
    assert_eq!(suffix, b".z".to_vec());
}

#[test]
fn exact_prefix_match_gets_single_dot_suffix() {
    let t = table(vec![entry("a", "http://x:1"), entry("a.b", "http://y:2")]);
    let (prefix, suffix) = resolve(&t, "a.b").expect("a.b must resolve");
    assert_eq!(prefix, b"a.b".to_vec());
    assert_eq!(suffix, b".".to_vec());
}

#[test]
fn unmatched_key_has_no_route() {
    let t = table(vec![entry("a", "http://x:1"), entry("a.b", "http://y:2")]);
    assert!(resolve(&t, "z").is_none());
    assert!(resolve(&t, "ab").is_none());
}

#[test]
fn prefix_must_cut_at_a_dot() {
    let t = table(vec![entry("users", "http://x:1")]);
    assert!(resolve(&t, "users.42").is_some());
    assert!(resolve(&t, "username").is_none());
}

#[test]
fn duplicate_prefix_rejected() {
    let r = RouteTable::build(vec![entry("a", "http://x:1"), entry("a", "http://y:2")]);
    assert_eq!(r.expect_err("duplicate must be rejected"), ConfigError::DuplicatePrefix);
}

#[test]
fn empty_prefix_rejected() {
    let r = RouteTable::build(vec![entry("", "http://x:1")]);
    assert_eq!(r.expect_err("empty must be rejected"), ConfigError::EmptyPrefix);
}

#[test]
fn target_of_returns_the_configured_backend() {
    let t = table(vec![entry("a", "http://x:1"), entry("a.b", "http://y:2")]);
    assert_eq!(
        t.target_of(&b"a.b".to_vec()).expect("a.b is registered"),
        &b"http://y:2".to_vec()
    );
    assert!(t.target_of(&b"a.b.c".to_vec()).is_none());
}

#[test]
fn trailing_dot_key_resolves_with_single_dot_suffix() {
    let t = table(vec![entry("a", "http://x:1")]);
    let (prefix, suffix) = resolve(&t, "a.").expect("a. must resolve");
    assert_eq!(prefix, b"a".to_vec());
    assert_eq!(suffix, b".".to_vec());
}

#[test]
fn empty_key_has_no_route() {
    let t = table(vec![entry("a", "http://x:1")]);
    assert!(resolve(&t, "").is_none());
}

#[test]
fn consecutive_dots_stay_in_the_suffix() {
    let t = table(vec![entry("a", "http://x:1")]);
    let (prefix, suffix) = resolve(&t, "a..b").expect("a..b must resolve");
    assert_eq!(prefix, b"a".to_vec());
    assert_eq!(suffix, b"..b".to_vec());
}
