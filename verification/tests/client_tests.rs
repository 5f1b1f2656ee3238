use kvshard::client_core::{
    lookup_outcome, parse_command, set_outcome, update_outcome, CliOutcome, ReplCommand,
};
use kvshard::encode::make_url;
use kvshard::value::{object_get, Value};

fn words(ws: &[&str]) -> Vec<Vec<u8>> {
    ws.iter().map(|w| w.as_bytes().to_vec()).collect()
}

#[test]
fn request_url_trims_trailing_slashes() {
    let url = make_url(&b"http://localhost:3000///".to_vec(), &b"k".to_vec());
    assert_eq!(url, b"http://localhost:3000/keys/k".to_vec());
}

#[test]
fn request_url_percent_encodes_the_key() {
    let url = make_url(&b"http://h:1".to_vec(), &b"a b".to_vec());
    assert_eq!(url, b"http://h:1/keys/a%20b".to_vec());
}

#[test]
fn set_command_joins_json_words_with_spaces() {
    let cmd = parse_command(words(&["set", "k", "{\"a\":", "1,", "\"b\":2}"]));
    match cmd {
        ReplCommand::SetKey { key, json } => {
            assert_eq!(key, b"k".to_vec());
            assert_eq!(json, b"{\"a\": 1, \"b\":2}".to_vec());
        }
        other => panic!("expected a set command, got {:?}", other),
    }
}

#[test]
fn update_command_parses_like_set() {
    let cmd = parse_command(words(&["update", "k", "true"]));
    assert_eq!(
        cmd,
        ReplCommand::UpdateKey { key: b"k".to_vec(), json: b"true".to_vec() }
    );
}

#[test]
fn get_and_delete_take_exactly_one_key() {
    assert_eq!(
        parse_command(words(&["get", "k"])),
        ReplCommand::GetKey { key: b"k".to_vec() }
    );
    assert_eq!(
        parse_command(words(&["delete", "k"])),
        ReplCommand::DeleteKey { key: b"k".to_vec() }
    );
    assert_eq!(parse_command(words(&["get"])), ReplCommand::Unknown);
    assert_eq!(parse_command(words(&["get", "k", "extra"])), ReplCommand::Unknown);
}

#[test]
fn empty_exit_and_unknown_lines() {
    assert_eq!(parse_command(words(&[])), ReplCommand::Empty);
    assert_eq!(parse_command(words(&["exit"])), ReplCommand::Exit);
    assert_eq!(parse_command(words(&["quit", "now"])), ReplCommand::Exit);
    assert_eq!(parse_command(words(&["set", "k"])), ReplCommand::Unknown);
    assert_eq!(parse_command(words(&["frobnicate", "k"])), ReplCommand::Unknown);
}

#[test]
fn set_outcome_reads_created_and_conflict() {
    assert_eq!(set_outcome(201), CliOutcome::Success);
    assert_eq!(set_outcome(409), CliOutcome::Conflict);
    assert_eq!(set_outcome(502), CliOutcome::Other);
}

#[test]
fn update_outcome_reads_ok_and_missing() {
    assert_eq!(update_outcome(200), CliOutcome::Success);
    assert_eq!(update_outcome(404), CliOutcome::Missing);
    assert_eq!(update_outcome(201), CliOutcome::Other);
}

#[test]
fn lookup_outcome_only_distinguishes_missing() {
    assert_eq!(lookup_outcome(404), CliOutcome::Missing);
    assert_eq!(lookup_outcome(200), CliOutcome::Success);
    assert_eq!(lookup_outcome(502), CliOutcome::Success);
}

#[test]
fn object_get_finds_the_first_field_only_on_objects() {
    let body = Value::Object(vec![
        (b"uri".to_vec(), Value::Text(b"/keys/a".to_vec())),
        (b"n".to_vec(), Value::Null),
    ]);
    assert_eq!(
        object_get(&body, &b"uri".to_vec()),
        Some(&Value::Text(b"/keys/a".to_vec()))
    );
    assert_eq!(object_get(&body, &b"missing".to_vec()), None);
    assert_eq!(object_get(&Value::Null, &b"uri".to_vec()), None);
}
