use kvshard::proxy::{
    plan_forward, route_request, translate_response, BackendReply, Method, RouterStep,
};
use kvshard::routes::{RouteEntry, RouteTable};
use kvshard::value::{object_get, Value};

fn entry(prefix: &str, target: &str) -> RouteEntry {
    RouteEntry {
        prefix: prefix.as_bytes().to_vec(),
        target: target.as_bytes().to_vec(),
    }
}

fn text(s: &str) -> Value {
    Value::Text(s.as_bytes().to_vec())
}

fn obj(fields: Vec<(&str, Value)>) -> Value {
    Value::Object(
        fields
            .into_iter()
            .map(|(n, v)| (n.as_bytes().to_vec(), v))
            .collect(),
    )
}

#[test]
fn forward_targets_the_backend_with_the_suffix_key() {
    let t = RouteTable::build(vec![entry("a.b", "http://backend:9/")]).unwrap();
    let body = Some(obj(vec![("n", Value::Number(b"1".to_vec()))]));
    let plan = plan_forward(&t, Method::Create, &b"a.b.c".to_vec(), body)
        .expect("a.b.c must resolve");
    assert_eq!(plan.url, b"http://backend:9/keys/.c".to_vec());
    assert_eq!(plan.method, Method::Create);
    assert_eq!(plan.body, Some(obj(vec![("n", Value::Number(b"1".to_vec()))])));
}

#[test]
fn exact_prefix_forwards_the_single_dot_key() {
    let t = RouteTable::build(vec![entry("a.b", "http://backend:9")]).unwrap();
    let plan = plan_forward(&t, Method::Read, &b"a.b".to_vec(), None).unwrap();
    assert_eq!(plan.url, b"http://backend:9/keys/.".to_vec());
}

#[test]
fn unroutable_key_answers_not_found_without_forwarding() {
    let t = RouteTable::build(vec![entry("a.b", "http://backend:9")]).unwrap();
    match route_request(&t, Method::Read, &b"z".to_vec(), None) {
        RouterStep::Respond(resp) => {
            assert_eq!(resp.status, 404);
            assert_eq!(
                *object_get(&resp.body, &b"error".to_vec()).unwrap(),
                text("No route found for key")
            );
        }
        RouterStep::Forward(_) => panic!("an unroutable key must not be forwarded"),
    }
}

#[test]
fn backend_uri_is_rewritten_to_the_full_key() {
    let reply = BackendReply::Body(201, obj(vec![("uri", text("/keys/%2Ec"))]));
    let resp = translate_response(&b"a.b.c".to_vec(), reply);
    assert_eq!(resp.status, 201);
    assert_eq!(
        *object_get(&resp.body, &b"uri".to_vec()).unwrap(),
        text("/keys/a.b.c")
    );
}

#[test]
fn other_fields_and_status_pass_through_unchanged() {
    let reply = BackendReply::Body(
        409,
        obj(vec![("uri", text("/keys/%2E")), ("note", text("kept"))]),
    );
    let resp = translate_response(&b"a.b".to_vec(), reply);
    assert_eq!(resp.status, 409);
    assert_eq!(
        resp.body,
        obj(vec![("uri", text("/keys/a.b")), ("note", text("kept"))])
    );
}

#[test]
fn non_object_bodies_pass_through_unchanged() {
    let reply = BackendReply::Body(200, Value::Number(b"42".to_vec()));
    let resp = translate_response(&b"a.b".to_vec(), reply);
    assert_eq!(resp.status, 200);
    assert_eq!(resp.body, Value::Number(b"42".to_vec()));
}

#[test]
fn uriless_object_passes_through_unchanged() {
    let reply = BackendReply::Body(200, obj(vec![("n", Value::Bool(true))]));
    let resp = translate_response(&b"a.b".to_vec(), reply);
    assert_eq!(resp.body, obj(vec![("n", Value::Bool(true))]));
}

#[test]
fn unreachable_backend_is_a_bad_gateway() {
    let resp = translate_response(&b"a.b".to_vec(), BackendReply::Unreachable);
    assert_eq!(resp.status, 502);
    assert_eq!(
        *object_get(&resp.body, &b"error".to_vec()).unwrap(),
        text("Upstream key-server unavailable")
    );
}

#[test]
fn invalid_backend_body_is_a_bad_gateway() {
    let resp = translate_response(&b"a.b".to_vec(), BackendReply::Invalid);
    assert_eq!(resp.status, 502);
    assert_eq!(
        *object_get(&resp.body, &b"error".to_vec()).unwrap(),
        text("Upstream returned invalid JSON")
    );
}
