//! The shard router's forwarding and response-translation rules.
//!
//! An inbound operation is resolved against the route table; on a match the
//! router forwards the same method and the same body to the backend, under
//! the backend-facing suffix key. The backend's reply passes through with
//! its status unchanged, except that any `uri` field is overwritten with the
//! location of the caller's original full key: callers never observe a
//! backend-local key form. Transport failures and unparseable backend bodies
//! each turn into a distinct bad-gateway diagnostic.

use vstd::prelude::*;

use crate::assoc::bytes_eq;
use crate::encode::{make_uri, make_url, uri_of, url_for};
use crate::messages::{
    error_body, field_uri, invalid_upstream_text, is_error_body, msg_invalid_upstream,
    msg_no_route, msg_unavailable, no_route_text, unavailable_text, uri_name,
};
use crate::routes::{no_route, resolves_at, suffix_at, RouteTable};
use crate::value::Value;

verus! {

/// The four operations a caller can ask for.
#[derive(Clone, Copy, Debug, PartialEq, Eq, Structural)]
pub enum Method {
    Create,
    Read,
    Update,
    Delete,
}

/// The backend-facing request standing in for an inbound operation: the
/// resolved backend URL, and the caller's method and body unchanged.
#[derive(Debug, PartialEq, Eq)]
pub struct ForwardPlan {
    pub url: Vec<u8>,
    pub method: Method,
    pub body: Option<Value>,
}

/// A response of the router itself: a status code and a body.
#[derive(Debug, PartialEq, Eq)]
pub struct RouterResponse {
    pub status: u16,
    pub body: Value,
}

/// What came back from the backend, as the transport saw it.
#[derive(Debug, PartialEq, Eq)]
pub enum BackendReply {
    /// The backend could not be reached, or the call did not complete.
    Unreachable,
    /// The backend answered, but its body is not a structured value.
    Invalid,
    /// The backend answered with a status code and a parsed body.
    Body(u16, Value),
}

/// What the router does with an inbound operation: forward it, or answer
/// at once because no route matches.
#[derive(Debug, PartialEq, Eq)]
pub enum RouterStep {
    Forward(ForwardPlan),
    Respond(RouterResponse),
}

/// The field name is `uri`.
pub open spec fn is_uri_name(n: Seq<u8>) -> bool {
    n == field_uri()
}

/// `v` is the text of the location of key `k`.
pub open spec fn is_text_uri(v: Value, k: Seq<u8>) -> bool {
    match v {
        Value::Text(t) => t@ == uri_of(k),
        _ => false,
    }
}

/// How a backend body is rewritten into the caller's keyspace: an object
/// keeps its fields in order, with every `uri` field overwritten by the
/// location of the caller's full key `k` and every other field untouched;
/// anything that is not an object passes through unchanged.
pub open spec fn uri_rewritten(v: Value, k: Seq<u8>, r: Value) -> bool {
    match v {
        Value::Object(fs) => match r {
            Value::Object(rs) => {
                &&& rs@.len() == fs@.len()
                &&& forall|j: int| 0 <= j < fs@.len() ==> rs@[j].0@ == fs@[j].0@
                &&& forall|j: int|
                    0 <= j < fs@.len() && !is_uri_name(fs@[j].0@) ==> rs@[j].1 == fs@[j].1
                &&& forall|j: int|
                    0 <= j < fs@.len() && is_uri_name(fs@[j].0@) ==> is_text_uri(rs@[j].1, k)
            },
            _ => false,
        },
        _ => r == v,
    }
}

/// Resolves `full_key` and builds the backend-facing request: the matched
/// prefix's target with the suffix key, the same method, the same body.
/// `None` means no candidate prefix of the key is registered, and no
/// request is to be made.
pub fn plan_forward(table: &RouteTable, method: Method, full_key: &Vec<u8>, body: Option<Value>) -> (r:
    Option<ForwardPlan>)
    requires
        table.wf(),
    ensures
        match r {
            Some(plan) => exists|p: int|
                #[trigger] resolves_at(table@, full_key@, p) && plan.url@ == url_for(
                    table@[full_key@.take(p)],
                    suffix_at(full_key@, p),
                ) && plan.method == method && plan.body == body,
            None => no_route(table@, full_key@),
        },
{
    match table.find_route(full_key) {
        None => None,
        Some((prefix, suffix)) => {
            let ghost p = choose|p: int|
                resolves_at(table@, full_key@, p) && prefix@ == full_key@.take(p) && suffix@
                    == suffix_at(full_key@, p);
            match table.target_of(&prefix) {
                Some(target) => {
                    let url = make_url(target, &suffix);
                    Some(ForwardPlan { url, method, body })
                },
                None => {
                    proof {
                        assert(false);
                    }
                    None
                },
            }
        },
    }
}

/// Rewrites a backend body into the caller's keyspace: every `uri` field of
/// a top-level object becomes the location of `full_key`; everything else
/// passes through unchanged.
pub fn rewrite_uri(body: Value, full_key: &Vec<u8>) -> (r: Value)
    ensures
        uri_rewritten(body, full_key@, r),
{
    match body {
        Value::Object(fields) => {
            let ghost fs0 = fields@;
            let mut rest = fields;
            let mut out: Vec<(Vec<u8>, Value)> = Vec::new();
            let name = uri_name();
            while rest.len() > 0
                invariant
                    rest@ =~= fs0.skip(fs0.len() - rest@.len()),
                    out@.len() == fs0.len() - rest@.len(),
                    name@ == field_uri(),
                    forall|j: int| 0 <= j < out@.len() ==> out@[j].0@ == fs0[j].0@,
                    forall|j: int|
                        0 <= j < out@.len() && !is_uri_name(fs0[j].0@) ==> out@[j].1 == fs0[j].1,
                    forall|j: int|
                        0 <= j < out@.len() && is_uri_name(fs0[j].0@) ==> is_text_uri(
                            out@[j].1,
                            full_key@,
                        ),
                decreases rest@.len(),
            {
                let ghost i = fs0.len() - rest@.len();
                let pair = rest.remove(0);
                proof {
                    assert(pair == fs0[i]);
                    assert(rest@ =~= fs0.skip(i + 1));
                }
                if bytes_eq(&pair.0, &name) {
                    let loc = make_uri(full_key);
                    out.push((pair.0, Value::Text(loc)));
                } else {
                    out.push(pair);
                }
            }
            Value::Object(out)
        },
        other => other,
    }
}

/// Translates what the transport saw into the router's own response: an
/// unreachable backend and an unparseable backend body each become a
/// distinct bad-gateway diagnostic; a parsed reply passes through with its
/// status unchanged and its body rewritten into the caller's keyspace.
pub fn translate_response(full_key: &Vec<u8>, reply: BackendReply) -> (r: RouterResponse)
    ensures
        match reply {
            BackendReply::Unreachable => r.status == 502 && is_error_body(
                r.body,
                msg_unavailable(),
            ),
            BackendReply::Invalid => r.status == 502 && is_error_body(
                r.body,
                msg_invalid_upstream(),
            ),
            BackendReply::Body(status, v) => r.status == status && uri_rewritten(
                v,
                full_key@,
                r.body,
            ),
        },
{
    match reply {
        BackendReply::Unreachable => RouterResponse {
            status: 502,
            body: error_body(unavailable_text()),
        },
        BackendReply::Invalid => RouterResponse {
            status: 502,
            body: error_body(invalid_upstream_text()),
        },
        BackendReply::Body(status, v) => RouterResponse {
            status,
            body: rewrite_uri(v, full_key),
        },
    }
}

/// The router's first move on an inbound operation: forward it along the
/// resolved route, or — when no route matches — answer not-found at once,
/// with no request made.
pub fn route_request(table: &RouteTable, method: Method, full_key: &Vec<u8>, body: Option<Value>) -> (r:
    RouterStep)
    requires
        table.wf(),
    ensures
        match r {
            RouterStep::Forward(plan) => exists|p: int|
                #[trigger] resolves_at(table@, full_key@, p) && plan.url@ == url_for(
                    table@[full_key@.take(p)],
                    suffix_at(full_key@, p),
                ) && plan.method == method && plan.body == body,
            RouterStep::Respond(resp) => no_route(table@, full_key@) && resp.status == 404
                && is_error_body(resp.body, msg_no_route()),
        },
{
    match plan_forward(table, method, full_key, body) {
        Some(plan) => RouterStep::Forward(plan),
        None => RouterStep::Respond(
            RouterResponse { status: 404, body: error_body(no_route_text()) },
        ),
    }
}

/// Law: topology hiding. Whatever location the backend put in a `uri`
/// field of its reply, the rewritten body carries the location of the
/// caller's original full key there — never the backend-local form.
pub proof fn lemma_topology_hiding(v: Value, k: Seq<u8>, r: Value, j: int)
    requires
        uri_rewritten(v, k, r),
        v is Object,
        0 <= j < v->Object_0@.len(),
        is_uri_name(v->Object_0@[j].0@),
    ensures
        r is Object,
        r->Object_0@.len() == v->Object_0@.len(),
        is_text_uri(r->Object_0@[j].1, k),
{
}

} // verus!
