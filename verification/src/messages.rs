//! The short machine-checkable texts of the wire protocol, byte for byte:
//! field names and diagnostic reason strings, and the two body shapes every
//! failure and location response uses.

use vstd::prelude::*;

use crate::encode::uri_of;
use crate::value::Value;

verus! {

/// The `uri` field name of a location-bearing body.
/// `"uri"` as bytes.
pub open spec fn field_uri() -> Seq<u8> {
    seq![117u8, 114, 105]
}

/// Builds `"uri"` as an owned byte string.
pub fn uri_name() -> (r: Vec<u8>)
    ensures
        r@ == field_uri(),
{
    let mut r: Vec<u8> = Vec::new();
    r.push(117);
    r.push(114);
    r.push(105);
    proof {
        assert(r@ =~= field_uri());
    }
    r
}

/// The `error` field name of a diagnostic body.
/// `"error"` as bytes.
pub open spec fn field_error() -> Seq<u8> {
    seq![101u8, 114, 114, 111, 114]
}

/// Builds `"error"` as an owned byte string.
pub fn error_name() -> (r: Vec<u8>)
    ensures
        r@ == field_error(),
{
    let mut r: Vec<u8> = Vec::new();
    r.push(101);
    r.push(114);
    r.push(114);
    r.push(111);
    r.push(114);
    proof {
        assert(r@ =~= field_error());
    }
    r
}

/// Diagnostic for a read of an absent key.
/// `"Key not found"` as bytes.
pub open spec fn msg_key_not_found() -> Seq<u8> {
    seq![75u8, 101, 121, 32, 110, 111, 116, 32, 102, 111, 117, 110, 100]
}

/// Builds `"Key not found"` as an owned byte string.
pub fn key_not_found_text() -> (r: Vec<u8>)
    ensures
        r@ == msg_key_not_found(),
{
    let mut r: Vec<u8> = Vec::new();
    r.push(75);
    r.push(101);
    r.push(121);
    r.push(32);
    r.push(110);
    r.push(111);
    r.push(116);
    r.push(32);
    r.push(102);
    r.push(111);
    r.push(117);
    r.push(110);
    r.push(100);
    proof {
        assert(r@ =~= msg_key_not_found());
    }
    r
}

/// Diagnostic for a key no route prefix matches.
/// `"No route found for key"` as bytes.
pub open spec fn msg_no_route() -> Seq<u8> {
    seq![78u8, 111, 32, 114, 111, 117, 116, 101, 32, 102, 111, 117, 110, 100, 32, 102, 111, 114, 32, 107, 101, 121]
}

/// Builds `"No route found for key"` as an owned byte string.
pub fn no_route_text() -> (r: Vec<u8>)
    ensures
        r@ == msg_no_route(),
{
    let mut r: Vec<u8> = Vec::new();
    r.push(78);
    r.push(111);
    r.push(32);
    r.push(114);
    r.push(111);
    r.push(117);
    r.push(116);
    r.push(101);
    r.push(32);
    r.push(102);
    r.push(111);
    r.push(117);
    r.push(110);
    r.push(100);
    r.push(32);
    r.push(102);
    r.push(111);
    r.push(114);
    r.push(32);
    r.push(107);
    r.push(101);
    r.push(121);
    proof {
        assert(r@ =~= msg_no_route());
    }
    r
}

/// Diagnostic for a backend that cannot be reached.
/// `"Upstream key-server unavailable"` as bytes.
pub open spec fn msg_unavailable() -> Seq<u8> {
    seq![85u8, 112, 115, 116, 114, 101, 97, 109, 32, 107, 101, 121, 45, 115, 101, 114, 118, 101, 114, 32, 117, 110, 97, 118, 97, 105, 108, 97, 98, 108, 101]
}

/// Builds `"Upstream key-server unavailable"` as an owned byte string.
pub fn unavailable_text() -> (r: Vec<u8>)
    ensures
        r@ == msg_unavailable(),
{
    let mut r: Vec<u8> = Vec::new();
    r.push(85);
    r.push(112);
    r.push(115);
    r.push(116);
    r.push(114);
    r.push(101);
    r.push(97);
    r.push(109);
    r.push(32);
    r.push(107);
    r.push(101);
    r.push(121);
    r.push(45);
    r.push(115);
    r.push(101);
    r.push(114);
    r.push(118);
    r.push(101);
    r.push(114);
    r.push(32);
    r.push(117);
    r.push(110);
    r.push(97);
    r.push(118);
    r.push(97);
    r.push(105);
    r.push(108);
    r.push(97);
    r.push(98);
    r.push(108);
    r.push(101);
    proof {
        assert(r@ =~= msg_unavailable());
    }
    r
}

/// Diagnostic for a backend reply that is not a structured value.
/// `"Upstream returned invalid JSON"` as bytes.
pub open spec fn msg_invalid_upstream() -> Seq<u8> {
    seq![85u8, 112, 115, 116, 114, 101, 97, 109, 32, 114, 101, 116, 117, 114, 110, 101, 100, 32, 105, 110, 118, 97, 108, 105, 100, 32, 74, 83, 79, 78]
}

/// Builds `"Upstream returned invalid JSON"` as an owned byte string.
pub fn invalid_upstream_text() -> (r: Vec<u8>)
    ensures
        r@ == msg_invalid_upstream(),
{
    let mut r: Vec<u8> = Vec::new();
    r.push(85);
    r.push(112);
    r.push(115);
    r.push(116);
    r.push(114);
    r.push(101);
    r.push(97);
    r.push(109);
    r.push(32);
    r.push(114);
    r.push(101);
    r.push(116);
    r.push(117);
    r.push(114);
    r.push(110);
    r.push(101);
    r.push(100);
    r.push(32);
    r.push(105);
    r.push(110);
    r.push(118);
    r.push(97);
    r.push(108);
    r.push(105);
    r.push(100);
    r.push(32);
    r.push(74);
    r.push(83);
    r.push(79);
    r.push(78);
    proof {
        assert(r@ =~= msg_invalid_upstream());
    }
    r
}

/// `v` is the one-field object `{"uri": "<location of k>"}`.
pub open spec fn is_uri_body(v: Value, k: Seq<u8>) -> bool {
    match v {
        Value::Object(fs) => fs@.len() == 1 && fs@[0].0@ == field_uri() && (match fs@[0].1 {
            Value::Text(t) => t@ == uri_of(k),
            _ => false,
        }),
        _ => false,
    }
}

/// `v` is the one-field object `{"error": "<m>"}`.
pub open spec fn is_error_body(v: Value, m: Seq<u8>) -> bool {
    match v {
        Value::Object(fs) => fs@.len() == 1 && fs@[0].0@ == field_error() && (match fs@[0].1 {
            Value::Text(t) => t@ == m,
            _ => false,
        }),
        _ => false,
    }
}

/// Builds the body `{"uri": "<location>"}` from an already-built location.
pub(crate) fn uri_body_from(uri: Vec<u8>, Ghost(k): Ghost<Seq<u8>>) -> (r: Value)
    requires
        uri@ == uri_of(k),
    ensures
        is_uri_body(r, k),
{
    let mut fs: Vec<(Vec<u8>, Value)> = Vec::new();
    fs.push((uri_name(), Value::Text(uri)));
    Value::Object(fs)
}

/// Builds the body `{"error": "<m>"}` from a diagnostic text.
pub fn error_body(m: Vec<u8>) -> (r: Value)
    ensures
        is_error_body(r, m@),
{
    let mut fs: Vec<(Vec<u8>, Value)> = Vec::new();
    fs.push((error_name(), Value::Text(m)));
    Value::Object(fs)
}

} // verus!
