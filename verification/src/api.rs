//! The store node's request handling: what each HTTP operation answers.
//!
//! These functions are the computational half of the four `/keys/{key}`
//! handlers: given the decoded key (and parsed body), they run the store
//! operation and build the exact status code and response body the wire
//! carries. Reading the request and writing the response stay outside the
//! library.

use vstd::prelude::*;

use crate::messages::{
    is_error_body, is_uri_body, key_not_found_text, msg_key_not_found, uri_body_from,
};
use crate::store::{KeyStore, StoreError};
use crate::value::Value;

verus! {

/// A ready-to-send response: a status code and a structured body.
#[derive(Debug, PartialEq, Eq)]
pub struct HttpReply {
    pub status: u16,
    pub body: Value,
}

/// Create: `201 Created` with the key's location when the key was absent;
/// `409 Conflict` with the same location body, and no mutation, when it
/// already exists.
pub fn post_key(store: &mut KeyStore, key: Vec<u8>, value: Value) -> (r: HttpReply)
    requires
        old(store).wf(),
    ensures
        final(store).wf(),
        is_uri_body(r.body, key@),
        old(store)@.contains_key(key@) ==> r.status == 409 && final(store)@ == old(store)@,
        !old(store)@.contains_key(key@) ==> r.status == 201 && final(store)@ == old(store)@.insert(
            key@,
            value,
        ),
{
    let ghost k = key@;
    match store.create(key, value) {
        Ok(loc) => HttpReply { status: 201, body: uri_body_from(loc.uri, Ghost(k)) },
        Err(StoreError::Conflict(loc)) => HttpReply {
            status: 409,
            body: uri_body_from(loc.uri, Ghost(k)),
        },
        Err(StoreError::NotFound(loc)) => {
            proof {
                assert(false);
            }
            HttpReply { status: 404, body: uri_body_from(loc.uri, Ghost(k)) }
        },
    }
}

/// Read: the stored value itself (to be sent with `200 OK`) when the key is
/// present; otherwise `404` with the `Key not found` diagnostic.
pub fn get_key<'a>(store: &'a KeyStore, key: &Vec<u8>) -> (r: (u16, Result<&'a Value, Value>))
    requires
        store.wf(),
    ensures
        match r.1 {
            Ok(v) => r.0 == 200 && store@.contains_key(key@) && *v == store@[key@],
            Err(b) => r.0 == 404 && !store@.contains_key(key@) && is_error_body(
                b,
                msg_key_not_found(),
            ),
        },
{
    match store.read(key) {
        Some(v) => (200, Ok(v)),
        None => (404, Err(crate::messages::error_body(key_not_found_text()))),
    }
}

/// Update: `200 OK` with the key's location when the key was present, its
/// value replaced; `404` with the same location body, and no mutation, when
/// it is absent.
pub fn put_key(store: &mut KeyStore, key: &Vec<u8>, value: Value) -> (r: HttpReply)
    requires
        old(store).wf(),
    ensures
        final(store).wf(),
        is_uri_body(r.body, key@),
        old(store)@.contains_key(key@) ==> r.status == 200 && final(store)@ == old(store)@.insert(
            key@,
            value,
        ),
        !old(store)@.contains_key(key@) ==> r.status == 404 && final(store)@ == old(store)@,
{
    match store.update(key, value) {
        Ok(loc) => HttpReply { status: 200, body: uri_body_from(loc.uri, Ghost(key@)) },
        Err(StoreError::NotFound(loc)) => HttpReply {
            status: 404,
            body: uri_body_from(loc.uri, Ghost(key@)),
        },
        Err(StoreError::Conflict(loc)) => {
            proof {
                assert(false);
            }
            HttpReply { status: 409, body: uri_body_from(loc.uri, Ghost(key@)) }
        },
    }
}

/// Delete: `200 OK` with the key's location when the key was present, now
/// removed for good; `404` with the same location body, and no mutation,
/// when it is absent.
pub fn delete_key(store: &mut KeyStore, key: &Vec<u8>) -> (r: HttpReply)
    requires
        old(store).wf(),
    ensures
        final(store).wf(),
        is_uri_body(r.body, key@),
        old(store)@.contains_key(key@) ==> r.status == 200 && final(store)@ == old(store)@.remove(
            key@,
        ),
        !old(store)@.contains_key(key@) ==> r.status == 404 && final(store)@ == old(store)@,
{
    match store.delete(key) {
        Ok(loc) => HttpReply { status: 200, body: uri_body_from(loc.uri, Ghost(key@)) },
        Err(StoreError::NotFound(loc)) => HttpReply {
            status: 404,
            body: uri_body_from(loc.uri, Ghost(key@)),
        },
        Err(StoreError::Conflict(loc)) => {
            proof {
                assert(false);
            }
            HttpReply { status: 409, body: uri_body_from(loc.uri, Ghost(key@)) }
        },
    }
}

} // verus!
