//! The structured values the store holds.
//!
//! A value is an arbitrary JSON-like tree. The store never interprets one:
//! it is stored and returned unchanged. The only place the library looks
//! inside a value is the router's response translation, which inspects the
//! top-level fields of an object for a `uri` member.
//!
//! Strings, field names and numeric literals are kept as their bytes, so a
//! value round-trips byte for byte through the store.

use vstd::prelude::*;

verus! {

/// A JSON-like structured value over byte strings. A number is kept as its
/// literal text, so the store never reinterprets (or rounds) it.
#[derive(Debug, PartialEq, Eq)]
pub enum Value {
    Null,
    Bool(bool),
    Number(Vec<u8>),
    Text(Vec<u8>),
    Array(Vec<Value>),
    Object(Vec<(Vec<u8>, Value)>),
}

/// The first field of `fs` named `n`, if any.
pub open spec fn obj_lookup(fs: Seq<(Vec<u8>, Value)>, n: Seq<u8>) -> Option<Value>
    decreases fs.len(),
{
    if fs.len() == 0 {
        None
    } else if fs[0].0@ == n {
        Some(fs[0].1)
    } else {
        obj_lookup(fs.skip(1), n)
    }
}

/// The field named `n` of `v`, when `v` is an object that has one.
pub open spec fn value_field(v: Value, n: Seq<u8>) -> Option<Value> {
    match v {
        Value::Object(fs) => obj_lookup(fs@, n),
        _ => None,
    }
}

/// Looks up the first field named `name` of an object; `None` on any other
/// value, or when no field carries that name.
pub fn object_get<'a>(v: &'a Value, name: &Vec<u8>) -> (r: Option<&'a Value>)
    ensures
        match r {
            Some(x) => value_field(*v, name@) == Some(*x),
            None => value_field(*v, name@) is None,
        },
{
    match v {
        Value::Object(fs) => {
            let n = fs.len();
            let mut i: usize = 0;
            proof {
                assert(fs@.skip(0) =~= fs@);
            }
            while i < n
                invariant
                    i <= n,
                    n == fs@.len(),
                    *v is Object && v->Object_0 == *fs,
                    obj_lookup(fs@, name@) == obj_lookup(fs@.skip(i as int), name@),
                decreases n - i,
            {
                if crate::assoc::bytes_eq(&fs[i].0, name) {
                    proof {
                        assert(fs@.skip(i as int)[0] == fs@[i as int]);
                    }
                    return Some(&fs[i].1);
                }
                proof {
                    assert(fs@.skip(i as int)[0] == fs@[i as int]);
                    assert(fs@.skip(i as int).skip(1) =~= fs@.skip(i + 1));
                }
                i += 1;
            }
            None
        },
        _ => None,
    }
}

} // verus!
