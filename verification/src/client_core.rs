//! The command-line client's decisions.
//!
//! The client speaks the same HTTP surface as the server. What it decides —
//! which URL an operation targets, what an interactive line means, and what
//! each response status means for the command that was sent — is here; the
//! network call, the terminal and the JSON text are outside the library.
//!
//! An interactive line is handed over already cut into its
//! whitespace-separated words; everything after the command word and the
//! key is rejoined with single spaces into the JSON text, as typed commands
//! carry their value that way.

use vstd::prelude::*;

use crate::assoc::bytes_eq;

verus! {

/// The command word `set`, as bytes.
pub open spec fn kw_set() -> Seq<u8> {
    seq![115u8, 101, 116]
}

/// Builds the command word `set`.
fn set_kw() -> (r: Vec<u8>)
    ensures
        r@ == kw_set(),
{
    let mut r: Vec<u8> = Vec::new();
    r.push(115);
    r.push(101);
    r.push(116);
    proof {
        assert(r@ =~= kw_set());
    }
    r
}

/// The command word `update`, as bytes.
pub open spec fn kw_update() -> Seq<u8> {
    seq![117u8, 112, 100, 97, 116, 101]
}

/// Builds the command word `update`.
fn update_kw() -> (r: Vec<u8>)
    ensures
        r@ == kw_update(),
{
    let mut r: Vec<u8> = Vec::new();
    r.push(117);
    r.push(112);
    r.push(100);
    r.push(97);
    r.push(116);
    r.push(101);
    proof {
        assert(r@ =~= kw_update());
    }
    r
}

/// The command word `get`, as bytes.
pub open spec fn kw_get() -> Seq<u8> {
    seq![103u8, 101, 116]
}

/// Builds the command word `get`.
fn get_kw() -> (r: Vec<u8>)
    ensures
        r@ == kw_get(),
{
    let mut r: Vec<u8> = Vec::new();
    r.push(103);
    r.push(101);
    r.push(116);
    proof {
        assert(r@ =~= kw_get());
    }
    r
}

/// The command word `delete`, as bytes.
pub open spec fn kw_delete() -> Seq<u8> {
    seq![100u8, 101, 108, 101, 116, 101]
}

/// Builds the command word `delete`.
fn delete_kw() -> (r: Vec<u8>)
    ensures
        r@ == kw_delete(),
{
    let mut r: Vec<u8> = Vec::new();
    r.push(100);
    r.push(101);
    r.push(108);
    r.push(101);
    r.push(116);
    r.push(101);
    proof {
        assert(r@ =~= kw_delete());
    }
    r
}

/// The command word `exit`, as bytes.
pub open spec fn kw_exit() -> Seq<u8> {
    seq![101u8, 120, 105, 116]
}

/// Builds the command word `exit`.
fn exit_kw() -> (r: Vec<u8>)
    ensures
        r@ == kw_exit(),
{
    let mut r: Vec<u8> = Vec::new();
    r.push(101);
    r.push(120);
    r.push(105);
    r.push(116);
    proof {
        assert(r@ =~= kw_exit());
    }
    r
}

/// The command word `quit`, as bytes.
pub open spec fn kw_quit() -> Seq<u8> {
    seq![113u8, 117, 105, 116]
}

/// Builds the command word `quit`.
fn quit_kw() -> (r: Vec<u8>)
    ensures
        r@ == kw_quit(),
{
    let mut r: Vec<u8> = Vec::new();
    r.push(113);
    r.push(117);
    r.push(105);
    r.push(116);
    proof {
        assert(r@ =~= kw_quit());
    }
    r
}
/// The views of a list of byte strings.
pub open spec fn views(ts: Seq<Vec<u8>>) -> Seq<Seq<u8>> {
    ts.map_values(|t: Vec<u8>| t@)
}

/// Words rejoined with single spaces between them.
pub open spec fn joined(ts: Seq<Seq<u8>>) -> Seq<u8>
    decreases ts.len(),
{
    if ts.len() == 0 {
        Seq::empty()
    } else if ts.len() == 1 {
        ts[0]
    } else {
        joined(ts.drop_last()) + seq![32u8] + ts.last()
    }
}

/// What one interactive line asks for. `Unknown` is any non-empty line that
/// fits none of the commands: a strange word, or the wrong number of words.
#[derive(Debug, PartialEq, Eq)]
pub enum ReplCommand {
    Empty,
    Exit,
    SetKey { key: Vec<u8>, json: Vec<u8> },
    UpdateKey { key: Vec<u8>, json: Vec<u8> },
    GetKey { key: Vec<u8> },
    DeleteKey { key: Vec<u8> },
    Unknown,
}

/// The line's words fit some command.
pub open spec fn fits_some_command(ts: Seq<Seq<u8>>) -> bool {
    &&& ts.len() > 0
    &&& {
        ||| ts[0] == kw_exit()
        ||| ts[0] == kw_quit()
        ||| (ts[0] == kw_set() && ts.len() >= 3)
        ||| (ts[0] == kw_update() && ts.len() >= 3)
        ||| (ts[0] == kw_get() && ts.len() == 2)
        ||| (ts[0] == kw_delete() && ts.len() == 2)
    }
}

/// Reads one interactive line, already cut into whitespace-separated words.
/// `set` and `update` take a key and at least one more word, rejoined with
/// single spaces into the JSON text; `get` and `delete` take exactly a key;
/// `exit` and `quit` end the session; anything else is unknown.
pub fn parse_command(tokens: Vec<Vec<u8>>) -> (r: ReplCommand)
    ensures
        match r {
            ReplCommand::Empty => tokens@.len() == 0,
            ReplCommand::Exit => tokens@.len() > 0 && (tokens@[0]@ == kw_exit() || tokens@[0]@
                == kw_quit()),
            ReplCommand::SetKey { key, json } => tokens@.len() >= 3 && tokens@[0]@ == kw_set()
                && key@ == tokens@[1]@ && json@ == joined(views(tokens@).skip(2)),
            ReplCommand::UpdateKey { key, json } => tokens@.len() >= 3 && tokens@[0]@ == kw_update()
                && key@ == tokens@[1]@ && json@ == joined(views(tokens@).skip(2)),
            ReplCommand::GetKey { key } => tokens@.len() == 2 && tokens@[0]@ == kw_get() && key@
                == tokens@[1]@,
            ReplCommand::DeleteKey { key } => tokens@.len() == 2 && tokens@[0]@ == kw_delete()
                && key@ == tokens@[1]@,
            ReplCommand::Unknown => tokens@.len() > 0 && !fits_some_command(views(tokens@)),
        },
{
    let n = tokens.len();
    if n == 0 {
        return ReplCommand::Empty;
    }
    if bytes_eq(&tokens[0], &exit_kw()) || bytes_eq(&tokens[0], &quit_kw()) {
        return ReplCommand::Exit;
    }
    let is_set = bytes_eq(&tokens[0], &set_kw());
    let is_update = bytes_eq(&tokens[0], &update_kw());
    if (is_set || is_update) && n >= 3 {
        let ghost toks0 = tokens@;
        let mut toks = tokens;
        let _word = toks.remove(0);
        let key = toks.remove(0);
        proof {
            assert(key == toks0[1]);
            assert(views(toks@) =~= views(toks0).skip(2));
        }
        let ghost parts = views(toks0).skip(2);
        let mut json: Vec<u8> = Vec::new();
        let mut i: usize = 0;
        let m = toks.len();
        while i < m
            invariant
                i <= m,
                m == toks@.len(),
                m >= 1,
                views(toks@) =~= parts,
                parts.len() == m,
                i > 0 ==> json@ == joined(parts.take(i as int)),
                i == 0 ==> json@ =~= Seq::<u8>::empty(),
            decreases m - i,
        {
            if i > 0 {
                json.push(32);
            }
            let mut part = slice_to_vec_bytes(&toks[i]);
            proof {
                assert(part@ == parts[i as int]);
            }
            json.append(&mut part);
            proof {
                assert(parts.take(i + 1).drop_last() =~= parts.take(i as int));
                assert(parts.take(i + 1).last() == parts[i as int]);
                if i == 0 {
                    assert(json@ =~= parts[0]);
                    assert(json@ == joined(parts.take(1)));
                } else {
                    assert(json@ =~= joined(parts.take(i as int)) + seq![32u8] + parts[i as int]);
                }
            }
            i += 1;
        }
        proof {
            assert(parts.take(m as int) =~= parts);
        }
        if is_set {
            return ReplCommand::SetKey { key, json };
        } else {
            return ReplCommand::UpdateKey { key, json };
        }
    }
    let is_get = bytes_eq(&tokens[0], &get_kw());
    let is_delete = bytes_eq(&tokens[0], &delete_kw());
    if (is_get || is_delete) && n == 2 {
        let mut toks = tokens;
        let _word = toks.remove(0);
        let key = toks.remove(0);
        if is_get {
            return ReplCommand::GetKey { key };
        } else {
            return ReplCommand::DeleteKey { key };
        }
    }
    ReplCommand::Unknown
}

/// Copies a byte string.
fn slice_to_vec_bytes(v: &Vec<u8>) -> (r: Vec<u8>)
    ensures
        r@ == v@,
{
    vstd::slice::slice_to_vec(v.as_slice())
}

/// How the client reads a response to each command it sent.
#[derive(Debug, PartialEq, Eq)]
pub enum CliOutcome {
    /// The operation did what was asked; print the reported location
    /// or value.
    Success,
    /// `set` on a key that already exists.
    Conflict,
    /// The key (or, behind a router, its route) was not found.
    Missing,
    /// Any other failure status.
    Other,
}

/// What a `set` answer means: created exactly on `201`, an existing key on
/// `409`, any other status is some other failure.
pub fn set_outcome(status: u16) -> (r: CliOutcome)
    ensures
        match r {
            CliOutcome::Success => status == 201,
            CliOutcome::Conflict => status == 409,
            CliOutcome::Missing => false,
            CliOutcome::Other => status != 201 && status != 409,
        },
{
    if status == 201 {
        CliOutcome::Success
    } else if status == 409 {
        CliOutcome::Conflict
    } else {
        CliOutcome::Other
    }
}

/// What an `update` answer means: replaced exactly on `200`, an absent key
/// on `404`, any other status is some other failure.
pub fn update_outcome(status: u16) -> (r: CliOutcome)
    ensures
        match r {
            CliOutcome::Success => status == 200,
            CliOutcome::Conflict => false,
            CliOutcome::Missing => status == 404,
            CliOutcome::Other => status != 200 && status != 404,
        },
{
    if status == 200 {
        CliOutcome::Success
    } else if status == 404 {
        CliOutcome::Missing
    } else {
        CliOutcome::Other
    }
}

/// What a `get` or `delete` answer means: an absent key on `404`, anything
/// else carries the value or location to print.
pub fn lookup_outcome(status: u16) -> (r: CliOutcome)
    ensures
        match r {
            CliOutcome::Success => status != 404,
            CliOutcome::Conflict => false,
            CliOutcome::Missing => status == 404,
            CliOutcome::Other => false,
        },
{
    if status == 404 {
        CliOutcome::Missing
    } else {
        CliOutcome::Success
    }
}

} // verus!
