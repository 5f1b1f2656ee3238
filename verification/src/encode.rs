//! Percent-encoding of keys and the canonical `/keys/<key>` location form.
//!
//! Every key echoed to a caller (in a `uri` field) or forwarded to a backend
//! is percent-encoded. The encoding itself is done by the `urlencoding`
//! crate; its exact output is pinned down byte for byte by `percent_encoded`.

use vstd::prelude::*;

verus! {

/// A byte the encoder passes through unchanged: ASCII alphanumerics
/// and `-`, `.`, `_`, `~`.
pub open spec fn is_unreserved(b: u8) -> bool {
    ||| 48 <= b <= 57  // '0'..='9'
    ||| 65 <= b <= 90  // 'A'..='Z'
    ||| 97 <= b <= 122  // 'a'..='z'
    ||| b == 45  // '-'
    ||| b == 46  // '.'
    ||| b == 95  // '_'
    ||| b == 126  // '~'
}

/// Uppercase hexadecimal digit for a value in 0..16.
pub open spec fn hex_digit(d: int) -> u8 {
    if d <= 9 {
        (48 + d) as u8  // '0' + d
    } else {
        (55 + d) as u8  // 'A' + (d - 10)
    }
}

/// How one byte is encoded: unreserved bytes stand as themselves,
/// every other byte becomes `%` followed by two uppercase hex digits.
pub open spec fn encoded_byte(b: u8) -> Seq<u8> {
    if is_unreserved(b) {
        seq![b]
    } else {
        seq![37u8, hex_digit(b as int / 16), hex_digit(b as int % 16)]
    }
}

/// The percent-encoding of a whole byte string.
pub open spec fn percent_encoded(s: Seq<u8>) -> Seq<u8>
    decreases s.len(),
{
    if s.len() == 0 {
        Seq::empty()
    } else {
        encoded_byte(s[0]) + percent_encoded(s.skip(1))
    }
}

/// Relies on urlencoding::encode_binary: percent-encodes every byte except
/// ASCII alphanumerics and `-`, `.`, `_`, `~`, writing `%` and two uppercase
/// hexadecimal digits for each encoded byte.
#[verifier::external_body]
fn percent_encode(data: &[u8]) -> (r: Vec<u8>)
    ensures
        r@ == percent_encoded(data@),
{
    urlencoding::encode_binary(data).into_owned().into_bytes()
}

/// The canonical location path for a key: `/keys/` followed by the
/// percent-encoded key.
pub open spec fn uri_of(k: Seq<u8>) -> Seq<u8> {
    seq![47u8, 107u8, 101u8, 121u8, 115u8, 47u8] + percent_encoded(k)  // "/keys/" + ...
}

/// A base address with its trailing slashes removed, so that appending
/// `/keys/...` never doubles a separator.
pub open spec fn trimmed(s: Seq<u8>) -> Seq<u8>
    decreases s.len(),
{
    if s.len() > 0 && s.last() == 47u8 {
        trimmed(s.drop_last())
    } else {
        s
    }
}

/// The request path against a server at `base` for `key`:
/// `<base, trailing slashes trimmed>/keys/<encoded key>`.
pub open spec fn url_for(base: Seq<u8>, key: Seq<u8>) -> Seq<u8> {
    trimmed(base) + uri_of(key)
}

/// Builds the full request URL `url_for(base@, key@)`.
pub fn make_url(base: &Vec<u8>, key: &Vec<u8>) -> (r: Vec<u8>)
    ensures
        r@ == url_for(base@, key@),
{
    let mut end = base.len();
    proof {
        assert(base@.take(end as int) =~= base@);
    }
    while end > 0 && base[end - 1] == 47
        invariant
            end <= base@.len(),
            trimmed(base@.take(end as int)) == trimmed(base@),
        decreases end,
    {
        proof {
            assert(base@.take(end as int).drop_last() =~= base@.take(end - 1));
        }
        end -= 1;
    }
    let mut r = vstd::slice::slice_to_vec(vstd::slice::slice_subrange(base.as_slice(), 0, end));
    proof {
        assert(base@.take(end as int) == r@);
        assert(trimmed(r@) == r@);
    }
    let mut tail = make_uri(key);
    r.append(&mut tail);
    proof {
        assert(r@ =~= url_for(base@, key@));
    }
    r
}

/// Builds the location path `/keys/<encoded key>` for a key.
pub fn make_uri(key: &Vec<u8>) -> (r: Vec<u8>)
    ensures
        r@ == uri_of(key@),
{
    let mut r: Vec<u8> = Vec::new();
    r.push(47);  // '/'
    r.push(107);  // 'k'
    r.push(101);  // 'e'
    r.push(121);  // 'y'
    r.push(115);  // 's'
    r.push(47);  // '/'
    let mut enc = percent_encode(key.as_slice());
    r.append(&mut enc);
    proof {
        assert(r@ =~= uri_of(key@));
    }
    r
}

} // verus!
