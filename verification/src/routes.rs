//! The route table: longest dot-segment-prefix resolution.
//!
//! A key is a dot-segmented path. A candidate prefix of a key is the key
//! itself, or what stands before any dot: splitting on `.` and rejoining the
//! first segments always lands on such a position. `find_route` picks the
//! longest candidate registered in the table and returns it with the
//! backend-facing suffix: a single `.` when the key equals the prefix, and
//! `.` followed by the remainder otherwise, so a backend always receives a
//! key that begins with a dot.
//!
//! The table is built once, before serving: construction fails on an empty
//! or repeated prefix and the table is never mutated afterwards.

use vstd::prelude::*;
use vstd::slice::{slice_subrange, slice_to_vec};

use crate::assoc::{find_index, lemma_map_of_contains, lemma_map_of_index, lemma_map_of_push, map_of, unique_keys};

verus! {

/// One line of the routing configuration: a key prefix and the base
/// address of the backend owning it.
#[derive(Debug)]
pub struct RouteEntry {
    pub prefix: Vec<u8>,
    pub target: Vec<u8>,
}

/// Why construction of a `RouteTable` was rejected.
#[derive(Debug, PartialEq, Eq)]
pub enum ConfigError {
    /// Some entry has an empty prefix.
    EmptyPrefix,
    /// Some prefix appears twice.
    DuplicatePrefix,
}

/// The dot byte `.` that separates key segments.
pub open spec fn dot() -> u8 {
    46u8
}

/// Entry `i` has an empty prefix.
pub open spec fn empty_at(s: Seq<RouteEntry>, i: int) -> bool {
    s[i].prefix@.len() == 0
}

/// Entry `i` repeats an earlier prefix.
pub open spec fn dup_at(s: Seq<RouteEntry>, i: int) -> bool {
    exists|j: int| 0 <= j < i && s[j].prefix@ == s[i].prefix@
}

/// Entry `i` is rejected: empty, or a repeat of an earlier prefix.
pub open spec fn bad_at(s: Seq<RouteEntry>, i: int) -> bool {
    empty_at(s, i) || dup_at(s, i)
}

/// Entry `i` is the first rejected entry.
pub open spec fn first_bad_is(s: Seq<RouteEntry>, i: int) -> bool {
    &&& 0 <= i < s.len()
    &&& bad_at(s, i)
    &&& forall|j: int| 0 <= j < i ==> !bad_at(s, j)
}

/// Construction was rejected with error `e`, entry `i` being the first
/// rejected entry: `EmptyPrefix` exactly when that entry's prefix is empty,
/// `DuplicatePrefix` otherwise.
pub open spec fn rejected_with(s: Seq<RouteEntry>, e: ConfigError, i: int) -> bool {
    &&& first_bad_is(s, i)
    &&& (e == ConfigError::EmptyPrefix) <==> empty_at(s, i)
}

/// The map a list of route entries denotes.
pub open spec fn route_map(s: Seq<RouteEntry>) -> Map<Seq<u8>, Vec<u8>>
    decreases s.len(),
{
    if s.len() == 0 {
        Map::empty()
    } else {
        route_map(s.drop_last()).insert(s.last().prefix@, s.last().target)
    }
}

/// The same mapping read at the level of byte strings: what a built table
/// denotes to its callers.
pub open spec fn route_view(s: Seq<RouteEntry>) -> Map<Seq<u8>, Seq<u8>> {
    Map::new(
        |k: Seq<u8>| route_map(s).contains_key(k),
        |k: Seq<u8>| route_map(s)[k]@,
    )
}

/// Position `p` in key `k` is a candidate cut: the end of the key, or a dot.
/// The candidate prefix at `p` is `k.take(p)`; cutting at the `i`-th dot is
/// exactly rejoining the first `i` dot-segments of the key.
pub open spec fn is_cut(k: Seq<u8>, p: int) -> bool {
    p == k.len() || (0 <= p < k.len() && k[p] == dot())
}

/// The backend-facing key suffix for a cut at `p`: a single dot when the
/// key equals the prefix, else a dot followed by the remainder after the
/// separating dot.
pub open spec fn suffix_at(k: Seq<u8>, p: int) -> Seq<u8> {
    if p == k.len() {
        seq![dot()]
    } else {
        seq![dot()] + k.skip(p + 1)
    }
}

/// Resolution succeeds at cut `p`: the candidate there is registered and no
/// longer candidate is.
pub open spec fn resolves_at(t: Map<Seq<u8>, Seq<u8>>, k: Seq<u8>, p: int) -> bool {
    &&& 0 <= p <= k.len()
    &&& is_cut(k, p)
    &&& t.contains_key(k.take(p))
    &&& forall|q: int| p < q <= k.len() && is_cut(k, q) ==> !t.contains_key(k.take(q))
}

/// No candidate prefix of `k` is registered.
pub open spec fn no_route(t: Map<Seq<u8>, Seq<u8>>, k: Seq<u8>) -> bool {
    forall|p: int| 0 <= p <= k.len() && is_cut(k, p) ==> !t.contains_key(k.take(p))
}

/// The immutable mapping of route prefix to backend base address.
#[derive(Debug)]
pub struct RouteTable {
    entries: Vec<(Vec<u8>, Vec<u8>)>,
}

impl View for RouteTable {
    type V = Map<Seq<u8>, Seq<u8>>;

    closed spec fn view(&self) -> Map<Seq<u8>, Seq<u8>> {
        Map::new(
            |k: Seq<u8>| map_of(self.entries@).contains_key(k),
            |k: Seq<u8>| map_of(self.entries@)[k]@,
        )
    }
}

impl RouteTable {
    /// The representation invariant: prefixes are pairwise distinct and
    /// none is empty.
    pub closed spec fn wf(&self) -> bool {
        &&& unique_keys(self.entries@)
        &&& forall|i: int| 0 <= i < self.entries@.len() ==> self.entries@[i].0@.len() > 0
    }

    /// Builds the table from the configured entries, rejecting the
    /// construction if any prefix is empty or repeats an earlier one. On
    /// success the table denotes exactly the configured mapping; on failure
    /// the error names what was wrong with the first rejected entry.
    pub fn build(entries: Vec<RouteEntry>) -> (r: Result<RouteTable, ConfigError>)
        ensures
            match r {
                Ok(t) => {
                    &&& t.wf()
                    &&& forall|i: int| 0 <= i < entries@.len() ==> !bad_at(entries@, i)
                    &&& t@ == route_view(entries@)
                },
                Err(e) => exists|i: int| rejected_with(entries@, e, i),
            },
    {
        let ghost orig = entries@;
        let mut rest = entries;
        let mut built: Vec<(Vec<u8>, Vec<u8>)> = Vec::new();
        while rest.len() > 0
            invariant
                orig == entries@,
                rest@ =~= orig.skip(orig.len() - rest@.len()),
                built@.len() == orig.len() - rest@.len(),
                unique_keys(built@),
                forall|j: int| 0 <= j < built@.len() ==> built@[j].0@.len() > 0,
                forall|j: int| 0 <= j < built@.len() ==> built@[j].0 == orig[j].prefix,
                forall|j: int| 0 <= j < built@.len() ==> !bad_at(orig, j),
                map_of(built@) == route_map(orig.take(orig.len() - rest@.len())),
            decreases rest@.len(),
        {
            let ghost i = orig.len() - rest@.len();
            let e = rest.remove(0);
            proof {
                assert(e == orig[i]);
                assert(rest@ =~= orig.skip(i + 1));
            }
            if e.prefix.len() == 0 {
                proof {
                    assert(empty_at(orig, i));
                    assert(forall|j: int| 0 <= j < i ==> !bad_at(orig, j));
                    assert(rejected_with(orig, ConfigError::EmptyPrefix, i));
                }
                return Err(ConfigError::EmptyPrefix);
            }
            match find_index(&built, &e.prefix) {
                Some(j) => {
                    proof {
                        assert(built@[j as int].0 == orig[j as int].prefix);
                        assert(orig[j as int].prefix@ == orig[i].prefix@);
                        assert(dup_at(orig, i));
                        assert(!empty_at(orig, i));
                        assert(forall|j2: int| 0 <= j2 < i ==> !bad_at(orig, j2));
                        assert(rejected_with(orig, ConfigError::DuplicatePrefix, i));
                    }
                    return Err(ConfigError::DuplicatePrefix);
                },
                None => {
                    let ghost b0 = built@;
                    built.push((e.prefix, e.target));
                    proof {
                        lemma_map_of_push(b0, (e.prefix, e.target));
                        assert forall|x: int, y: int|
                            0 <= x < y < built@.len() implies built@[x].0@ != built@[y].0@ by {
                            if y < b0.len() {
                                assert(b0[x].0@ != b0[y].0@);
                            } else {
                                assert(b0[x].0@ != e.prefix@);
                            }
                        }
                        assert forall|j: int| 0 <= j < i implies orig[j].prefix@
                            != orig[i].prefix@ by {
                            assert(b0[j].0@ != e.prefix@);
                        }
                        assert(orig.take(i + 1).drop_last() =~= orig.take(i));
                        assert(orig.take(i + 1).last() == orig[i]);
                    }
                },
            }
        }
        proof {
            assert(orig.take(orig.len() - rest@.len()) =~= orig);
        }
        let t = RouteTable { entries: built };
        proof {
            assert(t@ =~= route_view(orig));
        }
        Ok(t)
    }

    /// The backend base address registered for an exact prefix.
    pub fn target_of(&self, prefix: &Vec<u8>) -> (r: Option<&Vec<u8>>)
        requires
            self.wf(),
        ensures
            match r {
                Some(t) => self@.contains_key(prefix@) && t@ == self@[prefix@],
                None => !self@.contains_key(prefix@),
            },
    {
        proof {
            lemma_map_of_contains(self.entries@, prefix@);
        }
        match find_index(&self.entries, prefix) {
            Some(i) => {
                proof {
                    lemma_map_of_index(self.entries@, i as int);
                }
                Some(&self.entries[i].1)
            },
            None => None,
        }
    }

    /// Checks the candidate prefix cut at `p`; on a hit, returns the
    /// matched prefix together with the backend-facing suffix.
    fn check_candidate(&self, key: &Vec<u8>, p: usize) -> (r: Option<(Vec<u8>, Vec<u8>)>)
        requires
            self.wf(),
            p <= key@.len(),
            is_cut(key@, p as int),
        ensures
            match r {
                Some(pair) => self@.contains_key(key@.take(p as int)) && pair.0@ == key@.take(
                    p as int,
                ) && pair.1@ == suffix_at(key@, p as int),
                None => !self@.contains_key(key@.take(p as int)),
            },
    {
        let cand = slice_to_vec(slice_subrange(key.as_slice(), 0, p));
        proof {
            lemma_map_of_contains(self.entries@, cand@);
        }
        match find_index(&self.entries, &cand) {
            Some(_) => {
                let n = key.len();
                let mut sfx: Vec<u8> = Vec::new();
                sfx.push(46);  // '.'
                if p < n {
                    let mut restv = slice_to_vec(slice_subrange(key.as_slice(), p + 1, n));
                    sfx.append(&mut restv);
                }
                proof {
                    assert(sfx@ =~= suffix_at(key@, p as int));
                }
                Some((cand, sfx))
            },
            None => None,
        }
    }

    /// Longest-prefix resolution of a full key. On a match, returns the
    /// matched prefix (registered in the table, with no longer candidate
    /// registered) and the backend key suffix; `None` means no candidate
    /// prefix of the key is registered.
    pub fn find_route(&self, key: &Vec<u8>) -> (r: Option<(Vec<u8>, Vec<u8>)>)
        requires
            self.wf(),
        ensures
            match r {
                Some(pair) => exists|p: int|
                    #[trigger] resolves_at(self@, key@, p) && pair.0@ == key@.take(p) && pair.1@
                        == suffix_at(key@, p),
                None => no_route(self@, key@),
            },
    {
        let n = key.len();
        if let Some(pair) = self.check_candidate(key, n) {
            proof {
                assert(resolves_at(self@, key@, n as int));
            }
            return Some(pair);
        }
        let mut p: usize = n;
        while p > 0
            invariant
                p <= n,
                n == key@.len(),
                self.wf(),
                forall|q: int|
                    p <= q <= n && is_cut(key@, q) ==> !self@.contains_key(key@.take(q)),
            decreases p,
        {
            p -= 1;
            if key[p] == 46 {  // '.'
                if let Some(pair) = self.check_candidate(key, p) {
                    proof {
                        assert(resolves_at(self@, key@, p as int));
                    }
                    return Some(pair);
                }
            }
        }
        None
    }
}

} // verus!

