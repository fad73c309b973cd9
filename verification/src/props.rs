//! Ordered string-keyed property lists.
//!
//! A property map is held as a vector of key/value pairs in insertion
//! order; lookups find the first pair with the key, and the store keeps
//! keys unique, so the list denotes a finite map whose listing order is
//! deterministic.

use vstd::prelude::*;
use crate::strutil::str_is;

verus! {

/// A pair sequence at the specification level.
pub type PropsV = Seq<(Seq<char>, Seq<char>)>;

/// Index of the first pair whose key is `k`, if any.
pub open spec fn spec_find_idx(props: PropsV, k: Seq<char>) -> Option<int>
    decreases props.len(),
{
    if props.len() == 0 {
        None
    } else if props[0].0 == k {
        Some(0)
    } else {
        match spec_find_idx(props.drop_first(), k) {
            Some(i) => Some(i + 1),
            None => None,
        }
    }
}

/// The value under the key `k`, if any.
pub open spec fn spec_lookup(props: PropsV, k: Seq<char>) -> Option<Seq<char>> {
    match spec_find_idx(props, k) {
        Some(i) => Some(props[i].1),
        None => None,
    }
}

/// The list after setting `k` to `v`: the first pair with key `k` is
/// replaced in place, or a new pair is appended.
pub open spec fn spec_set(props: PropsV, k: Seq<char>, v: Seq<char>) -> PropsV {
    match spec_find_idx(props, k) {
        Some(i) => props.update(i, (k, v)),
        None => props.push((k, v)),
    }
}

/// The list after removing the first pair with key `k`, if present.
pub open spec fn spec_del(props: PropsV, k: Seq<char>) -> PropsV {
    match spec_find_idx(props, k) {
        Some(i) => props.remove(i),
        None => props,
    }
}

/// No two pairs share a key.
pub open spec fn unique_keys(props: PropsV) -> bool {
    forall|i: int, j: int| 0 <= i < j < props.len() ==> props[i].0 != props[j].0
}

/// What a found index means: the key is there, and nowhere earlier.
pub proof fn lemma_find_idx(props: PropsV, k: Seq<char>)
    ensures
        match spec_find_idx(props, k) {
            Some(i) => 0 <= i < props.len() && props[i].0 == k && forall|j: int|
                0 <= j < i ==> props[j].0 != k,
            None => forall|j: int| 0 <= j < props.len() ==> props[j].0 != k,
        },
    decreases props.len(),
{
    if props.len() > 0 && props[0].0 != k {
        lemma_find_idx(props.drop_first(), k);
        match spec_find_idx(props.drop_first(), k) {
            Some(i) => {
                assert(props.drop_first()[i] == props[i + 1]);
                assert forall|j: int| 0 <= j < i + 1 implies props[j].0 != k by {
                    if j > 0 {
                        assert(props.drop_first()[j - 1] == props[j]);
                    }
                }
            },
            None => {
                assert forall|j: int| 0 <= j < props.len() implies props[j].0 != k by {
                    if j > 0 {
                        assert(props.drop_first()[j - 1] == props[j]);
                    }
                }
            },
        }
    }
}

/// An index with the key, before which the key does not occur, is the
/// one that the search finds.
pub proof fn lemma_find_idx_witness(props: PropsV, k: Seq<char>, i: int)
    requires
        0 <= i < props.len(),
        props[i].0 == k,
        forall|j: int| 0 <= j < i ==> props[j].0 != k,
    ensures
        spec_find_idx(props, k) == Some(i),
    decreases props.len(),
{
    if i > 0 {
        lemma_find_idx_witness(props.drop_first(), k, i - 1);
    }
}

/// Setting a key changes its value alone, read through `spec_lookup`.
pub proof fn lemma_set_lookup(props: PropsV, k: Seq<char>, v: Seq<char>, q: Seq<char>)
    ensures
        spec_lookup(spec_set(props, k, v), q) == if q == k {
            Some(v)
        } else {
            spec_lookup(props, q)
        },
{
    lemma_find_idx(props, k);
    let after = spec_set(props, k, v);
    match spec_find_idx(props, k) {
        Some(i) => {
            if q == k {
                lemma_find_idx_witness(after, k, i);
            } else {
                lemma_find_idx(props, q);
                match spec_find_idx(props, q) {
                    Some(j) => {
                        lemma_find_idx(props, q);
                        lemma_find_idx_witness(after, q, j);
                    },
                    None => {
                        lemma_find_idx(after, q);
                        if spec_find_idx(after, q) is Some {
                            let j = spec_find_idx(after, q)->Some_0;
                            assert(props[j].0 == q);
                        }
                    },
                }
            }
        },
        None => {
            if q == k {
                lemma_find_idx_witness(after, k, props.len() as int);
            } else {
                lemma_find_idx(props, q);
                match spec_find_idx(props, q) {
                    Some(j) => {
                        lemma_find_idx_witness(after, q, j);
                    },
                    None => {
                        lemma_find_idx(after, q);
                        if spec_find_idx(after, q) is Some {
                            let j = spec_find_idx(after, q)->Some_0;
                            if j < props.len() {
                                assert(props[j].0 == q);
                            }
                        }
                    },
                }
            }
        },
    }
}

/// Setting a key keeps keys unique.
pub proof fn lemma_set_unique(props: PropsV, k: Seq<char>, v: Seq<char>)
    requires
        unique_keys(props),
    ensures
        unique_keys(spec_set(props, k, v)),
{
    lemma_find_idx(props, k);
}

/// Removing a key keeps keys unique.
proof fn lemma_del_unique(props: PropsV, k: Seq<char>)
    requires
        unique_keys(props),
    ensures
        unique_keys(spec_del(props, k)),
{
    lemma_find_idx(props, k);
    match spec_find_idx(props, k) {
        Some(i) => {
            let after = props.remove(i);
            assert forall|a: int, b: int| 0 <= a < b < after.len() implies after[a].0
                != after[b].0 by {
                let a0 = if a < i {
                    a
                } else {
                    a + 1
                };
                let b0 = if b < i {
                    b
                } else {
                    b + 1
                };
                assert(after[a] == props[a0] && after[b] == props[b0]);
            }
        },
        None => {},
    }
}

/// After removing a key, it is gone.
proof fn lemma_del_gone(props: PropsV, k: Seq<char>)
    requires
        unique_keys(props),
    ensures
        spec_lookup(spec_del(props, k), k) is None,
{
    lemma_find_idx(props, k);
    match spec_find_idx(props, k) {
        Some(i) => {
            let after = props.remove(i);
            lemma_find_idx(after, k);
            if spec_find_idx(after, k) is Some {
                let j = spec_find_idx(after, k)->Some_0;
                let j0 = if j < i {
                    j
                } else {
                    j + 1
                };
                assert(after[j] == props[j0]);
            }
        },
        None => {},
    }
}

/// Removing one key leaves every other key's value alone.
proof fn lemma_del_other(props: PropsV, k: Seq<char>, q: Seq<char>)
    requires
        q != k,
    ensures
        spec_lookup(spec_del(props, k), q) == spec_lookup(props, q),
{
    lemma_find_idx(props, k);
    match spec_find_idx(props, k) {
        Some(i) => {
            let after = props.remove(i);
            lemma_find_idx(props, q);
            match spec_find_idx(props, q) {
                Some(j) => {
                    if j < i {
                        assert(after[j] == props[j]);
                        assert forall|m: int| 0 <= m < j implies after[m].0 != q by {
                            assert(after[m] == props[m]);
                        }
                        lemma_find_idx_witness(after, q, j);
                    } else {
                        assert(after[j - 1] == props[j]);
                        assert forall|m: int| 0 <= m < j - 1 implies after[m].0 != q by {
                            let m0 = if m < i {
                                m
                            } else {
                                m + 1
                            };
                            assert(after[m] == props[m0]);
                        }
                        lemma_find_idx_witness(after, q, j - 1);
                    }
                },
                None => {
                    lemma_find_idx(after, q);
                    if spec_find_idx(after, q) is Some {
                        let j = spec_find_idx(after, q)->Some_0;
                        let j0 = if j < i {
                            j
                        } else {
                            j + 1
                        };
                        assert(after[j] == props[j0]);
                    }
                },
            }
        },
        None => {},
    }
}

/// Removing a key removes it, leaves other keys' values alone, and
/// keeps keys unique.
pub proof fn lemma_del_lookup(props: PropsV, k: Seq<char>, q: Seq<char>)
    requires
        unique_keys(props),
    ensures
        unique_keys(spec_del(props, k)),
        spec_lookup(spec_del(props, k), q) == if q == k {
            None::<Seq<char>>
        } else {
            spec_lookup(props, q)
        },
{
    lemma_del_unique(props, k);
    if q == k {
        lemma_del_gone(props, k);
    } else {
        lemma_del_other(props, k, q);
    }
}

/// Finds the index of the first pair whose key is `k`.
pub fn list_find(v: &Vec<(String, String)>, k: &str) -> (r: Option<usize>)
    ensures
        match r {
            Some(i) => spec_find_idx(v.deep_view(), k@) == Some(i as int),
            None => spec_find_idx(v.deep_view(), k@) is None,
        },
{
    let ghost props = v.deep_view();
    let n = v.len();
    let mut i: usize = 0;
    while i < n
        invariant
            n == v.len(),
            props == v.deep_view(),
            i <= n,
            forall|j: int| 0 <= j < i ==> props[j].0 != k@,
        decreases n - i,
    {
        if str_is(v[i].0.as_str(), k) {
            proof {
                lemma_find_idx_witness(props, k@, i as int);
            }
            return Some(i);
        }
        i = i + 1;
    }
    proof {
        lemma_find_idx(props, k@);
        if spec_find_idx(props, k@) is Some {
            let j = spec_find_idx(props, k@)->Some_0;
            assert(props[j].0 == k@);
        }
    }
    None
}

/// Returns the value stored under `k`, if any.
pub fn list_get<'a>(v: &'a Vec<(String, String)>, k: &str) -> (r: Option<&'a String>)
    ensures
        match r {
            Some(s) => spec_lookup(v.deep_view(), k@) == Some(s@),
            None => spec_lookup(v.deep_view(), k@) is None,
        },
{
    match list_find(v, k) {
        Some(i) => {
            proof {
                lemma_find_idx(v.deep_view(), k@);
            }
            Some(&v[i].1)
        },
        None => None,
    }
}

/// Sets `k` to `val`, replacing the first pair with that key in place
/// or appending a new pair.
pub fn list_set(v: &mut Vec<(String, String)>, k: &str, val: &str)
    ensures
        final(v).deep_view() == spec_set(old(v).deep_view(), k@, val@),
{
    let ghost props = v.deep_view();
    let pair = (k.to_owned(), val.to_owned());
    match list_find(v, k) {
        Some(i) => {
            proof {
                lemma_find_idx(props, k@);
            }
            let slot = &mut v[i];
            *slot = pair;
            proof {
                assert(v.deep_view() =~= spec_set(props, k@, val@));
            }
        },
        None => {
            v.push(pair);
            proof {
                assert(v.deep_view() =~= spec_set(props, k@, val@));
            }
        },
    }
}

/// Removes the first pair with key `k`; reports whether one was there.
pub fn list_del(v: &mut Vec<(String, String)>, k: &str) -> (r: bool)
    ensures
        final(v).deep_view() == spec_del(old(v).deep_view(), k@),
        r == (spec_lookup(old(v).deep_view(), k@) is Some),
{
    let ghost props = v.deep_view();
    match list_find(v, k) {
        Some(i) => {
            proof {
                lemma_find_idx(props, k@);
            }
            v.remove(i);
            proof {
                assert(v.deep_view() =~= spec_del(props, k@));
            }
            true
        },
        None => {
            proof {
                assert(v.deep_view() =~= spec_del(props, k@));
            }
            false
        },
    }
}

} // verus!
