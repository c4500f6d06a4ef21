//! Choosing the nearest of several candidate hits along one ray.
//!
//! A hit distance is carried as an ordered key: a `u64` whose integer order is
//! the order of the distances it stands for (the bit pattern of a non-negative
//! IEEE-754 double has this property). A geometry that the ray misses gives
//! `None`.
use vstd::prelude::*;

verus! {

/// Key of an infinite distance. Every finite distance has a key strictly
/// below it, and the running minimum starts here; an infinite or undefined
/// distance is no hit.
pub const INFINITE_KEY: u64 = 0x7FF0_0000_0000_0000;

/// A candidate counts as a hit when it is present and at a finite distance,
/// that is, its key lies below `INFINITE_KEY`.
pub open spec fn is_hit(c: Option<u64>) -> bool {
    match c {
        Some(k) => k < INFINITE_KEY,
        None => false,
    }
}

/// The key of a candidate that is a hit.
pub open spec fn key_of(c: Option<u64>) -> u64
    recommends
        is_hit(c),
{
    c->Some_0
}

/// `i` holds the nearest hit of `cs`, and no earlier candidate is as near.
pub open spec fn is_nearest(cs: Seq<Option<u64>>, i: int) -> bool {
    &&& 0 <= i < cs.len()
    &&& is_hit(cs[i])
    &&& forall|j: int| 0 <= j < cs.len() && is_hit(#[trigger] cs[j]) ==> key_of(cs[i]) <= key_of(cs[j])
    &&& forall|j: int| 0 <= j < i && is_hit(#[trigger] cs[j]) ==> key_of(cs[i]) < key_of(cs[j])
}

/// Some candidate is a hit.
pub open spec fn any_hit(cs: Seq<Option<u64>>) -> bool {
    exists|j: int| 0 <= j < cs.len() && is_hit(#[trigger] cs[j])
}

/// Linear scan for the nearest hit: returns the index of the candidate with the
/// smallest key, the first one where several share it, or `None` where no
/// candidate is a hit (in particular where there are no candidates at all).
pub fn nearest_hit(cs: &Vec<Option<u64>>) -> (r: Option<usize>)
    ensures
        r.is_none() <==> !any_hit(cs@),
        r matches Some(i) ==> is_nearest(cs@, i as int),
{
    let mut tmin: u64 = INFINITE_KEY;
    let mut best: Option<usize> = None;
    let n = cs.len();
    let mut i: usize = 0;
    while i < n
        invariant
            n == cs@.len(),
            0 <= i <= n,
            best.is_none() <==> tmin == INFINITE_KEY,
            best.is_none() ==> forall|j: int| 0 <= j < i ==> !is_hit(#[trigger] cs@[j]),
            best matches Some(b) ==> {
                &&& b < i
                &&& is_hit(cs@[b as int])
                &&& key_of(cs@[b as int]) == tmin
                &&& forall|j: int| 0 <= j < i && is_hit(#[trigger] cs@[j]) ==> tmin <= key_of(cs@[j])
                &&& forall|j: int| 0 <= j < b && is_hit(#[trigger] cs@[j]) ==> tmin < key_of(cs@[j])
            },
        decreases n - i,
    {
        match cs[i] {
            Some(k) => {
                if k < tmin {
                    tmin = k;
                    best = Some(i);
                }
            },
            None => {},
        }
        i = i + 1;
    }
    proof {
        if best.is_none() {
            assert(!any_hit(cs@));
        }
    }
    best
}

} // verus!
