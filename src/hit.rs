//! Which intersection of a ray with the scene counts.
//!
//! Times along the ray are binary64 numbers handed over as bit patterns (see
//! `float_order`).
use vstd::prelude::*;
use crate::float_order::{is_nan, less_than, lt, ZERO_BITS};

verus! {

/// `t_min < t < t_max`, compared as `f64`.
pub open spec fn inside(t: u64, t_min: u64, t_max: u64) -> bool {
    lt(t_min, t) && lt(t, t_max)
}

/// The parameter of a ray-sphere hit on the open interval `(t_min, t_max)`,
/// from the discriminant of the quadratic and its two roots: none unless the
/// discriminant is positive; then the smaller root if it lies inside, else the
/// larger one if that does, else none.
pub open spec fn hit_time(discriminant: u64, t_small: u64, t_big: u64, t_min: u64, t_max: u64) -> Option<u64> {
    if !lt(ZERO_BITS, discriminant) {
        None
    } else if inside(t_small, t_min, t_max) {
        Some(t_small)
    } else if inside(t_big, t_min, t_max) {
        Some(t_big)
    } else {
        None
    }
}

/// Picks the parameter of a ray-sphere hit. The roots are only read when the
/// discriminant is positive.
pub fn sphere_hit_time(discriminant: u64, t_small: u64, t_big: u64, t_min: u64, t_max: u64) -> (r: Option<u64>)
    ensures
        r == hit_time(discriminant, t_small, t_big, t_min, t_max),
        !lt(ZERO_BITS, discriminant) ==> r is None,
        r matches Some(t) ==> inside(t, t_min, t_max),
{
    if !less_than(ZERO_BITS, discriminant) {
        None
    } else if less_than(t_min, t_small) && less_than(t_small, t_max) {
        Some(t_small)
    } else if less_than(t_min, t_big) && less_than(t_big, t_max) {
        Some(t_big)
    } else {
        None
    }
}

/// Every reported time is a number.
pub open spec fn times_are_numbers(times: Seq<Option<u64>>) -> bool {
    forall|j: int| 0 <= j < times.len() && #[trigger] times[j] is Some ==> !is_nan(times[j].unwrap())
}

/// Entry `k` reports a hit, no hit is strictly nearer, and every hit before it
/// is strictly farther: the first of the nearest hits.
pub open spec fn is_nearest(times: Seq<Option<u64>>, k: int) -> bool {
    &&& 0 <= k < times.len()
    &&& times[k] is Some
    &&& forall|j: int|
        0 <= j < times.len() && #[trigger] times[j] is Some ==> !lt(
            times[j].unwrap(),
            times[k].unwrap(),
        )
    &&& forall|j: int|
        0 <= j < k && #[trigger] times[j] is Some ==> lt(times[k].unwrap(), times[j].unwrap())
}

/// Given, for each surface of the scene in order, the time of its hit or
/// `None`, returns the index of the nearest hit; of equally near ones, the
/// first.
pub fn nearest_hit(times: &Vec<Option<u64>>) -> (r: Option<usize>)
    requires
        times_are_numbers(times@),
    ensures
        r is None <==> forall|j: int| 0 <= j < times@.len() ==> #[trigger] times@[j] is None,
        r matches Some(k) ==> is_nearest(times@, k as int),
{
    let mut best: Option<usize> = None;
    let mut i: usize = 0;
    while i < times.len()
        invariant
            i <= times@.len(),
            times_are_numbers(times@),
            best is None <==> forall|j: int| 0 <= j < i ==> #[trigger] times@[j] is None,
            best matches Some(k) ==> is_nearest(times@.subrange(0, i as int), k as int),
        decreases times@.len() - i,
    {
        let ghost prefix = times@.subrange(0, i as int);
        let ghost next = times@.subrange(0, i as int + 1);
        match times[i] {
            None => {
                assert forall|j: int| 0 <= j < next.len() && #[trigger] next[j] is Some implies j < i
                    && next[j] == prefix[j] by {}
            },
            Some(t) => {
                match best {
                    None => {
                        best = Some(i);
                    },
                    Some(k) => {
                        let tk = times[k].unwrap();
                        assert(prefix[k as int] == times@[k as int]);
                        if less_than(t, tk) {
                            best = Some(i);
                        }
                    },
                }
            },
        }
        i = i + 1;
        assert(times@.subrange(0, i as int) =~= next);
    }
    assert(times@.subrange(0, i as int) =~= times@);
    best
}

} // verus!
