//! The decision in a ray–sphere test.
//!
//! With a unit direction `d`, `oc = origin - center`, `b = d·oc` and
//! `c = |oc|² - radius²`, the hit distances solve `t² + 2bt + c = 0`. With
//! `s = √(b² - c)` the roots are `t1 = -b - s` and `t2 = -b + s`. The ray misses
//! when the discriminant is negative or when both roots lie behind the origin;
//! otherwise the hit is the nearer root if it lies ahead, else the farther one
//! (the exit point, for an origin inside the sphere).
use vstd::prelude::*;

verus! {

/// Which root of the quadratic is the hit.
#[derive(Clone, Copy, Debug, PartialEq, Eq, Structural)]
pub enum Root {
    /// `t1 = -b - s`, where the ray enters the sphere.
    Near,
    /// `t2 = -b + s`, where the ray leaves the sphere.
    Far,
}

/// The hit chosen from the signs of the discriminant and of the two roots.
pub open spec fn root_choice(disc_negative: bool, far_behind: bool, near_ahead: bool) -> Option<Root> {
    if disc_negative || far_behind {
        None
    } else if near_ahead {
        Some(Root::Near)
    } else {
        Some(Root::Far)
    }
}

/// Chooses the root that a ray hits: none where the discriminant is negative
/// (`disc_negative`) or where the farther root is negative (`far_behind`);
/// else the nearer root where it is positive (`near_ahead`), and the farther
/// one otherwise.
pub fn choose_root(disc_negative: bool, far_behind: bool, near_ahead: bool) -> (r: Option<Root>)
    ensures
        r == root_choice(disc_negative, far_behind, near_ahead),
{
    if disc_negative {
        return None;
    }
    if far_behind {
        return None;
    }
    if near_ahead {
        Some(Root::Near)
    } else {
        Some(Root::Far)
    }
}

/// The hit distance that the choice gives in exact arithmetic, for the
/// coefficients `b`, `c` and a root `s ≥ 0` of the discriminant (`s² = b² - c`
/// where that is non-negative).
pub open spec fn exact_hit(b: int, c: int, s: int) -> Option<int> {
    match root_choice(b * b - c < 0, -b + s < 0, -b - s > 0) {
        None => None,
        Some(Root::Near) => Some(-b - s),
        Some(Root::Far) => Some(-b + s),
    }
}

/// A ray whose origin lies strictly inside the sphere (`c < 0`) always hits
/// it, at the exit point `-b + s`, which lies ahead of the origin.
pub proof fn lemma_inside_always_hits(b: int, c: int, s: int)
    requires
        c < 0,
        s >= 0,
        s * s == b * b - c,
    ensures
        exact_hit(b, c, s) == Some(-b + s),
        -b + s > 0,
{
    assert(s > b && s > -b) by (nonlinear_arith)
        requires
            c < 0,
            s >= 0,
            s * s == b * b - c,
    ;
}

/// A ray whose origin lies strictly outside the sphere (`c > 0`) and whose
/// direction points away from the center or across it (`b = d·oc ≥ 0`) never
/// hits it. `s` is the discriminant's root where the discriminant is not
/// negative.
pub proof fn lemma_outside_away_misses(b: int, c: int, s: int)
    requires
        c > 0,
        b >= 0,
        s >= 0,
        b * b - c >= 0 ==> s * s == b * b - c,
    ensures
        exact_hit(b, c, s) is None,
{
    if b * b - c >= 0 {
        assert(s < b) by (nonlinear_arith)
            requires
                c > 0,
                b >= 0,
                s >= 0,
                s * s == b * b - c,
        ;
    }
}

/// A ray that starts at distance `dist` from the center of a sphere of
/// radius `radius < dist` hits it at `dist - radius` when aimed at the center
/// (`b = -dist`), and misses it when aimed straight away (`b = dist`). In both
/// cases `c = dist² - radius²` and the discriminant's root is `radius`.
pub proof fn lemma_axis_ray(dist: int, radius: int)
    requires
        0 < radius < dist,
    ensures
        exact_hit(-dist, dist * dist - radius * radius, radius) == Some(dist - radius),
        exact_hit(dist, dist * dist - radius * radius, radius) is None,
{
    assert((-dist) * (-dist) == dist * dist) by (nonlinear_arith);
    assert(dist * dist - (dist * dist - radius * radius) == radius * radius);
    assert(dist - radius > 0);
}

} // verus!
