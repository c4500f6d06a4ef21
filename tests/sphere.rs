use pathtrace::sphere::{choose_root, Root};

// Signs for a sphere of radius r at the origin and a unit-direction ray,
// computed as the renderer does: b = d·oc, c = |oc|² - r², s = √(b² - c).
fn signs(b: f64, c: f64) -> (bool, bool, bool, f64, f64) {
    let disc = b * b - c;
    let s = if disc < 0.0 { 0.0 } else { disc.sqrt() };
    (disc < 0.0, -b + s < 0.0, -b - s > 0.0, -b - s, -b + s)
}

#[test]
fn negative_discriminant_misses() {
    assert_eq!(choose_root(true, false, true), None);
    assert_eq!(choose_root(true, true, false), None);
}

#[test]
fn both_roots_behind_miss() {
    assert_eq!(choose_root(false, true, false), None);
}

#[test]
fn near_root_ahead_is_taken() {
    assert_eq!(choose_root(false, false, true), Some(Root::Near));
}

#[test]
fn origin_inside_takes_far_root() {
    assert_eq!(choose_root(false, false, false), Some(Root::Far));
}

#[test]
fn ray_toward_center_hits_at_distance_minus_radius() {
    // Origin at distance 5 from a sphere of radius 2, aimed at the center.
    let (dn, fb, na, t1, t2) = signs(-5.0, 25.0 - 4.0);
    let t = match choose_root(dn, fb, na) {
        Some(Root::Near) => t1,
        Some(Root::Far) => t2,
        None => panic!("expected a hit"),
    };
    assert_eq!(t, 3.0);
}

#[test]
fn ray_away_from_sphere_misses() {
    let (dn, fb, na, _, _) = signs(5.0, 25.0 - 4.0);
    assert_eq!(choose_root(dn, fb, na), None);
}

#[test]
fn ray_from_inside_hits_exit_point() {
    // Origin 0.5 from the center of a unit sphere, aimed away from the center.
    let (dn, fb, na, _, t2) = signs(0.5, 0.25 - 1.0);
    assert_eq!(choose_root(dn, fb, na), Some(Root::Far));
    assert_eq!(t2, 0.5);
}
