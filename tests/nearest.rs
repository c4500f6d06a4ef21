use pathtrace::nearest::{nearest_hit, INFINITE_KEY};

fn key(t: f64) -> Option<u64> {
    Some(t.to_bits())
}

#[test]
fn no_geometries_give_no_hit() {
    let cs: Vec<Option<u64>> = Vec::new();
    assert_eq!(nearest_hit(&cs), None);
}

#[test]
fn all_misses_give_no_hit() {
    assert_eq!(nearest_hit(&vec![None, None, None]), None);
}

#[test]
fn nearest_of_several_spheres_wins() {
    // Three spheres along a ray at distances 7.5, 2.25 and 4.0, and one missed.
    let cs = vec![key(7.5), None, key(2.25), key(4.0)];
    assert_eq!(nearest_hit(&cs), Some(2));
}

#[test]
fn equal_distances_resolve_to_the_first() {
    let cs = vec![key(3.0), key(1.5), key(1.5)];
    assert_eq!(nearest_hit(&cs), Some(1));
}

#[test]
fn infinite_distances_are_no_hit() {
    assert_eq!(INFINITE_KEY, f64::INFINITY.to_bits());
    assert_eq!(nearest_hit(&vec![Some(INFINITE_KEY), Some(f64::NAN.to_bits())]), None);
    assert_eq!(nearest_hit(&vec![Some(INFINITE_KEY), key(f64::MAX)]), Some(1));
}

#[test]
fn largest_finite_distance_is_a_hit() {
    assert_eq!(nearest_hit(&vec![None, key(f64::MAX)]), Some(1));
}

#[test]
fn single_hit_is_found() {
    assert_eq!(nearest_hit(&vec![None, key(0.001)]), Some(1));
}
