use pathtrace::nearest::nearest_hit;
use pathtrace::transport::{classify, Path, PathEnd, Surface};

#[test]
fn depth_zero_ends_at_background() {
    let p = Path::start(0);
    assert!(p.is_done());
    assert_eq!(p.end, Some(PathEnd::Background));
    assert_eq!(p.bounces, 0);
}

#[test]
fn positive_depth_starts_running() {
    let p = Path::start(5);
    assert!(!p.is_done());
    assert_eq!(p.remaining, 5);
    assert_eq!(p.bounces, 0);
}

#[test]
fn miss_ends_at_background() {
    let mut p = Path::start(3);
    p.advance(Surface::Miss);
    assert_eq!(p, Path { remaining: 3, bounces: 0, end: Some(PathEnd::Background) });
}

#[test]
fn light_ends_at_emitter() {
    let mut p = Path::start(3);
    p.advance(Surface::Diffuse);
    p.advance(Surface::Light);
    assert_eq!(p, Path { remaining: 2, bounces: 1, end: Some(PathEnd::Emitter) });
}

#[test]
fn spent_depth_ends_at_background() {
    let mut p = Path::start(2);
    p.advance(Surface::Diffuse);
    assert!(!p.is_done());
    p.advance(Surface::Diffuse);
    assert_eq!(p, Path { remaining: 0, bounces: 2, end: Some(PathEnd::Background) });
}

#[test]
fn classify_by_light_tags() {
    let lights = vec![true, false];
    assert_eq!(classify(None, &lights), Surface::Miss);
    assert_eq!(classify(Some(0), &lights), Surface::Light);
    assert_eq!(classify(Some(1), &lights), Surface::Diffuse);
}

#[test]
fn empty_scene_paths_end_at_background() {
    for depth in [0u32, 1, 5, 100] {
        let mut p = Path::start(depth);
        let mut steps = 0;
        while !p.is_done() {
            let hit = nearest_hit(&Vec::new());
            p.advance(classify(hit, &Vec::new()));
            steps += 1;
        }
        assert!(steps <= 1);
        assert_eq!(p.end, Some(PathEnd::Background));
        assert_eq!(p.bounces, 0);
    }
}

#[test]
fn light_seen_directly_ends_at_emitter() {
    // A single light sphere at distance 1.5 along the primary ray.
    let lights = vec![true];
    let mut p = Path::start(5);
    p.advance(classify(nearest_hit(&vec![Some(1.5f64.to_bits())]), &lights));
    assert_eq!(p.end, Some(PathEnd::Emitter));
    assert_eq!(p.bounces, 0);
}
