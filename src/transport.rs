//! The decisions of the path-transport estimator.
//!
//! One path sample starts with a depth budget. At each step the caller finds
//! what the current ray hits and hands it to `Path::advance`: a miss ends the
//! path at the background, a light ends it at the emitter, and a diffuse
//! surface scatters the ray (one more bounce, one less unit of depth). A path
//! whose budget is spent ends at the background. The radiance of the sample is
//! then the end's color multiplied once by the albedo for each bounce.
use vstd::prelude::*;

verus! {

/// What the ray of the current step hits.
#[derive(Clone, Copy, Debug, PartialEq, Eq, Structural)]
pub enum Surface {
    /// No geometry.
    Miss,
    /// A geometry tagged as a light source.
    Light,
    /// An ordinary geometry, which scatters diffusely.
    Diffuse,
}

/// Where a path ends.
#[derive(Clone, Copy, Debug, PartialEq, Eq, Structural)]
pub enum PathEnd {
    /// The scene's background color.
    Background,
    /// The fixed emission of a light.
    Emitter,
}

/// The state of one path sample.
#[derive(Clone, Copy, Debug, PartialEq, Eq, Structural)]
pub struct Path {
    /// Depth that is left.
    pub remaining: u32,
    /// Diffuse bounces so far.
    pub bounces: u32,
    /// Where the path ended, once it has.
    pub end: Option<PathEnd>,
}

impl Path {
    /// A path that is still running has depth left, and the depth spent and
    /// left together fit in the counter.
    pub open spec fn wf(self) -> bool {
        &&& self.end.is_none() ==> self.remaining > 0
        &&& self.remaining as int + self.bounces as int <= u32::MAX
    }

    /// The state that `advance` reaches from `self` on `hit`.
    pub open spec fn step(self, hit: Surface) -> Path {
        match hit {
            Surface::Miss => Path { end: Some(PathEnd::Background), ..self },
            Surface::Light => Path { end: Some(PathEnd::Emitter), ..self },
            Surface::Diffuse => Path {
                remaining: (self.remaining - 1) as u32,
                bounces: (self.bounces + 1) as u32,
                end: if self.remaining == 1 {
                    Some(PathEnd::Background)
                } else {
                    None
                },
            },
        }
    }

    /// The initial state of a path with depth budget `depth`.
    pub open spec fn initial(depth: u32) -> Path {
        Path {
            remaining: depth,
            bounces: 0,
            end: if depth == 0 {
                Some(PathEnd::Background)
            } else {
                None
            },
        }
    }

    /// Starts a path sample. With depth zero it has ended already, at the
    /// background, with no bounce: no ray is intersected and no scatter
    /// direction drawn.
    pub fn start(depth: u32) -> (p: Path)
        ensures
            p == Path::initial(depth),
            p.wf(),
            depth == 0 ==> p.end == Some(PathEnd::Background) && p.bounces == 0,
    {
        Path {
            remaining: depth,
            bounces: 0,
            end: if depth == 0 {
                Some(PathEnd::Background)
            } else {
                None
            },
        }
    }

    /// Whether the path has ended.
    pub fn is_done(&self) -> (r: bool)
        ensures
            r == self.end.is_some(),
    {
        self.end.is_some()
    }

    /// One step: the current ray hits `hit`.
    pub fn advance(&mut self, hit: Surface)
        requires
            old(self).wf(),
            old(self).end.is_none(),
        ensures
            *final(self) == old(self).step(hit),
            final(self).wf(),
            final(self).remaining + final(self).bounces == old(self).remaining + old(self).bounces,
    {
        match hit {
            Surface::Miss => {
                self.end = Some(PathEnd::Background);
            },
            Surface::Light => {
                self.end = Some(PathEnd::Emitter);
            },
            Surface::Diffuse => {
                self.remaining = self.remaining - 1;
                self.bounces = self.bounces + 1;
                if self.remaining == 0 {
                    self.end = Some(PathEnd::Background);
                }
            },
        }
    }
}

/// The state after the path meets the hits `hits` in turn, one per step, up to
/// its end (hits after the end are not looked at).
pub open spec fn run(p: Path, hits: Seq<Surface>) -> Path
    decreases hits.len(),
{
    if p.end.is_some() || hits.len() == 0 {
        p
    } else {
        run(p.step(hits[0]), hits.drop_first())
    }
}

/// A path ends after at most as many steps as it has depth left, whatever it
/// hits, with no more bounces than that depth, and the budget is kept: depth
/// left plus bounces made is constant.
pub proof fn lemma_path_ends(p: Path, hits: Seq<Surface>)
    requires
        p.wf(),
        p.end.is_none() ==> hits.len() >= p.remaining,
    ensures
        run(p, hits).end.is_some(),
        run(p, hits).wf(),
        run(p, hits).bounces <= p.bounces + p.remaining,
        run(p, hits).remaining + run(p, hits).bounces == p.remaining + p.bounces,
    decreases hits.len(),
{
    if p.end.is_none() {
        lemma_path_ends(p.step(hits[0]), hits.drop_first());
    }
}

/// The recursive estimator: the number of diffuse bounces and the end of a
/// path traced with depth `depth` through the hits `hits`. Depth zero and a
/// miss end at the background, a light at the emitter, and a diffuse surface
/// adds one bounce to the path traced from it with one less depth.
pub open spec fn traced(depth: nat, hits: Seq<Surface>) -> (nat, PathEnd)
    decreases depth,
{
    if depth == 0 || hits.len() == 0 {
        (0, PathEnd::Background)
    } else {
        match hits[0] {
            Surface::Miss => (0, PathEnd::Background),
            Surface::Light => (0, PathEnd::Emitter),
            Surface::Diffuse => {
                let rest = traced((depth - 1) as nat, hits.drop_first());
                (rest.0 + 1, rest.1)
            },
        }
    }
}

/// The step-by-step path computes what the recursive estimator does: from a
/// running state, its end and its further bounces are those of `traced`.
pub proof fn lemma_run_is_traced(p: Path, hits: Seq<Surface>)
    requires
        p.wf(),
        p.end.is_none(),
        hits.len() >= p.remaining,
    ensures
        run(p, hits).end == Some(traced(p.remaining as nat, hits).1),
        run(p, hits).bounces == p.bounces + traced(p.remaining as nat, hits).0,
    decreases hits.len(),
{
    let q = p.step(hits[0]);
    assert(run(p, hits) == run(q, hits.drop_first()));
    if q.end.is_none() {
        lemma_run_is_traced(q, hits.drop_first());
    } else {
        assert(run(q, hits.drop_first()) == q);
        if hits[0] == Surface::Diffuse {
            assert(p.remaining == 1);
            assert(traced(0, hits.drop_first()) == (0nat, PathEnd::Background));
        }
    }
}

/// A path started with depth `depth` ends as the recursive estimator with
/// that depth does.
pub proof fn lemma_path_is_traced(depth: u32, hits: Seq<Surface>)
    requires
        hits.len() >= depth,
    ensures
        run(Path::initial(depth), hits).end == Some(traced(depth as nat, hits).1),
        run(Path::initial(depth), hits).bounces == traced(depth as nat, hits).0,
{
    if depth > 0 {
        lemma_run_is_traced(Path::initial(depth), hits);
    }
}

/// In a scene without geometries every path ends at the background with no
/// bounce, after at most one step: among no candidates there is no hit, no
/// hit classifies as a miss, and a miss ends the path.
pub proof fn lemma_empty_scene(depth: u32, n: nat)
    requires
        n >= 1,
    ensures
        !crate::nearest::any_hit(Seq::<Option<u64>>::empty()),
        surface_of(None, Seq::<bool>::empty()) == Surface::Miss,
        run(Path::initial(depth), Seq::new(n, |i: int| Surface::Miss)) == (Path {
            remaining: depth,
            bounces: 0,
            end: Some(PathEnd::Background),
        }),
{
    let hits = Seq::new(n, |i: int| Surface::Miss);
    if depth > 0 {
        assert(run(Path::initial(depth).step(hits[0]), hits.drop_first()) == Path::initial(depth).step(
            hits[0],
        ));
    }
}

/// In a scene whose geometries are all lights, a path with depth left ends
/// after its first step with no bounce: at the emitter where its ray hits a
/// geometry, at the background where it misses. No scatter direction is drawn.
pub proof fn lemma_all_lights(depth: u32, hit: Option<usize>, lights: Seq<bool>)
    requires
        depth >= 1,
        forall|i: int| 0 <= i < lights.len() ==> lights[i],
        hit matches Some(i) ==> i < lights.len(),
    ensures
        surface_of(hit, lights) != Surface::Diffuse,
        run(Path::initial(depth), seq![surface_of(hit, lights)]) == (Path {
            remaining: depth,
            bounces: 0,
            end: Some(
                if hit is Some {
                    PathEnd::Emitter
                } else {
                    PathEnd::Background
                },
            ),
        }),
{
    let hits = seq![surface_of(hit, lights)];
    let q = Path::initial(depth).step(hits[0]);
    assert(run(q, hits.drop_first()) == q);
}

/// What the nearest hit of a ray is, given the light tags of the scene's
/// geometries: nothing, a light, or an ordinary surface.
pub open spec fn surface_of(hit: Option<usize>, lights: Seq<bool>) -> Surface {
    match hit {
        None => Surface::Miss,
        Some(i) => if lights[i as int] {
            Surface::Light
        } else {
            Surface::Diffuse
        },
    }
}

/// Classifies the nearest hit `hit` (an index into the geometries, or `None`)
/// by the geometries' light tags.
pub fn classify(hit: Option<usize>, lights: &Vec<bool>) -> (r: Surface)
    requires
        hit matches Some(i) ==> i < lights@.len(),
    ensures
        r == surface_of(hit, lights@),
{
    match hit {
        None => Surface::Miss,
        Some(i) => if lights[i] {
            Surface::Light
        } else {
            Surface::Diffuse
        },
    }
}

} // verus!
