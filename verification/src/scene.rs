//! The scene: typed collections of primitives and nearest-hit dispatch.
//!
//! A scene owns one ordered collection per primitive variant. Intersection
//! walks the collections in a fixed order — cubes, lines, planes, spheres,
//! each in insertion order — and keeps the hit with the smallest distance;
//! on equal distances the later candidate wins, so ties are broken
//! deterministically.

pub mod cube;
pub mod line;
pub mod plane;
pub mod sphere;

use vstd::prelude::*;
use crate::material::{default_material, mat_wf, Material};
use crate::ray::{
    ires_of, ray_wf, HitModel, IntersectModel, IntersectResult, Ray, RayModel,
};
use crate::scene::cube::{cube_hit, cube_wf, Cube, CubeModel};
use crate::scene::line::{line_hit, line_wf, Line, LineModel};
use crate::scene::plane::{plane_hit, plane_wf, Plane, PlaneModel};
use crate::scene::sphere::{sphere_hit, sphere_wf, Sphere, SphereModel};
use crate::vec3::is_unit;

verus! {

/// Mathematical model of a scene: one sequence of models per variant.
pub struct SceneModel {
    pub cubes: Seq<CubeModel>,
    pub lines: Seq<LineModel>,
    pub planes: Seq<PlaneModel>,
    pub spheres: Seq<SphereModel>,
}

/// A scene: one collection per primitive variant.
#[derive(Debug, Clone, PartialEq)]
pub struct Scene {
    pub cubes: Vec<Cube>,
    pub lines: Vec<Line>,
    pub planes: Vec<Plane>,
    pub spheres: Vec<Sphere>,
}

impl View for Scene {
    type V = SceneModel;

    open spec fn view(&self) -> SceneModel {
        SceneModel {
            cubes: self.cubes@.map_values(|c: Cube| c@),
            lines: self.lines@.map_values(|l: Line| l@),
            planes: self.planes@.map_values(|p: Plane| p@),
            spheres: self.spheres@.map_values(|s: Sphere| s@),
        }
    }
}

/// Well-formedness: every primitive in every collection is well formed.
pub open spec fn scene_wf(s: SceneModel) -> bool {
    &&& forall|j: int| 0 <= j < s.cubes.len() ==> cube_wf(#[trigger] s.cubes[j])
    &&& forall|j: int| 0 <= j < s.lines.len() ==> line_wf(#[trigger] s.lines[j])
    &&& forall|j: int| 0 <= j < s.planes.len() ==> plane_wf(#[trigger] s.planes[j])
    &&& forall|j: int| 0 <= j < s.spheres.len() ==> sphere_wf(#[trigger] s.spheres[j])
}

/// A bare hit completed with the default material.
pub open spec fn hit_to_ires(h: Option<HitModel>) -> Option<IntersectModel> {
    match h {
        Some(hm) => Some(
            IntersectModel { t: hm.t, normal: hm.normal, material: default_material() },
        ),
        None => None,
    }
}

/// The nearer of an accumulated hit and a candidate; the candidate wins a
/// tie.
pub open spec fn pick(
    acc: Option<IntersectModel>,
    cand: Option<IntersectModel>,
) -> Option<IntersectModel> {
    match cand {
        None => acc,
        Some(c) => match acc {
            None => Some(c),
            Some(a) => if c.t <= a.t {
                Some(c)
            } else {
                Some(a)
            },
        },
    }
}

/// The per-element hits of each collection against a ray.
pub open spec fn cube_hits(s: SceneModel, ray: RayModel) -> Seq<Option<IntersectModel>> {
    s.cubes.map_values(|c: CubeModel| hit_to_ires(cube_hit(c, ray)))
}

pub open spec fn line_hits(s: SceneModel, ray: RayModel) -> Seq<Option<IntersectModel>> {
    s.lines.map_values(|l: LineModel| line_hit(l, ray))
}

pub open spec fn plane_hits(s: SceneModel, ray: RayModel) -> Seq<Option<IntersectModel>> {
    s.planes.map_values(|p: PlaneModel| plane_hit(p, ray))
}

pub open spec fn sphere_hits(s: SceneModel, ray: RayModel) -> Seq<Option<IntersectModel>> {
    s.spheres.map_values(|m: SphereModel| hit_to_ires(sphere_hit(m, ray)))
}

/// Folds the first `n` candidate hits onto an accumulator with [`pick`].
pub open spec fn fold_hits(
    hs: Seq<Option<IntersectModel>>,
    n: nat,
    init: Option<IntersectModel>,
) -> Option<IntersectModel>
    decreases n,
{
    if n == 0 {
        init
    } else {
        pick(fold_hits(hs, (n - 1) as nat, init), hs[n - 1])
    }
}

/// All candidate hits of a scene against a ray, in dispatch order.
pub open spec fn all_hits(s: SceneModel, ray: RayModel) -> Seq<Option<IntersectModel>> {
    cube_hits(s, ray) + line_hits(s, ray) + plane_hits(s, ray) + sphere_hits(s, ray)
}

/// The scene's answer to a ray: the nearest candidate hit over all
/// collections, later candidates winning ties.
pub open spec fn scene_hit(s: SceneModel, ray: RayModel) -> Option<IntersectModel> {
    fold_hits(all_hits(s, ray), all_hits(s, ray).len(), None)
}

/// What the fold yields: nothing only when the accumulator and every
/// candidate are nothing; otherwise one of them, no farther than any of
/// them.
pub proof fn lemma_fold_hits(hs: Seq<Option<IntersectModel>>, n: nat, init: Option<IntersectModel>)
    requires
        n <= hs.len(),
    ensures
        match fold_hits(hs, n, init) {
            None => init is None && (forall|j: int| 0 <= j < n ==> hs[j] is None),
            Some(h) => {
                &&& (init == Some(h) || exists|j: int| 0 <= j < n && hs[j] == Some(h))
                &&& (match init {
                    Some(a) => h.t <= a.t,
                    None => true,
                })
                &&& (forall|j: int|
                    0 <= j < n ==> (match #[trigger] hs[j] {
                        Some(c) => h.t <= c.t,
                        None => true,
                    }))
            },
        },
    decreases n,
{
    if n > 0 {
        lemma_fold_hits(hs, (n - 1) as nat, init);
        let prev = fold_hits(hs, (n - 1) as nat, init);
        let last = hs[n - 1];
        match fold_hits(hs, n, init) {
            None => {
            },
            Some(h) => {
                if last == Some(h) {
                    assert(0 <= n - 1 < n && hs[n - 1] == Some(h));
                } else if prev == Some(h) && init != Some(h) {
                    let j = choose|j: int| 0 <= j < n - 1 && hs[j] == Some(h);
                    assert(0 <= j < n && hs[j] == Some(h));
                }
            },
        }
    }
}

/// The law of nearest-hit dispatch: the scene reports a miss exactly when
/// every primitive misses; otherwise it reports one of the primitives'
/// hits, and no primitive's hit is nearer.
pub proof fn lemma_scene_nearest(s: SceneModel, ray: RayModel)
    ensures
        match scene_hit(s, ray) {
            None => forall|j: int| 0 <= j < all_hits(s, ray).len() ==> all_hits(s, ray)[j] is None,
            Some(h) => {
                &&& exists|j: int|
                    0 <= j < all_hits(s, ray).len() && all_hits(s, ray)[j] == Some(h)
                &&& forall|j: int|
                    0 <= j < all_hits(s, ray).len() ==> (match #[trigger] all_hits(s, ray)[j] {
                        Some(c) => h.t <= c.t,
                        None => true,
                    })
            },
        },
{
    lemma_fold_hits(all_hits(s, ray), all_hits(s, ray).len(), None);
}

/// The quality every reported hit has: nonnegative distance, unit normal,
/// well-formed material.
pub open spec fn good_hit(o: Option<IntersectModel>) -> bool {
    match o {
        Some(h) => 0 <= h.t && h.t <= crate::ray::AT_TMAX as int && is_unit(h.normal) && mat_wf(
            h.material,
        ),
        None => true,
    }
}

impl Scene {
    /// Builds an empty scene.
    pub fn new() -> (r: Scene)
        ensures
            r@.cubes.len() == 0,
            r@.lines.len() == 0,
            r@.planes.len() == 0,
            r@.spheres.len() == 0,
            scene_wf(r@),
    {
        Scene { cubes: Vec::new(), lines: Vec::new(), planes: Vec::new(), spheres: Vec::new() }
    }

    /// Appends a box.
    pub fn add_cube(&mut self, cube: Cube)
        requires
            cube_wf(cube@),
            scene_wf(old(self)@),
        ensures
            final(self)@.cubes =~= old(self)@.cubes.push(cube@),
            final(self)@.lines == old(self)@.lines,
            final(self)@.planes == old(self)@.planes,
            final(self)@.spheres == old(self)@.spheres,
            scene_wf(final(self)@),
    {
        self.cubes.push(cube);
    }

    /// Appends a line.
    pub fn add_line(&mut self, line: Line)
        requires
            line_wf(line@),
            scene_wf(old(self)@),
        ensures
            final(self)@.lines =~= old(self)@.lines.push(line@),
            final(self)@.cubes == old(self)@.cubes,
            final(self)@.planes == old(self)@.planes,
            final(self)@.spheres == old(self)@.spheres,
            scene_wf(final(self)@),
    {
        self.lines.push(line);
    }

    /// Appends a plane.
    pub fn add_plane(&mut self, plane: Plane)
        requires
            plane_wf(plane@),
            scene_wf(old(self)@),
        ensures
            final(self)@.planes =~= old(self)@.planes.push(plane@),
            final(self)@.cubes == old(self)@.cubes,
            final(self)@.lines == old(self)@.lines,
            final(self)@.spheres == old(self)@.spheres,
            scene_wf(final(self)@),
    {
        self.planes.push(plane);
    }

    /// Appends a sphere.
    pub fn add_sphere(&mut self, sphere: Sphere)
        requires
            sphere_wf(sphere@),
            scene_wf(old(self)@),
        ensures
            final(self)@.spheres =~= old(self)@.spheres.push(sphere@),
            final(self)@.cubes == old(self)@.cubes,
            final(self)@.lines == old(self)@.lines,
            final(self)@.planes == old(self)@.planes,
            scene_wf(final(self)@),
    {
        self.spheres.push(sphere);
    }

    /// Intersects a ray with every primitive and returns the nearest hit,
    /// or `None` when everything misses.
    pub fn intersect(&self, ray: &Ray) -> (res: Option<IntersectResult>)
        requires
            scene_wf(self@),
            ray_wf(ray@),
        ensures
            ires_of(res) == scene_hit(self@, ray@),
            good_hit(ires_of(res)),
    {
        let ghost hs_c = cube_hits(self@, ray@);
        let ghost hs_l = line_hits(self@, ray@);
        let ghost hs_p = plane_hits(self@, ray@);
        let ghost hs_s = sphere_hits(self@, ray@);
        let mut best: Option<IntersectResult> = None;

        let mut i: usize = 0;
        while i < self.cubes.len()
            invariant
                i <= self.cubes.len(),
                scene_wf(self@),
                ray_wf(ray@),
                hs_c == cube_hits(self@, ray@),
                ires_of(best) == fold_hits(hs_c, i as nat, None::<IntersectModel>),
                good_hit(ires_of(best)),
            decreases self.cubes.len() - i,
        {
            proof {
                assert(self@.cubes[i as int] == self.cubes@[i as int]@);
                assert(cube_wf(self@.cubes[i as int]));
                assert(hs_c[i as int] == hit_to_ires(cube_hit(self@.cubes[i as int], ray@)));
            }
            let r = self.cubes[i].intersect(ray);
            if let Some(p) = r {
                let cand = IntersectResult { t: p.0, normal: p.1, material: Material::default() };
                best = match best {
                    Some(b) => if cand.t <= b.t {
                        Some(cand)
                    } else {
                        Some(b)
                    },
                    None => Some(cand),
                };
            }
            i += 1;
        }

        let ghost init_l = ires_of(best);
        let mut i: usize = 0;
        while i < self.lines.len()
            invariant
                i <= self.lines.len(),
                scene_wf(self@),
                ray_wf(ray@),
                hs_l == line_hits(self@, ray@),
                ires_of(best) == fold_hits(hs_l, i as nat, init_l),
                good_hit(ires_of(best)),
            decreases self.lines.len() - i,
        {
            proof {
                assert(self@.lines[i as int] == self.lines@[i as int]@);
                assert(line_wf(self@.lines[i as int]));
                assert(hs_l[i as int] == line_hit(self@.lines[i as int], ray@));
            }
            let r = self.lines[i].intersect(ray);
            if let Some(c) = r {
                best = match best {
                    Some(b) => if c.t <= b.t {
                        Some(c)
                    } else {
                        Some(b)
                    },
                    None => Some(c),
                };
            }
            i += 1;
        }

        let ghost init_p = ires_of(best);
        let mut i: usize = 0;
        while i < self.planes.len()
            invariant
                i <= self.planes.len(),
                scene_wf(self@),
                ray_wf(ray@),
                hs_p == plane_hits(self@, ray@),
                ires_of(best) == fold_hits(hs_p, i as nat, init_p),
                good_hit(ires_of(best)),
            decreases self.planes.len() - i,
        {
            proof {
                assert(self@.planes[i as int] == self.planes@[i as int]@);
                assert(plane_wf(self@.planes[i as int]));
                assert(hs_p[i as int] == plane_hit(self@.planes[i as int], ray@));
            }
            let r = self.planes[i].intersect(ray);
            if let Some(c) = r {
                best = match best {
                    Some(b) => if c.t <= b.t {
                        Some(c)
                    } else {
                        Some(b)
                    },
                    None => Some(c),
                };
            }
            i += 1;
        }

        let ghost init_s = ires_of(best);
        let mut i: usize = 0;
        while i < self.spheres.len()
            invariant
                i <= self.spheres.len(),
                scene_wf(self@),
                ray_wf(ray@),
                hs_s == sphere_hits(self@, ray@),
                ires_of(best) == fold_hits(hs_s, i as nat, init_s),
                good_hit(ires_of(best)),
            decreases self.spheres.len() - i,
        {
            proof {
                assert(self@.spheres[i as int] == self.spheres@[i as int]@);
                assert(sphere_wf(self@.spheres[i as int]));
                assert(hs_s[i as int] == hit_to_ires(sphere_hit(self@.spheres[i as int], ray@)));
            }
            let r = self.spheres[i].intersect(ray);
            if let Some(p) = r {
                let cand = IntersectResult { t: p.0, normal: p.1, material: Material::default() };
                best = match best {
                    Some(b) => if cand.t <= b.t {
                        Some(cand)
                    } else {
                        Some(b)
                    },
                    None => Some(cand),
                };
            }
            i += 1;
        }

        proof {
            lemma_fold_concat(self@, ray@);
        }
        best
    }
}

/// Folding the four groups one after the other equals folding their
/// concatenation.
proof fn lemma_fold_concat(s: SceneModel, ray: RayModel)
    ensures
        scene_hit(s, ray) == fold_hits(
            sphere_hits(s, ray),
            sphere_hits(s, ray).len(),
            fold_hits(
                plane_hits(s, ray),
                plane_hits(s, ray).len(),
                fold_hits(
                    line_hits(s, ray),
                    line_hits(s, ray).len(),
                    fold_hits(cube_hits(s, ray), cube_hits(s, ray).len(), None),
                ),
            ),
        ),
{
    let a = cube_hits(s, ray);
    let b = line_hits(s, ray);
    let c = plane_hits(s, ray);
    let d = sphere_hits(s, ray);
    lemma_fold_append(a, b, None);
    lemma_fold_append(a + b, c, None);
    lemma_fold_append(a + b + c, d, None);
    assert(a + b + c + d == all_hits(s, ray));
}

/// Folding a concatenation is folding the second part on top of the fold
/// of the first.
proof fn lemma_fold_append(
    xs: Seq<Option<IntersectModel>>,
    ys: Seq<Option<IntersectModel>>,
    init: Option<IntersectModel>,
)
    ensures
        fold_hits(xs + ys, (xs + ys).len(), init) == fold_hits(
            ys,
            ys.len(),
            fold_hits(xs, xs.len(), init),
        ),
    decreases ys.len(),
{
    if ys.len() == 0 {
        assert(xs + ys =~= xs);
    } else {
        let ys0 = ys.drop_last();
        let i2 = fold_hits(xs, xs.len(), init);
        lemma_fold_append(xs, ys0, init);
        assert((xs + ys).subrange(0, (xs + ys).len() - 1) =~= xs + ys0);
        assert(ys.subrange(0, ys0.len() as int) =~= ys0);
        lemma_fold_prefix(xs + ys, ((xs + ys).len() - 1) as nat, init);
        lemma_fold_prefix(ys, ys0.len(), i2);
        assert((xs + ys)[(xs + ys).len() - 1] == ys[ys.len() - 1]);
        assert(fold_hits(xs + ys, (xs + ys).len(), init) == pick(
            fold_hits(xs + ys, ((xs + ys).len() - 1) as nat, init),
            (xs + ys)[(xs + ys).len() - 1],
        ));
        assert(fold_hits(ys, ys.len(), i2) == pick(
            fold_hits(ys, ys0.len(), i2),
            ys[ys.len() - 1],
        ));
    }
}

/// Folding the first `n` elements of a sequence ignores what lies beyond
/// `n`.
proof fn lemma_fold_prefix(
    hs: Seq<Option<IntersectModel>>,
    n: nat,
    init: Option<IntersectModel>,
)
    requires
        n <= hs.len(),
    ensures
        fold_hits(hs, n, init) == fold_hits(hs.subrange(0, n as int), n, init),
    decreases n,
{
    if n > 0 {
        lemma_fold_prefix(hs, (n - 1) as nat, init);
        assert(hs.subrange(0, (n - 1) as int) =~= hs.subrange(0, n as int).subrange(
            0,
            (n - 1) as int,
        ));
        lemma_fold_prefix(hs.subrange(0, n as int), (n - 1) as nat, init);
    }
}

} // verus!
