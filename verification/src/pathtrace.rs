//! The Monte-Carlo path integrator: nearest-intersection queries, emissive
//! area sampling, the Cook-Torrance reflectance and the recursive estimator
//! with Russian-roulette termination under a hard depth cap.
use crate::bvh::{nearer_hit, nearest_in_triangles, node_nearest, ray_eps, BVHTree, TraceHit};
use crate::model::{
    EmissiveMaterial, IlluminateType, MaterialNew, PBRMaterial, Triangle, TriangulatedModel,
};
use crate::rat::{ch_div, q_add, q_eq, q_int, q_le, q_lt, q_mul, q_neg, q_sub, q_wf, Q, Rat};
use crate::ray::{QHit, Ray};
use crate::vec::{V3q, Vector3, Vector4};
use vstd::prelude::*;

verus! {

/// The numerator of the Russian-roulette survival probability over
/// `RR_DEN = 1000` (survival `9/10`).
pub const RR_NUM: u32 = 900;

pub const RR_DEN: u32 = 1000;

/// The hard recursion cap: probabilistic termination alone would leave the
/// stack depth unbounded.
pub const MAX_DEPTH: usize = 64;

/// The denominator used when drawing uniform fractions.
pub const FRAC_DEN: u32 = 0x1_0000;

/// A rational approximation of pi used by the reflectance model.
pub const PI_NUM: i64 = 355;

pub const PI_DEN: i64 = 113;

/// One resolved intersection, ready for shading.  `distance` is the ray
/// parameter of the hit, in units of the ray direction's length.
#[derive(Debug, Clone, Copy)]
pub struct HitResult {
    pub position: Vector3,
    pub normal: Vector3,
    pub distance: Rat,
    pub emit: Option<Vector3>,
    pub material: Option<MaterialNew>,
}

impl HitResult {
    pub open spec fn wf(&self) -> bool {
        &&& self.position.wf()
        &&& self.normal.wf()
        &&& self.distance.wf()
        &&& (self.emit matches Some(e) ==> e.wf())
        &&& (self.material matches Some(m) ==> m.wf())
    }

    /// The microfacet material of the hit surface, when it has one.
    pub fn pbr_material(&self) -> (r: Option<&PBRMaterial>)
        ensures
            r matches Some(m) ==> self.material == Some(MaterialNew::PBR(*m)),
            r is None <==> !(self.material matches Some(m) && m is PBR),
    {
        match &self.material {
            Some(MaterialNew::PBR(m)) => Some(m),
            _ => None,
        }
    }
}

/// Draw a uniform fraction in `[0, 1]` with denominator `FRAC_DEN`.
pub fn rand_fraction() -> (r: Rat)
    ensures
        r.wf(),
        q_le(q_int(0), r@),
        q_le(r@, q_int(1)),
{
    let n = crate::rng::rand_upto(FRAC_DEN);
    let r = Rat::new(n as i64, FRAC_DEN as i64);
    proof {
        crate::rat::lemma_canon(Q { n: n as int, d: FRAC_DEN as int });
        crate::rat::lemma_q_le_congruence(
            q_int(0),
            Q { n: n as int, d: FRAC_DEN as int },
            q_int(0),
            r@,
        );
        crate::rat::lemma_q_le_congruence(
            Q { n: n as int, d: FRAC_DEN as int },
            q_int(1),
            r@,
            q_int(1),
        );
    }
    r
}

/// The checked resolution of a traversal hit: the blended position, the
/// blended (unnormalized) vertex normal or the zero vector, and the clamped
/// emitted radiance of an emissive material.
pub open spec fn ch_resolve(tri: Triangle, q: QHit) -> Option<(V3q, V3q, Option<V3q>)> {
    match crate::model::ch_interp4(
        tri.vertexs@[0].position@,
        tri.vertexs@[1].position@,
        tri.vertexs@[2].position@,
        q.b0,
        q.b1,
        q.b2,
    ) {
        Some(p4) => {
            let position = V3q { x: p4.x, y: p4.y, z: p4.z };
            let normal_opt: Option<V3q> = match (tri.vertexs@[0].normal, tri.vertexs@[1].normal,
            tri.vertexs@[2].normal) {
                (Some(n0), Some(n1), Some(n2)) => match crate::model::ch_interp4(
                    n0@,
                    n1@,
                    n2@,
                    q.b0,
                    q.b1,
                    q.b2,
                ) {
                    Some(n4) => Some(V3q { x: n4.x, y: n4.y, z: n4.z }),
                    None => None,
                },
                _ => Some(V3q { x: q_int(0), y: q_int(0), z: q_int(0) }),
            };
            match normal_opt {
                Some(normal) => match tri.material {
                    Some(MaterialNew::Emissive(e)) => match crate::vec::ch_v3_scale(
                        e.base_color@,
                        e.intensity@,
                    ) {
                        Some(base) => Some((position, normal, Some(crate::vec::v3_max0(base)))),
                        None => None,
                    },
                    _ => Some((position, normal, None)),
                },
                None => None,
            }
        },
        None => None,
    }
}

/// A shading record carries exactly the values of a checked resolution.
pub open spec fn hit_result_views(h: HitResult, e: (V3q, V3q, Option<V3q>), tri: Triangle, q: QHit) -> bool {
    &&& h.position@ == e.0
    &&& h.normal@ == e.1
    &&& (match (h.emit, e.2) {
        (Some(a), Some(b)) => a@ == b,
        (None, None) => true,
        _ => false,
    })
    &&& h.distance@ == q.t
    &&& h.material == tri.material
}

/// Resolve a traversal hit into a shading record: the hit position is the
/// certified point on the ray, the normal is the barycentric blend of the
/// vertex normals (the zero vector when a vertex has none), and the emitted
/// radiance comes from an emissive material, clamped nonnegative.  The
/// result equals `ch_resolve` of the hit's values exactly.
fn resolve_hit(h: &TraceHit) -> (r: Option<HitResult>)
    requires
        h.triangle.wf(),
        h.hit.t.wf(),
        h.hit.b0.wf(),
        h.hit.b1.wf(),
        h.hit.b2.wf(),
    ensures
        ({
            let q = QHit { t: h.hit.t@, b0: h.hit.b0@, b1: h.hit.b1@, b2: h.hit.b2@ };
            match ch_resolve(h.triangle, q) {
                Some(e) => r matches Some(v) && v.wf() && hit_result_views(v, e, h.triangle, q),
                None => r is None,
            }
        }),
        r matches Some(v) ==> v.wf() && v.distance == h.hit.t && (v.emit matches Some(e) ==> q_le(
            q_int(0),
            e@.x,
        ) && q_le(q_int(0), e@.y) && q_le(q_int(0), e@.z)),
{
    let t = &h.triangle;
    let p0 = &t.vertexs[0].position;
    let p1 = &t.vertexs[1].position;
    let p2 = &t.vertexs[2].position;
    let pos4 = crate::model::interpolate_vec4(p0, p1, p2, &h.hit.b0, &h.hit.b1, &h.hit.b2)?;
    let position = Vector3::from_vector4(&pos4);
    let normal = match (&t.vertexs[0].normal, &t.vertexs[1].normal, &t.vertexs[2].normal) {
        (Some(n0), Some(n1), Some(n2)) => {
            let n4 = crate::model::interpolate_vec4(n0, n1, n2, &h.hit.b0, &h.hit.b1, &h.hit.b2)?;
            Vector3::from_vector4(&n4)
        },
        _ => {
            let z = Rat::zero();
            Vector3 { x: z, y: z, z: z }
        },
    };
    let emit: Option<Vector3> = match &t.material {
        Some(MaterialNew::Emissive(e)) => {
            let base = e.base_color.scale(&e.intensity)?;
            Some(base.clamp0())
        },
        _ => None,
    };
    Some(
        HitResult { position, normal, distance: h.hit.t, emit, material: t.material },
    )
}

/// The nearest valid hit among the first `m` objects' triangles: the merge
/// fold of each object's own `best_in` fold.
pub open spec fn scene_best_upto(objects: Seq<TriangulatedModel>, ray: Ray, m: int) -> Option<
    (Triangle, QHit),
>
    decreases m,
{
    if m <= 0 {
        None
    } else {
        let prev = scene_best_upto(objects, ray, m - 1);
        match crate::bvh::best_in(objects[m - 1].triangles@, ray) {
            Some(c) => crate::bvh::merge_best(prev, c),
            None => prev,
        }
    }
}

/// The nearest valid hit over the whole scene.
pub open spec fn scene_best(objects: Seq<TriangulatedModel>, ray: Ray) -> Option<
    (Triangle, QHit),
> {
    scene_best_upto(objects, ray, objects.len() as int)
}

/// The checked camera-ray chain of one pixel: the screen-space direction
/// `((2x/width - 1) * fov * aspect, (1 - 2y/height) * fov, -1)` and the
/// fixed eye `(0, width/2, width * 17/10)`.
pub open spec fn ch_pixel_ray(width: int, height: int, fov: Q, x: int, y: int) -> Option<
    (V3q, V3q),
> {
    let w = q_int(width);
    let h = q_int(height);
    match ch_div(w, h) {
        Some(aspect) => match crate::rat::ch_mul(q_int(2), q_int(x)) {
            Some(tx) => match ch_div(tx, w) {
                Some(u) => match crate::rat::ch_sub(u, q_int(1)) {
                    Some(v) => match crate::rat::ch_mul(v, fov) {
                        Some(vf) => match crate::rat::ch_mul(vf, aspect) {
                            Some(sx) => match crate::rat::ch_mul(q_int(2), q_int(y)) {
                                Some(ty) => match ch_div(ty, h) {
                                    Some(u2) => match crate::rat::ch_sub(q_int(1), u2) {
                                        Some(v2) => match crate::rat::ch_mul(v2, fov) {
                                            Some(sy) => match crate::rat::ch_mul(
                                                w,
                                                Q { n: 17, d: 10 },
                                            ) {
                                                Some(oz) => match ch_div(w, q_int(2)) {
                                                    Some(oy) => Some(
                                                        (
                                                            V3q { x: q_int(0), y: oy, z: oz },
                                                            V3q {
                                                                x: sx,
                                                                y: sy,
                                                                z: q_neg(q_int(1)),
                                                            },
                                                        ),
                                                    ),
                                                    None => None,
                                                },
                                                None => None,
                                            },
                                            None => None,
                                        },
                                        None => None,
                                    },
                                    None => None,
                                },
                                None => None,
                            },
                            None => None,
                        },
                        None => None,
                    },
                    None => None,
                },
                None => None,
            },
            None => None,
        },
        None => None,
    }
}

/// The path tracer over a triangulated scene.
pub struct RayTracer {
    pub objects: Vec<TriangulatedModel>,
    pub objects_tree: Option<BVHTree>,
    pub width: usize,
    pub height: usize,
    pub spp: usize,
    /// Tangent of half the vertical field of view.
    pub fov_scale: Rat,
    pub background_color: Vector3,
}

impl RayTracer {
    pub open spec fn wf(&self) -> bool {
        &&& forall|k: int| 0 <= k < self.objects@.len() ==> (#[trigger] self.objects@[k]).wf()
        &&& (self.objects_tree matches Some(t) ==> t.root.wf())
        &&& self.fov_scale.wf()
        &&& self.background_color.wf()
        &&& q_le(q_int(0), self.background_color@.x)
        &&& q_le(q_int(0), self.background_color@.y)
        &&& q_le(q_int(0), self.background_color@.z)
        &&& 1 <= self.width <= 0x1000_0000
        &&& 1 <= self.height <= 0x1000_0000
    }

    /// Build a tracer over the given scene.  The background defaults to a
    /// uniform `27/100` gray.
    pub fn new(
        width: usize,
        height: usize,
        triangles: Vec<Triangle>,
        objects: Vec<TriangulatedModel>,
        spp: usize,
    ) -> (r: RayTracer)
        requires
            crate::bvh::all_tris_wf(triangles@),
            forall|k: int| 0 <= k < objects@.len() ==> (#[trigger] objects@[k]).wf(),
            1 <= width <= 0x1000_0000,
            1 <= height <= 0x1000_0000,
        ensures
            r.wf(),
    {
        let objects_tree = BVHTree::from_triangles(triangles);
        let g = Rat::new(27, 100);
        let background_color = Vector3 { x: g, y: g, z: g }.clamp0();
        RayTracer {
            objects,
            objects_tree,
            width,
            height,
            spp,
            fov_scale: Rat::new(414213, 1000000),
            background_color,
        }
    }

    /// The camera ray through pixel `(x, y)`: the eye sits above the scene
    /// on the `z` axis looking down `-z`; the direction is left
    /// unnormalized, so hit parameters are measured in units of its length.
    /// The origin and direction equal the checked chain `ch_pixel_ray`
    /// exactly.
    pub fn pixel_to_ray(&self, x: usize, y: usize) -> (r: Option<Ray>)
        requires
            self.wf(),
            x < self.width,
            y < self.height,
        ensures
            (r is Some) == (ch_pixel_ray(
                self.width as int,
                self.height as int,
                self.fov_scale@,
                x as int,
                y as int,
            ) is Some),
            r matches Some(ray) ==> ({
                let e = ch_pixel_ray(
                    self.width as int,
                    self.height as int,
                    self.fov_scale@,
                    x as int,
                    y as int,
                )->Some_0;
                ray.wf() && ray.origin@ == e.0 && ray.dir@ == e.1 && q_eq(
                    ray.dir@.z,
                    q_neg(q_int(1)),
                )
            }),
    {
        let w = Rat::from_int(self.width as i64);
        let h = Rat::from_int(self.height as i64);
        let aspect = w.div(&h)?;
        let two = Rat::from_int(2);
        let one = Rat::one();
        // x' = (2x / width - 1) * scale * aspect
        let sx = two.mul(&Rat::from_int(x as i64))?.div(&w)?.sub(&one)?.mul(&self.fov_scale)?.mul(
            &aspect,
        )?;
        // y' = (1 - 2y / height) * scale
        let sy = one.sub(&two.mul(&Rat::from_int(y as i64))?.div(&h)?)?.mul(&self.fov_scale)?;
        let dir = Vector3 { x: sx, y: sy, z: one.neg() };
        // The eye sits above the scene center, as far as the frame is wide.
        let seventeen_tenths = Rat::new(17, 10);
        proof {
            reveal_with_fuel(crate::rat::gcd, 6);
            assert(crate::rat::gcd(17nat, 10nat) == 1);
            assert(17int / 1int == 17int);
            assert(10int / 1int == 10int);
            assert(seventeen_tenths@ == (Q { n: 17, d: 10 }));
        }
        let oz = w.mul(&seventeen_tenths)?;
        let oy = w.div(&two)?;
        let origin = Vector3 { x: Rat::zero(), y: oy, z: oz };
        Some(Ray { origin, dir })
    }

    /// Brute-force nearest intersection over every triangle of the scene.
    /// The result equals the resolution of the `scene_best` fold exactly:
    /// `None` means no triangle of any object has a representable valid hit
    /// (or the nearest one's resolution overflows), and a returned record
    /// carries the fold's nearest hit resolved.
    #[verifier::rlimit(60)]
    pub fn get_nearest_intersection(&self, ray: &Ray) -> (r: Option<HitResult>)
        requires
            self.wf(),
            ray.wf(),
        ensures
            r matches Some(h) ==> h.wf() && q_le(ray_eps(), h.distance@),
            ({
                match scene_best(self.objects@, *ray) {
                    Some(b) => match ch_resolve(b.0, b.1) {
                        Some(e) => r matches Some(h) && hit_result_views(h, e, b.0, b.1),
                        None => r is None,
                    },
                    None => r is None,
                }
            }),
    {
        let mut best: Option<TraceHit> = None;
        let mut m: usize = 0;
        while m < self.objects.len()
            invariant
                self.wf(),
                ray.wf(),
                m <= self.objects@.len(),
                best matches Some(h) ==> h.sound(*ray),
                crate::bvh::opt_trace_views(best, scene_best_upto(self.objects@, *ray, m as int)),
            decreases self.objects@.len() - m,
        {
            let ghost prev_spec = scene_best_upto(self.objects@, *ray, m as int);
            let cand = nearest_in_triangles(&self.objects[m].triangles, ray);
            best = nearer_hit(best, cand, ray);
            proof {
                assert(scene_best_upto(self.objects@, *ray, m as int + 1) == (match
                    crate::bvh::best_in(self.objects@[m as int].triangles@, *ray) {
                    Some(c) => crate::bvh::merge_best(prev_spec, c),
                    None => prev_spec,
                }));
            }
            m += 1;
        }
        match best {
            Some(h) => {
                let r = resolve_hit(&h);
                proof {
                    let b = scene_best(self.objects@, *ray)->Some_0;
                    assert(QHit { t: h.hit.t@, b0: h.hit.b0@, b1: h.hit.b1@, b2: h.hit.b2@ }
                        == b.1);
                }
                r
            },
            None => None,
        }
    }

    /// Nearest intersection through the bounding-volume hierarchy.  The
    /// result equals the resolution of the brute-force nearest-hit fold over
    /// every triangle stored in the tree: traversal loses no hit and invents
    /// none.
    pub fn nearest_intersection_bvh(&self, ray: &Ray) -> (r: Option<HitResult>)
        requires
            self.wf(),
            ray.wf(),
        ensures
            r matches Some(h) ==> h.wf() && q_le(ray_eps(), h.distance@),
            ({
                match self.objects_tree {
                    Some(tree) => (match crate::bvh::best_in(
                        crate::bvh::node_tris(tree.root),
                        *ray,
                    ) {
                        Some(b) => match ch_resolve(b.0, b.1) {
                            Some(e) => r matches Some(h) && hit_result_views(h, e, b.0, b.1),
                            None => r is None,
                        },
                        None => r is None,
                    }),
                    None => r is None,
                }
            }),
    {
        match &self.objects_tree {
            Some(tree) => {
                let best = node_nearest(&tree.root, ray);
                match best {
                    Some(h) => {
                        let r = resolve_hit(&h);
                        proof {
                            let b = crate::bvh::best_in(
                                crate::bvh::node_tris(self.objects_tree->Some_0.root),
                                *ray,
                            )->Some_0;
                            assert(QHit {
                                t: h.hit.t@,
                                b0: h.hit.b0@,
                                b1: h.hit.b1@,
                                b2: h.hit.b2@,
                            } == b.1);
                        }
                        r
                    },
                    None => None,
                }
            },
            None => None,
        }
    }

    /// Pick a point on an emissive surface with probability proportional to
    /// its owner's area: walk the emitters accumulating area until the drawn
    /// value falls inside one, then sample that model.  Returns the light
    /// point and the (positive) area density it was drawn with, which is
    /// exactly the reciprocal of some emissive object's area; a scene
    /// without an emissive object yields no sample.
    pub fn sample_light(&self) -> (r: Option<(HitResult, Rat)>)
        requires
            self.wf(),
        ensures
            r matches Some(v) ==> v.0.wf() && v.1.wf() && q_lt(q_int(0), v.1@),
            r matches Some(v) ==> exists|i: int|
                0 <= i < self.objects@.len() && ((#[trigger] self.objects@[i]).material matches Some(
                    m,
                ) && m is Emissive) && Some(v.1@) == ch_div(q_int(1), self.objects@[i].area@),
            (forall|i: int|
                0 <= i < self.objects@.len() ==> !((#[trigger] self.objects@[i]).material matches
                    Some(m) && m is Emissive)) ==> r is None,
    {
        // Total emitting area.
        let mut emit_area = Rat::zero();
        let mut m: usize = 0;
        while m < self.objects.len()
            invariant
                self.wf(),
                m <= self.objects@.len(),
                emit_area.wf(),
            decreases self.objects@.len() - m,
        {
            if self.objects[m].has_emit() {
                emit_area = match emit_area.add(&self.objects[m].area()) {
                    Some(v) => v,
                    None => {
                        return None;
                    },
                };
            }
            m += 1;
        }
        let p = rand_fraction().mul(&emit_area)?;
        let mut acc = Rat::zero();
        let mut m: usize = 0;
        while m < self.objects.len()
            invariant
                self.wf(),
                m <= self.objects@.len(),
                acc.wf(),
                p.wf(),
            decreases self.objects@.len() - m,
        {
            if self.objects[m].has_emit() {
                acc = match acc.add(&self.objects[m].area()) {
                    Some(v) => v,
                    None => {
                        return None;
                    },
                };
                if p.le(&acc) {
                    let picked = sample_model(&self.objects[m]);
                    proof {
                        if picked is Some {
                            assert(0 <= m < self.objects@.len() && (self.objects@[m as int].material
                                matches Some(mm) && mm is Emissive));
                        }
                    }
                    return picked;
                }
            }
            m += 1;
        }
        None
    }
}

/// A light sample drawn from one triangle: the weights are a convex
/// combination, the position is exactly their blend of the triangle's
/// vertices, and the sample emits exactly the triangle's clamped
/// `base_color * intensity` when its material is emissive, nothing
/// otherwise.
pub open spec fn sampled_from(tri: Triangle, h: HitResult, a: Q, b: Q, c: Q) -> bool {
    &&& q_wf(a) && q_wf(b) && q_wf(c)
    &&& q_le(q_int(0), a) && q_le(q_int(0), b) && q_le(q_int(0), c)
    &&& q_eq(q_add(q_add(a, b), c), q_int(1))
    &&& crate::model::ch_interp4(
        tri.vertexs@[0].position@,
        tri.vertexs@[1].position@,
        tri.vertexs@[2].position@,
        a,
        b,
        c,
    ) matches Some(p4) && h.position@ == (V3q { x: p4.x, y: p4.y, z: p4.z })
    &&& (match tri.material {
        Some(MaterialNew::Emissive(e)) => crate::vec::ch_v3_scale(e.base_color@, e.intensity@)
            matches Some(base) && h.emit matches Some(em) && em@ == crate::vec::v3_max0(base),
        _ => h.emit is None,
    })
    &&& h.material == tri.material
}

/// Sample a point of one emissive model uniformly over its surface: choose
/// a triangle with probability proportional to its stored area (a drawn
/// fraction of the total area, walked through the cumulative per-triangle
/// areas; the last triangle absorbs a draw past the stored sum), then a
/// point inside it by the square-root barycentric map.  The density is
/// exactly the reciprocal of the model's stored area, and the sample point
/// is a certified convex combination of one of the model's triangles.
pub fn sample_model(model: &TriangulatedModel) -> (r: Option<(HitResult, Rat)>)
    requires
        model.wf(),
    ensures
        model.triangles@.len() == 0 ==> r is None,
        !q_lt(q_int(0), model.area@) ==> r is None,
        r matches Some(v) ==> {
            &&& v.0.wf() && v.1.wf() && q_lt(q_int(0), v.1@)
            &&& Some(v.1@) == ch_div(q_int(1), model.area@)
            &&& exists|i: int, a: Q, b: Q, c: Q|
                0 <= i < model.triangles@.len() && #[trigger] sampled_from(
                    model.triangles@[i],
                    v.0,
                    a,
                    b,
                    c,
                )
        },
{
    if model.triangles.len() == 0 {
        return None;
    }
    let area = model.area();
    let zero = Rat::zero();
    if !zero.lt(&area) {
        return None;
    }
    let pdf = Rat::one().div(&area)?;
    if !zero.lt(&pdf) {
        return None;
    }
    // Walk the cumulative per-triangle areas: the drawn point falls in the
    // triangle whose range contains it, so larger triangles are chosen
    // proportionally more often and the surface is sampled uniformly.
    let n = model.triangles.len();
    let pick = rand_fraction().mul(&area)?;
    let mut idx: usize = n - 1;
    let mut found = false;
    let mut acc = Rat::zero();
    let mut i: usize = 0;
    while i < n
        invariant
            model.wf(),
            n == model.triangles@.len(),
            n >= 1,
            idx < n,
            acc.wf(),
            pick.wf(),
            i <= n,
        decreases n - i,
    {
        if !found {
            acc = match acc.add(&model.triangles[i].area) {
                Some(v) => v,
                None => {
                    return None;
                },
            };
            if pick.le(&acc) {
                idx = i;
                found = true;
            }
        }
        i += 1;
    }
    let tri = model.triangles[idx];
    let (a, b, c) = ({
        let x = Rat::sqrt_approx(&rand_fraction());
        let y = rand_fraction();
        let one = Rat::one();
        let a = one.sub(&x)?;
        let b = x.mul(&one.sub(&y)?)?;
        let c = x.mul(&y)?;
        // Certify the convex combination exactly.
        let s01 = a.add(&b)?;
        let s = s01.add(&c)?;
        if !s.eq_rat(&one) || a.lt(&zero) || b.lt(&zero) || c.lt(&zero) {
            return None;
        }
        proof {
            crate::vec::lemma_q_ops_wf(a@, b@);
            crate::vec::lemma_fit_canon_val(q_add(a@, b@));
            crate::vec::lemma_q_ops_wf(s01@, c@);
            crate::vec::lemma_fit_canon_val(q_add(s01@, c@));
            crate::ray::lemma_sum_transfer(a@, b@, c@, s01@, s@);
        }
        (a, b, c)
    });
    let pos4 = crate::model::interpolate_vec4(
        &tri.vertexs[0].position,
        &tri.vertexs[1].position,
        &tri.vertexs[2].position,
        &a,
        &b,
        &c,
    )?;
    let position = Vector3::from_vector4(&pos4);
    let normal = match (&tri.vertexs[0].normal, &tri.vertexs[1].normal, &tri.vertexs[2].normal) {
        (Some(n0), Some(n1), Some(n2)) => {
            let n4 = crate::model::interpolate_vec4(n0, n1, n2, &a, &b, &c)?;
            Vector3::from_vector4(&n4)
        },
        _ => {
            let z = Rat::zero();
            Vector3 { x: z, y: z, z: z }
        },
    };
    let emit: Option<Vector3> = match &tri.material {
        Some(MaterialNew::Emissive(e)) => {
            let base = e.base_color.scale(&e.intensity)?;
            Some(base.clamp0())
        },
        _ => None,
    };
    let hit = HitResult {
        position,
        normal,
        distance: Rat::zero(),
        emit,
        material: tri.material,
    };
    proof {
        crate::vec::lemma_q_ops_wf(a@, b@);
        crate::vec::lemma_fit_canon_val(q_add(a@, b@));
        assert(sampled_from(tri, hit, a@, b@, c@));
        assert(0 <= idx < model.triangles@.len());
    }
    Some((hit, pdf))
}

impl RayTracer {
    /// The recursive Monte-Carlo radiance estimator.  Radiance is never
    /// negative: every contribution is clamped at zero before it is summed,
    /// and numerical degeneracies contribute nothing.  Below the depth cap
    /// the base cases are pinned: a ray whose scene fold finds no hit (or
    /// whose hit cannot be resolved) returns the background color, and a ray
    /// whose nearest hit is emissive returns white at depth zero and black
    /// deeper, so emitted light is counted once, by next-event estimation.
    pub fn shade(&self, ray: &Ray, depth: usize) -> (r: Vector3)
        requires
            self.wf(),
            ray.wf(),
        ensures
            r.wf(),
            q_le(q_int(0), r@.x),
            q_le(q_int(0), r@.y),
            q_le(q_int(0), r@.z),
            depth < MAX_DEPTH ==> match scene_best(self.objects@, *ray) {
                None => r == self.background_color,
                Some(b) => match ch_resolve(b.0, b.1) {
                    None => r == self.background_color,
                    Some(e) => e.2 is Some ==> ((depth == 0 ==> r@ == (V3q {
                        x: q_int(1),
                        y: q_int(1),
                        z: q_int(1),
                    })) && (depth > 0 ==> r@ == (V3q { x: q_int(0), y: q_int(0), z: q_int(0) }))),
                },
            },
        decreases MAX_DEPTH - depth,
    {
        let zero = Rat::zero();
        let black = Vector3 { x: zero, y: zero, z: zero }.clamp0();
        if depth >= MAX_DEPTH {
            return black;
        }
        let intersection = match self.get_nearest_intersection(ray) {
            Some(i) => i,
            None => {
                return self.background_color;
            },
        };
        if intersection.emit.is_some() {
            if depth > 0 {
                return black;
            }
            let one = Rat::one();
            return (Vector3 { x: one, y: one, z: one }).clamp0();
        }
        // The reflectance model expects unit directions: scale the outgoing
        // direction and the blended normal to approximately unit length
        // (which keeps their directions exactly).
        let wo = match crate::vec::normalized_approx(&ray.dir.neg()) {
            Some(u) => u,
            None => ray.dir.neg(),
        };
        let p = intersection.position;
        let n = match crate::vec::normalized_approx(&intersection.normal) {
            Some(u) => u,
            None => intersection.normal,
        };

        // Direct lighting by next-event estimation.
        let mut l_dir = black;
        match self.sample_light() {
            Some((inter, pdf_light)) => {
                match self.direct_light(&intersection, &inter, &pdf_light, &p, &n, &wo) {
                    Some(v) => {
                        l_dir = v;
                    },
                    None => {},
                }
            },
            None => {},
        }

        // Indirect lighting by material importance sampling, with Russian
        // roulette.
        let mut l_indir = black;
        let ksi = crate::rng::rand_upto(RR_DEN);
        if ksi < RR_NUM {
            match self.indirect_light(&intersection, &p, &n, &wo, depth) {
                Some(v) => {
                    l_indir = v;
                },
                None => {},
            }
        }
        match l_dir.add(&l_indir) {
            Some(v) => v.clamp0(),
            None => black,
        }
    }

    /// The next-event term: cast a shadow ray at the sampled light point and,
    /// when it is unoccluded, weight the emission by the reflectance, the two
    /// unit-direction cosines and the inverse squared distance over the light
    /// density: `emission * BRDF * |cos0| * |cos1| / (dist^2 * pdf)`.  The
    /// cosines are taken against the unit-scaled shadow direction, so the
    /// squared-distance attenuation survives in the weight instead of
    /// cancelling against unnormalized dot products.  Degenerate
    /// denominators contribute nothing (`None`).
    fn direct_light(
        &self,
        intersection: &HitResult,
        light: &HitResult,
        pdf_light: &Rat,
        p: &Vector3,
        n: &Vector3,
        wo: &Vector3,
    ) -> (r: Option<Vector3>)
        requires
            self.wf(),
            intersection.wf(),
            light.wf(),
            pdf_light.wf(),
            q_lt(q_int(0), pdf_light@),
            p.wf(),
            n.wf(),
            wo.wf(),
        ensures
            r matches Some(v) ==> v.wf() && q_le(q_int(0), v@.x) && q_le(q_int(0), v@.y) && q_le(
                q_int(0),
                v@.z,
            ),
    {
        let li = match &light.emit {
            Some(e) => *e,
            None => {
                return None;
            },
        };
        let x = light.position;
        let nn = light.normal;
        let ws = x.sub(p)?;
        let rray = Ray::new(p, &ws);
        let nearest = self.get_nearest_intersection(&rray)?;
        // Unoccluded: the nearest hit lands on the sampled point, within the
        // self-intersection tolerance, measured by squared distance.
        let dv = nearest.position.sub(&x)?;
        let d2 = dv.dot(&dv)?;
        let eps2 = Rat::new(1, 1000000);
        if !d2.lt(&eps2) {
            return None;
        }
        let m = match intersection.pbr_material() {
            Some(m) => *m,
            None => {
                return None;
            },
        };
        let dist2 = ws.dot(&ws)?;
        let zero = Rat::zero();
        if !zero.lt(&dist2) {
            return None;
        }
        // The unit-scaled shadow direction, for the reflectance and the
        // cosines; `ws` itself carries the distance.
        let wsn = crate::vec::normalized_approx(&ws)?;
        let fr = m.eval(&wsn, wo, n, IlluminateType::Direct)?;
        let cos0 = wsn.dot(n)?.abs();
        let cos1 = wsn.neg().dot(&nn)?.abs();
        let denom = dist2.mul(pdf_light)?;
        if denom.is_zero() {
            return None;
        }
        let weight = cos0.mul(&cos1)?.div(&denom)?;
        let per = fr.scale(&weight)?.clamp_max(&Rat::one()).clamp0();
        let out = li.clamp0().cwise_product(&per)?;
        Some(out.clamp0())
    }

    /// The bounce term: importance-sample a direction, recurse, and weight by
    /// the reflectance, the cosine and the inverse sampling density over the
    /// survival probability.
    fn indirect_light(
        &self,
        intersection: &HitResult,
        p: &Vector3,
        n: &Vector3,
        wo: &Vector3,
        depth: usize,
    ) -> (r: Option<Vector3>)
        requires
            self.wf(),
            intersection.wf(),
            p.wf(),
            n.wf(),
            wo.wf(),
            depth < MAX_DEPTH,
        ensures
            r matches Some(v) ==> v.wf() && q_le(q_int(0), v@.x) && q_le(q_int(0), v@.y) && q_le(
                q_int(0),
                v@.z,
            ),
        decreases MAX_DEPTH - depth, 0nat,
    {
        let m = match intersection.pbr_material() {
            Some(m) => *m,
            None => {
                return None;
            },
        };
        let wi = m.sample(wo, n)?;
        let rray = Ray::new(p, &wi);
        let fr = m.eval(&wi, wo, n, IlluminateType::IBL)?;
        let cos_theta = wi.dot(n)?.abs();
        let pdf_bsdf = m.pdf(&wi, wo, n)?;
        let zero = Rat::zero();
        if !zero.lt(&pdf_bsdf) {
            return None;
        }
        let p_rr = Rat::new(RR_NUM as i64, RR_DEN as i64);
        let denom = pdf_bsdf.mul(&p_rr)?;
        if denom.is_zero() {
            return None;
        }
        let weight = cos_theta.div(&denom)?;
        let frw = fr.scale(&weight)?.clamp0();
        let bounced = self.shade(&rray, depth + 1);
        let out = bounced.cwise_product(&frw)?;
        Some(out.clamp0())
    }
}

/// A direction `l` is `wi` reflected about the half vector `h`:
/// `l == 2 (wi . h) h - wi`, through the checked chain.
pub open spec fn reflected_about(wi: V3q, h: V3q, l: V3q) -> bool {
    match crate::vec::ch_v3_dot(wi, h) {
        Some(d) => match crate::rat::ch_mul(q_int(2), d) {
            Some(s) => match crate::vec::ch_v3_scale(h, s) {
                Some(hs) => crate::vec::ch_v3_sub(hs, wi) == Some(l),
                None => false,
            },
            None => false,
        },
        None => false,
    }
}

/// The rational pi approximation as a scalar.
fn rat_pi() -> (r: Rat)
    ensures
        r.wf(),
        q_lt(q_int(0), r@),
{
    let r = Rat::new(PI_NUM, PI_DEN);
    proof {
        crate::rat::lemma_canon(Q { n: PI_NUM as int, d: PI_DEN as int });
        crate::rat::lemma_q_le_congruence(
            q_int(0),
            Q { n: PI_NUM as int, d: PI_DEN as int },
            q_int(0),
            r@,
        );
    }
    r
}

/// `x^2`, exact.
fn sq(x: &Rat) -> (r: Option<Rat>)
    requires
        x.wf(),
    ensures
        r matches Some(v) ==> v.wf(),
{
    x.mul(x)
}

/// `x^5`, exact.
fn pow5(x: &Rat) -> (r: Option<Rat>)
    requires
        x.wf(),
    ensures
        r matches Some(v) ==> v.wf(),
{
    let x2 = x.mul(x)?;
    let x4 = x2.mul(&x2)?;
    x4.mul(x)
}

impl PBRMaterial {
    /// Schlick's Fresnel approximation at the half vector.
    fn fresnel_reflection(&self, wo: &Vector3, h: &Vector3) -> (r: Option<Vector3>)
        requires
            self.wf(),
            wo.wf(),
            h.wf(),
        ensures
            r matches Some(v) ==> v.wf(),
    {
        let one = Rat::one();
        let c = wo.dot(h)?.abs();
        let k = pow5(&one.sub(&c)?)?;
        let ones = Vector3 { x: one, y: one, z: one };
        let diff = ones.sub(&self.f0)?;
        let scaled = diff.scale(&k)?;
        self.f0.add(&scaled)
    }

    /// The GGX normal distribution at the half vector.
    fn ggx(&self, n: &Vector3, h: &Vector3) -> (r: Option<Rat>)
        requires
            self.wf(),
            n.wf(),
            h.wf(),
        ensures
            r matches Some(v) ==> v.wf(),
    {
        let a2 = sq(&self.roughness)?;
        let ndh2 = sq(&n.dot(h)?)?;
        let one = Rat::one();
        let inner = ndh2.mul(&a2.sub(&one)?)?.add(&one)?;
        let denom = rat_pi().mul(&sq(&inner)?)?;
        if denom.is_zero() {
            return None;
        }
        a2.div(&denom)
    }

    /// The Schlick-GGX geometry factor for one direction; the roughness
    /// remap differs between direct and image-based shading.
    fn g_schlick_ggx(&self, n: &Vector3, v: &Vector3, illum_type: IlluminateType) -> (r: Option<
        Rat,
    >)
        requires
            self.wf(),
            n.wf(),
            v.wf(),
        ensures
            r matches Some(u) ==> u.wf(),
    {
        let one = Rat::one();
        let k = match illum_type {
            IlluminateType::Direct => {
                let t = sq(&self.roughness)?.add(&one)?;
                sq(&t)?.div(&Rat::from_int(8))?
            },
            IlluminateType::IBL => {
                let r2 = sq(&self.roughness)?;
                sq(&r2)?.div(&Rat::from_int(2))?
            },
        };
        let ndv = n.dot(v)?.abs();
        let denom = ndv.mul(&one.sub(&k)?)?.add(&k)?;
        if denom.is_zero() {
            return None;
        }
        ndv.div(&denom)
    }

    fn geometry(&self, wi: &Vector3, wo: &Vector3, h: &Vector3, illum_type: IlluminateType) -> (r:
        Option<Rat>)
        requires
            self.wf(),
            wi.wf(),
            wo.wf(),
            h.wf(),
        ensures
            r matches Some(v) ==> v.wf(),
    {
        let a = self.g_schlick_ggx(h, wi, illum_type)?;
        let b = self.g_schlick_ggx(h, wo, illum_type)?;
        a.mul(&b)
    }

    /// The Cook-Torrance reflectance: GGX specular with Schlick Fresnel and
    /// geometry, plus a Lambertian diffuse lobe weighted by the leftover,
    /// non-metallic energy.  Opposite-side directions reflect exactly
    /// nothing -- when the checked product of the two normal cosines is not
    /// positive the result is the zero radiance -- and the result is clamped
    /// nonnegative so radiance stays physical.
    pub fn eval(&self, wi: &Vector3, wo: &Vector3, n: &Vector3, illum_type: IlluminateType) -> (r:
        Option<Vector3>)
        requires
            self.wf(),
            wi.wf(),
            wo.wf(),
            n.wf(),
        ensures
            r matches Some(v) ==> v.wf() && q_le(q_int(0), v@.x) && q_le(q_int(0), v@.y) && q_le(
                q_int(0),
                v@.z,
            ),
            ({
                match (crate::vec::ch_v3_dot(n@, wi@), crate::vec::ch_v3_dot(n@, wo@)) {
                    (Some(d1), Some(d2)) => match crate::rat::ch_mul(d1, d2) {
                        Some(chk) => q_le(chk, q_int(0)) ==> (r matches Some(v) && v@ == (V3q {
                            x: q_int(0),
                            y: q_int(0),
                            z: q_int(0),
                        })),
                        None => true,
                    },
                    _ => true,
                }
            }),
    {
        let zero = Rat::zero();
        let check = n.dot(wi)?.mul(&n.dot(wo)?)?;
        if check.le(&zero) {
            let z = Rat::zero();
            return Some((Vector3 { x: z, y: z, z: z }).clamp0());
        }
        let h = crate::vec::normalized_approx(&wi.add(wo)?)?;
        let f = self.fresnel_reflection(wo, &h)?;
        let d = self.ggx(n, &h)?;
        let g = self.geometry(wi, wo, &h, illum_type)?;
        let denom = Rat::from_int(4).mul(&wi.dot(n)?)?.mul(&wo.dot(n)?)?.abs();
        if denom.is_zero() {
            return None;
        }
        let spec_w = g.mul(&d)?.div(&denom)?;
        let cook_torrance = f.scale(&spec_w)?;
        let one = Rat::one();
        let ones = Vector3 { x: one, y: one, z: one };
        let kd = ones.sub(&f)?.scale(&one.sub(&self.metalness)?)?;
        let pi = rat_pi();
        let inv_pi = one.div(&pi)?;
        let lambert = self.albedo.scale(&inv_pi)?;
        let diffuse = kd.cwise_product(&lambert)?;
        let sum = diffuse.add(&cook_torrance)?;
        Some(sum.clamp0())
    }

    /// The sampling density of `sample`, up to the half-vector Jacobian;
    /// nonnegative, and exactly zero for strictly opposite-side directions.
    pub fn pdf(&self, wi: &Vector3, wo: &Vector3, n: &Vector3) -> (r: Option<Rat>)
        requires
            self.wf(),
            wi.wf(),
            wo.wf(),
            n.wf(),
        ensures
            r matches Some(v) ==> v.wf() && q_le(q_int(0), v@),
            ({
                match (crate::vec::ch_v3_dot(n@, wi@), crate::vec::ch_v3_dot(n@, wo@)) {
                    (Some(d1), Some(d2)) => match crate::rat::ch_mul(d1, d2) {
                        Some(chk) => q_lt(chk, q_int(0)) ==> (r matches Some(v) && v@ == q_int(0)),
                        None => true,
                    },
                    _ => true,
                }
            }),
    {
        let zero = Rat::zero();
        let check = n.dot(wi)?.mul(&n.dot(wo)?)?;
        if check.lt(&zero) {
            return Some(zero.max0());
        }
        let h = crate::vec::normalized_approx(&wi.add(wo)?)?;
        let cos_theta = h.dot(n)?.abs();
        let hdwo = h.dot(wo)?;
        let ph = self.ggx(n, &h)?.mul(&cos_theta)?;
        let d4 = Rat::from_int(4).mul(&hdwo.abs())?;
        let po = if d4.is_zero() {
            zero
        } else {
            Rat::one().div(&d4)?
        };
        let r = ph.mul(&po)?;
        Some(r.max0())
    }

    /// Importance-sample a bounce direction about the GGX lobe.  The azimuth
    /// is drawn as an exact rational point on the unit circle via the
    /// half-angle map; the polar cosine follows the GGX inversion with the
    /// square-root approximation.  The returned direction is unnormalized,
    /// and is exactly `wi` reflected about some half vector:
    /// `2 (wi . h) h - wi`, whatever the draws were.
    pub fn sample(&self, wi: &Vector3, n: &Vector3) -> (r: Option<Vector3>)
        requires
            self.wf(),
            wi.wf(),
            n.wf(),
        ensures
            r matches Some(v) ==> v.wf() && (exists|h: V3q|
                crate::vec::v3_wf(h) && #[trigger] reflected_about(wi@, h, v@)),
    {
        let one = Rat::one();
        let zero = Rat::zero();
        // Azimuth: u in [-1, 1], then (c, s) = ((1-u^2)/(1+u^2), 2u/(1+u^2))
        // lies exactly on the unit circle.
        let u = rand_fraction().mul(&Rat::from_int(2))?.sub(&one)?;
        let u2 = sq(&u)?;
        let den = one.add(&u2)?;
        if den.is_zero() {
            return None;
        }
        let c = one.sub(&u2)?.div(&den)?;
        let s = Rat::from_int(2).mul(&u)?.div(&den)?;
        // Polar angle from the GGX inversion.
        let x2 = rand_fraction();
        let a2 = sq(&sq(&self.roughness)?)?;
        let idn = one.add(&a2.sub(&one)?.mul(&x2)?)?;
        if idn.is_zero() {
            return None;
        }
        let c2 = one.sub(&x2)?.div(&idn)?;
        let c2c = c2.max0();
        if Rat::from_int(0x7fff_ffff_ffff).lt(&c2c) {
            return None;
        }
        let cos_theta = Rat::sqrt_approx(&c2c);
        let s2 = one.sub(&sq(&cos_theta)?)?.max0();
        if Rat::from_int(0x7fff_ffff_ffff).lt(&s2) {
            return None;
        }
        let sin_theta = Rat::sqrt_approx(&s2);
        let local = Vector3 {
            x: c.mul(&sin_theta)?,
            y: s.mul(&sin_theta)?,
            z: cos_theta,
        };
        let h = Self::to_world(&local, n)?;
        // Reflect `wi` about the sampled half vector.
        let l = h.scale(&Rat::from_int(2).mul(&wi.dot(&h)?)?)?.sub(wi)?;
        proof {
            assert(reflected_about(wi@, h@, l@));
        }
        Some(l)
    }

    /// Rotate a local sample into the frame of the surface normal.
    fn to_world(a: &Vector3, n: &Vector3) -> (r: Option<Vector3>)
        requires
            a.wf(),
            n.wf(),
        ensures
            r matches Some(v) ==> v.wf(),
    {
        let c = if n.x.abs().lt(&n.y.abs()) {
            let n2 = sq(&n.y)?.add(&sq(&n.z)?)?;
            let zero = Rat::zero();
            if !zero.lt(&n2) || Rat::from_int(0x7fff_ffff_ffff).lt(&n2) {
                return None;
            }
            let len = Rat::sqrt_approx(&n2);
            if len.is_zero() {
                return None;
            }
            let inv = Rat::one().div(&len)?;
            Vector3 { x: zero, y: n.z.mul(&inv)?, z: n.y.mul(&inv)?.neg() }
        } else {
            let n2 = sq(&n.x)?.add(&sq(&n.z)?)?;
            let zero = Rat::zero();
            if !zero.lt(&n2) || Rat::from_int(0x7fff_ffff_ffff).lt(&n2) {
                return None;
            }
            let len = Rat::sqrt_approx(&n2);
            if len.is_zero() {
                return None;
            }
            let inv = Rat::one().div(&len)?;
            Vector3 { x: n.z.mul(&inv)?, y: zero, z: n.x.mul(&inv)?.neg() }
        };
        let b = c.cross(n)?;
        let bx = b.scale(&a.x)?;
        let cy = c.scale(&a.y)?;
        let nz = n.scale(&a.z)?;
        bx.add(&cy)?.add(&nz)
    }
}

} // verus!
