//! Rays and ray-triangle intersection.
use crate::model::Triangle;
use crate::rat::{
    ch_add, ch_div, ch_mul, ch_sub, opt_q, q_add, q_eq, q_int, q_le, q_mul, q_sub, q_wf, Q, Rat,
};
use crate::vec::{ch_v3, ch_v3_cross, ch_v3_dot, ch_v3_sub, opt_v3, V3q, Vector3};
use vstd::prelude::*;

verus! {

/// A ray `origin + t * dir`, `t >= 0`.  The direction need not be normalized:
/// the intersection parameter `t` is measured in units of the direction's
/// length.
#[derive(Debug, Clone, Copy)]
pub struct Ray {
    pub origin: Vector3,
    pub dir: Vector3,
}

/// A successful ray-triangle intersection: the parameter along the ray and
/// the three barycentric weights of the hit point.
#[derive(Debug, Clone, Copy)]
pub struct RayHit {
    pub t: Rat,
    pub b0: Rat,
    pub b1: Rat,
    pub b2: Rat,
}

/// `p + t * d` equals `b0*p0 + b1*p1 + b2*p2`, componentwise, as rationals.
pub open spec fn on_ray_and_triangle(
    origin: V3q,
    dir: V3q,
    t: Q,
    b0: Q,
    b1: Q,
    b2: Q,
    p0: V3q,
    p1: V3q,
    p2: V3q,
) -> bool {
    &&& q_eq(
        q_add(origin.x, q_mul(t, dir.x)),
        q_add(q_add(q_mul(b0, p0.x), q_mul(b1, p1.x)), q_mul(b2, p2.x)),
    )
    &&& q_eq(
        q_add(origin.y, q_mul(t, dir.y)),
        q_add(q_add(q_mul(b0, p0.y), q_mul(b1, p1.y)), q_mul(b2, p2.y)),
    )
    &&& q_eq(
        q_add(origin.z, q_mul(t, dir.z)),
        q_add(q_add(q_mul(b0, p0.z), q_mul(b1, p1.z)), q_mul(b2, p2.z)),
    )
}

/// The three positions of a triangle, seen as three-vectors.
pub open spec fn tri_p0(t: Triangle) -> V3q {
    V3q { x: t.vertexs@[0].position@.x, y: t.vertexs@[0].position@.y, z: t.vertexs@[0].position@.z }
}

pub open spec fn tri_p1(t: Triangle) -> V3q {
    V3q { x: t.vertexs@[1].position@.x, y: t.vertexs@[1].position@.y, z: t.vertexs@[1].position@.z }
}

pub open spec fn tri_p2(t: Triangle) -> V3q {
    V3q { x: t.vertexs@[2].position@.x, y: t.vertexs@[2].position@.y, z: t.vertexs@[2].position@.z }
}

/// What a returned intersection promises: a valid convex combination of the
/// triangle's vertices that lies on the ray at parameter `t >= 0`.
pub open spec fn hit_valid(ray: Ray, tri: Triangle, h: RayHit) -> bool {
    &&& h.t.wf() && h.b0.wf() && h.b1.wf() && h.b2.wf()
    &&& q_le(q_int(0), h.t@)
    &&& q_le(q_int(0), h.b0@)
    &&& q_le(q_int(0), h.b1@)
    &&& q_le(q_int(0), h.b2@)
    &&& q_eq(q_add(q_add(h.b0@, h.b1@), h.b2@), q_int(1))
    &&& on_ray_and_triangle(
        ray.origin@,
        ray.dir@,
        h.t@,
        h.b0@,
        h.b1@,
        h.b2@,
        tri_p0(tri),
        tri_p1(tri),
        tri_p2(tri),
    )
}

/// The value of a successful intersection, at the specification level.
pub struct QHit {
    pub t: Q,
    pub b0: Q,
    pub b1: Q,
    pub b2: Q,
}

/// The checked equation of one axis of the certification:
/// `o + t*d == b0*a0 + b1*a1 + b2*a2`, false when a step overflows.
pub open spec fn ch_axis_ok(
    o: Q,
    d: Q,
    t: Q,
    b0: Q,
    b1: Q,
    b2: Q,
    a0: Q,
    a1: Q,
    a2: Q,
) -> bool {
    match ch_mul(t, d) {
        Some(td) => match ch_add(o, td) {
            Some(lhs) => match (ch_mul(b0, a0), ch_mul(b1, a1), ch_mul(b2, a2)) {
                (Some(m0), Some(m1), Some(m2)) => match ch_add(m0, m1) {
                    Some(s01) => match ch_add(s01, m2) {
                        Some(rhs) => q_eq(lhs, rhs),
                        None => false,
                    },
                    None => false,
                },
                _ => false,
            },
            None => false,
        },
        None => false,
    }
}

/// The checked certification of a candidate hit: the weights sum to one and
/// the barycentric point lies on the ray, per axis.
pub open spec fn ch_cert(o: V3q, d: V3q, h: QHit, p0: V3q, p1: V3q, p2: V3q) -> bool {
    match ch_add(h.b0, h.b1) {
        Some(s01) => match ch_add(s01, h.b2) {
            Some(sum) => q_eq(sum, q_int(1)) && ch_axis_ok(
                o.x,
                d.x,
                h.t,
                h.b0,
                h.b1,
                h.b2,
                p0.x,
                p1.x,
                p2.x,
            ) && ch_axis_ok(o.y, d.y, h.t, h.b0, h.b1, h.b2, p0.y, p1.y, p2.y) && ch_axis_ok(
                o.z,
                d.z,
                h.t,
                h.b0,
                h.b1,
                h.b2,
                p0.z,
                p1.z,
                p2.z,
            ),
            None => false,
        },
        None => false,
    }
}

/// The complete checked Moller-Trumbore chain: edge vectors, the two cross
/// products, the shared denominator, the three quotients, the sign tests and
/// the certification.  `intersect_triangle` returns exactly this value, so
/// `None` means no representable valid intersection came out of the chain.
pub open spec fn ch_mt(ray: Ray, tri: Triangle) -> Option<QHit> {
    let p0 = tri_p0(tri);
    let p1 = tri_p1(tri);
    let p2 = tri_p2(tri);
    match (ch_v3_sub(ray.origin@, p0), ch_v3_sub(p1, p0), ch_v3_sub(p2, p0)) {
        (Some(s), Some(e1), Some(e2)) => match (ch_v3_cross(ray.dir@, e2), ch_v3_cross(s, e1)) {
            (Some(s1), Some(s2)) => match ch_v3_dot(s1, e1) {
                Some(s1e1) => if s1e1.n == 0 {
                    None
                } else {
                    match (ch_v3_dot(s2, e2), ch_v3_dot(s1, s), ch_v3_dot(s2, ray.dir@)) {
                        (Some(dt), Some(d1), Some(d2)) => match (ch_div(dt, s1e1), ch_div(
                            d1,
                            s1e1,
                        ), ch_div(d2, s1e1)) {
                            (Some(t), Some(b1), Some(b2)) => match ch_sub(q_int(1), b1) {
                                Some(u) => match ch_sub(u, b2) {
                                    Some(b0) => if q_le(q_int(0), t) && q_le(q_int(0), b1) && q_le(
                                        q_int(0),
                                        b2,
                                    ) && q_le(q_int(0), b0) {
                                        let h = QHit { t, b0, b1, b2 };
                                        if ch_cert(ray.origin@, ray.dir@, h, p0, p1, p2) {
                                            Some(h)
                                        } else {
                                            None
                                        }
                                    } else {
                                        None
                                    },
                                    None => None,
                                },
                                None => None,
                            },
                            _ => None,
                        },
                        _ => None,
                    }
                },
                None => None,
            },
            _ => None,
        },
        _ => None,
    }
}

/// An executable hit carries exactly the values of a specification hit.
pub open spec fn hit_views(h: RayHit, q: QHit) -> bool {
    h.t@ == q.t && h.b0@ == q.b0 && h.b1@ == q.b1 && h.b2@ == q.b2
}

/// A passed axis certification yields the unreduced equation of that axis.
proof fn lemma_axis_eqs(o: Q, d: Q, t: Q, b0: Q, b1: Q, b2: Q, a0: Q, a1: Q, a2: Q)
    requires
        q_wf(o),
        q_wf(d),
        q_wf(t),
        q_wf(b0),
        q_wf(b1),
        q_wf(b2),
        q_wf(a0),
        q_wf(a1),
        q_wf(a2),
        ch_axis_ok(o, d, t, b0, b1, b2, a0, a1, a2),
    ensures
        q_eq(
            q_add(o, q_mul(t, d)),
            q_add(q_add(q_mul(b0, a0), q_mul(b1, a1)), q_mul(b2, a2)),
        ),
{
    let td = ch_mul(t, d)->Some_0;
    let lhs = ch_add(o, td)->Some_0;
    let m0 = ch_mul(b0, a0)->Some_0;
    let m1 = ch_mul(b1, a1)->Some_0;
    let m2 = ch_mul(b2, a2)->Some_0;
    let s01 = ch_add(m0, m1)->Some_0;
    let rhs = ch_add(s01, m2)->Some_0;
    crate::vec::lemma_q_ops_wf(t, d);
    crate::vec::lemma_fit_canon_val(q_mul(t, d));
    crate::vec::lemma_q_ops_wf(o, td);
    crate::vec::lemma_fit_canon_val(q_add(o, td));
    crate::vec::lemma_q_ops_wf(b0, a0);
    crate::vec::lemma_fit_canon_val(q_mul(b0, a0));
    crate::vec::lemma_q_ops_wf(b1, a1);
    crate::vec::lemma_fit_canon_val(q_mul(b1, a1));
    crate::vec::lemma_q_ops_wf(b2, a2);
    crate::vec::lemma_fit_canon_val(q_mul(b2, a2));
    crate::vec::lemma_q_ops_wf(m0, m1);
    crate::vec::lemma_fit_canon_val(q_add(m0, m1));
    crate::vec::lemma_q_ops_wf(s01, m2);
    crate::vec::lemma_fit_canon_val(q_add(s01, m2));
    lemma_axis_transfer(o, d, t, b0, b1, b2, a0, a1, a2, td, lhs, m0, m1, m2, s01, rhs);
}

/// A passed certification yields the defining equations of the hit.
proof fn lemma_cert_eqs(o: V3q, d: V3q, h: QHit, p0: V3q, p1: V3q, p2: V3q)
    requires
        crate::vec::v3_wf(o),
        crate::vec::v3_wf(d),
        crate::vec::v3_wf(p0),
        crate::vec::v3_wf(p1),
        crate::vec::v3_wf(p2),
        q_wf(h.t),
        q_wf(h.b0),
        q_wf(h.b1),
        q_wf(h.b2),
        ch_cert(o, d, h, p0, p1, p2),
    ensures
        q_eq(q_add(q_add(h.b0, h.b1), h.b2), q_int(1)),
        on_ray_and_triangle(o, d, h.t, h.b0, h.b1, h.b2, p0, p1, p2),
{
    let s01 = ch_add(h.b0, h.b1)->Some_0;
    let sum = ch_add(s01, h.b2)->Some_0;
    crate::vec::lemma_q_ops_wf(h.b0, h.b1);
    crate::vec::lemma_fit_canon_val(q_add(h.b0, h.b1));
    crate::vec::lemma_q_ops_wf(s01, h.b2);
    crate::vec::lemma_fit_canon_val(q_add(s01, h.b2));
    lemma_sum_transfer(h.b0, h.b1, h.b2, s01, sum);
    lemma_axis_eqs(o.x, d.x, h.t, h.b0, h.b1, h.b2, p0.x, p1.x, p2.x);
    lemma_axis_eqs(o.y, d.y, h.t, h.b0, h.b1, h.b2, p0.y, p1.y, p2.y);
    lemma_axis_eqs(o.z, d.z, h.t, h.b0, h.b1, h.b2, p0.z, p1.z, p2.z);
}

/// A successful checked intersection carries a well-formed parameter: it is
/// a reduced fraction, whatever the inputs were.
#[verifier::rlimit(100)]
pub proof fn lemma_mt_t_wf(ray: Ray, tri: Triangle)
    ensures
        ch_mt(ray, tri) matches Some(q) ==> q_wf(q.t),
{
    if ch_mt(ray, tri) is Some {
        let q = ch_mt(ray, tri)->Some_0;
        assert(q_wf(q.t));
    }
}

/// What every successful checked intersection guarantees: well-formed,
/// nonnegative values, weights summing to one, and the point on the ray
/// equal to the barycentric combination of the vertices.
#[verifier::rlimit(100)]
pub proof fn lemma_mt_hit_facts(ray: Ray, tri: Triangle)
    requires
        ray.wf(),
        tri.wf(),
    ensures
        ch_mt(ray, tri) matches Some(q) ==> {
            &&& q_wf(q.t) && q_wf(q.b0) && q_wf(q.b1) && q_wf(q.b2)
            &&& q_le(q_int(0), q.t) && q_le(q_int(0), q.b0) && q_le(q_int(0), q.b1) && q_le(
                q_int(0),
                q.b2,
            )
            &&& q_eq(q_add(q_add(q.b0, q.b1), q.b2), q_int(1))
            &&& on_ray_and_triangle(
                ray.origin@,
                ray.dir@,
                q.t,
                q.b0,
                q.b1,
                q.b2,
                tri_p0(tri),
                tri_p1(tri),
                tri_p2(tri),
            )
        },
{
    if ch_mt(ray, tri) is Some {
        let q = ch_mt(ray, tri)->Some_0;
        assert(q_wf(q.t) && q_wf(q.b0) && q_wf(q.b1) && q_wf(q.b2));
        assert(ch_cert(ray.origin@, ray.dir@, q, tri_p0(tri), tri_p1(tri), tri_p2(tri)));
        lemma_cert_eqs(ray.origin@, ray.dir@, q, tri_p0(tri), tri_p1(tri), tri_p2(tri));
    }
}

impl Ray {
    pub open spec fn wf(&self) -> bool {
        self.origin.wf() && self.dir.wf()
    }

    pub fn new(p: &Vector3, d: &Vector3) -> (r: Ray)
        requires
            p.wf(),
            d.wf(),
        ensures
            r.wf(),
            r.origin == *p,
            r.dir == *d,
    {
        Ray { origin: *p, dir: *d }
    }

    /// Moller-Trumbore intersection.  The result equals the checked chain
    /// `ch_mt` exactly: a returned hit carries the chain's values, certified
    /// against its defining equations, so every `Some` is a true
    /// intersection -- a convex combination of the vertices that lies on the
    /// ray -- and `None` is returned exactly when the chain has no
    /// representable valid intersection with `t >= 0` (no intersection, a
    /// degenerate or edge-on triangle, or a scalar past the backing store).
    pub fn intersect_triangle(&self, triangle: &Triangle) -> (r: Option<RayHit>)
        requires
            self.wf(),
            triangle.wf(),
        ensures
            (r is Some) == (ch_mt(*self, *triangle) is Some),
            r matches Some(h) ==> hit_valid(*self, *triangle, h) && hit_views(
                h,
                ch_mt(*self, *triangle)->Some_0,
            ),
    {
        let p0 = Vector3::from_vector4(&triangle.vertexs[0].position);
        let p1 = Vector3::from_vector4(&triangle.vertexs[1].position);
        let p2 = Vector3::from_vector4(&triangle.vertexs[2].position);

        let s = self.origin.sub(&p0)?;
        let e1 = p1.sub(&p0)?;
        let e2 = p2.sub(&p0)?;
        let s1 = self.dir.cross(&e2)?;
        let s2 = s.cross(&e1)?;

        let s1e1 = s1.dot(&e1)?;
        if s1e1.is_zero() {
            return None;
        }

        let t = s2.dot(&e2)?.div(&s1e1)?;
        let b1 = s1.dot(&s)?.div(&s1e1)?;
        let b2 = s2.dot(&self.dir)?.div(&s1e1)?;
        let one = Rat::one();
        let b0 = one.sub(&b1)?.sub(&b2)?;

        let zero = Rat::zero();
        if zero.le(&t) && zero.le(&b1) && zero.le(&b2) && zero.le(&b0) {
            let h = RayHit { t, b0, b1, b2 };
            // Certify the solution: the barycentric point must lie on the ray
            // and the weights must sum to one.
            if !check_hit(self, &p0, &p1, &p2, &h) {
                return None;
            }
            proof {
                assert(tri_p0(*triangle) == p0@);
                assert(tri_p1(*triangle) == p1@);
                assert(tri_p2(*triangle) == p2@);
            }
            Some(h)
        } else {
            None
        }
    }
}

/// Check the defining equations of an intersection candidate exactly.
fn check_hit(ray: &Ray, p0: &Vector3, p1: &Vector3, p2: &Vector3, h: &RayHit) -> (ok: bool)
    requires
        ray.wf(),
        p0.wf(),
        p1.wf(),
        p2.wf(),
        h.t.wf(),
        h.b0.wf(),
        h.b1.wf(),
        h.b2.wf(),
    ensures
        ok == ch_cert(
            ray.origin@,
            ray.dir@,
            QHit { t: h.t@, b0: h.b0@, b1: h.b1@, b2: h.b2@ },
            p0@,
            p1@,
            p2@,
        ),
        ok ==> q_eq(q_add(q_add(h.b0@, h.b1@), h.b2@), q_int(1)) && on_ray_and_triangle(
            ray.origin@,
            ray.dir@,
            h.t@,
            h.b0@,
            h.b1@,
            h.b2@,
            p0@,
            p1@,
            p2@,
        ),
{
    let sum01 = match h.b0.add(&h.b1) {
        Some(v) => v,
        None => {
            return false;
        },
    };
    let sum = match sum01.add(&h.b2) {
        Some(v) => v,
        None => {
            return false;
        },
    };
    if !sum.eq_rat(&Rat::one()) {
        return false;
    }
    proof {
        crate::vec::lemma_q_ops_wf(h.b0@, h.b1@);
        crate::vec::lemma_fit_canon_val(q_add(h.b0@, h.b1@));
        crate::vec::lemma_q_ops_wf(sum01@, h.b2@);
        crate::vec::lemma_fit_canon_val(q_add(sum01@, h.b2@));
        lemma_sum_transfer(h.b0@, h.b1@, h.b2@, sum01@, sum@);
    }
    let ox = check_axis(&ray.origin.x, &ray.dir.x, &h.t, &h.b0, &h.b1, &h.b2, &p0.x, &p1.x, &p2.x);
    let oy = check_axis(&ray.origin.y, &ray.dir.y, &h.t, &h.b0, &h.b1, &h.b2, &p0.y, &p1.y, &p2.y);
    let oz = check_axis(&ray.origin.z, &ray.dir.z, &h.t, &h.b0, &h.b1, &h.b2, &p0.z, &p1.z, &p2.z);
    ox && oy && oz
}

/// Check `o + t*d == b0*a0 + b1*a1 + b2*a2` on one coordinate axis.
fn check_axis(
    o: &Rat,
    d: &Rat,
    t: &Rat,
    b0: &Rat,
    b1: &Rat,
    b2: &Rat,
    a0: &Rat,
    a1: &Rat,
    a2: &Rat,
) -> (ok: bool)
    requires
        o.wf(),
        d.wf(),
        t.wf(),
        b0.wf(),
        b1.wf(),
        b2.wf(),
        a0.wf(),
        a1.wf(),
        a2.wf(),
    ensures
        ok == ch_axis_ok(o@, d@, t@, b0@, b1@, b2@, a0@, a1@, a2@),
        ok ==> q_eq(
            q_add(o@, q_mul(t@, d@)),
            q_add(q_add(q_mul(b0@, a0@), q_mul(b1@, a1@)), q_mul(b2@, a2@)),
        ),
{
    let td = match t.mul(d) {
        Some(v) => v,
        None => {
            return false;
        },
    };
    let lhs = match o.add(&td) {
        Some(v) => v,
        None => {
            return false;
        },
    };
    let m0 = match b0.mul(a0) {
        Some(v) => v,
        None => {
            return false;
        },
    };
    let m1 = match b1.mul(a1) {
        Some(v) => v,
        None => {
            return false;
        },
    };
    let m2 = match b2.mul(a2) {
        Some(v) => v,
        None => {
            return false;
        },
    };
    let s01 = match m0.add(&m1) {
        Some(v) => v,
        None => {
            return false;
        },
    };
    let rhs = match s01.add(&m2) {
        Some(v) => v,
        None => {
            return false;
        },
    };
    let ok = lhs.eq_rat(&rhs);
    if ok {
        proof {
            crate::vec::lemma_q_ops_wf(t@, d@);
            crate::vec::lemma_fit_canon_val(q_mul(t@, d@));
            crate::vec::lemma_q_ops_wf(o@, td@);
            crate::vec::lemma_fit_canon_val(q_add(o@, td@));
            crate::vec::lemma_q_ops_wf(b0@, a0@);
            crate::vec::lemma_fit_canon_val(q_mul(b0@, a0@));
            crate::vec::lemma_q_ops_wf(b1@, a1@);
            crate::vec::lemma_fit_canon_val(q_mul(b1@, a1@));
            crate::vec::lemma_q_ops_wf(b2@, a2@);
            crate::vec::lemma_fit_canon_val(q_mul(b2@, a2@));
            crate::vec::lemma_q_ops_wf(m0@, m1@);
            crate::vec::lemma_fit_canon_val(q_add(m0@, m1@));
            crate::vec::lemma_q_ops_wf(s01@, m2@);
            crate::vec::lemma_fit_canon_val(q_add(s01@, m2@));
            lemma_axis_transfer(
                o@,
                d@,
                t@,
                b0@,
                b1@,
                b2@,
                a0@,
                a1@,
                a2@,
                td@,
                lhs@,
                m0@,
                m1@,
                m2@,
                s01@,
                rhs@,
            );
        }
    }
    ok
}

/// Equality of the reduced forms transfers to the unreduced equation.
proof fn lemma_axis_transfer(
    o: Q,
    d: Q,
    t: Q,
    b0: Q,
    b1: Q,
    b2: Q,
    a0: Q,
    a1: Q,
    a2: Q,
    td: Q,
    lhs: Q,
    m0: Q,
    m1: Q,
    m2: Q,
    s01: Q,
    rhs: Q,
)
    requires
        q_wf(o),
        q_wf(d),
        q_wf(t),
        q_wf(b0),
        q_wf(b1),
        q_wf(b2),
        q_wf(a0),
        q_wf(a1),
        q_wf(a2),
        q_wf(td),
        q_wf(lhs),
        q_wf(m0),
        q_wf(m1),
        q_wf(m2),
        q_wf(s01),
        q_wf(rhs),
        q_eq(td, q_mul(t, d)),
        q_eq(lhs, q_add(o, td)),
        q_eq(m0, q_mul(b0, a0)),
        q_eq(m1, q_mul(b1, a1)),
        q_eq(m2, q_mul(b2, a2)),
        q_eq(s01, q_add(m0, m1)),
        q_eq(rhs, q_add(s01, m2)),
        q_eq(lhs, rhs),
    ensures
        q_eq(
            q_add(o, q_mul(t, d)),
            q_add(q_add(q_mul(b0, a0), q_mul(b1, a1)), q_mul(b2, a2)),
        ),
{
    let tdp = q_mul(t, d);
    let m0p = q_mul(b0, a0);
    let m1p = q_mul(b1, a1);
    let m2p = q_mul(b2, a2);
    crate::vec::lemma_q_ops_wf(t, d);
    crate::vec::lemma_q_ops_wf(b0, a0);
    crate::vec::lemma_q_ops_wf(b1, a1);
    crate::vec::lemma_q_ops_wf(b2, a2);
    lemma_add_congruence(o, td, o, tdp);
    crate::vec::lemma_q_ops_wf(o, tdp);
    crate::vec::lemma_q_ops_wf(o, td);
    crate::rat::lemma_q_eq_trans(q_add(o, tdp), q_add(o, td), lhs);
    lemma_add_congruence(m0, m1, m0p, m1p);
    crate::vec::lemma_q_ops_wf(m0, m1);
    crate::vec::lemma_q_ops_wf(m0p, m1p);
    crate::rat::lemma_q_eq_trans(q_add(m0p, m1p), q_add(m0, m1), s01);
    lemma_add_congruence(s01, m2, q_add(m0p, m1p), m2p);
    crate::vec::lemma_q_ops_wf(s01, m2);
    crate::vec::lemma_q_ops_wf(q_add(m0p, m1p), m2p);
    crate::rat::lemma_q_eq_trans(q_add(q_add(m0p, m1p), m2p), q_add(s01, m2), rhs);
    crate::rat::lemma_q_eq_trans(q_add(o, tdp), lhs, rhs);
    lemma_q_eq_sym(q_add(q_add(m0p, m1p), m2p), rhs);
    crate::rat::lemma_q_eq_trans(q_add(o, tdp), rhs, q_add(q_add(m0p, m1p), m2p));
}

/// A reduced three-way sum equals the unreduced sum.
pub proof fn lemma_sum_transfer(b0: Q, b1: Q, b2: Q, s01: Q, sum: Q)
    requires
        q_wf(b0),
        q_wf(b1),
        q_wf(b2),
        q_wf(s01),
        q_wf(sum),
        q_eq(s01, q_add(b0, b1)),
        q_eq(sum, q_add(s01, b2)),
        q_eq(sum, q_int(1)),
    ensures
        q_eq(q_add(q_add(b0, b1), b2), q_int(1)),
{
    crate::vec::lemma_q_ops_wf(b0, b1);
    lemma_add_congruence(s01, b2, q_add(b0, b1), b2);
    crate::vec::lemma_q_ops_wf(s01, b2);
    crate::vec::lemma_q_ops_wf(q_add(b0, b1), b2);
    crate::rat::lemma_q_eq_trans(q_add(q_add(b0, b1), b2), q_add(s01, b2), sum);
    crate::rat::lemma_q_eq_trans(q_add(q_add(b0, b1), b2), sum, q_int(1));
}

/// `q_eq` is symmetric.
pub proof fn lemma_q_eq_sym(a: Q, b: Q)
    requires
        q_eq(a, b),
    ensures
        q_eq(b, a),
{
}

/// Differences of equal rationals are equal.
pub proof fn lemma_sub_congruence(a: Q, b: Q, a2: Q, b2: Q)
    requires
        q_wf(a),
        q_wf(b),
        q_wf(a2),
        q_wf(b2),
        q_eq(a, a2),
        q_eq(b, b2),
    ensures
        q_eq(q_sub(a, b), q_sub(a2, b2)),
{
    assert((a.n * b.d) * (a2.d * b2.d) == (a2.n * b2.d) * (a.d * b.d)) by (nonlinear_arith)
        requires
            a.n * a2.d == a2.n * a.d,
    ;
    assert((b.n * a.d) * (a2.d * b2.d) == (b2.n * a2.d) * (a.d * b.d)) by (nonlinear_arith)
        requires
            b.n * b2.d == b2.n * b.d,
    ;
    assert((a.n * b.d - b.n * a.d) * (a2.d * b2.d) == (a2.n * b2.d - b2.n * a2.d) * (a.d * b.d))
        by (nonlinear_arith)
        requires
            (a.n * b.d) * (a2.d * b2.d) == (a2.n * b2.d) * (a.d * b.d),
            (b.n * a.d) * (a2.d * b2.d) == (b2.n * a2.d) * (a.d * b.d),
    ;
}

/// Products of equal rationals are equal.
pub proof fn lemma_mul_congruence(a: Q, b: Q, a2: Q, b2: Q)
    requires
        q_wf(a),
        q_wf(b),
        q_wf(a2),
        q_wf(b2),
        q_eq(a, a2),
        q_eq(b, b2),
    ensures
        q_eq(q_mul(a, b), q_mul(a2, b2)),
{
    assert((a.n * b.n) * (a2.d * b2.d) == (a2.n * b2.n) * (a.d * b.d)) by (nonlinear_arith)
        requires
            a.n * a2.d == a2.n * a.d,
            b.n * b2.d == b2.n * b.d,
    ;
}

/// Sums of equal rationals are equal.
pub proof fn lemma_add_congruence(a: Q, b: Q, a2: Q, b2: Q)
    requires
        q_wf(a),
        q_wf(b),
        q_wf(a2),
        q_wf(b2),
        q_eq(a, a2),
        q_eq(b, b2),
    ensures
        q_eq(q_add(a, b), q_add(a2, b2)),
{
    assert((a.n * b.d) * (a2.d * b2.d) == (a2.n * b2.d) * (a.d * b.d)) by (nonlinear_arith)
        requires
            a.n * a2.d == a2.n * a.d,
    ;
    assert((b.n * a.d) * (a2.d * b2.d) == (b2.n * a2.d) * (a.d * b.d)) by (nonlinear_arith)
        requires
            b.n * b2.d == b2.n * b.d,
    ;
    assert((a.n * b.d + b.n * a.d) * (a2.d * b2.d) == (a2.n * b2.d + b2.n * a2.d) * (a.d * b.d))
        by (nonlinear_arith)
        requires
            (a.n * b.d) * (a2.d * b2.d) == (a2.n * b2.d) * (a.d * b.d),
            (b.n * a.d) * (a2.d * b2.d) == (b2.n * a2.d) * (a.d * b.d),
    ;
}

} // verus!
