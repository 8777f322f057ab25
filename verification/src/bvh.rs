//! Bounding-volume hierarchy: axis-aligned boxes, a median-split build over
//! triangle centroids, and nearest-hit traversal.
use crate::model::Triangle;
use crate::rat::{
    lemma_q_le_congruence, lemma_q_le_lt_trans, lemma_q_le_trans, opt_q, q_add, q_eq, q_int, q_le,
    q_lt, q_mul, q_neg, q_sub, q_wf, Q, Rat,
};
use crate::ray::{hit_valid, Ray, RayHit};
use crate::vec::{V3q, Vector3, Vector4};
use vstd::prelude::*;

verus! {

/// Hits nearer than `RAY_EPS = 1/1000` along the ray are rejected so a
/// bounced ray cannot re-hit the surface it starts on.
pub const RAY_EPS_NUM: i64 = 1;

pub const RAY_EPS_DEN: i64 = 1000;

pub open spec fn ray_eps() -> Q {
    Q { n: RAY_EPS_NUM as int, d: RAY_EPS_DEN as int }
}

/// An axis-aligned bounding box: per-axis minima and maxima.
#[derive(Debug, Clone, Copy)]
pub struct AABB {
    pub x0: Rat,
    pub x1: Rat,
    pub y0: Rat,
    pub y1: Rat,
    pub z0: Rat,
    pub z1: Rat,
}

/// The point of the ray at parameter `t`, one axis at a time.
pub open spec fn ray_at_x(ray: Ray, t: Q) -> Q {
    q_add(ray.origin@.x, q_mul(t, ray.dir@.x))
}

pub open spec fn ray_at_y(ray: Ray, t: Q) -> Q {
    q_add(ray.origin@.y, q_mul(t, ray.dir@.y))
}

pub open spec fn ray_at_z(ray: Ray, t: Q) -> Q {
    q_add(ray.origin@.z, q_mul(t, ray.dir@.z))
}

impl AABB {
    pub open spec fn wf(&self) -> bool {
        self.x0.wf() && self.x1.wf() && self.y0.wf() && self.y1.wf() && self.z0.wf()
            && self.z1.wf()
    }

    /// The box contains the point given by three rational coordinates.
    pub open spec fn contains(&self, x: Q, y: Q, z: Q) -> bool {
        &&& q_le(self.x0@, x) && q_le(x, self.x1@)
        &&& q_le(self.y0@, y) && q_le(y, self.y1@)
        &&& q_le(self.z0@, z) && q_le(z, self.z1@)
    }

    /// The box contains all three vertices of the triangle.
    pub open spec fn contains_triangle(&self, t: Triangle) -> bool {
        &&& self.contains(
            t.vertexs@[0].position@.x,
            t.vertexs@[0].position@.y,
            t.vertexs@[0].position@.z,
        )
        &&& self.contains(
            t.vertexs@[1].position@.x,
            t.vertexs@[1].position@.y,
            t.vertexs@[1].position@.z,
        )
        &&& self.contains(
            t.vertexs@[2].position@.x,
            t.vertexs@[2].position@.y,
            t.vertexs@[2].position@.z,
        )
    }

    /// Every point of `self` lies in `other`.
    pub open spec fn inside(&self, other: &AABB) -> bool {
        &&& q_le(other.x0@, self.x0@) && q_le(self.x1@, other.x1@)
        &&& q_le(other.y0@, self.y0@) && q_le(self.y1@, other.y1@)
        &&& q_le(other.z0@, self.z0@) && q_le(self.z1@, other.z1@)
    }

    /// The extremal bounds of one triangle's vertices: each bound is exactly
    /// the minimum or maximum of the three vertex coordinates on its axis,
    /// so the box is tight and every bound is attained by some vertex.
    pub fn from_triangle(t: &Triangle) -> (b: AABB)
        requires
            t.wf(),
        ensures
            b.wf(),
            b.contains_triangle(*t),
            ({
                let p0 = t.vertexs@[0].position;
                let p1 = t.vertexs@[1].position;
                let p2 = t.vertexs@[2].position;
                &&& b.x0 == spec_min3(p0.x, p1.x, p2.x) && b.x1 == spec_max3(p0.x, p1.x, p2.x)
                &&& b.y0 == spec_min3(p0.y, p1.y, p2.y) && b.y1 == spec_max3(p0.y, p1.y, p2.y)
                &&& b.z0 == spec_min3(p0.z, p1.z, p2.z) && b.z1 == spec_max3(p0.z, p1.z, p2.z)
            }),
    {
        let p0 = &t.vertexs[0].position;
        let p1 = &t.vertexs[1].position;
        let p2 = &t.vertexs[2].position;
        let b = AABB {
            x0: min3(&p0.x, &p1.x, &p2.x),
            x1: max3(&p0.x, &p1.x, &p2.x),
            y0: min3(&p0.y, &p1.y, &p2.y),
            y1: max3(&p0.y, &p1.y, &p2.y),
            z0: min3(&p0.z, &p1.z, &p2.z),
            z1: max3(&p0.z, &p1.z, &p2.z),
        };
        b
    }

    /// The componentwise union: each bound is exactly the minimum of the two
    /// minima or the maximum of the two maxima, so the result contains both
    /// arguments and nothing wider.
    pub fn union(&self, other: &AABB) -> (b: AABB)
        requires
            self.wf(),
            other.wf(),
        ensures
            b.wf(),
            self.inside(&b),
            other.inside(&b),
            b.x0 == if q_le(self.x0@, other.x0@) {
                self.x0
            } else {
                other.x0
            },
            b.y0 == if q_le(self.y0@, other.y0@) {
                self.y0
            } else {
                other.y0
            },
            b.z0 == if q_le(self.z0@, other.z0@) {
                self.z0
            } else {
                other.z0
            },
            b.x1 == if q_le(self.x1@, other.x1@) {
                other.x1
            } else {
                self.x1
            },
            b.y1 == if q_le(self.y1@, other.y1@) {
                other.y1
            } else {
                self.y1
            },
            b.z1 == if q_le(self.z1@, other.z1@) {
                other.z1
            } else {
                self.z1
            },
    {
        AABB {
            x0: self.x0.min(&other.x0),
            x1: self.x1.max(&other.x1),
            y0: self.y0.min(&other.y0),
            y1: self.y1.max(&other.y1),
            z0: self.z0.min(&other.z0),
            z1: self.z1.max(&other.z1),
        }
    }

    /// Containment carries through nested boxes.
    pub proof fn lemma_inside_trans(a: &AABB, b: &AABB, t: Triangle)
        requires
            a.wf(),
            b.wf(),
            t.wf(),
            a.contains_triangle(t),
            a.inside(b),
        ensures
            b.contains_triangle(t),
    {
        let p0 = t.vertexs@[0].position@;
        let p1 = t.vertexs@[1].position@;
        let p2 = t.vertexs@[2].position@;
        AABB::lemma_point_inside_trans(a, b, p0.x, p0.y, p0.z);
        AABB::lemma_point_inside_trans(a, b, p1.x, p1.y, p1.z);
        AABB::lemma_point_inside_trans(a, b, p2.x, p2.y, p2.z);
    }

    pub proof fn lemma_point_inside_trans(a: &AABB, b: &AABB, x: Q, y: Q, z: Q)
        requires
            a.wf(),
            b.wf(),
            q_wf(x),
            q_wf(y),
            q_wf(z),
            a.contains(x, y, z),
            a.inside(b),
        ensures
            b.contains(x, y, z),
    {
        lemma_q_le_trans(b.x0@, a.x0@, x);
        lemma_q_le_trans(x, a.x1@, b.x1@);
        lemma_q_le_trans(b.y0@, a.y0@, y);
        lemma_q_le_trans(y, a.y1@, b.y1@);
        lemma_q_le_trans(b.z0@, a.z0@, z);
        lemma_q_le_trans(z, a.z1@, b.z1@);
    }
}

/// The least of three scalars, at the specification level: ties keep the
/// earlier argument.
pub open spec fn spec_min3(a: Rat, b: Rat, c: Rat) -> Rat {
    let m = if q_le(a@, b@) {
        a
    } else {
        b
    };
    if q_le(m@, c@) {
        m
    } else {
        c
    }
}

/// The greatest of three scalars, at the specification level: ties keep the
/// later argument.
pub open spec fn spec_max3(a: Rat, b: Rat, c: Rat) -> Rat {
    let m = if q_le(a@, b@) {
        b
    } else {
        a
    };
    if q_le(m@, c@) {
        c
    } else {
        m
    }
}

/// The least of three scalars.
pub fn min3(a: &Rat, b: &Rat, c: &Rat) -> (r: Rat)
    requires
        a.wf(),
        b.wf(),
        c.wf(),
    ensures
        r.wf(),
        q_le(r@, a@),
        q_le(r@, b@),
        q_le(r@, c@),
        r == spec_min3(*a, *b, *c),
{
    let m = a.min(b);
    let r = m.min(c);
    proof {
        assert(q_le(m@, a@) && q_le(m@, b@));
        if !q_le(m@, c@) {
            lemma_q_le_trans(c@, m@, a@);
            lemma_q_le_trans(c@, m@, b@);
        }
    }
    r
}

/// The greatest of three scalars.
pub fn max3(a: &Rat, b: &Rat, c: &Rat) -> (r: Rat)
    requires
        a.wf(),
        b.wf(),
        c.wf(),
    ensures
        r.wf(),
        q_le(a@, r@),
        q_le(b@, r@),
        q_le(c@, r@),
        r == spec_max3(*a, *b, *c),
{
    let m = a.max(b);
    let r = m.max(c);
    proof {
        assert(q_le(a@, m@) && q_le(b@, m@));
        if q_le(m@, c@) {
            lemma_q_le_trans(a@, m@, c@);
            lemma_q_le_trans(b@, m@, c@);
        }
    }
    r
}

/// A parameter `t` admitted by one axis: the ray's coordinate at `t` lies in
/// `[lo, hi]`.
pub open spec fn axis_admits(lo: Q, hi: Q, o: Q, d: Q, t: Q) -> bool {
    q_le(lo, q_add(o, q_mul(t, d))) && q_le(q_add(o, q_mul(t, d)), hi)
}

/// Lower/upper parametric bounds extracted from one axis; `None` means
/// unbounded on that side.
pub struct AxisBounds {
    pub tmin: Option<Rat>,
    pub tmax: Option<Rat>,
}

/// Bounds on any admitted `t` from one axis of the slab test.  The result is
/// `None` exactly when this axis admits no parameter at all (a ray parallel
/// to the slab, outside it).  A `Some` result brackets every admitted `t`;
/// a `None` bound means that side is unbounded or could not be computed
/// exactly (which is safe: the bracket only widens).
fn axis_bounds(lo: &Rat, hi: &Rat, o: &Rat, d: &Rat) -> (r: Option<AxisBounds>)
    requires
        lo.wf(),
        hi.wf(),
        o.wf(),
        d.wf(),
    ensures
        r matches Some(ab) ==> {
            &&& (ab.tmin matches Some(m) ==> m.wf())
            &&& (ab.tmax matches Some(m) ==> m.wf())
            &&& forall|t: Q|
                q_wf(t) && #[trigger] axis_admits(lo@, hi@, o@, d@, t) ==> ((ab.tmin matches Some(
                    m,
                ) ==> q_le(m@, t)) && (ab.tmax matches Some(m) ==> q_le(t, m@)))
        },
        r is None ==> forall|t: Q|
            q_wf(t) ==> !#[trigger] axis_admits(lo@, hi@, o@, d@, t),
{
    if d.is_zero() {
        // The coordinate never changes: either always inside or never.
        if lo.le(o) && o.le(hi) {
            proof {
                assert forall|t: Q| q_wf(t) implies (true) by {}
            }
            Some(AxisBounds { tmin: None, tmax: None })
        } else {
            proof {
                assert forall|t: Q|
                    q_wf(t) implies !axis_admits(lo@, hi@, o@, d@, t) by {
                    let p = q_add(o@, q_mul(t, d@));
                    assert(q_eq(p, o@)) by (nonlinear_arith)
                        requires
                            p == q_add(o@, q_mul(t, d@)),
                            d@.n == 0,
                            q_wf(t),
                            q_wf(o@),
                            q_wf(d@),
                    ;
                    crate::vec::lemma_q_ops_wf(t, d@);
                    crate::vec::lemma_q_ops_wf(o@, q_mul(t, d@));
                    if axis_admits(lo@, hi@, o@, d@, t) {
                        lemma_q_le_congruence(lo@, p, lo@, o@);
                        lemma_q_le_congruence(p, hi@, o@, hi@);
                    }
                }
            }
            None
        }
    } else {
        let a = match lo.sub(o) {
            Some(v) => v,
            None => {
                return Some(AxisBounds { tmin: None, tmax: None });
            },
        };
        let b = match hi.sub(o) {
            Some(v) => v,
            None => {
                return Some(AxisBounds { tmin: None, tmax: None });
            },
        };
        let ta = match a.div(d) {
            Some(v) => v,
            None => {
                return Some(AxisBounds { tmin: None, tmax: None });
            },
        };
        let tb = match b.div(d) {
            Some(v) => v,
            None => {
                return Some(AxisBounds { tmin: None, tmax: None });
            },
        };
        let neg = d.lt(&Rat::zero());
        let (tmin, tmax) = if neg {
            (tb, ta)
        } else {
            (ta, tb)
        };
        proof {
            crate::vec::lemma_q_ops_wf(lo@, o@);
            crate::vec::lemma_q_ops_wf(hi@, o@);
            crate::vec::lemma_q_ops_wf(q_sub(lo@, o@), d@);
            crate::vec::lemma_q_ops_wf(q_sub(hi@, o@), d@);
            crate::vec::lemma_fit_canon_val(q_sub(lo@, o@));
            crate::vec::lemma_fit_canon_val(q_sub(hi@, o@));
            crate::vec::lemma_q_ops_wf(a@, d@);
            crate::vec::lemma_q_ops_wf(b@, d@);
            crate::vec::lemma_fit_canon_val(crate::rat::q_div(a@, d@));
            crate::vec::lemma_fit_canon_val(crate::rat::q_div(b@, d@));
            // The reduced quotients represent the pure plane crossings.
            crate::raster::lemma_div_congruence(a@, d@, q_sub(lo@, o@), d@);
            crate::raster::lemma_div_congruence(b@, d@, q_sub(hi@, o@), d@);
            crate::rat::lemma_q_eq_trans(
                ta@,
                crate::rat::q_div(a@, d@),
                crate::rat::q_div(q_sub(lo@, o@), d@),
            );
            crate::rat::lemma_q_eq_trans(
                tb@,
                crate::rat::q_div(b@, d@),
                crate::rat::q_div(q_sub(hi@, o@), d@),
            );
            assert forall|t: Q|
                q_wf(t) && #[trigger] axis_admits(lo@, hi@, o@, d@, t) implies (q_le(tmin@, t)
                && q_le(t, tmax@)) by {
                let tap = crate::rat::q_div(q_sub(lo@, o@), d@);
                let tbp = crate::rat::q_div(q_sub(hi@, o@), d@);
                if d@.n > 0 {
                    lemma_bracket_pos(lo@, hi@, o@, d@, t);
                    lemma_q_le_congruence(tap, t, ta@, t);
                    lemma_q_le_congruence(t, tbp, t, tb@);
                } else {
                    lemma_bracket_neg(lo@, hi@, o@, d@, t);
                    lemma_q_le_congruence(t, tap, t, ta@);
                    lemma_q_le_congruence(tbp, t, tb@, t);
                }
            }
        }
        Some(AxisBounds { tmin: Some(tmin), tmax: Some(tmax) })
    }
}

/// The slab bracket on one axis, positive direction component: dividing the
/// admitted inequalities by `d` brackets `t` between the two plane crossings.
proof fn lemma_bracket_pos(lo: Q, hi: Q, o: Q, d: Q, t: Q)
    requires
        q_wf(lo),
        q_wf(hi),
        q_wf(o),
        q_wf(d),
        q_wf(t),
        d.n > 0,
        axis_admits(lo, hi, o, d, t),
    ensures
        q_le(crate::rat::q_div(q_sub(lo, o), d), t),
        q_le(t, crate::rat::q_div(q_sub(hi, o), d)),
{
    let p = q_add(o, q_mul(t, d));
    let e = lo.n * o.d - o.n * lo.d;
    let f = hi.n * o.d - o.n * hi.d;
    let ta = crate::rat::q_div(q_sub(lo, o), d);
    let tb = crate::rat::q_div(q_sub(hi, o), d);
    assert(lo.n * (o.d * (t.d * d.d)) == (lo.n * o.d) * (t.d * d.d)) by (nonlinear_arith);
    assert((o.n * (t.d * d.d)) * lo.d == (o.n * lo.d) * (t.d * d.d)) by (nonlinear_arith);
    assert((e * d.d) * t.d == e * (t.d * d.d)) by (nonlinear_arith);
    assert(e * (t.d * d.d) == (lo.n * o.d) * (t.d * d.d) - (o.n * lo.d) * (t.d * d.d))
        by (nonlinear_arith)
        requires
            e == lo.n * o.d - o.n * lo.d,
    ;
    assert(((t.n * d.n) * o.d) * lo.d == t.n * ((lo.d * o.d) * d.n)) by (nonlinear_arith);
    assert((o.n * (t.d * d.d) + (t.n * d.n) * o.d) * lo.d == (o.n * (t.d * d.d)) * lo.d + ((t.n
        * d.n) * o.d) * lo.d) by (nonlinear_arith);
    assert(ta.n * t.d <= t.n * ta.d);
    assert(hi.n * (o.d * (t.d * d.d)) == (hi.n * o.d) * (t.d * d.d)) by (nonlinear_arith);
    assert((o.n * (t.d * d.d)) * hi.d == (o.n * hi.d) * (t.d * d.d)) by (nonlinear_arith);
    assert((f * d.d) * t.d == f * (t.d * d.d)) by (nonlinear_arith);
    assert(f * (t.d * d.d) == (hi.n * o.d) * (t.d * d.d) - (o.n * hi.d) * (t.d * d.d))
        by (nonlinear_arith)
        requires
            f == hi.n * o.d - o.n * hi.d,
    ;
    assert(((t.n * d.n) * o.d) * hi.d == t.n * ((hi.d * o.d) * d.n)) by (nonlinear_arith);
    assert((o.n * (t.d * d.d) + (t.n * d.n) * o.d) * hi.d == (o.n * (t.d * d.d)) * hi.d + ((t.n
        * d.n) * o.d) * hi.d) by (nonlinear_arith);
    assert(t.n * tb.d <= tb.n * t.d);
}

/// The slab bracket, negative direction component: the crossing order flips.
proof fn lemma_bracket_neg(lo: Q, hi: Q, o: Q, d: Q, t: Q)
    requires
        q_wf(lo),
        q_wf(hi),
        q_wf(o),
        q_wf(d),
        q_wf(t),
        d.n < 0,
        axis_admits(lo, hi, o, d, t),
    ensures
        q_le(t, crate::rat::q_div(q_sub(lo, o), d)),
        q_le(crate::rat::q_div(q_sub(hi, o), d), t),
{
    let p = q_add(o, q_mul(t, d));
    let e = lo.n * o.d - o.n * lo.d;
    let f = hi.n * o.d - o.n * hi.d;
    let ta = crate::rat::q_div(q_sub(lo, o), d);
    let tb = crate::rat::q_div(q_sub(hi, o), d);
    assert(lo.n * (o.d * (t.d * d.d)) == (lo.n * o.d) * (t.d * d.d)) by (nonlinear_arith);
    assert((o.n * (t.d * d.d)) * lo.d == (o.n * lo.d) * (t.d * d.d)) by (nonlinear_arith);
    assert((e * d.d) * t.d == e * (t.d * d.d)) by (nonlinear_arith);
    assert(e * (t.d * d.d) == (lo.n * o.d) * (t.d * d.d) - (o.n * lo.d) * (t.d * d.d))
        by (nonlinear_arith)
        requires
            e == lo.n * o.d - o.n * lo.d,
    ;
    assert(((t.n * d.n) * o.d) * lo.d == -(t.n * (-((lo.d * o.d) * d.n)))) by (nonlinear_arith);
    assert((o.n * (t.d * d.d) + (t.n * d.n) * o.d) * lo.d == (o.n * (t.d * d.d)) * lo.d + ((t.n
        * d.n) * o.d) * lo.d) by (nonlinear_arith);
    assert((-(e * d.d)) * t.d == -((e * d.d) * t.d)) by (nonlinear_arith);
    assert(t.n * ta.d <= ta.n * t.d);
    assert(hi.n * (o.d * (t.d * d.d)) == (hi.n * o.d) * (t.d * d.d)) by (nonlinear_arith);
    assert((o.n * (t.d * d.d)) * hi.d == (o.n * hi.d) * (t.d * d.d)) by (nonlinear_arith);
    assert((f * d.d) * t.d == f * (t.d * d.d)) by (nonlinear_arith);
    assert(f * (t.d * d.d) == (hi.n * o.d) * (t.d * d.d) - (o.n * hi.d) * (t.d * d.d))
        by (nonlinear_arith)
        requires
            f == hi.n * o.d - o.n * hi.d,
    ;
    assert(((t.n * d.n) * o.d) * hi.d == -(t.n * (-((hi.d * o.d) * d.n)))) by (nonlinear_arith);
    assert((o.n * (t.d * d.d) + (t.n * d.n) * o.d) * hi.d == (o.n * (t.d * d.d)) * hi.d + ((t.n
        * d.n) * o.d) * hi.d) by (nonlinear_arith);
    assert((-(f * d.d)) * t.d == -((f * d.d) * t.d)) by (nonlinear_arith);
    assert(tb.n * t.d <= t.n * tb.d);
}

impl AABB {
    /// The conservative slab test: whenever this returns `false`, no point of
    /// the box lies on the ray at any parameter `t >= RAY_EPS`.  (It may
    /// return `true` for boxes the ray misses: that only costs a visit.)
    pub fn intersect_ray(&self, ray: &Ray) -> (r: bool)
        requires
            self.wf(),
            ray.wf(),
        ensures
            !r ==> forall|t: Q|
                q_wf(t) && q_le(ray_eps(), t) && #[trigger] self.contains(
                    ray_at_x(*ray, t),
                    ray_at_y(*ray, t),
                    ray_at_z(*ray, t),
                ) ==> false,
    {
        let bx = match axis_bounds(&self.x0, &self.x1, &ray.origin.x, &ray.dir.x) {
            Some(v) => v,
            None => {
                proof {
                    assert forall|t: Q|
                        q_wf(t) && q_le(ray_eps(), t) && #[trigger] self.contains(
                            ray_at_x(*ray, t),
                            ray_at_y(*ray, t),
                            ray_at_z(*ray, t),
                        ) implies false by {
                        assert(axis_admits(self.x0@, self.x1@, ray.origin@.x, ray.dir@.x, t));
                    }
                }
                return false;
            },
        };
        let by = match axis_bounds(&self.y0, &self.y1, &ray.origin.y, &ray.dir.y) {
            Some(v) => v,
            None => {
                proof {
                    assert forall|t: Q|
                        q_wf(t) && q_le(ray_eps(), t) && #[trigger] self.contains(
                            ray_at_x(*ray, t),
                            ray_at_y(*ray, t),
                            ray_at_z(*ray, t),
                        ) implies false by {
                        assert(axis_admits(self.y0@, self.y1@, ray.origin@.y, ray.dir@.y, t));
                    }
                }
                return false;
            },
        };
        let bz = match axis_bounds(&self.z0, &self.z1, &ray.origin.z, &ray.dir.z) {
            Some(v) => v,
            None => {
                proof {
                    assert forall|t: Q|
                        q_wf(t) && q_le(ray_eps(), t) && #[trigger] self.contains(
                            ray_at_x(*ray, t),
                            ray_at_y(*ray, t),
                            ray_at_z(*ray, t),
                        ) implies false by {
                        assert(axis_admits(self.z0@, self.z1@, ray.origin@.z, ray.dir@.z, t));
                    }
                }
                return false;
            },
        };
        // Combine: t_enter = max of lower bounds, t_exit = min of upper.
        let none_rat: Option<Rat> = None;
        let enter1 = merge_max(none_rat, bx.tmin);
        let enter2 = merge_max(enter1, by.tmin);
        let enter = merge_max(enter2, bz.tmin);
        let exit1 = merge_min(none_rat, bx.tmax);
        let exit2 = merge_min(exit1, by.tmax);
        let exit = merge_min(exit2, bz.tmax);
        let eps = Rat::new(RAY_EPS_NUM, RAY_EPS_DEN);
        proof {
            lemma_ray_eps_canon(eps@);
        }
        let too_near = match &exit {
            Some(e) => e.lt(&eps),
            None => false,
        };
        let crossed = match (&enter, &exit) {
            (Some(en), Some(ex)) => ex.lt(en),
            _ => false,
        };
        let reject = too_near || crossed;
        proof {
            if reject {
                assert forall|t: Q|
                    q_wf(t) && q_le(ray_eps(), t) && #[trigger] self.contains(
                        ray_at_x(*ray, t),
                        ray_at_y(*ray, t),
                        ray_at_z(*ray, t),
                    ) implies false by {
                    assert(axis_admits(self.x0@, self.x1@, ray.origin@.x, ray.dir@.x, t));
                    assert(axis_admits(self.y0@, self.y1@, ray.origin@.y, ray.dir@.y, t));
                    assert(axis_admits(self.z0@, self.z1@, ray.origin@.z, ray.dir@.z, t));
                    assert(holds_below(bx.tmin, t) && holds_below(by.tmin, t) && holds_below(
                        bz.tmin,
                        t,
                    ));
                    assert(holds_above(bx.tmax, t) && holds_above(by.tmax, t) && holds_above(
                        bz.tmax,
                        t,
                    ));
                    assert(holds_below(none_rat, t) && holds_above(none_rat, t));
                    assert(holds_below(enter1, t));
                    assert(holds_below(enter2, t));
                    assert(holds_below(enter, t));
                    assert(holds_above(exit1, t));
                    assert(holds_above(exit2, t));
                    assert(holds_above(exit, t));
                    match exit {
                        Some(ex) => {
                            if q_lt(ex@, ray_eps()) {
                                lemma_q_le_lt_trans(t, ex@, ray_eps());
                                lemma_q_le_lt_trans(ray_eps(), t, ray_eps());
                            }
                            match enter {
                                Some(en) => {
                                    if q_lt(ex@, en@) {
                                        lemma_q_le_trans(en@, t, ex@);
                                        lemma_q_le_lt_trans(en@, ex@, en@);
                                    }
                                },
                                None => {},
                            }
                        },
                        None => {},
                    }
                }
            }
        }
        !reject
    }
}

/// An optional lower bound holds of `t`.
pub open spec fn holds_below(opt: Option<Rat>, t: Q) -> bool {
    match opt {
        Some(v) => q_le(v@, t),
        None => true,
    }
}

/// An optional upper bound holds of `t`.
pub open spec fn holds_above(opt: Option<Rat>, t: Q) -> bool {
    match opt {
        Some(v) => q_le(t, v@),
        None => true,
    }
}

/// Merge an optional lower bound into the running maximum.  The result is a
/// lower bound for anything both arguments bound from below.
fn merge_max(cur: Option<Rat>, new: Option<Rat>) -> (r: Option<Rat>)
    requires
        cur matches Some(v) ==> v.wf(),
        new matches Some(v) ==> v.wf(),
    ensures
        r matches Some(v) ==> v.wf(),
        forall|t: Q|
            q_wf(t) && holds_below(cur, t) && holds_below(new, t) ==> #[trigger] holds_below(r, t),
{
    match (&cur, &new) {
        (Some(c), Some(n)) => {
            if c.lt(n) {
                new
            } else {
                cur
            }
        },
        (None, Some(_)) => new,
        _ => cur,
    }
}

/// Merge an optional upper bound into the running minimum.
fn merge_min(cur: Option<Rat>, new: Option<Rat>) -> (r: Option<Rat>)
    requires
        cur matches Some(v) ==> v.wf(),
        new matches Some(v) ==> v.wf(),
    ensures
        r matches Some(v) ==> v.wf(),
        forall|t: Q|
            q_wf(t) && holds_above(cur, t) && holds_above(new, t) ==> #[trigger] holds_above(r, t),
{
    match (&cur, &new) {
        (Some(c), Some(n)) => {
            if n.lt(c) {
                new
            } else {
                cur
            }
        },
        (None, Some(_)) => new,
        _ => cur,
    }
}

/// The canonical form of the self-intersection threshold.
proof fn lemma_ray_eps_canon(e: Q)
    requires
        e == crate::rat::q_canon(Q { n: RAY_EPS_NUM as int, d: RAY_EPS_DEN as int }),
    ensures
        e == ray_eps(),
{
    reveal_with_fuel(crate::rat::gcd, 4);
    assert(crate::rat::gcd(crate::rat::iabs(RAY_EPS_NUM as int), crate::rat::iabs(
        RAY_EPS_DEN as int,
    )) == 1);
    assert(1int / 1int == 1int);
    assert(1000int / 1int == 1000int);
}

/// Ranges at most this long become leaves.
pub const LEAF_SIZE: usize = 20;

/// One node of the hierarchy: a leaf owns triangles, an internal node owns
/// two children; both carry a bounding box.
#[derive(Debug)]
pub struct BVHNode {
    pub bounding_box: AABB,
    pub data: Option<Vec<Triangle>>,
    pub l: Option<Box<BVHNode>>,
    pub r: Option<Box<BVHNode>>,
}

pub struct BVHTree {
    pub root: BVHNode,
}

/// The componentwise union of two boxes, at the specification level.
pub open spec fn spec_box_union(a: AABB, b: AABB) -> AABB {
    AABB {
        x0: if q_le(a.x0@, b.x0@) {
            a.x0
        } else {
            b.x0
        },
        x1: if q_le(a.x1@, b.x1@) {
            b.x1
        } else {
            a.x1
        },
        y0: if q_le(a.y0@, b.y0@) {
            a.y0
        } else {
            b.y0
        },
        y1: if q_le(a.y1@, b.y1@) {
            b.y1
        } else {
            a.y1
        },
        z0: if q_le(a.z0@, b.z0@) {
            a.z0
        } else {
            b.z0
        },
        z1: if q_le(a.z1@, b.z1@) {
            b.z1
        } else {
            a.z1
        },
    }
}

impl BVHNode {
    /// Structural soundness: a leaf's box contains all its triangles; an
    /// internal node's box is exactly the componentwise union of its two
    /// children's boxes (hence contains them); a node is a leaf exactly when
    /// its triangle count is within the size threshold, and leaves are
    /// nonempty.
    pub open spec fn wf(&self) -> bool
        decreases *self,
    {
        &&& self.bounding_box.wf()
        &&& if self.l is None && self.r is None {
            &&& self.data matches Some(ts) && 1 <= ts.len() <= LEAF_SIZE
            &&& forall|k: int|
                0 <= k < self.data->Some_0@.len() ==> (#[trigger] self.data->Some_0@[k]).wf()
                    && self.bounding_box.contains_triangle(self.data->Some_0@[k])
        } else {
            &&& self.l is Some && self.r is Some && self.data is None
            &&& self.l->Some_0.wf()
            &&& self.r->Some_0.wf()
            &&& self.l->Some_0.bounding_box.inside(&self.bounding_box)
            &&& self.r->Some_0.bounding_box.inside(&self.bounding_box)
            &&& self.bounding_box == spec_box_union(
                self.l->Some_0.bounding_box,
                self.r->Some_0.bounding_box,
            )
            &&& self.count() > LEAF_SIZE
        }
    }

    /// The number of triangles stored under this node.
    pub open spec fn count(&self) -> nat
        decreases *self,
    {
        if self.l is None && self.r is None {
            self.data->Some_0@.len()
        } else {
            (if self.l is Some {
                self.l->Some_0.count()
            } else {
                0
            }) + (if self.r is Some {
                self.r->Some_0.count()
            } else {
                0
            })
        }
    }

    /// Whether this node is a leaf.
    pub fn is_leaf(&self) -> (r: bool)
        ensures
            r == (self.l is None && self.r is None),
    {
        self.l.is_none() && self.r.is_none()
    }
}

pub open spec fn all_tris_wf(ts: Seq<Triangle>) -> bool {
    forall|k: int| 0 <= k < ts.len() ==> (#[trigger] ts[k]).wf()
}

pub open spec fn all_v4_wf(vs: Seq<Vector4>) -> bool {
    forall|k: int| 0 <= k < vs.len() ==> (#[trigger] vs[k]).wf()
}

/// One coordinate of a centroid, selected by the cycling axis, at the
/// specification level.
pub open spec fn spec_axis(v: Vector4, axis: int) -> Q {
    if axis == 0 {
        v@.x
    } else if axis == 1 {
        v@.y
    } else {
        v@.z
    }
}

/// One coordinate of a centroid, selected by the cycling axis.
fn axis_coord(v: &Vector4, axis: usize) -> (r: Rat)
    requires
        v.wf(),
        axis < 3,
    ensures
        r.wf(),
        r@ == spec_axis(*v, axis as int),
{
    if axis == 0 {
        v.x
    } else if axis == 1 {
        v.y
    } else {
        v.z
    }
}

/// Swapping two elements keeps a sequence's contents.
proof fn lemma_swap_multiset<A>(s: Seq<A>, i: int, j: int)
    requires
        0 <= i < s.len(),
        0 <= j < s.len(),
    ensures
        s.update(i, s[j]).update(j, s[i]).to_multiset() == s.to_multiset(),
{
    broadcast use vstd::seq_lib::lemma_multiset_commutative;

    let s2 = s.update(i, s[j]).update(j, s[i]);
    if i == j {
        assert(s2 =~= s);
    } else {
        let a = if i < j {
            i
        } else {
            j
        };
        let b = if i < j {
            j
        } else {
            i
        };
        assert(s2 =~= s.update(a, s[b]).update(b, s[a]));
        let front = s.subrange(0, a);
        let mid = s.subrange(a + 1, b);
        let back = s.subrange(b + 1, s.len() as int);
        assert(s =~= front + seq![s[a]] + mid + seq![s[b]] + back);
        assert(s2 =~= front + seq![s[b]] + mid + seq![s[a]] + back);
        assert(s.to_multiset() =~= s2.to_multiset()) by {
            broadcast use vstd::multiset::group_multiset_axioms;

        }
    }
}

/// A swap inside a range keeps the range's contents and everything outside.
proof fn lemma_swap_in_range<A>(pre: Seq<A>, post: Seq<A>, l: int, r: int, i: int, j: int)
    requires
        0 <= l <= i < r <= pre.len(),
        l <= j < r,
        post == pre.update(i, pre[j]).update(j, pre[i]),
    ensures
        post.len() == pre.len(),
        post.subrange(l, r).to_multiset() == pre.subrange(l, r).to_multiset(),
        forall|m: int| 0 <= m < pre.len() && !(l <= m < r) ==> post[m] == pre[m],
{
    let ps = pre.subrange(l, r);
    assert(post.subrange(l, r) =~= ps.update(i - l, ps[j - l]).update(j - l, ps[i - l]));
    lemma_swap_multiset(ps, i - l, j - l);
}

/// Swap two triangles and their centroids in place.
fn swap2(ts: &mut Vec<Triangle>, bcs: &mut Vec<Vector4>, i: usize, j: usize)
    requires
        old(ts)@.len() == old(bcs)@.len(),
        i < old(ts)@.len(),
        j < old(ts)@.len(),
        all_tris_wf(old(ts)@),
        all_v4_wf(old(bcs)@),
    ensures
        final(ts)@.len() == old(ts)@.len(),
        final(bcs)@.len() == old(bcs)@.len(),
        all_tris_wf(final(ts)@),
        all_v4_wf(final(bcs)@),
        final(ts)@ == old(ts)@.update(i as int, old(ts)@[j as int]).update(
            j as int,
            old(ts)@[i as int],
        ),
        final(bcs)@ == old(bcs)@.update(i as int, old(bcs)@[j as int]).update(
            j as int,
            old(bcs)@[i as int],
        ),
{
    let ti = ts[i];
    let tj = ts[j];
    ts.set(i, tj);
    ts.set(j, ti);
    let bi = bcs[i];
    let bj = bcs[j];
    bcs.set(i, bj);
    bcs.set(j, bi);
    proof {
        assert forall|k: int| 0 <= k < final(ts)@.len() implies (#[trigger] final(ts)@[k]).wf() by {
            assert(final(ts)@[k] == old(ts)@[k] || final(ts)@[k] == old(ts)@[i as int]
                || final(ts)@[k] == old(ts)@[j as int]);
        }
        assert forall|k: int| 0 <= k < final(bcs)@.len() implies (#[trigger] final(bcs)@[k]).wf() by {
            assert(final(bcs)@[k] == old(bcs)@[k] || final(bcs)@[k] == old(bcs)@[i as int]
                || final(bcs)@[k] == old(bcs)@[j as int]);
        }
    }
}

/// The three content-preservation clauses every partition step keeps: the
/// range `[l, r)` holds the same triangles and centroids as before, and
/// nothing outside it moves.
pub open spec fn range_permuted(
    ts0: Seq<Triangle>,
    bcs0: Seq<Vector4>,
    ts1: Seq<Triangle>,
    bcs1: Seq<Vector4>,
    l: int,
    r: int,
) -> bool {
    &&& ts1.len() == ts0.len()
    &&& bcs1.len() == bcs0.len()
    &&& ts1.subrange(l, r).to_multiset() == ts0.subrange(l, r).to_multiset()
    &&& bcs1.subrange(l, r).to_multiset() == bcs0.subrange(l, r).to_multiset()
    &&& forall|m: int| 0 <= m < ts0.len() && !(l <= m < r) ==> ts1[m] == ts0[m]
    &&& forall|m: int| 0 <= m < bcs0.len() && !(l <= m < r) ==> bcs1[m] == bcs0[m]
}

/// A property of every element survives any rearrangement of the contents.
proof fn lemma_multiset_bound<A>(s: Seq<A>, s2: Seq<A>, p: spec_fn(A) -> bool)
    requires
        s2.to_multiset() == s.to_multiset(),
        forall|i: int| 0 <= i < s.len() ==> p(#[trigger] s[i]),
    ensures
        forall|i: int| 0 <= i < s2.len() ==> p(#[trigger] s2[i]),
{
    broadcast use vstd::seq_lib::group_to_multiset_ensures;

    assert forall|i: int| 0 <= i < s2.len() implies p(#[trigger] s2[i]) by {
        assert(s2.contains(s2[i]));
        assert(s.to_multiset().count(s2[i]) > 0);
        assert(s.contains(s2[i]));
        let j = choose|j: int| 0 <= j < s.len() && s[j] == s2[i];
        assert(p(s[j]));
    }
}

/// Content preservation of a narrower range widens to any enclosing range.
proof fn lemma_sub_multiset_widen<A>(pre: Seq<A>, post: Seq<A>, l: int, r: int, l2: int, r2: int)
    requires
        0 <= l <= l2 <= r2 <= r <= pre.len(),
        pre.len() == post.len(),
        post.subrange(l2, r2).to_multiset() == pre.subrange(l2, r2).to_multiset(),
        forall|m: int| 0 <= m < pre.len() && !(l2 <= m < r2) ==> post[m] == pre[m],
    ensures
        post.subrange(l, r).to_multiset() == pre.subrange(l, r).to_multiset(),
    decreases r,
{
    broadcast use vstd::seq_lib::lemma_multiset_commutative;

    assert(post.subrange(l, r) =~= post.subrange(l, l2) + post.subrange(l2, r2) + post.subrange(
        r2,
        r,
    ));
    assert(pre.subrange(l, r) =~= pre.subrange(l, l2) + pre.subrange(l2, r2) + pre.subrange(
        r2,
        r,
    ));
    assert(post.subrange(l, l2) =~= pre.subrange(l, l2));
    assert(post.subrange(r2, r) =~= pre.subrange(r2, r));
    assert(post.subrange(l, r).to_multiset() =~= pre.subrange(l, r).to_multiset()) by {
        broadcast use vstd::multiset::group_multiset_axioms;

    }
}

/// Lomuto partition of `[l, r)` around a randomly chosen pivot's centroid
/// coordinate; returns the pivot's final position.  The range keeps exactly
/// its triangles and centroids, rearranged, and nothing outside it moves.
fn randomized_partition(
    ts: &mut Vec<Triangle>,
    bcs: &mut Vec<Vector4>,
    l: usize,
    r: usize,
    axis: usize,
) -> (q: usize)
    requires
        old(ts)@.len() == old(bcs)@.len(),
        l < r <= old(ts)@.len(),
        axis < 3,
        all_tris_wf(old(ts)@),
        all_v4_wf(old(bcs)@),
    ensures
        final(ts)@.len() == old(ts)@.len(),
        final(bcs)@.len() == old(bcs)@.len(),
        all_tris_wf(final(ts)@),
        all_v4_wf(final(bcs)@),
        l <= q < r,
        range_permuted(old(ts)@, old(bcs)@, final(ts)@, final(bcs)@, l as int, r as int),
        forall|m: int|
            l <= m < q ==> q_lt(
                spec_axis(#[trigger] final(bcs)@[m], axis as int),
                spec_axis(final(bcs)@[q as int], axis as int),
            ),
        forall|m: int|
            q < m < r ==> q_le(
                spec_axis(final(bcs)@[q as int], axis as int),
                spec_axis(#[trigger] final(bcs)@[m], axis as int),
            ),
{
    let pivot = crate::rng::rand_index(l, r);
    let ghost ts0 = ts@;
    let ghost bcs0 = bcs@;
    swap2(ts, bcs, pivot, r - 1);
    proof {
        lemma_swap_in_range(ts0, ts@, l as int, r as int, pivot as int, r - 1);
        lemma_swap_in_range(bcs0, bcs@, l as int, r as int, pivot as int, r - 1);
    }
    let mut store: usize = l;
    let mut j: usize = l;
    while j < r - 1
        invariant
            ts@.len() == old(ts)@.len(),
            bcs@.len() == old(bcs)@.len(),
            ts@.len() == bcs@.len(),
            l < r <= ts@.len(),
            axis < 3,
            all_tris_wf(ts@),
            all_v4_wf(bcs@),
            l <= store <= j,
            j <= r - 1,
            range_permuted(old(ts)@, old(bcs)@, ts@, bcs@, l as int, r as int),
            forall|m: int|
                l <= m < store ==> q_lt(
                    spec_axis(#[trigger] bcs@[m], axis as int),
                    spec_axis(bcs@[r - 1], axis as int),
                ),
            forall|m: int|
                store <= m < j ==> q_le(
                    spec_axis(bcs@[r - 1], axis as int),
                    spec_axis(#[trigger] bcs@[m], axis as int),
                ),
        decreases r - 1 - j,
    {
        let pj = axis_coord(&bcs[j], axis);
        let pr = axis_coord(&bcs[r - 1], axis);
        if pj.lt(&pr) {
            let ghost ts1 = ts@;
            let ghost bcs1 = bcs@;
            swap2(ts, bcs, store, j);
            proof {
                lemma_swap_in_range(ts1, ts@, l as int, r as int, store as int, j as int);
                lemma_swap_in_range(bcs1, bcs@, l as int, r as int, store as int, j as int);
                assert(bcs@[r - 1] == bcs1[r - 1]);
            }
            store += 1;
        }
        j += 1;
    }
    let ghost ts2 = ts@;
    let ghost bcs2 = bcs@;
    swap2(ts, bcs, store, r - 1);
    proof {
        lemma_swap_in_range(ts2, ts@, l as int, r as int, store as int, r - 1);
        lemma_swap_in_range(bcs2, bcs@, l as int, r as int, store as int, r - 1);
        // The pivot value moved to `store`; both regions keep their bound
        // relative to it.
        assert(bcs@[store as int] == bcs2[r - 1]);
        assert forall|m: int| l <= m < store implies q_lt(
            spec_axis(#[trigger] bcs@[m], axis as int),
            spec_axis(bcs@[store as int], axis as int),
        ) by {
            assert(bcs@[m] == bcs2[m]);
        }
        assert forall|m: int| store < m < r implies q_le(
            spec_axis(bcs@[store as int], axis as int),
            spec_axis(#[trigger] bcs@[m], axis as int),
        ) by {
            if m < r - 1 {
                assert(bcs@[m] == bcs2[m]);
            } else {
                assert(bcs@[m] == bcs2[store as int]);
            }
        }
    }
    store
}

/// Move the element of rank `k - l` within `[l, r)` to position `k` by
/// randomized quickselect on the cycling axis coordinate.  The range keeps
/// exactly its triangles and centroids, rearranged, and nothing outside it
/// moves.
fn quick_select(
    ts: &mut Vec<Triangle>,
    bcs: &mut Vec<Vector4>,
    l: usize,
    r: usize,
    k: usize,
    axis: usize,
)
    requires
        old(ts)@.len() == old(bcs)@.len(),
        l <= k < r <= old(ts)@.len(),
        axis < 3,
        all_tris_wf(old(ts)@),
        all_v4_wf(old(bcs)@),
    ensures
        final(ts)@.len() == old(ts)@.len(),
        final(bcs)@.len() == old(bcs)@.len(),
        all_tris_wf(final(ts)@),
        all_v4_wf(final(bcs)@),
        range_permuted(old(ts)@, old(bcs)@, final(ts)@, final(bcs)@, l as int, r as int),
        forall|m: int|
            l <= m < k ==> q_le(
                spec_axis(#[trigger] final(bcs)@[m], axis as int),
                spec_axis(final(bcs)@[k as int], axis as int),
            ),
        forall|m: int|
            k < m < r ==> q_le(
                spec_axis(final(bcs)@[k as int], axis as int),
                spec_axis(#[trigger] final(bcs)@[m], axis as int),
            ),
    decreases r - l,
{
    if r - l <= 1 {
        return ;
    }
    let q = randomized_partition(ts, bcs, l, r, axis);
    let ghost ts1 = ts@;
    let ghost bcs1 = bcs@;
    let ghost ax = axis as int;
    let ghost pv = spec_axis(bcs1[q as int], ax);
    proof {
        assert(q_wf(pv)) by {
            assert(bcs1[q as int].wf());
        }
    }
    if k < q {
        quick_select(ts, bcs, l, q, k, axis);
        proof {
            lemma_sub_multiset_widen(ts1, ts@, l as int, r as int, l as int, q as int);
            lemma_sub_multiset_widen(bcs1, bcs@, l as int, r as int, l as int, q as int);
            // The rearranged left slice still holds only values below the
            // pivot, so the rank bound extends past the pivot.
            lemma_multiset_bound(
                bcs1.subrange(l as int, q as int),
                bcs@.subrange(l as int, q as int),
                |v: Vector4| q_lt(spec_axis(v, ax), pv),
            );
            assert(bcs@[q as int] == bcs1[q as int]);
            assert forall|m: int| k < m < r implies q_le(
                spec_axis(bcs@[k as int], ax),
                spec_axis(#[trigger] bcs@[m], ax),
            ) by {
                assert(q_wf(spec_axis(bcs@[k as int], ax)) && q_wf(spec_axis(bcs@[m], ax))) by {
                    assert(bcs@[k as int].wf() && bcs@[m].wf());
                }
                assert(bcs@[k as int] == bcs@.subrange(l as int, q as int)[k - l]);
                assert(q_lt(spec_axis(bcs@[k as int], ax), pv));
                if m < q {
                    assert(bcs@[m] == bcs@.subrange(l as int, q as int)[m - l]);
                } else if m == q {
                } else {
                    assert(bcs@[m] == bcs1[m]);
                    crate::rat::lemma_q_le_lt_trans(
                        spec_axis(bcs@[k as int], ax),
                        pv,
                        spec_axis(bcs@[m], ax),
                    );
                }
            }
        }
    } else if k > q {
        quick_select(ts, bcs, q + 1, r, k, axis);
        proof {
            lemma_sub_multiset_widen(ts1, ts@, l as int, r as int, q as int + 1, r as int);
            lemma_sub_multiset_widen(bcs1, bcs@, l as int, r as int, q as int + 1, r as int);
            // The rearranged right slice still holds only values at or
            // above the pivot.
            lemma_multiset_bound(
                bcs1.subrange(q as int + 1, r as int),
                bcs@.subrange(q as int + 1, r as int),
                |v: Vector4| q_le(pv, spec_axis(v, ax)),
            );
            assert(bcs@[q as int] == bcs1[q as int]);
            assert forall|m: int| l <= m < k implies q_le(
                spec_axis(#[trigger] bcs@[m], ax),
                spec_axis(bcs@[k as int], ax),
            ) by {
                assert(q_wf(spec_axis(bcs@[k as int], ax)) && q_wf(spec_axis(bcs@[m], ax))) by {
                    assert(bcs@[k as int].wf() && bcs@[m].wf());
                }
                assert(bcs@[k as int] == bcs@.subrange(q as int + 1, r as int)[k - q - 1]);
                assert(q_le(pv, spec_axis(bcs@[k as int], ax)));
                if m > q {
                    assert(bcs@[m] == bcs@.subrange(q as int + 1, r as int)[m - q - 1]);
                } else if m == q {
                } else {
                    assert(bcs@[m] == bcs1[m]);
                    crate::rat::lemma_q_le_lt_trans(
                        spec_axis(bcs@[m], ax),
                        pv,
                        spec_axis(bcs@[k as int], ax),
                    );
                }
            }
        }
    }
}

/// Build the subtree over `[l, r)`: split ranges above the leaf threshold at
/// the median centroid of the cycling axis, recurse, and take the union of
/// the children's boxes; make a leaf otherwise.  The leaves' concatenation,
/// left to right, is exactly the worked array's range `[l, r)`, which holds
/// the same triangles the range held before, rearranged; nothing outside
/// the range moves.
fn build_tree(
    ts: &mut Vec<Triangle>,
    bcs: &mut Vec<Vector4>,
    l: usize,
    r: usize,
    axis: usize,
) -> (node: BVHNode)
    requires
        old(ts)@.len() == old(bcs)@.len(),
        l < r <= old(ts)@.len(),
        axis < 3,
        all_tris_wf(old(ts)@),
        all_v4_wf(old(bcs)@),
    ensures
        final(ts)@.len() == old(ts)@.len(),
        final(bcs)@.len() == old(bcs)@.len(),
        all_tris_wf(final(ts)@),
        all_v4_wf(final(bcs)@),
        node.wf(),
        node.count() == r - l,
        range_permuted(old(ts)@, old(bcs)@, final(ts)@, final(bcs)@, l as int, r as int),
        node_tris(node) == final(ts)@.subrange(l as int, r as int),
    decreases r - l,
{
    if r - l <= LEAF_SIZE {
        let mut data: Vec<Triangle> = Vec::new();
        let first = ts[l];
        let mut bb = AABB::from_triangle(&first);
        let mut k: usize = l;
        while k < r
            invariant
                ts@ == old(ts)@,
                bcs@ == old(bcs)@,
                ts@.len() == bcs@.len(),
                l < r <= ts@.len(),
                all_tris_wf(ts@),
                l <= k <= r,
                data@.len() == k - l,
                bb.wf(),
                forall|i: int|
                    0 <= i < data@.len() ==> (#[trigger] data@[i]).wf() && bb.contains_triangle(
                        data@[i],
                    ),
                forall|i: int| 0 <= i < data@.len() ==> data@[i] == ts@[l + i],
            decreases r - k,
        {
            let t = ts[k];
            let tb = AABB::from_triangle(&t);
            let nb = bb.union(&tb);
            proof {
                assert forall|i: int|
                    0 <= i < data@.len() implies (#[trigger] data@[i]).wf()
                    && nb.contains_triangle(data@[i]) by {
                    AABB::lemma_inside_trans(&bb, &nb, data@[i]);
                }
                AABB::lemma_inside_trans(&tb, &nb, t);
            }
            bb = nb;
            data.push(t);
            k += 1;
        }
        let node = BVHNode { bounding_box: bb, data: Some(data), l: None, r: None };
        proof {
            assert(node_tris(node) =~= ts@.subrange(l as int, r as int));
        }
        node
    } else {
        let mid = l + (r - l) / 2;
        quick_select(ts, bcs, l, r, mid, axis);
        let ghost ts1 = ts@;
        let ghost bcs1 = bcs@;
        let next_axis = if axis >= 2 {
            0
        } else {
            axis + 1
        };
        let left = build_tree(ts, bcs, l, mid + 1, next_axis);
        proof {
            lemma_sub_multiset_widen(ts1, ts@, l as int, r as int, l as int, mid as int + 1);
            lemma_sub_multiset_widen(bcs1, bcs@, l as int, r as int, l as int, mid as int + 1);
        }
        let ghost ts2 = ts@;
        let ghost bcs2 = bcs@;
        let right = build_tree(ts, bcs, mid + 1, r, next_axis);
        proof {
            lemma_sub_multiset_widen(ts2, ts@, l as int, r as int, mid as int + 1, r as int);
            lemma_sub_multiset_widen(bcs2, bcs@, l as int, r as int, mid as int + 1, r as int);
        }
        let bb = left.bounding_box.union(&right.bounding_box);
        let node = BVHNode {
            bounding_box: bb,
            data: None,
            l: Some(Box::new(left)),
            r: Some(Box::new(right)),
        };
        proof {
            // The left child's slice did not move while the right was built.
            assert(ts@.subrange(l as int, mid as int + 1) =~= ts2.subrange(
                l as int,
                mid as int + 1,
            ));
            assert(node_tris(node) == node_tris(left) + node_tris(right));
            assert(ts@.subrange(l as int, r as int) =~= ts@.subrange(l as int, mid as int + 1)
                + ts@.subrange(mid as int + 1, r as int));
        }
        node
    }
}

impl BVHTree {
    /// Build a hierarchy over the triangles, partitioning them by centroid.
    /// A triangle whose exact centroid cannot be represented is guided by the
    /// origin instead; that only affects the shape of the split, never which
    /// triangles are stored: the tree stores exactly the given triangles,
    /// rearranged, with none lost, invented or duplicated.
    pub fn from_triangles(triangles: Vec<Triangle>) -> (r: Option<BVHTree>)
        requires
            all_tris_wf(triangles@),
        ensures
            r matches Some(tree) ==> tree.root.wf() && tree.root.count() == triangles@.len()
                && node_tris(tree.root).to_multiset() == triangles@.to_multiset(),
            r is None <==> triangles@.len() == 0,
    {
        if triangles.len() == 0 {
            return None;
        }
        let mut ts = triangles;
        let ghost orig = ts@;
        let mut bcs: Vec<Vector4> = Vec::new();
        let mut i: usize = 0;
        while i < ts.len()
            invariant
                ts@ == orig,
                all_tris_wf(ts@),
                bcs@.len() == i,
                i <= ts@.len(),
                all_v4_wf(bcs@),
            decreases ts@.len() - i,
        {
            let c = match ts[i].get_barycenter() {
                Some(c) => c,
                None => {
                    let z = Rat::zero();
                    crate::vec::vector4(z, z, z, z)
                },
            };
            bcs.push(c);
            i += 1;
        }
        let n = ts.len();
        let root = build_tree(&mut ts, &mut bcs, 0, n, 0);
        proof {
            assert(ts@.subrange(0, n as int) =~= ts@);
            assert(orig.subrange(0, n as int) =~= orig);
        }
        Some(BVHTree { root })
    }
}

/// A hit found during traversal, with the triangle that produced it.
#[derive(Clone, Copy)]
pub struct TraceHit {
    pub hit: RayHit,
    pub triangle: Triangle,
}

impl TraceHit {
    pub open spec fn sound(&self, ray: Ray) -> bool {
        &&& self.triangle.wf()
        &&& hit_valid(ray, self.triangle, self.hit)
        &&& q_le(ray_eps(), self.hit.t@)
    }
}

/// The nearest-hit merge rule at the specification level: the strictly
/// nearer hit wins, and a tie keeps the newer candidate.
pub open spec fn merge_best(
    a: Option<(Triangle, crate::ray::QHit)>,
    b: (Triangle, crate::ray::QHit),
) -> Option<(Triangle, crate::ray::QHit)> {
    match a {
        None => Some(b),
        Some(ha) => if q_lt(ha.1.t, b.1.t) {
            Some(ha)
        } else {
            Some(b)
        },
    }
}

/// The nearest valid hit among the first `n` triangles: the left fold of
/// the merge rule over each triangle's checked intersection, keeping only
/// hits at parameter `ray_eps()` or beyond.
pub open spec fn best_upto(data: Seq<Triangle>, ray: Ray, n: int) -> Option<
    (Triangle, crate::ray::QHit),
>
    decreases n,
{
    if n <= 0 {
        None
    } else {
        let prev = best_upto(data, ray, n - 1);
        match crate::ray::ch_mt(ray, data[n - 1]) {
            Some(q) => if q_le(ray_eps(), q.t) {
                merge_best(prev, (data[n - 1], q))
            } else {
                prev
            },
            None => prev,
        }
    }
}

/// The nearest valid hit among all the triangles of a list.
pub open spec fn best_in(data: Seq<Triangle>, ray: Ray) -> Option<(Triangle, crate::ray::QHit)> {
    best_upto(data, ray, data.len() as int)
}

/// An executable traversal hit carries exactly a specification hit's values.
pub open spec fn trace_views(h: TraceHit, b: (Triangle, crate::ray::QHit)) -> bool {
    h.triangle == b.0 && crate::ray::hit_views(h.hit, b.1)
}

/// The nearer of two optional hits, by ray parameter; a tie keeps `b`.
pub fn nearer_hit(a: Option<TraceHit>, b: Option<TraceHit>, ray: &Ray) -> (r: Option<TraceHit>)
    requires
        ray.wf(),
        a matches Some(h) ==> h.sound(*ray),
        b matches Some(h) ==> h.sound(*ray),
    ensures
        r matches Some(h) ==> h.sound(*ray),
        r is None <==> (a is None && b is None),
        a is None ==> r == b,
        b is None ==> r == a,
        a matches Some(ha) ==> (b matches Some(hb) ==> r == if q_lt(ha.hit.t@, hb.hit.t@) {
            Some(ha)
        } else {
            Some(hb)
        }),
{
    match (a, b) {
        (Some(ha), Some(hb)) => {
            if ha.hit.t.lt(&hb.hit.t) {
                Some(ha)
            } else {
                Some(hb)
            }
        },
        (Some(ha), None) => Some(ha),
        (None, bb) => bb,
    }
}

/// An optional executable hit matches an optional specification hit.
pub open spec fn opt_trace_views(
    r: Option<TraceHit>,
    b: Option<(Triangle, crate::ray::QHit)>,
) -> bool {
    match (r, b) {
        (Some(h), Some(v)) => trace_views(h, v),
        (None, None) => true,
        _ => false,
    }
}

/// Nearest valid intersection among a flat list of triangles (used for the
/// leaves, and as the brute-force reference the hierarchy is compared with).
/// The result equals the `best_in` fold exactly: `None` means no triangle
/// of the list has a representable valid hit at `ray_eps()` or beyond, and a
/// returned hit is the fold's nearest one.
#[verifier::rlimit(100)]
pub fn nearest_in_triangles(data: &Vec<Triangle>, ray: &Ray) -> (r: Option<TraceHit>)
    requires
        ray.wf(),
        all_tris_wf(data@),
    ensures
        r matches Some(h) ==> h.sound(*ray),
        opt_trace_views(r, best_in(data@, *ray)),
{
    let eps = Rat::new(RAY_EPS_NUM, RAY_EPS_DEN);
    proof {
        lemma_ray_eps_canon(eps@);
    }
    let mut best: Option<TraceHit> = None;
    let mut k: usize = 0;
    while k < data.len()
        invariant
            ray.wf(),
            all_tris_wf(data@),
            k <= data@.len(),
            eps.wf(),
            eps@ == ray_eps(),
            best matches Some(h) ==> h.sound(*ray),
            opt_trace_views(best, best_upto(data@, *ray, k as int)),
        decreases data@.len() - k,
    {
        let t = data[k];
        let ghost prev = best;
        let ghost prev_spec = best_upto(data@, *ray, k as int);
        let hit_opt = ray.intersect_triangle(&t);
        proof {
            assert(best_upto(data@, *ray, k as int + 1) == (match crate::ray::ch_mt(
                *ray,
                data@[k as int],
            ) {
                Some(q) => if q_le(ray_eps(), q.t) {
                    merge_best(prev_spec, (data@[k as int], q))
                } else {
                    prev_spec
                },
                None => prev_spec,
            }));
        }
        match hit_opt {
            Some(hit) => {
                if eps.le(&hit.t) {
                    let cand = Some(TraceHit { hit, triangle: t });
                    best = nearer_hit(best, cand, ray);
                    proof {
                        let q = crate::ray::ch_mt(*ray, data@[k as int])->Some_0;
                        assert(crate::ray::hit_views(hit, q));
                        assert(q_le(ray_eps(), q.t));
                        match prev_spec {
                            Some(pv) => {
                                let ph = prev->Some_0;
                                assert(trace_views(ph, pv));
                                assert(q_lt(ph.hit.t@, hit.t@) == q_lt(pv.1.t, q.t));
                            },
                            None => {},
                        }
                        assert(opt_trace_views(best, best_upto(data@, *ray, k as int + 1)));
                    }
                } else {
                    proof {
                        let q = crate::ray::ch_mt(*ray, data@[k as int])->Some_0;
                        assert(crate::ray::hit_views(hit, q));
                        assert(!q_le(ray_eps(), q.t));
                    }
                }
            },
            None => {
                proof {
                    assert(crate::ray::ch_mt(*ray, data@[k as int]) is None);
                }
            },
        }
        k += 1;
    }
    best
}

/// The triangles stored under a node, leaves concatenated left to right.
pub open spec fn node_tris(node: BVHNode) -> Seq<Triangle>
    decreases node,
{
    if node.l is None && node.r is None {
        match node.data {
            Some(d) => d@,
            None => Seq::empty(),
        }
    } else {
        (match node.l {
            Some(l) => node_tris(*l),
            None => Seq::empty(),
        }) + (match node.r {
            Some(r) => node_tris(*r),
            None => Seq::empty(),
        })
    }
}

/// The nearer of two optional specification hits; a tie keeps the second.
pub open spec fn opt_merge(
    a: Option<(Triangle, crate::ray::QHit)>,
    b: Option<(Triangle, crate::ray::QHit)>,
) -> Option<(Triangle, crate::ray::QHit)> {
    match (a, b) {
        (Some(h1), Some(h2)) => if q_lt(h1.1.t, h2.1.t) {
            Some(h1)
        } else {
            Some(h2)
        },
        (Some(h1), None) => a,
        (None, _) => b,
    }
}

/// A fold result carries a well-formed hit parameter at or past the
/// self-intersection threshold.
pub proof fn lemma_best_wf(data: Seq<Triangle>, ray: Ray, n: int)
    requires
        0 <= n <= data.len(),
    ensures
        best_upto(data, ray, n) matches Some(b) ==> q_wf(b.1.t) && q_le(ray_eps(), b.1.t),
    decreases n,
{
    if n > 0 {
        lemma_best_wf(data, ray, n - 1);
        match crate::ray::ch_mt(ray, data[n - 1]) {
            Some(q) => {
                crate::ray::lemma_mt_t_wf(ray, data[n - 1]);
            },
            None => {},
        }
    }
}

/// The fold reads only the first `n` elements.
proof fn lemma_best_prefix(s1: Seq<Triangle>, s2: Seq<Triangle>, ray: Ray, n: int)
    requires
        0 <= n <= s1.len(),
        n <= s2.len(),
        forall|i: int| 0 <= i < n ==> s1[i] == s2[i],
    ensures
        best_upto(s1, ray, n) == best_upto(s2, ray, n),
    decreases n,
{
    if n > 0 {
        lemma_best_prefix(s1, s2, ray, n - 1);
    }
}

/// A list without any valid hit folds to nothing.
pub proof fn lemma_best_none(data: Seq<Triangle>, ray: Ray, n: int)
    requires
        0 <= n <= data.len(),
        forall|k: int|
            0 <= k < n ==> !((#[trigger] crate::ray::ch_mt(ray, data[k])) matches Some(q) && q_le(
                ray_eps(),
                q.t,
            )),
    ensures
        best_upto(data, ray, n) is None,
    decreases n,
{
    if n > 0 {
        lemma_best_none(data, ray, n - 1);
    }
}

/// One fold step distributes over the nearest-merge of an earlier result.
proof fn lemma_step_merge(
    b1: Option<(Triangle, crate::ray::QHit)>,
    bu: Option<(Triangle, crate::ray::QHit)>,
    c: (Triangle, crate::ray::QHit),
)
    requires
        b1 matches Some(h) ==> q_wf(h.1.t),
        bu matches Some(h) ==> q_wf(h.1.t),
        q_wf(c.1.t),
    ensures
        merge_best(opt_merge(b1, bu), c) == opt_merge(b1, merge_best(bu, c)),
{
    match (b1, bu) {
        (Some(h1), Some(hu)) => {
            if q_lt(h1.1.t, hu.1.t) {
                if !q_lt(h1.1.t, c.1.t) {
                    crate::rat::lemma_q_le_lt_trans(c.1.t, h1.1.t, hu.1.t);
                }
            } else {
                if !q_lt(hu.1.t, c.1.t) {
                    crate::rat::lemma_q_le_trans(c.1.t, hu.1.t, h1.1.t);
                }
            }
        },
        _ => {},
    }
}

/// Folding a concatenation is the nearest-merge of the two folds.
#[verifier::rlimit(100)]
pub proof fn lemma_fold_concat(s1: Seq<Triangle>, s2: Seq<Triangle>, ray: Ray, k: int)
    requires
        0 <= k <= s2.len(),
    ensures
        best_upto(s1 + s2, ray, s1.len() + k) == opt_merge(best_in(s1, ray), best_upto(s2, ray, k)),
    decreases k,
{
    let cat = s1 + s2;
    if k == 0 {
        lemma_best_prefix(cat, s1, ray, s1.len() as int);
    } else {
        lemma_fold_concat(s1, s2, ray, k - 1);
        lemma_best_wf(s1, ray, s1.len() as int);
        lemma_best_wf(s2, ray, k - 1);
        assert(cat[s1.len() + k - 1] == s2[k - 1]);
        match crate::ray::ch_mt(ray, s2[k - 1]) {
            Some(q) => {
                crate::ray::lemma_mt_t_wf(ray, s2[k - 1]);
                if q_le(ray_eps(), q.t) {
                    lemma_step_merge(
                        best_in(s1, ray),
                        best_upto(s2, ray, k - 1),
                        (s2[k - 1], q),
                    );
                }
            },
            None => {},
        }
    }
}

/// Every triangle stored under a well-formed node is well formed and
/// contained in the node's bounding box.
#[verifier::rlimit(100)]
pub proof fn lemma_node_tris_facts(node: BVHNode)
    requires
        node.wf(),
    ensures
        forall|k: int|
            0 <= k < node_tris(node).len() ==> (#[trigger] node_tris(node)[k]).wf()
                && node.bounding_box.contains_triangle(node_tris(node)[k]),
    decreases node,
{
    if node.l is None && node.r is None {
    } else {
        let lc = *node.l->Some_0;
        let rc = *node.r->Some_0;
        assert(lc.wf() && rc.wf());
        assert(lc.bounding_box.wf() && rc.bounding_box.wf() && node.bounding_box.wf());
        assert(lc.bounding_box.inside(&node.bounding_box));
        assert(rc.bounding_box.inside(&node.bounding_box));
        lemma_node_tris_facts(lc);
        lemma_node_tris_facts(rc);
        let tl = node_tris(lc);
        let tr = node_tris(rc);
        assert forall|k: int| 0 <= k < node_tris(node).len() implies (#[trigger] node_tris(
            node,
        )[k]).wf() && node.bounding_box.contains_triangle(node_tris(node)[k]) by {
            if k < tl.len() {
                assert(node_tris(node)[k] == tl[k]);
                AABB::lemma_inside_trans(&lc.bounding_box, &node.bounding_box, tl[k]);
            } else {
                assert(node_tris(node)[k] == tr[k - tl.len()]);
                AABB::lemma_inside_trans(
                    &rc.bounding_box,
                    &node.bounding_box,
                    tr[k - tl.len()],
                );
            }
        }
    }
}

/// A valid checked hit on a triangle contained in a box lies in the box:
/// the certified hit point is a convex combination of the vertices, and a
/// box is convex.
proof fn lemma_hit_in_box(ray: Ray, tri: Triangle, bb: AABB, q: crate::ray::QHit)
    requires
        ray.wf(),
        tri.wf(),
        bb.wf(),
        bb.contains_triangle(tri),
        crate::ray::ch_mt(ray, tri) == Some(q),
    ensures
        bb.contains(ray_at_x(ray, q.t), ray_at_y(ray, q.t), ray_at_z(ray, q.t)),
{
    crate::ray::lemma_mt_hit_facts(ray, tri);
    let p0 = crate::ray::tri_p0(tri);
    let p1 = crate::ray::tri_p1(tri);
    let p2 = crate::ray::tri_p2(tri);
    lemma_axis_in(
        bb.x0@,
        bb.x1@,
        p0.x,
        p1.x,
        p2.x,
        q,
        ray.origin@.x,
        ray.dir@.x,
    );
    lemma_axis_in(
        bb.y0@,
        bb.y1@,
        p0.y,
        p1.y,
        p2.y,
        q,
        ray.origin@.y,
        ray.dir@.y,
    );
    lemma_axis_in(
        bb.z0@,
        bb.z1@,
        p0.z,
        p1.z,
        p2.z,
        q,
        ray.origin@.z,
        ray.dir@.z,
    );
}

/// One axis of box convexity, transferred to the ray point through the
/// certified equation.
proof fn lemma_axis_in(
    lo: Q,
    hi: Q,
    x0: Q,
    x1: Q,
    x2: Q,
    q: crate::ray::QHit,
    o: Q,
    d: Q,
)
    requires
        q_wf(lo),
        q_wf(hi),
        q_wf(x0),
        q_wf(x1),
        q_wf(x2),
        q_wf(o),
        q_wf(d),
        q_wf(q.t),
        q_wf(q.b0),
        q_wf(q.b1),
        q_wf(q.b2),
        q_le(lo, x0),
        q_le(x0, hi),
        q_le(lo, x1),
        q_le(x1, hi),
        q_le(lo, x2),
        q_le(x2, hi),
        q_le(q_int(0), q.b0),
        q_le(q_int(0), q.b1),
        q_le(q_int(0), q.b2),
        q_eq(q_add(q_add(q.b0, q.b1), q.b2), q_int(1)),
        q_eq(
            q_add(o, q_mul(q.t, d)),
            q_add(q_add(q_mul(q.b0, x0), q_mul(q.b1, x1)), q_mul(q.b2, x2)),
        ),
    ensures
        q_le(lo, q_add(o, q_mul(q.t, d))),
        q_le(q_add(o, q_mul(q.t, d)), hi),
{
    crate::rat::lemma_convex3_bounds(lo, hi, x0, x1, x2, q.b0, q.b1, q.b2);
    let comb = q_add(q_add(q_mul(q.b0, x0), q_mul(q.b1, x1)), q_mul(q.b2, x2));
    let at = q_add(o, q_mul(q.t, d));
    crate::vec::lemma_q_ops_wf(q.b0, x0);
    crate::vec::lemma_q_ops_wf(q.b1, x1);
    crate::vec::lemma_q_ops_wf(q.b2, x2);
    crate::vec::lemma_q_ops_wf(q_mul(q.b0, x0), q_mul(q.b1, x1));
    crate::vec::lemma_q_ops_wf(q_add(q_mul(q.b0, x0), q_mul(q.b1, x1)), q_mul(q.b2, x2));
    crate::vec::lemma_q_ops_wf(q.t, d);
    crate::vec::lemma_q_ops_wf(o, q_mul(q.t, d));
    crate::ray::lemma_q_eq_sym(at, comb);
    crate::rat::lemma_q_le_congruence(lo, comb, lo, at);
    crate::rat::lemma_q_le_congruence(comb, hi, at, hi);
}

/// Nearest valid intersection stored under a node.  Subtrees whose box the
/// conservative slab test rejects are skipped: the rejection proof shows no
/// point of the box lies on the ray at any admissible parameter, and since
/// every valid hit's point lies in the box, no hit is lost.  The result
/// therefore equals the brute-force nearest-hit fold over every triangle
/// stored under the node.
#[verifier::rlimit(100)]
pub fn node_nearest(node: &BVHNode, ray: &Ray) -> (r: Option<TraceHit>)
    requires
        ray.wf(),
        node.wf(),
    ensures
        r matches Some(h) ==> h.sound(*ray),
        opt_trace_views(r, best_in(node_tris(*node), *ray)),
    decreases *node,
{
    if !node.bounding_box.intersect_ray(ray) {
        proof {
            lemma_node_tris_facts(*node);
            let tris = node_tris(*node);
            assert forall|k: int|
                0 <= k < tris.len() implies !((#[trigger] crate::ray::ch_mt(*ray, tris[k]))
                matches Some(q) && q_le(ray_eps(), q.t)) by {
                if crate::ray::ch_mt(*ray, tris[k]) is Some {
                    let q = crate::ray::ch_mt(*ray, tris[k])->Some_0;
                    if q_le(ray_eps(), q.t) {
                        lemma_hit_in_box(*ray, tris[k], node.bounding_box, q);
                        assert(node.bounding_box.contains(
                            ray_at_x(*ray, q.t),
                            ray_at_y(*ray, q.t),
                            ray_at_z(*ray, q.t),
                        ));
                    }
                }
            }
            lemma_best_none(tris, *ray, tris.len() as int);
        }
        return None;
    }
    match (&node.data, &node.l, &node.r) {
        (Some(data), _, _) => {
            let r = nearest_in_triangles(data, ray);
            proof {
                assert(node_tris(*node) == data@);
            }
            r
        },
        (None, Some(lc), Some(rc)) => {
            let left = node_nearest(lc, ray);
            let right = node_nearest(rc, ray);
            let r = nearer_hit(left, right, ray);
            proof {
                let tl = node_tris(*node.l->Some_0);
                let tr = node_tris(*node.r->Some_0);
                assert(node_tris(*node) == tl + tr);
                lemma_fold_concat(tl, tr, *ray, tr.len() as int);
                lemma_best_wf(tl, *ray, tl.len() as int);
                lemma_best_wf(tr, *ray, tr.len() as int);
            }
            r
        },
        _ => {
            proof {
                assert(false);
            }
            None
        },
    }
}

} // verus!
