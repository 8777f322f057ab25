//! Fixed-dimension vectors of exact rational scalars.
//!
//! Three- and four-component vectors carry positions, directions, normals and
//! radiance triples.  Every operation either returns the exact rational result
//! or reports that the reduced result does not fit the scalar's backing store.
use crate::rat::{
    ch_add, ch_div, ch_mul, ch_sub, lemma_canon, lemma_pos_prod, q_add, q_div, q_eq, q_fit_canon,
    q_int, q_le, q_lt, q_mul, q_neg, q_sub, q_wf, Q, Rat,
};
use vstd::prelude::*;

verus! {

/// Specification-level three-vector of rationals.
pub struct V3q {
    pub x: Q,
    pub y: Q,
    pub z: Q,
}

/// Specification-level four-vector of rationals.
pub struct V4q {
    pub x: Q,
    pub y: Q,
    pub z: Q,
    pub w: Q,
}

pub open spec fn v3_wf(v: V3q) -> bool {
    q_wf(v.x) && q_wf(v.y) && q_wf(v.z)
}

pub open spec fn v4_wf(v: V4q) -> bool {
    q_wf(v.x) && q_wf(v.y) && q_wf(v.z) && q_wf(v.w)
}

/// Componentwise value equality of three-vectors.
pub open spec fn v3_eq(a: V3q, b: V3q) -> bool {
    q_eq(a.x, b.x) && q_eq(a.y, b.y) && q_eq(a.z, b.z)
}

pub open spec fn v4_eq(a: V4q, b: V4q) -> bool {
    q_eq(a.x, b.x) && q_eq(a.y, b.y) && q_eq(a.z, b.z) && q_eq(a.w, b.w)
}

/// An exact three-vector.
#[derive(Debug, Clone, Copy)]
pub struct Vector3 {
    pub x: Rat,
    pub y: Rat,
    pub z: Rat,
}

/// An exact four-vector (homogeneous coordinates).
#[derive(Debug, Clone, Copy)]
pub struct Vector4 {
    pub x: Rat,
    pub y: Rat,
    pub z: Rat,
    pub w: Rat,
}

impl View for Vector3 {
    type V = V3q;

    open spec fn view(&self) -> V3q {
        V3q { x: self.x@, y: self.y@, z: self.z@ }
    }
}

impl View for Vector4 {
    type V = V4q;

    open spec fn view(&self) -> V4q {
        V4q { x: self.x@, y: self.y@, z: self.z@, w: self.w@ }
    }
}

pub open spec fn opt_v3(r: Option<Vector3>) -> Option<V3q> {
    match r {
        Some(v) => Some(v@),
        None => None,
    }
}

pub open spec fn opt_v4(r: Option<Vector4>) -> Option<V4q> {
    match r {
        Some(v) => Some(v@),
        None => None,
    }
}

/// Lift three checked scalar results into a checked vector result.
pub open spec fn ch_v3(x: Option<Q>, y: Option<Q>, z: Option<Q>) -> Option<V3q> {
    match (x, y, z) {
        (Some(a), Some(b), Some(c)) => Some(V3q { x: a, y: b, z: c }),
        _ => None,
    }
}

pub open spec fn ch_v4(x: Option<Q>, y: Option<Q>, z: Option<Q>, w: Option<Q>) -> Option<V4q> {
    match (x, y, z, w) {
        (Some(a), Some(b), Some(c), Some(d)) => Some(V4q { x: a, y: b, z: c, w: d }),
        _ => None,
    }
}

pub open spec fn ch_v3_add(a: V3q, b: V3q) -> Option<V3q> {
    ch_v3(ch_add(a.x, b.x), ch_add(a.y, b.y), ch_add(a.z, b.z))
}

pub open spec fn ch_v3_sub(a: V3q, b: V3q) -> Option<V3q> {
    ch_v3(ch_sub(a.x, b.x), ch_sub(a.y, b.y), ch_sub(a.z, b.z))
}

pub open spec fn ch_v3_cwise(a: V3q, b: V3q) -> Option<V3q> {
    ch_v3(ch_mul(a.x, b.x), ch_mul(a.y, b.y), ch_mul(a.z, b.z))
}

pub open spec fn ch_v3_scale(a: V3q, s: Q) -> Option<V3q> {
    ch_v3(ch_mul(a.x, s), ch_mul(a.y, s), ch_mul(a.z, s))
}

pub open spec fn ch_v4_add(a: V4q, b: V4q) -> Option<V4q> {
    ch_v4(ch_add(a.x, b.x), ch_add(a.y, b.y), ch_add(a.z, b.z), ch_add(a.w, b.w))
}

pub open spec fn ch_v4_sub(a: V4q, b: V4q) -> Option<V4q> {
    ch_v4(ch_sub(a.x, b.x), ch_sub(a.y, b.y), ch_sub(a.z, b.z), ch_sub(a.w, b.w))
}

pub open spec fn ch_v4_scale(a: V4q, s: Q) -> Option<V4q> {
    ch_v4(ch_mul(a.x, s), ch_mul(a.y, s), ch_mul(a.z, s), ch_mul(a.w, s))
}

/// Checked sum of two then three scalars, reducing left to right.
pub open spec fn ch_add3(a: Option<Q>, b: Option<Q>, c: Option<Q>) -> Option<Q> {
    match (a, b, c) {
        (Some(x), Some(y), Some(z)) => match ch_add(x, y) {
            Some(s) => ch_add(s, z),
            None => None,
        },
        _ => None,
    }
}

/// Checked dot product of three-vectors.
pub open spec fn ch_v3_dot(a: V3q, b: V3q) -> Option<Q> {
    ch_add3(ch_mul(a.x, b.x), ch_mul(a.y, b.y), ch_mul(a.z, b.z))
}

/// Componentwise clamping from below at zero.
pub open spec fn v3_max0(v: V3q) -> V3q {
    V3q { x: crate::rat::q_max0(v.x), y: crate::rat::q_max0(v.y), z: crate::rat::q_max0(v.z) }
}

/// The pure (unchecked) dot product of three-vectors, for stating
/// geometric side conditions.
pub open spec fn v3_dot_q(a: V3q, b: V3q) -> Q {
    q_add(q_add(q_mul(a.x, b.x), q_mul(a.y, b.y)), q_mul(a.z, b.z))
}

/// Checked dot product of four-vectors.
pub open spec fn ch_v4_dot(a: V4q, b: V4q) -> Option<Q> {
    match ch_add3(ch_mul(a.x, b.x), ch_mul(a.y, b.y), ch_mul(a.z, b.z)) {
        Some(s) => match ch_mul(a.w, b.w) {
            Some(mw) => ch_add(s, mw),
            None => None,
        },
        None => None,
    }
}

/// One cross-product component: `p * q - r * s`, all checked.
pub open spec fn ch_det2(p: Q, q: Q, r: Q, s: Q) -> Option<Q> {
    match (ch_mul(p, q), ch_mul(r, s)) {
        (Some(m), Some(n)) => ch_sub(m, n),
        _ => None,
    }
}

/// Checked cross product of three-vectors.
pub open spec fn ch_v3_cross(a: V3q, b: V3q) -> Option<V3q> {
    ch_v3(
        ch_det2(a.y, b.z, a.z, b.y),
        ch_det2(a.z, b.x, a.x, b.z),
        ch_det2(a.x, b.y, a.y, b.x),
    )
}

/// A reduced result represents the same rational as the unreduced form.
pub proof fn lemma_fit_canon_val(q: Q)
    requires
        q_wf(q),
    ensures
        q_fit_canon(q) matches Some(c) ==> q_wf(c) && q_eq(c, q) && q_eq(q, c),
{
    lemma_canon(q);
}

/// Well-formedness of the unreduced arithmetic forms.
pub proof fn lemma_q_ops_wf(a: Q, b: Q)
    requires
        q_wf(a),
        q_wf(b),
    ensures
        q_wf(q_add(a, b)),
        q_wf(q_sub(a, b)),
        q_wf(q_mul(a, b)),
        q_wf(q_neg(a)),
        b.n != 0 ==> q_wf(q_div(a, b)),
{
    lemma_pos_prod(a.d, b.d);
    if b.n != 0 {
        if b.n < 0 {
            assert(a.d * b.n < 0) by (nonlinear_arith)
                requires
                    a.d > 0,
                    b.n < 0,
            ;
        } else {
            lemma_pos_prod(a.d, b.n);
        }
    }
}

impl Vector3 {
    pub open spec fn wf(&self) -> bool {
        self.x.wf() && self.y.wf() && self.z.wf()
    }

    pub fn add(&self, o: &Vector3) -> (r: Option<Vector3>)
        requires
            self.wf(),
            o.wf(),
        ensures
            opt_v3(r) == ch_v3_add(self@, o@),
            r matches Some(v) ==> v.wf(),
    {
        let x = self.x.add(&o.x)?;
        let y = self.y.add(&o.y)?;
        let z = self.z.add(&o.z)?;
        Some(Vector3 { x, y, z })
    }

    pub fn sub(&self, o: &Vector3) -> (r: Option<Vector3>)
        requires
            self.wf(),
            o.wf(),
        ensures
            opt_v3(r) == ch_v3_sub(self@, o@),
            r matches Some(v) ==> v.wf(),
    {
        let x = self.x.sub(&o.x)?;
        let y = self.y.sub(&o.y)?;
        let z = self.z.sub(&o.z)?;
        Some(Vector3 { x, y, z })
    }

    /// Componentwise product.
    pub fn cwise_product(&self, o: &Vector3) -> (r: Option<Vector3>)
        requires
            self.wf(),
            o.wf(),
        ensures
            opt_v3(r) == ch_v3_cwise(self@, o@),
            r matches Some(v) ==> v.wf(),
    {
        let x = self.x.mul(&o.x)?;
        let y = self.y.mul(&o.y)?;
        let z = self.z.mul(&o.z)?;
        Some(Vector3 { x, y, z })
    }

    pub fn scale(&self, s: &Rat) -> (r: Option<Vector3>)
        requires
            self.wf(),
            s.wf(),
        ensures
            opt_v3(r) == ch_v3_scale(self@, s@),
            r matches Some(v) ==> v.wf(),
    {
        let x = self.x.mul(s)?;
        let y = self.y.mul(s)?;
        let z = self.z.mul(s)?;
        Some(Vector3 { x, y, z })
    }

    pub fn neg(&self) -> (r: Vector3)
        requires
            self.wf(),
        ensures
            r.wf(),
            r@.x == q_neg(self@.x),
            r@.y == q_neg(self@.y),
            r@.z == q_neg(self@.z),
    {
        Vector3 { x: self.x.neg(), y: self.y.neg(), z: self.z.neg() }
    }

    pub fn dot(&self, o: &Vector3) -> (r: Option<Rat>)
        requires
            self.wf(),
            o.wf(),
        ensures
            crate::rat::opt_q(r) == ch_v3_dot(self@, o@),
            r matches Some(v) ==> v.wf(),
    {
        let mx = self.x.mul(&o.x)?;
        let my = self.y.mul(&o.y)?;
        let mz = self.z.mul(&o.z)?;
        let s = mx.add(&my)?;
        s.add(&mz)
    }

    pub fn cross(&self, o: &Vector3) -> (r: Option<Vector3>)
        requires
            self.wf(),
            o.wf(),
        ensures
            opt_v3(r) == ch_v3_cross(self@, o@),
            r matches Some(v) ==> v.wf(),
    {
        let x = det2(&self.y, &o.z, &self.z, &o.y)?;
        let y = det2(&self.z, &o.x, &self.x, &o.z)?;
        let z = det2(&self.x, &o.y, &self.y, &o.x)?;
        Some(Vector3 { x, y, z })
    }

    /// Clamp each component from below at zero: radiance stays nonnegative.
    pub fn clamp0(&self) -> (r: Vector3)
        requires
            self.wf(),
        ensures
            r.wf(),
            q_le(q_int(0), r@.x),
            q_le(q_int(0), r@.y),
            q_le(q_int(0), r@.z),
            q_le(q_int(0), self@.x) && q_le(q_int(0), self@.y) && q_le(q_int(0), self@.z) ==> r
                == *self,
            r@ == v3_max0(self@),
    {
        Vector3 { x: self.x.max0(), y: self.y.max0(), z: self.z.max0() }
    }

    /// Clamp each component from above by `v`.
    pub fn clamp_max(&self, v: &Rat) -> (r: Vector3)
        requires
            self.wf(),
            v.wf(),
        ensures
            r.wf(),
            r@.x == if q_le(self@.x, v@) {
                self@.x
            } else {
                v@
            },
            r@.y == if q_le(self@.y, v@) {
                self@.y
            } else {
                v@
            },
            r@.z == if q_le(self@.z, v@) {
                self@.z
            } else {
                v@
            },
    {
        Vector3 { x: self.x.min(v), y: self.y.min(v), z: self.z.min(v) }
    }

    pub fn from_vector4(v: &Vector4) -> (r: Vector3)
        requires
            v.wf(),
        ensures
            r.wf(),
            r@.x == v@.x && r@.y == v@.y && r@.z == v@.z,
    {
        Vector3 { x: v.x, y: v.y, z: v.z }
    }
}

/// `p * q - r * s`, checked.
pub fn det2(p: &Rat, q: &Rat, r: &Rat, s: &Rat) -> (out: Option<Rat>)
    requires
        p.wf(),
        q.wf(),
        r.wf(),
        s.wf(),
    ensures
        crate::rat::opt_q(out) == ch_det2(p@, q@, r@, s@),
        out matches Some(v) ==> v.wf(),
{
    let m = p.mul(q)?;
    let n = r.mul(s)?;
    m.sub(&n)
}

impl Vector4 {
    pub open spec fn wf(&self) -> bool {
        self.x.wf() && self.y.wf() && self.z.wf() && self.w.wf()
    }

    /// A point `(x, y, z, 1)`.
    pub fn point_from(v: &Vector3) -> (r: Vector4)
        requires
            v.wf(),
        ensures
            r.wf(),
            r@.x == v@.x && r@.y == v@.y && r@.z == v@.z,
            q_eq(r@.w, q_int(1)),
    {
        Vector4 { x: v.x, y: v.y, z: v.z, w: Rat::one() }
    }

    /// A direction `(x, y, z, 0)`.
    pub fn vector_from(v: &Vector3) -> (r: Vector4)
        requires
            v.wf(),
        ensures
            r.wf(),
            r@.x == v@.x && r@.y == v@.y && r@.z == v@.z,
            q_eq(r@.w, q_int(0)),
    {
        Vector4 { x: v.x, y: v.y, z: v.z, w: Rat::zero() }
    }

    pub fn add(&self, o: &Vector4) -> (r: Option<Vector4>)
        requires
            self.wf(),
            o.wf(),
        ensures
            opt_v4(r) == ch_v4_add(self@, o@),
            r matches Some(v) ==> v.wf(),
    {
        let x = self.x.add(&o.x)?;
        let y = self.y.add(&o.y)?;
        let z = self.z.add(&o.z)?;
        let w = self.w.add(&o.w)?;
        Some(Vector4 { x, y, z, w })
    }

    pub fn sub(&self, o: &Vector4) -> (r: Option<Vector4>)
        requires
            self.wf(),
            o.wf(),
        ensures
            opt_v4(r) == ch_v4_sub(self@, o@),
            r matches Some(v) ==> v.wf(),
    {
        let x = self.x.sub(&o.x)?;
        let y = self.y.sub(&o.y)?;
        let z = self.z.sub(&o.z)?;
        let w = self.w.sub(&o.w)?;
        Some(Vector4 { x, y, z, w })
    }

    pub fn scale(&self, s: &Rat) -> (r: Option<Vector4>)
        requires
            self.wf(),
            s.wf(),
        ensures
            opt_v4(r) == ch_v4_scale(self@, s@),
            r matches Some(v) ==> v.wf(),
    {
        let x = self.x.mul(s)?;
        let y = self.y.mul(s)?;
        let z = self.z.mul(s)?;
        let w = self.w.mul(s)?;
        Some(Vector4 { x, y, z, w })
    }

    pub fn dot(&self, o: &Vector4) -> (r: Option<Rat>)
        requires
            self.wf(),
            o.wf(),
        ensures
            crate::rat::opt_q(r) == ch_v4_dot(self@, o@),
            r matches Some(v) ==> v.wf(),
    {
        let mx = self.x.mul(&o.x)?;
        let my = self.y.mul(&o.y)?;
        let mz = self.z.mul(&o.z)?;
        let mw = self.w.mul(&o.w)?;
        let s = mx.add(&my)?;
        let s = s.add(&mz)?;
        s.add(&mw)
    }
}

/// Build an exact three-vector from integer-pair components.
pub fn vector3(x: Rat, y: Rat, z: Rat) -> (r: Vector3)
    requires
        x.wf(),
        y.wf(),
        z.wf(),
    ensures
        r.wf(),
        r == (Vector3 { x, y, z }),
{
    Vector3 { x, y, z }
}

pub fn vector4(x: Rat, y: Rat, z: Rat, w: Rat) -> (r: Vector4)
    requires
        x.wf(),
        y.wf(),
        z.wf(),
        w.wf(),
    ensures
        r.wf(),
        r == (Vector4 { x, y, z, w }),
{
    Vector4 { x, y, z, w }
}

/// An approximately unit vector along `v`: `v` scaled by the reciprocal of
/// the square-root approximation of its squared length, so the result is
/// `v` times one positive scalar and keeps `v`'s direction exactly.  `None`
/// for the zero vector or a scalar out of range.
pub fn normalized_approx(v: &Vector3) -> (r: Option<Vector3>)
    requires
        v.wf(),
    ensures
        r matches Some(u) ==> u.wf() && (exists|s: Q|
            q_wf(s) && q_lt(q_int(0), s) && q_eq(u@.x, q_mul(v@.x, s)) && q_eq(
                u@.y,
                q_mul(v@.y, s),
            ) && q_eq(u@.z, q_mul(v@.z, s))),
{
    let n2 = v.dot(v)?;
    let zero = Rat::zero();
    if !zero.lt(&n2) || Rat::from_int(0x7fff_ffff_ffff).lt(&n2) {
        return None;
    }
    let len = Rat::sqrt_approx(&n2);
    if len.is_zero() {
        return None;
    }
    let inv = Rat::one().div(&len)?;
    let u = v.scale(&inv)?;
    proof {
        let s = inv@;
        lemma_q_ops_wf(q_int(1), len@);
        lemma_fit_canon_val(q_div(q_int(1), len@));
        assert(q_lt(q_int(0), q_div(q_int(1), len@)));
        crate::rat::lemma_q_le_congruence(q_int(0), q_div(q_int(1), len@), q_int(0), s);
        lemma_q_ops_wf(v@.x, s);
        lemma_fit_canon_val(q_mul(v@.x, s));
        lemma_q_ops_wf(v@.y, s);
        lemma_fit_canon_val(q_mul(v@.y, s));
        lemma_q_ops_wf(v@.z, s);
        lemma_fit_canon_val(q_mul(v@.z, s));
        assert(q_wf(s) && q_lt(q_int(0), s) && q_eq(u@.x, q_mul(v@.x, s)) && q_eq(
            u@.y,
            q_mul(v@.y, s),
        ) && q_eq(u@.z, q_mul(v@.z, s)));
    }
    Some(u)
}

} // verus!
