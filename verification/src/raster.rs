//! Barycentric rasterization: pixel coverage, perspective-correct depth and
//! the nearest-wins z-buffer.
use crate::model::Triangle;
use crate::rat::{
    ch_add, ch_div, ch_mul, ch_sub, opt_q, q_add, q_div, q_eq, q_int, q_le, q_lt, q_mul, q_neg,
    q_sub, q_wf, Q, Rat,
};
use crate::vec::{ch_add3, lemma_fit_canon_val, lemma_q_ops_wf};
use vstd::prelude::*;

verus! {

/// The oriented edge form `x*(ya - yb) + (xb - xa)*y + xa*yb - xb*ya`,
/// which vanishes exactly on the line through `(xa, ya)` and `(xb, yb)`.
pub open spec fn edge_q(x: Q, y: Q, xa: Q, ya: Q, xb: Q, yb: Q) -> Q {
    q_add(
        q_add(q_mul(x, q_sub(ya, yb)), q_mul(q_sub(xb, xa), y)),
        q_sub(q_mul(xa, yb), q_mul(xb, ya)),
    )
}

/// The checked evaluation of the edge form.
pub open spec fn ch_edge(x: Q, y: Q, xa: Q, ya: Q, xb: Q, yb: Q) -> Option<Q> {
    match (ch_sub(ya, yb), ch_sub(xb, xa)) {
        (Some(dy), Some(dx)) => match (ch_mul(x, dy), ch_mul(dx, y), ch_det2(xa, yb, xb, ya)) {
            (Some(u), Some(v), Some(w)) => match ch_add(u, v) {
                Some(s) => ch_add(s, w),
                None => None,
            },
            _ => None,
        },
        _ => None,
    }
}

pub open spec fn ch_det2(p: Q, q: Q, r: Q, s: Q) -> Option<Q> {
    match (ch_mul(p, q), ch_mul(r, s)) {
        (Some(m), Some(n)) => ch_sub(m, n),
        _ => None,
    }
}

/// Edge form of a triangle's screen-space x/y coordinates, by vertex pair.
pub open spec fn tri_xy(t: Triangle, i: int) -> (Q, Q) {
    (t.vertexs@[i].position@.x, t.vertexs@[i].position@.y)
}

/// A checked edge evaluation represents the unreduced edge form.
pub proof fn lemma_ch_edge_val(x: Q, y: Q, xa: Q, ya: Q, xb: Q, yb: Q)
    requires
        q_wf(x),
        q_wf(y),
        q_wf(xa),
        q_wf(ya),
        q_wf(xb),
        q_wf(yb),
    ensures
        ch_edge(x, y, xa, ya, xb, yb) matches Some(e) ==> q_wf(e) && q_eq(
            e,
            edge_q(x, y, xa, ya, xb, yb),
        ),
{
    lemma_q_ops_wf(ya, yb);
    lemma_q_ops_wf(xb, xa);
    lemma_fit_canon_val(q_sub(ya, yb));
    lemma_fit_canon_val(q_sub(xb, xa));
    lemma_q_ops_wf(xa, yb);
    lemma_q_ops_wf(xb, ya);
    lemma_q_ops_wf(q_mul(xa, yb), q_mul(xb, ya));
    lemma_fit_canon_val(q_mul(xa, yb));
    lemma_fit_canon_val(q_mul(xb, ya));
    if ch_edge(x, y, xa, ya, xb, yb) is Some {
        let dy = ch_sub(ya, yb)->Some_0;
        let dx = ch_sub(xb, xa)->Some_0;
        lemma_q_ops_wf(x, dy);
        lemma_q_ops_wf(dx, y);
        lemma_fit_canon_val(q_mul(x, dy));
        lemma_fit_canon_val(q_mul(dx, y));
        let u = ch_mul(x, dy)->Some_0;
        let v = ch_mul(dx, y)->Some_0;
        // `u` represents `x * (ya - yb)` and `v` represents `(xb - xa) * y`.
        crate::ray::lemma_mul_congruence(x, dy, x, q_sub(ya, yb));
        lemma_q_ops_wf(x, q_sub(ya, yb));
        crate::rat::lemma_q_eq_trans(u, q_mul(x, dy), q_mul(x, q_sub(ya, yb)));
        crate::ray::lemma_mul_congruence(dx, y, q_sub(xb, xa), y);
        lemma_q_ops_wf(q_sub(xb, xa), y);
        crate::rat::lemma_q_eq_trans(v, q_mul(dx, y), q_mul(q_sub(xb, xa), y));
        let mw0 = ch_mul(xa, yb)->Some_0;
        let mw1 = ch_mul(xb, ya)->Some_0;
        lemma_q_ops_wf(mw0, mw1);
        lemma_fit_canon_val(q_sub(mw0, mw1));
        let w = ch_sub(mw0, mw1)->Some_0;
        crate::ray::lemma_sub_congruence(mw0, mw1, q_mul(xa, yb), q_mul(xb, ya));
        lemma_q_ops_wf(q_mul(xa, yb), q_mul(xb, ya));
        crate::rat::lemma_q_eq_trans(
            w,
            q_sub(mw0, mw1),
            q_sub(q_mul(xa, yb), q_mul(xb, ya)),
        );
        lemma_q_ops_wf(u, v);
        lemma_fit_canon_val(q_add(u, v));
        let s = ch_add(u, v)->Some_0;
        crate::ray::lemma_add_congruence(
            u,
            v,
            q_mul(x, q_sub(ya, yb)),
            q_mul(q_sub(xb, xa), y),
        );
        lemma_q_ops_wf(q_mul(x, q_sub(ya, yb)), q_mul(q_sub(xb, xa), y));
        crate::rat::lemma_q_eq_trans(
            s,
            q_add(u, v),
            q_add(q_mul(x, q_sub(ya, yb)), q_mul(q_sub(xb, xa), y)),
        );
        lemma_q_ops_wf(s, w);
        lemma_fit_canon_val(q_add(s, w));
        let e = ch_add(s, w)->Some_0;
        crate::ray::lemma_add_congruence(
            s,
            w,
            q_add(q_mul(x, q_sub(ya, yb)), q_mul(q_sub(xb, xa), y)),
            q_sub(q_mul(xa, yb), q_mul(xb, ya)),
        );
        lemma_q_ops_wf(
            q_add(q_mul(x, q_sub(ya, yb)), q_mul(q_sub(xb, xa), y)),
            q_sub(q_mul(xa, yb), q_mul(xb, ya)),
        );
        crate::rat::lemma_q_eq_trans(e, q_add(s, w), edge_q(x, y, xa, ya, xb, yb));
    }
}

/// Well-formedness of the edge form and its parts.
pub proof fn lemma_wf_all(xa: Q, ya: Q, xb: Q, yb: Q)
    requires
        q_wf(xa),
        q_wf(ya),
        q_wf(xb),
        q_wf(yb),
    ensures
        q_wf(q_mul(xa, ya)),
        q_wf(q_mul(xa, yb)),
        q_wf(q_mul(xb, ya)),
        q_wf(q_mul(xb, yb)),
        q_wf(q_sub(ya, yb)),
        q_wf(q_sub(xb, xa)),
        q_wf(q_mul(xa, q_sub(ya, yb))),
        q_wf(q_mul(xb, q_sub(ya, yb))),
        q_wf(q_mul(q_sub(xb, xa), ya)),
        q_wf(q_mul(q_sub(xb, xa), yb)),
        q_wf(q_sub(q_mul(xa, yb), q_mul(xb, ya))),
{
    lemma_q_ops_wf(xa, ya);
    lemma_q_ops_wf(xa, yb);
    lemma_q_ops_wf(xb, ya);
    lemma_q_ops_wf(xb, yb);
    lemma_q_ops_wf(ya, yb);
    lemma_q_ops_wf(xb, xa);
    lemma_q_ops_wf(xa, q_sub(ya, yb));
    lemma_q_ops_wf(xb, q_sub(ya, yb));
    lemma_q_ops_wf(q_sub(xb, xa), ya);
    lemma_q_ops_wf(q_sub(xb, xa), yb);
    lemma_q_ops_wf(q_mul(xa, yb), q_mul(xb, ya));
}

/// The whole edge form is well formed.
pub proof fn lemma_edge_wf(x: Q, y: Q, xa: Q, ya: Q, xb: Q, yb: Q)
    requires
        q_wf(x),
        q_wf(y),
        q_wf(xa),
        q_wf(ya),
        q_wf(xb),
        q_wf(yb),
    ensures
        q_wf(edge_q(x, y, xa, ya, xb, yb)),
{
    lemma_q_ops_wf(ya, yb);
    lemma_q_ops_wf(xb, xa);
    lemma_q_ops_wf(x, q_sub(ya, yb));
    lemma_q_ops_wf(q_sub(xb, xa), y);
    lemma_q_ops_wf(xa, yb);
    lemma_q_ops_wf(xb, ya);
    lemma_q_ops_wf(q_mul(xa, yb), q_mul(xb, ya));
    lemma_q_ops_wf(q_mul(x, q_sub(ya, yb)), q_mul(q_sub(xb, xa), y));
    lemma_q_ops_wf(
        q_add(q_mul(x, q_sub(ya, yb)), q_mul(q_sub(xb, xa), y)),
        q_sub(q_mul(xa, yb), q_mul(xb, ya)),
    );
}

/// Evaluate the edge form exactly.
pub fn edge_eval(x: &Rat, y: &Rat, xa: &Rat, ya: &Rat, xb: &Rat, yb: &Rat) -> (r: Option<Rat>)
    requires
        x.wf(),
        y.wf(),
        xa.wf(),
        ya.wf(),
        xb.wf(),
        yb.wf(),
    ensures
        opt_q(r) == ch_edge(x@, y@, xa@, ya@, xb@, yb@),
        r matches Some(v) ==> v.wf(),
{
    let dy = ya.sub(yb)?;
    let dx = xb.sub(xa)?;
    let u = x.mul(&dy)?;
    let v = dx.mul(y)?;
    let w0 = xa.mul(yb)?;
    let w1 = xb.mul(ya)?;
    let w = w0.sub(&w1)?;
    let s = u.add(&v)?;
    s.add(&w)
}

/// The complete checked barycentric chain of a screen point against a
/// triangle: the six edge-form evaluations, the degeneracy tests, the three
/// quotients and the partition-of-unity certification.
pub open spec fn ch_bary(x: Q, y: Q, t: Triangle) -> Option<(Q, Q, Q)> {
    let (x0, y0) = tri_xy(t, 0);
    let (x1, y1) = tri_xy(t, 1);
    let (x2, y2) = tri_xy(t, 2);
    match (ch_edge(x, y, x1, y1, x2, y2), ch_edge(x0, y0, x1, y1, x2, y2), ch_edge(
        x,
        y,
        x2,
        y2,
        x0,
        y0,
    ), ch_edge(x1, y1, x2, y2, x0, y0), ch_edge(x, y, x0, y0, x1, y1), ch_edge(
        x2,
        y2,
        x0,
        y0,
        x1,
        y1,
    )) {
        (Some(n0), Some(d0), Some(n1), Some(d1), Some(n2), Some(d2)) => {
            if d0.n == 0 || d1.n == 0 || d2.n == 0 {
                None
            } else {
                match (ch_div(n0, d0), ch_div(n1, d1), ch_div(n2, d2)) {
                    (Some(c0), Some(c1), Some(c2)) => match ch_add(c0, c1) {
                        Some(s01) => match ch_add(s01, c2) {
                            Some(sum) => if q_eq(sum, q_int(1)) {
                                Some((c0, c1, c2))
                            } else {
                                None
                            },
                            None => None,
                        },
                        None => None,
                    },
                    _ => None,
                }
            }
        },
        _ => None,
    }
}

/// Screen-space barycentric coordinates of a point, by the area-ratio
/// formula.  The result equals the checked chain `ch_bary` exactly: `None`
/// exactly when the triangle is degenerate (a zero denominator) or a scalar
/// exceeds the backing store.
///
/// Every returned triple exactly satisfies `c0 + c1 + c2 == 1`, and each
/// coordinate is the ratio of its edge form to that edge form at the
/// opposite vertex.
pub fn barycentric_2d(x: &Rat, y: &Rat, triangle: &Triangle) -> (r: Option<(Rat, Rat, Rat)>)
    requires
        x.wf(),
        y.wf(),
        triangle.wf(),
    ensures
        (r is Some) == (ch_bary(x@, y@, *triangle) is Some),
        r matches Some(c) ==> ({
            let e = ch_bary(x@, y@, *triangle)->Some_0;
            c.0@ == e.0 && c.1@ == e.1 && c.2@ == e.2
        }),
        r matches Some(c) ==> {
            let (x0, y0) = tri_xy(*triangle, 0);
            let (x1, y1) = tri_xy(*triangle, 1);
            let (x2, y2) = tri_xy(*triangle, 2);
            &&& c.0.wf() && c.1.wf() && c.2.wf()
            &&& q_eq(q_add(q_add(c.0@, c.1@), c.2@), q_int(1))
            &&& q_eq(c.0@, q_div(edge_q(x@, y@, x1, y1, x2, y2), edge_q(x0, y0, x1, y1, x2, y2)))
            &&& q_eq(c.1@, q_div(edge_q(x@, y@, x2, y2, x0, y0), edge_q(x1, y1, x2, y2, x0, y0)))
            &&& q_eq(c.2@, q_div(edge_q(x@, y@, x0, y0, x1, y1), edge_q(x2, y2, x0, y0, x1, y1)))
            &&& !q_eq(edge_q(x0, y0, tri_xy(*triangle, 1).0, tri_xy(*triangle, 1).1, x2, y2), q_int(0))
        },
{
    let v0 = &triangle.vertexs[0].position;
    let v1 = &triangle.vertexs[1].position;
    let v2 = &triangle.vertexs[2].position;

    let n0 = edge_eval(x, y, &v1.x, &v1.y, &v2.x, &v2.y)?;
    let d0 = edge_eval(&v0.x, &v0.y, &v1.x, &v1.y, &v2.x, &v2.y)?;
    let n1 = edge_eval(x, y, &v2.x, &v2.y, &v0.x, &v0.y)?;
    let d1 = edge_eval(&v1.x, &v1.y, &v2.x, &v2.y, &v0.x, &v0.y)?;
    let n2 = edge_eval(x, y, &v0.x, &v0.y, &v1.x, &v1.y)?;
    let d2 = edge_eval(&v2.x, &v2.y, &v0.x, &v0.y, &v1.x, &v1.y)?;
    if d0.is_zero() || d1.is_zero() || d2.is_zero() {
        return None;
    }
    let c0 = n0.div(&d0)?;
    let c1 = n1.div(&d1)?;
    let c2 = n2.div(&d2)?;
    // Certify the partition of unity exactly.
    let s01 = c0.add(&c1)?;
    let sum = s01.add(&c2)?;
    if !sum.eq_rat(&Rat::one()) {
        return None;
    }
    proof {
        let (x0, y0) = tri_xy(*triangle, 0);
        let (x1, y1) = tri_xy(*triangle, 1);
        let (x2, y2) = tri_xy(*triangle, 2);
        // Partition of unity from the certificate.
        lemma_q_ops_wf(c0@, c1@);
        lemma_fit_canon_val(q_add(c0@, c1@));
        lemma_q_ops_wf(s01@, c2@);
        lemma_fit_canon_val(q_add(s01@, c2@));
        crate::ray::lemma_sum_transfer(c0@, c1@, c2@, s01@, sum@);
        // Each coordinate equals its edge-form ratio.
        lemma_ch_edge_val(x@, y@, x1, y1, x2, y2);
        lemma_ch_edge_val(x0, y0, x1, y1, x2, y2);
        lemma_ch_edge_val(x@, y@, x2, y2, x0, y0);
        lemma_ch_edge_val(x1, y1, x2, y2, x0, y0);
        lemma_ch_edge_val(x@, y@, x0, y0, x1, y1);
        lemma_ch_edge_val(x2, y2, x0, y0, x1, y1);
        crate::vec::lemma_q_ops_wf(n0@, d0@);
        lemma_fit_canon_val(q_div(n0@, d0@));
        crate::vec::lemma_q_ops_wf(n1@, d1@);
        lemma_fit_canon_val(q_div(n1@, d1@));
        crate::vec::lemma_q_ops_wf(n2@, d2@);
        lemma_fit_canon_val(q_div(n2@, d2@));
        lemma_edge_wf(x@, y@, x1, y1, x2, y2);
        lemma_edge_wf(x0, y0, x1, y1, x2, y2);
        lemma_edge_wf(x@, y@, x2, y2, x0, y0);
        lemma_edge_wf(x1, y1, x2, y2, x0, y0);
        lemma_edge_wf(x@, y@, x0, y0, x1, y1);
        lemma_edge_wf(x2, y2, x0, y0, x1, y1);
        lemma_div_pair(n0@, d0@, edge_q(x@, y@, x1, y1, x2, y2), edge_q(x0, y0, x1, y1, x2, y2), c0@);
        lemma_div_pair(n1@, d1@, edge_q(x@, y@, x2, y2, x0, y0), edge_q(x1, y1, x2, y2, x0, y0), c1@);
        lemma_div_pair(n2@, d2@, edge_q(x@, y@, x0, y0, x1, y1), edge_q(x2, y2, x0, y0, x1, y1), c2@);
        // The denominator edge form is nonzero because the reduced form is.
        assert(!q_eq(edge_q(x0, y0, x1, y1, x2, y2), q_int(0))) by {
            lemma_q_ops_wf(edge_q(x0, y0, x1, y1, x2, y2), q_int(1));
            if q_eq(edge_q(x0, y0, x1, y1, x2, y2), q_int(0)) {
                crate::ray::lemma_q_eq_sym(d0@, edge_q(x0, y0, x1, y1, x2, y2));
                crate::rat::lemma_q_eq_trans(d0@, edge_q(x0, y0, x1, y1, x2, y2), q_int(0));
                assert(d0@.n * 1 == 0 * d0@.d);
                assert(false);
            }
        }
    }
    Some((c0, c1, c2))
}

/// `num / den` computed through reduced scalars equals the unreduced ratio.
proof fn lemma_div_pair(nr: Q, dr: Q, np: Q, dp: Q, c: Q)
    requires
        q_wf(nr),
        q_wf(dr),
        q_wf(np),
        q_wf(dp),
        q_wf(c),
        dr.n != 0,
        q_eq(nr, np),
        q_eq(dr, dp),
        q_eq(c, q_div(nr, dr)),
    ensures
        q_eq(c, q_div(np, dp)),
        !q_eq(dp, q_int(0)),
{
    lemma_q_ops_wf(nr, dr);
    assert(!q_eq(dp, q_int(0))) by {
        if dp.n * 1 == 0 * dp.d {
            assert(dr.n * dp.d == dp.n * dr.d);
            assert(dr.n * dp.d == 0) by (nonlinear_arith)
                requires
                    dp.n == 0,
                    dr.n * dp.d == dp.n * dr.d,
            ;
            assert(dr.n == 0 || dp.d == 0) by (nonlinear_arith)
                requires
                    dr.n * dp.d == 0,
            ;
        }
    }
    assert(q_eq(q_div(nr, dr), q_div(np, dp))) by {
        lemma_div_congruence(nr, dr, np, dp);
    }
    lemma_q_ops_wf(np, dp);
    crate::rat::lemma_q_eq_trans(c, q_div(nr, dr), q_div(np, dp));
}

/// Quotients of equal rationals are equal (nonzero divisors).
#[verifier::rlimit(100)]
pub proof fn lemma_div_congruence(a: Q, b: Q, a2: Q, b2: Q)
    requires
        q_wf(a),
        q_wf(b),
        q_wf(a2),
        q_wf(b2),
        b.n != 0,
        b2.n != 0,
        q_eq(a, a2),
        q_eq(b, b2),
    ensures
        q_eq(q_div(a, b), q_div(a2, b2)),
{
    assert((b.n < 0) == (b2.n < 0)) by (nonlinear_arith)
        requires
            b.n * b2.d == b2.n * b.d,
            b.d > 0,
            b2.d > 0,
            b.n != 0,
            b2.n != 0,
    ;
    assert((a.n * b.d) * (a2.d * b2.n) == (a2.n * b2.d) * (a.d * b.n)) by (nonlinear_arith)
        requires
            a.n * a2.d == a2.n * a.d,
            b.n * b2.d == b2.n * b.d,
    ;
    if b.n < 0 {
        assert((-(a.n * b.d)) * (-(a2.d * b2.n)) == (-(a2.n * b2.d)) * (-(a.d * b.n)))
            by (nonlinear_arith)
            requires
                (a.n * b.d) * (a2.d * b2.n) == (a2.n * b2.d) * (a.d * b.n),
        ;
    }
}

/// A scalar times a weight equal to one is the scalar itself.
proof fn lemma_mul_unit(a: Q, w: Q)
    requires
        q_wf(a),
        q_wf(w),
        q_eq(w, q_int(1)),
    ensures
        q_eq(q_mul(a, w), a),
{
    assert((a.n * w.n) * a.d == a.n * (a.d * w.d)) by (nonlinear_arith)
        requires
            w.n * 1 == 1 * w.d,
    ;
}

/// A scalar times a weight equal to zero is zero.
proof fn lemma_mul_null(a: Q, w: Q)
    requires
        q_wf(a),
        q_wf(w),
        q_eq(w, q_int(0)),
    ensures
        q_eq(q_mul(a, w), q_int(0)),
{
    assert((a.n * w.n) * 1 == 0 * (a.d * w.d)) by (nonlinear_arith)
        requires
            w.n * 1 == 0 * w.d,
    ;
}

/// Adding a value equal to zero changes nothing.
proof fn lemma_add_null(a: Q, z: Q)
    requires
        q_wf(a),
        q_wf(z),
        q_eq(z, q_int(0)),
    ensures
        q_eq(q_add(a, z), a),
{
    assert((a.n * z.d + z.n * a.d) * a.d == a.n * (a.d * z.d)) by (nonlinear_arith)
        requires
            z.n * 1 == 0 * z.d,
    ;
}

/// The perspective-correct interpolation round trip at a vertex: whenever
/// the barycentric weights equal the vertex's own unit weights (one for it,
/// zero for the other two), the interpolated attribute equals that vertex's
/// attribute exactly.  Stated per scalar attribute component, over the same
/// checked chain that attribute interpolation is specified with.
pub proof fn lemma_interpolate_unit_weights(a: Q, b: Q, c: Q, al: Q, be: Q, ga: Q)
    requires
        q_wf(a),
        q_wf(b),
        q_wf(c),
        q_wf(al),
        q_wf(be),
        q_wf(ga),
        q_eq(al, q_int(1)),
        q_eq(be, q_int(0)),
        q_eq(ga, q_int(0)),
    ensures
        match (ch_mul(a, al), ch_mul(b, be), ch_mul(c, ga)) {
            (Some(m0), Some(m1), Some(m2)) => match ch_add(m0, m1) {
                Some(s) => (ch_add(s, m2) matches Some(v) ==> q_eq(v, a)),
                None => true,
            },
            _ => true,
        },
{
    lemma_q_ops_wf(a, al);
    lemma_q_ops_wf(b, be);
    lemma_q_ops_wf(c, ga);
    lemma_fit_canon_val(q_mul(a, al));
    lemma_fit_canon_val(q_mul(b, be));
    lemma_fit_canon_val(q_mul(c, ga));
    lemma_mul_unit(a, al);
    lemma_mul_null(b, be);
    lemma_mul_null(c, ga);
    match (ch_mul(a, al), ch_mul(b, be), ch_mul(c, ga)) {
        (Some(m0), Some(m1), Some(m2)) => {
            crate::rat::lemma_q_eq_trans(m0, q_mul(a, al), a);
            crate::rat::lemma_q_eq_trans(m1, q_mul(b, be), q_int(0));
            crate::rat::lemma_q_eq_trans(m2, q_mul(c, ga), q_int(0));
            match ch_add(m0, m1) {
                Some(s) => {
                    lemma_q_ops_wf(m0, m1);
                    lemma_fit_canon_val(q_add(m0, m1));
                    lemma_add_null(m0, m1);
                    crate::rat::lemma_q_eq_trans(s, q_add(m0, m1), m0);
                    crate::rat::lemma_q_eq_trans(s, m0, a);
                    match ch_add(s, m2) {
                        Some(v) => {
                            lemma_q_ops_wf(s, m2);
                            lemma_fit_canon_val(q_add(s, m2));
                            lemma_add_null(s, m2);
                            crate::rat::lemma_q_eq_trans(v, q_add(s, m2), s);
                            crate::rat::lemma_q_eq_trans(v, s, a);
                        },
                        None => {},
                    }
                },
                None => {},
            }
        },
        _ => {},
    }
}

/// A pixel is covered when no barycentric coordinate is negative.
pub fn inside_triangle_by_barycenter(barycenter: &(Rat, Rat, Rat)) -> (r: bool)
    requires
        barycenter.0.wf(),
        barycenter.1.wf(),
        barycenter.2.wf(),
    ensures
        r == (q_le(q_int(0), barycenter.0@) && q_le(q_int(0), barycenter.1@) && q_le(
            q_int(0),
            barycenter.2@,
        )),
{
    let zero = Rat::zero();
    zero.le(&barycenter.0) && zero.le(&barycenter.1) && zero.le(&barycenter.2)
}

/// The smaller of two rational values.
pub open spec fn q_min(a: Q, b: Q) -> Q {
    if q_le(a, b) {
        a
    } else {
        b
    }
}

pub open spec fn q_max(a: Q, b: Q) -> Q {
    if q_le(a, b) {
        b
    } else {
        a
    }
}

/// Checked perspective-correct depth: with `wi` the vertex `w` components and
/// `zi` the vertex depths, the interpolated depth is
/// `(a*z0/w0 + b*z1/w1 + c*z2/w2) / (a/w0 + b/w1 + c/w2)`.
pub open spec fn ch_zdiv(z: Q, w: Q) -> Option<Q> {
    if w.n == 0 {
        None
    } else {
        ch_div(z, w)
    }
}

/// One vertex's contribution `weight * z / w`, checked.
pub open spec fn ch_zterm(weight: Q, z: Q, w: Q) -> Option<Q> {
    match ch_zdiv(z, w) {
        Some(zw) => ch_mul(weight, zw),
        None => None,
    }
}

/// One vertex's reciprocal contribution `weight / w`, checked.
pub open spec fn ch_wterm(weight: Q, w: Q) -> Option<Q> {
    if w.n == 0 {
        None
    } else {
        ch_div(weight, w)
    }
}

/// The checked perspective-correct depth of a covered point.
pub open spec fn ch_z_interp(t: Triangle, a: Q, b: Q, c: Q) -> Option<Q> {
    let p0 = t.vertexs@[0].position@;
    let p1 = t.vertexs@[1].position@;
    let p2 = t.vertexs@[2].position@;
    match (ch_add3(ch_zterm(a, p0.z, p0.w), ch_zterm(b, p1.z, p1.w), ch_zterm(c, p2.z, p2.w)),
    ch_add3(ch_wterm(a, p0.w), ch_wterm(b, p1.w), ch_wterm(c, p2.w))) {
        (Some(zsum), Some(wsum)) => {
            if wsum.n == 0 {
                None
            } else {
                ch_div(zsum, wsum)
            }
        },
        _ => None,
    }
}

/// Perspective-correct interpolation of the depth coordinate.  Exact: the
/// result is the rational `(sum of weight*z/w) / (sum of weight/w)`;
/// `None` on a zero `w`, a zero reciprocal sum, or a scalar out of range.
pub fn z_interpolation(triangle: &Triangle, barycenter: &(Rat, Rat, Rat)) -> (r: Option<Rat>)
    requires
        triangle.wf(),
        barycenter.0.wf(),
        barycenter.1.wf(),
        barycenter.2.wf(),
    ensures
        crate::rat::opt_q(r) == ch_z_interp(*triangle, barycenter.0@, barycenter.1@, barycenter.2@),
        r matches Some(v) ==> v.wf(),
{
    let v0 = &triangle.vertexs[0].position;
    let v1 = &triangle.vertexs[1].position;
    let v2 = &triangle.vertexs[2].position;
    let zsum = ({
        let t0 = zterm(&barycenter.0, &v0.z, &v0.w)?;
        let t1 = zterm(&barycenter.1, &v1.z, &v1.w)?;
        let t2 = zterm(&barycenter.2, &v2.z, &v2.w)?;
        let s = t0.add(&t1)?;
        s.add(&t2)
    })?;
    let wsum = ({
        let t0 = wterm(&barycenter.0, &v0.w)?;
        let t1 = wterm(&barycenter.1, &v1.w)?;
        let t2 = wterm(&barycenter.2, &v2.w)?;
        let s = t0.add(&t1)?;
        s.add(&t2)
    })?;
    if wsum.is_zero() {
        return None;
    }
    zsum.div(&wsum)
}

/// `weight * z / w`, checked.
fn zterm(weight: &Rat, z: &Rat, w: &Rat) -> (r: Option<Rat>)
    requires
        weight.wf(),
        z.wf(),
        w.wf(),
    ensures
        crate::rat::opt_q(r) == ch_zterm(weight@, z@, w@),
        r matches Some(v) ==> v.wf(),
{
    if w.is_zero() {
        return None;
    }
    let zw = z.div(w)?;
    weight.mul(&zw)
}

/// `weight / w`, checked.
fn wterm(weight: &Rat, w: &Rat) -> (r: Option<Rat>)
    requires
        weight.wf(),
        w.wf(),
    ensures
        crate::rat::opt_q(r) == ch_wterm(weight@, w@),
        r matches Some(v) ==> v.wf(),
{
    if w.is_zero() {
        return None;
    }
    weight.div(w)
}

/// The checked perspective correction of screen barycentrics: each output is
/// `(ri * wi) / (r0*w0 + r1*w1 + r2*w2)` with `ri` the stored `1/w`,
/// certified to sum to one exactly.
pub open spec fn ch_persp(w0: Q, w1: Q, w2: Q, a: Q, b: Q, c: Q) -> Option<(Q, Q, Q)> {
    match (ch_mul(w0, a), ch_mul(w1, b), ch_mul(w2, c)) {
        (Some(m0), Some(m1), Some(m2)) => match ch_add3(Some(m0), Some(m1), Some(m2)) {
            Some(norm) => {
                if norm.n == 0 {
                    None
                } else {
                    match (ch_div(m0, norm), ch_div(m1, norm), ch_div(m2, norm)) {
                        (Some(c0), Some(c1), Some(c2)) => match ch_add(c0, c1) {
                            Some(t01) => match ch_add(t01, c2) {
                                Some(sum) => if q_eq(sum, q_int(1)) {
                                    Some((c0, c1, c2))
                                } else {
                                    None
                                },
                                None => None,
                            },
                            None => None,
                        },
                        _ => None,
                    }
                }
            },
            None => None,
        },
        _ => None,
    }
}

/// The perspective correction fixes unit weights: at a vertex's own exact
/// screen position (weight one for that vertex and zero for the others),
/// whenever the corrected weights exist they are again the unit weights, so
/// interpolating any attribute there returns that vertex's value.
pub proof fn lemma_persp_unit_weights(w0: Q, w1: Q, w2: Q, a: Q, b: Q, c: Q)
    requires
        q_wf(w0),
        q_wf(w1),
        q_wf(w2),
        q_wf(a),
        q_wf(b),
        q_wf(c),
        q_eq(a, q_int(1)),
        q_eq(b, q_int(0)),
        q_eq(c, q_int(0)),
    ensures
        ch_persp(w0, w1, w2, a, b, c) matches Some(r) ==> q_eq(r.0, q_int(1)) && q_eq(
            r.1,
            q_int(0),
        ) && q_eq(r.2, q_int(0)),
{
    if ch_persp(w0, w1, w2, a, b, c) is Some {
        let m0 = ch_mul(w0, a)->Some_0;
        let m1 = ch_mul(w1, b)->Some_0;
        let m2 = ch_mul(w2, c)->Some_0;
        lemma_q_ops_wf(w0, a);
        lemma_fit_canon_val(q_mul(w0, a));
        lemma_q_ops_wf(w1, b);
        lemma_fit_canon_val(q_mul(w1, b));
        lemma_q_ops_wf(w2, c);
        lemma_fit_canon_val(q_mul(w2, c));
        lemma_mul_unit(w0, a);
        lemma_mul_null(w1, b);
        lemma_mul_null(w2, c);
        crate::rat::lemma_q_eq_trans(m0, q_mul(w0, a), w0);
        crate::rat::lemma_q_eq_trans(m1, q_mul(w1, b), q_int(0));
        crate::rat::lemma_q_eq_trans(m2, q_mul(w2, c), q_int(0));
        let s = ch_add(m0, m1)->Some_0;
        lemma_q_ops_wf(m0, m1);
        lemma_fit_canon_val(q_add(m0, m1));
        lemma_add_null(m0, m1);
        crate::rat::lemma_q_eq_trans(s, q_add(m0, m1), m0);
        let norm = ch_add(s, m2)->Some_0;
        lemma_q_ops_wf(s, m2);
        lemma_fit_canon_val(q_add(s, m2));
        lemma_add_null(s, m2);
        crate::rat::lemma_q_eq_trans(norm, q_add(s, m2), s);
        crate::rat::lemma_q_eq_trans(norm, s, m0);
        crate::ray::lemma_q_eq_sym(norm, m0);
        let c0 = ch_div(m0, norm)->Some_0;
        let c1 = ch_div(m1, norm)->Some_0;
        let c2 = ch_div(m2, norm)->Some_0;
        lemma_q_ops_wf(m0, norm);
        lemma_fit_canon_val(q_div(m0, norm));
        lemma_q_ops_wf(m1, norm);
        lemma_fit_canon_val(q_div(m1, norm));
        lemma_q_ops_wf(m2, norm);
        lemma_fit_canon_val(q_div(m2, norm));
        // Equal numerator and divisor give a quotient equal to one.
        let dv0 = q_div(m0, norm);
        if norm.n < 0 {
            assert(dv0.n * 1 == 1 * dv0.d) by (nonlinear_arith)
                requires
                    dv0.n == -(m0.n * norm.d),
                    dv0.d == -(m0.d * norm.n),
                    m0.n * norm.d == norm.n * m0.d,
            ;
        } else {
            assert(dv0.n * 1 == 1 * dv0.d) by (nonlinear_arith)
                requires
                    dv0.n == m0.n * norm.d,
                    dv0.d == m0.d * norm.n,
                    m0.n * norm.d == norm.n * m0.d,
            ;
        }
        crate::rat::lemma_q_eq_trans(c0, dv0, q_int(1));
        // A zero numerator gives a quotient equal to zero.
        assert(m1.n == 0 && m2.n == 0);
        assert(m1.n * norm.d == 0 && m2.n * norm.d == 0) by (nonlinear_arith)
            requires
                m1.n == 0,
                m2.n == 0,
        ;
        let dv1 = q_div(m1, norm);
        let dv2 = q_div(m2, norm);
        assert(dv1.n == 0 && dv2.n == 0);
        assert(dv1.n * 1 == 0 * dv1.d && dv2.n * 1 == 0 * dv2.d) by (nonlinear_arith)
            requires
                dv1.n == 0,
                dv2.n == 0,
        ;
        crate::rat::lemma_q_eq_trans(c1, dv1, q_int(0));
        crate::rat::lemma_q_eq_trans(c2, dv2, q_int(0));
    }
}

/// Perspective-correct barycentric weights, from the vertices' stored `1/w`
/// values.  The result equals `ch_persp` over those values exactly, and the
/// returned weights are certified to sum to one.
pub fn perspective_correct(triangle: &Triangle, barycenter: &(Rat, Rat, Rat)) -> (r: Option<
    (Rat, Rat, Rat),
>)
    requires
        triangle.wf(),
        barycenter.0.wf(),
        barycenter.1.wf(),
        barycenter.2.wf(),
        triangle.vertexs@[0].w_reciprocal is Some,
        triangle.vertexs@[1].w_reciprocal is Some,
        triangle.vertexs@[2].w_reciprocal is Some,
    ensures
        ({
            let w0 = triangle.vertexs@[0].w_reciprocal->Some_0@;
            let w1 = triangle.vertexs@[1].w_reciprocal->Some_0@;
            let w2 = triangle.vertexs@[2].w_reciprocal->Some_0@;
            &&& (r is Some) == (ch_persp(w0, w1, w2, barycenter.0@, barycenter.1@, barycenter.2@)
                is Some)
            &&& (r matches Some(c) ==> ({
                let e = ch_persp(w0, w1, w2, barycenter.0@, barycenter.1@, barycenter.2@)->Some_0;
                c.0@ == e.0 && c.1@ == e.1 && c.2@ == e.2
            }))
        }),
        r matches Some(c) ==> {
            &&& c.0.wf() && c.1.wf() && c.2.wf()
            &&& q_eq(q_add(q_add(c.0@, c.1@), c.2@), q_int(1))
        },
{
    let w0 = match &triangle.vertexs[0].w_reciprocal {
        Some(w) => *w,
        None => {
            return None;
        },
    };
    let w1 = match &triangle.vertexs[1].w_reciprocal {
        Some(w) => *w,
        None => {
            return None;
        },
    };
    let w2 = match &triangle.vertexs[2].w_reciprocal {
        Some(w) => *w,
        None => {
            return None;
        },
    };
    let m0 = w0.mul(&barycenter.0)?;
    let m1 = w1.mul(&barycenter.1)?;
    let m2 = w2.mul(&barycenter.2)?;
    let s01 = m0.add(&m1)?;
    let norm = s01.add(&m2)?;
    if norm.is_zero() {
        return None;
    }
    let c0 = m0.div(&norm)?;
    let c1 = m1.div(&norm)?;
    let c2 = m2.div(&norm)?;
    // Certify the partition of unity exactly.
    let t01 = c0.add(&c1)?;
    let sum = t01.add(&c2)?;
    if !sum.eq_rat(&Rat::one()) {
        return None;
    }
    proof {
        lemma_q_ops_wf(c0@, c1@);
        lemma_fit_canon_val(q_add(c0@, c1@));
        lemma_q_ops_wf(t01@, c2@);
        lemma_fit_canon_val(q_add(t01@, c2@));
        crate::ray::lemma_sum_transfer(c0@, c1@, c2@, t01@, sum@);
    }
    Some((c0, c1, c2))
}

/// The floor of a rational clamped into `[0, hi]`.
pub open spec fn spec_floor_clamped(v: Rat, hi: int) -> int {
    if v@.n < 0 {
        0
    } else if v@.n / v@.d <= hi {
        v@.n / v@.d
    } else {
        hi
    }
}

/// The ceiling of a rational clamped into `[0, hi]`.
pub open spec fn spec_ceil_clamped(v: Rat, hi: int) -> int {
    if v@.n < 0 {
        0
    } else if (v@.n + v@.d - 1) / v@.d <= hi {
        (v@.n + v@.d - 1) / v@.d
    } else {
        hi
    }
}

/// Floor of a nonnegative-clamped rational, clamped above by `hi`.
pub fn rat_floor_clamped(v: &Rat, hi: usize) -> (r: usize)
    requires
        v.wf(),
    ensures
        r == spec_floor_clamped(*v, hi as int),
        v@.n < 0 ==> r == 0,
        v@.n >= 0 ==> r == if v@.n / v@.d <= hi as int {
            v@.n / v@.d
        } else {
            hi as int
        },
{
    let n = v.num() as i128;
    let d = v.den() as i128;
    if n < 0 {
        return 0;
    }
    let q = n / d;
    proof {
        crate::rat::lemma_exact_div_bounds(n as int, d as int);
    }
    if q <= hi as i128 {
        q as usize
    } else {
        hi
    }
}

/// Ceiling of a nonnegative-clamped rational, clamped above by `hi`.
pub fn rat_ceil_clamped(v: &Rat, hi: usize) -> (r: usize)
    requires
        v.wf(),
    ensures
        r == spec_ceil_clamped(*v, hi as int),
        v@.n < 0 ==> r == 0,
        v@.n >= 0 ==> r == if (v@.n + v@.d - 1) / v@.d <= hi as int {
            (v@.n + v@.d - 1) / v@.d
        } else {
            hi as int
        },
{
    let n = v.num() as i128;
    let d = v.den() as i128;
    if n < 0 {
        return 0;
    }
    let q = (n + d - 1) / d;
    proof {
        crate::rat::lemma_exact_div_bounds((n + d - 1) as int, d as int);
    }
    if q <= hi as i128 {
        q as usize
    } else {
        hi
    }
}

/// One fragment surviving in the z-buffer: its depth, the triangle it came
/// from and its perspective-corrected barycentric weights.
#[derive(Debug, Clone, Copy)]
pub struct ZBufferItem {
    pub z: Rat,
    pub model_index: usize,
    pub triangle_index: usize,
    pub barycenter: (Rat, Rat, Rat),
}

impl ZBufferItem {
    pub open spec fn wf(&self) -> bool {
        self.z.wf() && self.barycenter.0.wf() && self.barycenter.1.wf() && self.barycenter.2.wf()
    }
}

/// The nearest-wins update rule of one z-buffer cell: an empty cell accepts
/// the candidate; an occupied one keeps the strictly nearer fragment (ties
/// keep the incumbent).
pub open spec fn zb_step(prev: Option<ZBufferItem>, cand: ZBufferItem) -> Option<ZBufferItem> {
    match prev {
        None => Some(cand),
        Some(p) => if q_lt(cand.z@, p.z@) {
            Some(cand)
        } else {
            Some(p)
        },
    }
}

/// Nearest wins regardless of submission order: submitting two overlapping
/// fragments to an empty cell stores the strictly nearer depth whichever
/// came first.
pub proof fn lemma_zbuffer_nearest_wins(a: ZBufferItem, b: ZBufferItem)
    requires
        a.wf(),
        b.wf(),
        q_lt(a.z@, b.z@),
    ensures
        zb_step(zb_step(None, a), b) == Some(a),
        zb_step(zb_step(None, b), a) == Some(a),
{
}

/// The values of one z-buffer cell, at the specification level.
pub struct CellV {
    pub z: Q,
    pub mi: int,
    pub ti: int,
    pub b0: Q,
    pub b1: Q,
    pub b2: Q,
}

/// The view of an optional z-buffer cell.
pub open spec fn cell_view(c: Option<ZBufferItem>) -> Option<CellV> {
    match c {
        Some(it) => Some(
            CellV {
                z: it.z@,
                mi: it.model_index as int,
                ti: it.triangle_index as int,
                b0: it.barycenter.0@,
                b1: it.barycenter.1@,
                b2: it.barycenter.2@,
            },
        ),
        None => None,
    }
}

/// The checked pixel-center coordinate `k + 1/2`.
pub open spec fn pix_center(k: int) -> Option<Q> {
    ch_add(q_int(k), Q { n: 1, d: 2 })
}

/// The canonical form of one half is one half.
proof fn lemma_half_is_half(h: Q)
    requires
        h == crate::rat::q_canon(Q { n: 1, d: 2 }),
    ensures
        h == (Q { n: 1, d: 2 }),
{
    reveal_with_fuel(crate::rat::gcd, 3);
    assert(crate::rat::gcd(1nat, 2nat) == 1);
    assert(1int / 1int == 1int);
    assert(2int / 1int == 2int);
}

/// Distinct frame pixels occupy distinct cells of the row-major buffer.
proof fn lemma_cell_index_injective(px: int, py: int, x: int, y: int, w: int, h: int)
    by (nonlinear_arith)
    requires
        0 <= px < w,
        0 <= py < h,
        0 <= x < w,
        0 <= y < h,
        !(px == x && py == y),
    ensures
        py * w + px != y * w + x,
{
}

/// A frame column strictly left of the clamped floor of a coordinate
/// minimum has its pixel center strictly below that minimum.
proof fn lemma_left_of_box(v: Rat, hi: int, px: int)
    requires
        v.wf(),
        0 <= px,
        px < spec_floor_clamped(v, hi),
    ensures
        pix_center(px) matches Some(cx) ==> q_lt(cx, v@),
{
    let n = v@.n;
    let d = v@.d;
    assert(n >= 0);
    // In both reachable branches the unclamped floor bounds px from above.
    assert(px + 1 <= n / d);
    vstd::arithmetic::div_mod::lemma_fundamental_div_mod(n, d);
    assert(d * (px + 1) <= n) by (nonlinear_arith)
        requires
            d > 0,
            px + 1 <= n / d,
            n == d * (n / d) + n % d,
            n % d >= 0,
    ;
    match pix_center(px) {
        Some(cx) => {
            crate::vec::lemma_q_ops_wf(q_int(px), Q { n: 1, d: 2 });
            crate::vec::lemma_fit_canon_val(crate::rat::q_add(q_int(px), Q { n: 1, d: 2 }));
            let raw = Q { n: 2 * px + 1, d: 2 };
            assert(crate::rat::q_add(q_int(px), Q { n: 1, d: 2 }) == raw);
            assert(q_lt(raw, v@)) by (nonlinear_arith)
                requires
                    raw == (Q { n: 2 * px + 1, d: 2 }),
                    d * (px + 1) <= n,
                    d > 0,
                    v@.n == n,
                    v@.d == d,
            ;
            crate::rat::lemma_q_le_congruence(cx, v@, raw, v@);
        },
        None => {},
    }
}

/// A frame column at or past the clamped ceiling of a coordinate maximum
/// has its pixel center strictly above that maximum.
proof fn lemma_right_of_box(v: Rat, hi: int, px: int)
    requires
        v.wf(),
        0 <= px,
        px < hi,
        spec_ceil_clamped(v, hi) <= px,
    ensures
        pix_center(px) matches Some(cx) ==> q_lt(v@, cx),
{
    let n = v@.n;
    let d = v@.d;
    match pix_center(px) {
        Some(cx) => {
            crate::vec::lemma_q_ops_wf(q_int(px), Q { n: 1, d: 2 });
            crate::vec::lemma_fit_canon_val(crate::rat::q_add(q_int(px), Q { n: 1, d: 2 }));
            let raw = Q { n: 2 * px + 1, d: 2 };
            assert(crate::rat::q_add(q_int(px), Q { n: 1, d: 2 }) == raw);
            if n < 0 {
                assert(q_lt(v@, raw)) by (nonlinear_arith)
                    requires
                        raw == (Q { n: 2 * px + 1, d: 2 }),
                        n < 0,
                        d > 0,
                        px >= 0,
                        v@.n == n,
                        v@.d == d,
                ;
            } else {
                assert((n + d - 1) / d <= px);
                vstd::arithmetic::div_mod::lemma_fundamental_div_mod(n + d - 1, d);
                assert(n <= d * px) by (nonlinear_arith)
                    requires
                        d > 0,
                        n >= 0,
                        (n + d - 1) / d <= px,
                        n + d - 1 == d * ((n + d - 1) / d) + (n + d - 1) % d,
                        (n + d - 1) % d < d,
                ;
                assert(q_lt(v@, raw)) by (nonlinear_arith)
                    requires
                        raw == (Q { n: 2 * px + 1, d: 2 }),
                        n <= d * px,
                        d > 0,
                        v@.n == n,
                        v@.d == d,
                ;
            }
            crate::rat::lemma_q_le_congruence(v@, cx, v@, raw);
        },
        None => {},
    }
}

/// The checked fragment one triangle produces at one pixel: the center must
/// fall within the triangle's coordinate extents, be covered by nonnegative
/// barycentric weights, and yield a representable negated perspective-correct
/// depth and (when every vertex carries `1/w`) corrected weights.
pub open spec fn frag_of(tri: Triangle, x: int, y: int) -> Option<(Q, (Q, Q, Q))> {
    let p0 = tri.vertexs@[0].position;
    let p1 = tri.vertexs@[1].position;
    let p2 = tri.vertexs@[2].position;
    match (pix_center(x), pix_center(y)) {
        (Some(cx), Some(cy)) => {
            if q_le(crate::bvh::spec_min3(p0.x, p1.x, p2.x)@, cx) && q_le(
                cx,
                crate::bvh::spec_max3(p0.x, p1.x, p2.x)@,
            ) && q_le(crate::bvh::spec_min3(p0.y, p1.y, p2.y)@, cy) && q_le(
                cy,
                crate::bvh::spec_max3(p0.y, p1.y, p2.y)@,
            ) {
                match ch_bary(cx, cy, tri) {
                    Some(b) => {
                        if q_le(q_int(0), b.0) && q_le(q_int(0), b.1) && q_le(q_int(0), b.2) {
                            match ch_z_interp(tri, b.0, b.1, b.2) {
                                Some(zq) => {
                                    let z = q_neg(zq);
                                    if tri.vertexs@[0].w_reciprocal is Some
                                        && tri.vertexs@[1].w_reciprocal is Some
                                        && tri.vertexs@[2].w_reciprocal is Some {
                                        match ch_persp(
                                            tri.vertexs@[0].w_reciprocal->Some_0@,
                                            tri.vertexs@[1].w_reciprocal->Some_0@,
                                            tri.vertexs@[2].w_reciprocal->Some_0@,
                                            b.0,
                                            b.1,
                                            b.2,
                                        ) {
                                            Some(c) => Some((z, c)),
                                            None => None,
                                        }
                                    } else {
                                        Some((z, b))
                                    }
                                },
                                None => None,
                            }
                        } else {
                            None
                        }
                    },
                    None => None,
                }
            } else {
                None
            }
        },
        _ => None,
    }
}

/// Apply one optional fragment to one cell view by the nearest-wins rule.
pub open spec fn step_v(prev: Option<CellV>, f: Option<(Q, (Q, Q, Q))>, mi: int, ti: int) -> Option<
    CellV,
> {
    match f {
        None => prev,
        Some(fv) => {
            let cand = CellV { z: fv.0, mi, ti, b0: fv.1.0, b1: fv.1.1, b2: fv.1.2 };
            match prev {
                None => Some(cand),
                Some(p) => if q_lt(cand.z, p.z) {
                    Some(cand)
                } else {
                    Some(p)
                },
            }
        },
    }
}

/// One cell after every triangle of a model's first `n` has been submitted.
pub open spec fn fold_tris(
    tris: Seq<Triangle>,
    mi: int,
    x: int,
    y: int,
    init: Option<CellV>,
    n: int,
) -> Option<CellV>
    decreases n,
{
    if n <= 0 {
        init
    } else {
        step_v(fold_tris(tris, mi, x, y, init, n - 1), frag_of(tris[n - 1], x, y), mi, n - 1)
    }
}

/// One cell after every triangle of the first `m` models has been submitted,
/// in submission order.
pub open spec fn fold_models(
    models: Seq<crate::model::TriangulatedModel>,
    x: int,
    y: int,
    init: Option<CellV>,
    m: int,
) -> Option<CellV>
    decreases m,
{
    if m <= 0 {
        init
    } else {
        let prev = fold_models(models, x, y, init, m - 1);
        fold_tris(
            models[m - 1].triangles@,
            m - 1,
            x,
            y,
            prev,
            models[m - 1].triangles@.len() as int,
        )
    }
}

/// Apply the nearest-wins rule at one cell; out-of-range indices are skipped
/// defensively.
pub fn zbuffer_update(buf: &mut Vec<Option<ZBufferItem>>, index: usize, cand: ZBufferItem)
    requires
        cand.wf(),
        forall|i: int|
            0 <= i < old(buf)@.len() ==> (#[trigger] old(buf)@[i] matches Some(it) ==> it.wf()),
    ensures
        forall|i: int|
            0 <= i < final(buf)@.len() ==> (#[trigger] final(buf)@[i] matches Some(it)
                ==> it.wf()),
        final(buf)@.len() == old(buf)@.len(),
        index < old(buf)@.len() ==> final(buf)@[index as int] == zb_step(
            old(buf)@[index as int],
            cand,
        ),
        forall|i: int|
            0 <= i < old(buf)@.len() && i != index ==> final(buf)@[i] == old(buf)@[i],
        index >= old(buf)@.len() ==> final(buf)@ == old(buf)@,
{
    if index >= buf.len() {
        return ;
    }
    let replace = match &buf[index] {
        None => true,
        Some(p) => cand.z.lt(&p.z),
    };
    if replace {
        buf.set(index, Some(cand));
    }
    proof {
        if index < old(buf)@.len() {
            assert(final(buf)@[index as int] == zb_step(old(buf)@[index as int], cand));
        }
    }
}

/// The single-threaded rasterizer: a z-buffer over one frame.
pub struct Rasterizer {
    pub models: Vec<crate::model::TriangulatedModel>,
    pub width: usize,
    pub height: usize,
    pub z_buffer: Vec<Option<ZBufferItem>>,
}

impl Rasterizer {
    pub open spec fn wf(&self) -> bool {
        &&& forall|k: int| 0 <= k < self.models@.len() ==> (#[trigger] self.models@[k]).wf()
        &&& 1 <= self.width <= 0x2000
        &&& 1 <= self.height <= 0x2000
        &&& self.z_buffer@.len() == self.width * self.height
        &&& forall|k: int|
            0 <= k < self.z_buffer@.len() ==> ((#[trigger] self.z_buffer@[k]) matches Some(it)
                ==> it.wf())
    }

    /// Set up the frame and resolve visibility immediately, as the one-pass
    /// construction does.
    pub fn new(width: usize, height: usize, models: Vec<crate::model::TriangulatedModel>) -> (r:
        Rasterizer)
        requires
            1 <= width <= 0x2000,
            1 <= height <= 0x2000,
            forall|k: int| 0 <= k < models@.len() ==> (#[trigger] models@[k]).wf(),
        ensures
            r.wf(),
            r.width == width,
            r.height == height,
    {
        proof {
            crate::matrix::lemma_texel_idx(
                height as int - 1,
                width as int - 1,
                height as int,
                width as int,
            );
        }
        let total = width * height;
        let mut z_buffer: Vec<Option<ZBufferItem>> = Vec::new();
        let mut k: usize = 0;
        while k < total
            invariant
                k <= total,
                z_buffer@.len() == k,
                forall|t: int|
                    0 <= t < z_buffer@.len() ==> ((#[trigger] z_buffer@[t]) matches Some(it)
                        ==> it.wf()),
            decreases total - k,
        {
            z_buffer.push(None);
            k += 1;
        }
        let mut r = Rasterizer { models, width, height, z_buffer };
        r.update_z_buffer();
        r
    }

    /// Resolve the nearest fragment of every covered pixel: for each triangle
    /// of each model, walk its clamped pixel bounding box, test coverage by
    /// barycentric sign, interpolate the (negated) perspective-correct depth,
    /// and let the nearest-wins rule decide the cell.  Pixels whose exact
    /// coverage or depth cannot be represented are skipped defensively.
    /// Every frame cell ends as the nearest-wins fold, in submission order,
    /// of every triangle's checked fragment at its pixel over the old cell.
    #[verifier::rlimit(100)]
    pub fn update_z_buffer(&mut self)
        requires
            old(self).wf(),
        ensures
            final(self).wf(),
            final(self).width == old(self).width,
            final(self).height == old(self).height,
            final(self).models == old(self).models,
            final(self).z_buffer@.len() == old(self).z_buffer@.len(),
            forall|px: int, py: int|
                0 <= px < old(self).width && 0 <= py < old(self).height ==> cell_view(
                    #[trigger] final(self).z_buffer@[py * old(self).width + px],
                ) == fold_models(
                    old(self).models@,
                    px,
                    py,
                    cell_view(old(self).z_buffer@[py * old(self).width + px]),
                    old(self).models@.len() as int,
                ),
    {
        let ghost w = old(self).width as int;
        let ghost h = old(self).height as int;
        let mut mi: usize = 0;
        while mi < self.models.len()
            invariant
                self.wf(),
                self.width == old(self).width,
                self.height == old(self).height,
                self.models == old(self).models,
                self.z_buffer@.len() == old(self).z_buffer@.len(),
                mi <= self.models@.len(),
                w == old(self).width as int,
                h == old(self).height as int,
                forall|px: int, py: int|
                    0 <= px < w && 0 <= py < h ==> cell_view(
                        #[trigger] self.z_buffer@[py * w + px],
                    ) == fold_models(
                        old(self).models@,
                        px,
                        py,
                        cell_view(old(self).z_buffer@[py * w + px]),
                        mi as int,
                    ),
            decreases self.models@.len() - mi,
        {
            let mut ti: usize = 0;
            while ti < self.models[mi].triangles.len()
                invariant
                    self.wf(),
                    self.width == old(self).width,
                    self.height == old(self).height,
                    self.models == old(self).models,
                    self.z_buffer@.len() == old(self).z_buffer@.len(),
                    mi < self.models@.len(),
                    ti <= self.models@[mi as int].triangles@.len(),
                    w == old(self).width as int,
                    h == old(self).height as int,
                    forall|px: int, py: int|
                        0 <= px < w && 0 <= py < h ==> cell_view(
                            #[trigger] self.z_buffer@[py * w + px],
                        ) == fold_tris(
                            self.models@[mi as int].triangles@,
                            mi as int,
                            px,
                            py,
                            fold_models(
                                old(self).models@,
                                px,
                                py,
                                cell_view(old(self).z_buffer@[py * w + px]),
                                mi as int,
                            ),
                            ti as int,
                        ),
                decreases self.models@[mi as int].triangles@.len() - ti,
            {
                let triangle = self.models[mi].triangles[ti];
                let ghost before = self.z_buffer@;
                self.raster_triangle(mi, ti, &triangle);
                proof {
                    assert forall|px: int, py: int| 0 <= px < w && 0 <= py < h implies cell_view(
                        #[trigger] self.z_buffer@[py * w + px],
                    ) == fold_tris(
                        self.models@[mi as int].triangles@,
                        mi as int,
                        px,
                        py,
                        fold_models(
                            old(self).models@,
                            px,
                            py,
                            cell_view(old(self).z_buffer@[py * w + px]),
                            mi as int,
                        ),
                        ti as int + 1,
                    ) by {
                        assert(cell_view(self.z_buffer@[py * w + px]) == step_v(
                            cell_view(before[py * w + px]),
                            frag_of(self.models@[mi as int].triangles@[ti as int], px, py),
                            mi as int,
                            ti as int,
                        ));
                    }
                }
                ti += 1;
            }
            mi += 1;
        }
    }

    /// Rasterize one triangle into the z-buffer: every frame cell becomes
    /// `step_v` of its old value and this triangle's checked fragment at its
    /// pixel.  Pixels outside the triangle's clamped bounding box are never
    /// visited; their fragments are shown to be absent.
    #[verifier::rlimit(100)]
    fn raster_triangle(&mut self, mi: usize, ti: usize, triangle: &crate::model::Triangle)
        requires
            old(self).wf(),
            triangle.wf(),
        ensures
            final(self).wf(),
            final(self).width == old(self).width,
            final(self).height == old(self).height,
            final(self).models == old(self).models,
            final(self).z_buffer@.len() == old(self).z_buffer@.len(),
            forall|px: int, py: int|
                0 <= px < old(self).width && 0 <= py < old(self).height ==> cell_view(
                    #[trigger] final(self).z_buffer@[py * old(self).width + px],
                ) == step_v(
                    cell_view(old(self).z_buffer@[py * old(self).width + px]),
                    frag_of(*triangle, px, py),
                    mi as int,
                    ti as int,
                ),
    {
        let (min_x, min_y, max_x, max_y) = Rasterizer::bounding_box(
            triangle,
            self.width,
            self.height,
        );
        let ghost w = old(self).width as int;
        let ghost h = old(self).height as int;
        let mut x = min_x;
        while x < max_x
            invariant
                self.wf(),
                self.width == old(self).width,
                self.height == old(self).height,
                self.models == old(self).models,
                self.z_buffer@.len() == old(self).z_buffer@.len(),
                triangle.wf(),
                w == old(self).width as int,
                h == old(self).height as int,
                min_x <= x,
                max_x <= self.width,
                max_y <= self.height,
                forall|px: int, py: int|
                    0 <= px < w && 0 <= py < h && min_x <= px < x && min_y <= py < max_y
                        ==> cell_view(#[trigger] self.z_buffer@[py * w + px]) == step_v(
                        cell_view(old(self).z_buffer@[py * w + px]),
                        frag_of(*triangle, px, py),
                        mi as int,
                        ti as int,
                    ),
                forall|px: int, py: int|
                    0 <= px < w && 0 <= py < h && !(min_x <= px < x && min_y <= py < max_y)
                        ==> #[trigger] self.z_buffer@[py * w + px] == old(self).z_buffer@[py * w
                        + px],
            decreases max_x - x,
        {
            let mut y = if min_y < max_y {
                min_y
            } else {
                max_y
            };
            while y < max_y
                invariant
                    self.wf(),
                    self.width == old(self).width,
                    self.height == old(self).height,
                    self.models == old(self).models,
                    self.z_buffer@.len() == old(self).z_buffer@.len(),
                    triangle.wf(),
                    w == old(self).width as int,
                    h == old(self).height as int,
                    min_x <= x,
                    y <= max_y,
                    min_y <= y || y == max_y,
                    x < max_x <= self.width,
                    max_y <= self.height,
                    forall|px: int, py: int|
                        0 <= px < w && 0 <= py < h && ((min_x <= px < x && min_y <= py < max_y)
                            || (px == x && min_y <= py < y)) ==> cell_view(
                            #[trigger] self.z_buffer@[py * w + px],
                        ) == step_v(
                            cell_view(old(self).z_buffer@[py * w + px]),
                            frag_of(*triangle, px, py),
                            mi as int,
                            ti as int,
                        ),
                    forall|px: int, py: int|
                        0 <= px < w && 0 <= py < h && !((min_x <= px < x && min_y <= py < max_y)
                            || (px == x && min_y <= py < y)) ==> #[trigger] self.z_buffer@[py * w
                            + px] == old(self).z_buffer@[py * w + px],
                decreases max_y - y,
            {
                let ghost before = self.z_buffer@;
                self.raster_pixel(mi, ti, triangle, x, y);
                proof {
                    assert forall|px: int, py: int|
                        0 <= px < w && 0 <= py < h && !(px == x && py == y) implies #[trigger] self.z_buffer@[py
                        * w + px] == before[py * w + px] by {
                        lemma_cell_index_injective(px, py, x as int, y as int, w, h);
                        crate::matrix::lemma_texel_idx(py, px, h, w);
                    }
                }
                y += 1;
            }
            x += 1;
        }
        proof {
            let p0 = triangle.vertexs@[0].position;
            let p1 = triangle.vertexs@[1].position;
            let p2 = triangle.vertexs@[2].position;
            assert forall|px: int, py: int| 0 <= px < w && 0 <= py < h implies cell_view(
                #[trigger] self.z_buffer@[py * w + px],
            ) == step_v(
                cell_view(old(self).z_buffer@[py * w + px]),
                frag_of(*triangle, px, py),
                mi as int,
                ti as int,
            ) by {
                if min_x <= px < max_x && min_y <= py < max_y {
                } else {
                    // The pixel was never visited: its fragment is absent,
                    // because its center lies outside the clamped extents.
                    if px < min_x {
                        lemma_left_of_box(crate::bvh::spec_min3(p0.x, p1.x, p2.x), w, px);
                    } else if px >= max_x {
                        lemma_right_of_box(crate::bvh::spec_max3(p0.x, p1.x, p2.x), w, px);
                    } else if py < min_y {
                        lemma_left_of_box(crate::bvh::spec_min3(p0.y, p1.y, p2.y), h, py);
                    } else {
                        lemma_right_of_box(crate::bvh::spec_max3(p0.y, p1.y, p2.y), h, py);
                    }
                    assert(frag_of(*triangle, px, py) is None);
                }
            }
        }
    }

    /// Test one pixel against one triangle and apply the nearest-wins rule:
    /// the pixel's cell becomes `step_v` of its old value and the triangle's
    /// checked fragment at this pixel, and no other cell moves.
    #[verifier::rlimit(100)]
    fn raster_pixel(
        &mut self,
        mi: usize,
        ti: usize,
        triangle: &crate::model::Triangle,
        x: usize,
        y: usize,
    )
        requires
            old(self).wf(),
            triangle.wf(),
            x < old(self).width,
            y < old(self).height,
        ensures
            final(self).wf(),
            final(self).width == old(self).width,
            final(self).height == old(self).height,
            final(self).models == old(self).models,
            final(self).z_buffer@.len() == old(self).z_buffer@.len(),
            forall|i: int|
                0 <= i < old(self).z_buffer@.len() && i != y * old(self).width + x
                    ==> final(self).z_buffer@[i] == old(self).z_buffer@[i],
            cell_view(final(self).z_buffer@[y * old(self).width + x]) == step_v(
                cell_view(old(self).z_buffer@[y * old(self).width + x]),
                frag_of(*triangle, x as int, y as int),
                mi as int,
                ti as int,
            ),
    {
        proof {
            crate::matrix::lemma_texel_idx(
                y as int,
                x as int,
                self.height as int,
                self.width as int,
            );
        }
        // The pixel center (x + 1/2, y + 1/2).
        let half = Rat::new(1, 2);
        proof {
            lemma_half_is_half(half@);
        }
        let cx = match Rat::from_int(x as i64).add(&half) {
            Some(v) => v,
            None => {
                return ;
            },
        };
        let cy = match Rat::from_int(y as i64).add(&half) {
            Some(v) => v,
            None => {
                return ;
            },
        };
        // The center must fall within the triangle's coordinate extents.
        let p0 = &triangle.vertexs[0].position;
        let p1 = &triangle.vertexs[1].position;
        let p2 = &triangle.vertexs[2].position;
        let min_x = crate::bvh::min3(&p0.x, &p1.x, &p2.x);
        let max_x = crate::bvh::max3(&p0.x, &p1.x, &p2.x);
        let min_y = crate::bvh::min3(&p0.y, &p1.y, &p2.y);
        let max_y = crate::bvh::max3(&p0.y, &p1.y, &p2.y);
        if !(min_x.le(&cx) && cx.le(&max_x) && min_y.le(&cy) && cy.le(&max_y)) {
            return ;
        }
        let barycenter = match barycentric_2d(&cx, &cy, triangle) {
            Some(b) => b,
            None => {
                return ;
            },
        };
        if !inside_triangle_by_barycenter(&barycenter) {
            return ;
        }
        let z = match z_interpolation(triangle, &barycenter) {
            Some(v) => v.neg(),
            None => {
                return ;
            },
        };
        let corrected = ({
            if triangle.vertexs[0].w_reciprocal.is_some() && triangle.vertexs[1].w_reciprocal.is_some()
                && triangle.vertexs[2].w_reciprocal.is_some() {
                match perspective_correct(triangle, &barycenter) {
                    Some(c) => c,
                    None => {
                        return ;
                    },
                }
            } else {
                barycenter
            }
        });
        let index = y * self.width + x;
        let item = ZBufferItem { z, model_index: mi, triangle_index: ti, barycenter: corrected };
        zbuffer_update(&mut self.z_buffer, index, item);
    }

    /// The clamped integer pixel bounding box of a triangle: exactly the
    /// floor of each coordinate's minimum and the ceiling of its maximum
    /// over the three vertices, clamped into the frame.
    pub fn bounding_box(triangle: &crate::model::Triangle, width: usize, height: usize) -> (r: (
        usize,
        usize,
        usize,
        usize,
    ))
        requires
            triangle.wf(),
        ensures
            ({
                let p0 = triangle.vertexs@[0].position;
                let p1 = triangle.vertexs@[1].position;
                let p2 = triangle.vertexs@[2].position;
                &&& r.0 == spec_floor_clamped(
                    crate::bvh::spec_min3(p0.x, p1.x, p2.x),
                    width as int,
                )
                &&& r.1 == spec_floor_clamped(
                    crate::bvh::spec_min3(p0.y, p1.y, p2.y),
                    height as int,
                )
                &&& r.2 == spec_ceil_clamped(crate::bvh::spec_max3(p0.x, p1.x, p2.x), width as int)
                &&& r.3 == spec_ceil_clamped(
                    crate::bvh::spec_max3(p0.y, p1.y, p2.y),
                    height as int,
                )
            }),
            r.0 <= width && r.2 <= width,
            r.1 <= height && r.3 <= height,
    {
        let p0 = &triangle.vertexs[0].position;
        let p1 = &triangle.vertexs[1].position;
        let p2 = &triangle.vertexs[2].position;
        let min_x = crate::bvh::min3(&p0.x, &p1.x, &p2.x);
        let max_x = crate::bvh::max3(&p0.x, &p1.x, &p2.x);
        let min_y = crate::bvh::min3(&p0.y, &p1.y, &p2.y);
        let max_y = crate::bvh::max3(&p0.y, &p1.y, &p2.y);
        (
            rat_floor_clamped(&min_x, width),
            rat_floor_clamped(&min_y, height),
            rat_ceil_clamped(&max_x, width),
            rat_ceil_clamped(&max_y, height),
        )
    }

    /// What the shading pass promises of one frame cell: an empty or stale
    /// cell stays unwritten, and a surviving fragment is handed to the
    /// fragment shader, whose per-variant dispatch contract is restated here
    /// over exactly the stored fragment.
    pub open spec fn shaded_cell(
        &self,
        shader: crate::shade::FragmentShader,
        cell: Option<ZBufferItem>,
        out: Option<crate::color::Color>,
    ) -> bool {
        match cell {
            None => out is None,
            Some(item) => {
                if item.model_index < self.models@.len() && item.triangle_index
                    < self.models@[item.model_index as int].triangles@.len() {
                    let model = self.models@[item.model_index as int];
                    let tri = model.triangles@[item.triangle_index as int];
                    match shader {
                        crate::shade::FragmentShader::Z(_) => (out is Some)
                            == (crate::shade::ch_zshade(item.z@) is Some) && (out matches Some(v)
                            ==> ({
                            let g = crate::shade::ch_zshade(item.z@)->Some_0;
                            v.a == 255 && v.r == crate::color::spec_channel(g) && v.g
                                == crate::color::spec_channel(g) && v.b
                                == crate::color::spec_channel(g)
                        })),
                        crate::shade::FragmentShader::Color(_) => out matches Some(v) && v.a == 255
                            && (model.material matches Some(crate::model::MaterialNew::Phong(m)) ==> v.r
                            == crate::color::spec_channel(crate::rat::q_max0(m.diffuse_color@.x))
                            && v.g == crate::color::spec_channel(
                            crate::rat::q_max0(m.diffuse_color@.y),
                        ) && v.b == crate::color::spec_channel(
                            crate::rat::q_max0(m.diffuse_color@.z),
                        )),
                        crate::shade::FragmentShader::Texture(t) => (match crate::shade::ch_uv(
                            tri,
                            item.barycenter.0@,
                            item.barycenter.1@,
                            item.barycenter.2@,
                        ) {
                            Some(uv) => out matches Some(col) && col == t.texels@[(t.height - 1
                                - crate::shade::spec_tex_coord(uv.1, t.height as int - 1))
                                * t.width + crate::shade::spec_tex_coord(
                                uv.0,
                                t.width as int - 1,
                            )],
                            None => out is None,
                        }),
                        crate::shade::FragmentShader::Phong(_) => out matches Some(v) ==> v.a
                            == 255,
                    }
                } else {
                    out is None
                }
            },
        }
    }

    /// The shading pass: run the fragment shader once per surviving pixel,
    /// against the fragment stored in the z-buffer.  Pixels without a
    /// fragment, with a stale index, or whose shader reports a degeneracy
    /// stay unwritten; every written pixel is the shader's answer for
    /// exactly the fragment its cell stores.
    pub fn rasterize(&self, shader: &crate::shade::FragmentShader) -> (r: Vec<
        Option<crate::color::Color>,
    >)
        requires
            self.wf(),
            shader.wf(),
        ensures
            r@.len() == self.z_buffer@.len(),
            forall|k: int|
                0 <= k < r@.len() ==> (self.z_buffer@[k] is None ==> (#[trigger] r@[k]) is None),
            forall|k: int|
                0 <= k < r@.len() ==> self.shaded_cell(*shader, self.z_buffer@[k], #[trigger] r@[k]),
    {
        let mut frame: Vec<Option<crate::color::Color>> = Vec::new();
        let mut k: usize = 0;
        while k < self.z_buffer.len()
            invariant
                self.wf(),
                shader.wf(),
                k <= self.z_buffer@.len(),
                frame@.len() == k,
                forall|t: int|
                    0 <= t < frame@.len() ==> (self.z_buffer@[t] is None ==> (#[trigger] frame@[t])
                        is None),
                forall|t: int|
                    0 <= t < frame@.len() ==> self.shaded_cell(
                        *shader,
                        self.z_buffer@[t],
                        #[trigger] frame@[t],
                    ),
            decreases self.z_buffer@.len() - k,
        {
            let px: Option<crate::color::Color> = match &self.z_buffer[k] {
                Some(item) => {
                    if item.model_index < self.models.len() && item.triangle_index
                        < self.models[item.model_index].triangles.len() {
                        let model = &self.models[item.model_index];
                        let triangle = &model.triangles[item.triangle_index];
                        shader.shade(model, triangle, &item.barycenter, &item.z)
                    } else {
                        None
                    }
                },
                None => None,
            };
            frame.push(px);
            k += 1;
        }
        frame
    }
}

} // verus!
