//! Homogeneous clipping: Sutherland-Hodgman polygon clipping against the
//! seven clip-space half-spaces, fan triangulation, back-face culling and the
//! homogeneous division.
use crate::matrix::{ch_row4, Matrix};
use crate::model::{Triangle, Vertex};
use crate::rat::{
    ch_div, ch_mul, ch_sub, opt_q, q_add, q_eq, q_int, q_le, q_lt, q_mul, q_neg, q_sub, q_wf, Q,
    Rat,
};
use crate::vec::{opt_v4, V4q, Vector4};
use vstd::prelude::*;

verus! {

/// The seven clip half-spaces, in clipping order.  Points in front of the
/// eye carry positive `w` in homogeneous clip space, and the view frustum is
/// `|x|, |y|, |z| <= w`; the `W` plane rejects points whose `w` falls to a
/// small positive threshold or below.
#[derive(Debug, Clone, Copy, PartialEq, Eq, Structural)]
pub enum Plane {
    W,
    Left,
    Right,
    Top,
    Bottom,
    Near,
    Far,
}

/// The numerator of the `W` threshold `1/100000`.
pub const W_EPS_NUM: i64 = 1;

/// The denominator of the `W` threshold.
pub const W_EPS_DEN: i64 = 100000;

/// The `W` threshold as a rational.
pub open spec fn w_eps() -> Q {
    Q { n: W_EPS_NUM as int, d: W_EPS_DEN as int }
}

/// Insideness of a homogeneous point with respect to one plane: `w` must
/// strictly exceed the threshold, and each frustum coordinate may reach its
/// bound (`x >= -w`, `x <= w`, and likewise for `y` and `z`).
pub open spec fn spec_inside(plane: Plane, p: V4q) -> bool {
    match plane {
        Plane::W => q_lt(w_eps(), p.w),
        Plane::Left => q_le(q_neg(p.w), p.x),
        Plane::Right => q_le(p.x, p.w),
        Plane::Top => q_le(p.y, p.w),
        Plane::Bottom => q_le(q_neg(p.w), p.y),
        Plane::Near => q_le(p.z, p.w),
        Plane::Far => q_le(q_neg(p.w), p.z),
    }
}

/// A point lying exactly on the plane's boundary.
pub open spec fn spec_on_boundary(plane: Plane, p: V4q) -> bool {
    match plane {
        Plane::W => q_eq(p.w, w_eps()),
        Plane::Left => q_eq(p.x, q_neg(p.w)),
        Plane::Right => q_eq(p.x, p.w),
        Plane::Top => q_eq(p.y, p.w),
        Plane::Bottom => q_eq(p.y, q_neg(p.w)),
        Plane::Near => q_eq(p.z, p.w),
        Plane::Far => q_eq(p.z, q_neg(p.w)),
    }
}

/// Whether the point is inside the plane's half-space.
pub fn inside_plane(plane: Plane, p: &Vector4) -> (r: bool)
    requires
        p.wf(),
    ensures
        r == spec_inside(plane, p@),
{
    let eps = Rat::new(W_EPS_NUM, W_EPS_DEN);
    proof {
        lemma_w_eps_canon(eps@);
    }
    match plane {
        Plane::W => eps.lt(&p.w),
        Plane::Left => p.w.neg().le(&p.x),
        Plane::Right => p.x.le(&p.w),
        Plane::Top => p.y.le(&p.w),
        Plane::Bottom => p.w.neg().le(&p.y),
        Plane::Near => p.z.le(&p.w),
        Plane::Far => p.w.neg().le(&p.z),
    }
}

/// Whether the point lies exactly on the plane's boundary.
pub fn on_plane_boundary(plane: Plane, p: &Vector4) -> (r: bool)
    requires
        p.wf(),
    ensures
        r == spec_on_boundary(plane, p@),
{
    let eps = Rat::new(W_EPS_NUM, W_EPS_DEN);
    proof {
        lemma_w_eps_canon(eps@);
    }
    match plane {
        Plane::W => p.w.eq_rat(&eps),
        Plane::Left => p.x.eq_rat(&p.w.neg()),
        Plane::Right => p.x.eq_rat(&p.w),
        Plane::Top => p.y.eq_rat(&p.w),
        Plane::Bottom => p.y.eq_rat(&p.w.neg()),
        Plane::Near => p.z.eq_rat(&p.w),
        Plane::Far => p.z.eq_rat(&p.w.neg()),
    }
}

/// The canonical form of the `W` threshold is the threshold itself.
proof fn lemma_w_eps_canon(e: Q)
    requires
        e == crate::rat::q_canon(Q { n: W_EPS_NUM as int, d: W_EPS_DEN as int }),
    ensures
        e == w_eps(),
{
    reveal_with_fuel(crate::rat::gcd, 4);
    assert(crate::rat::gcd(crate::rat::iabs(W_EPS_NUM as int), crate::rat::iabs(W_EPS_DEN as int))
        == 1);
    assert(1int / 1int == 1int);
    assert(100000int / 1int == 100000int);
}

/// The checked signed distance of a point from one plane's boundary:
/// positive inside, zero on the boundary, negative outside.
pub open spec fn ch_signed_dist(plane: Plane, p: V4q) -> Option<Q> {
    match plane {
        Plane::W => ch_sub(p.w, w_eps()),
        Plane::Left => crate::rat::ch_add(p.x, p.w),
        Plane::Right => ch_sub(p.w, p.x),
        Plane::Top => ch_sub(p.w, p.y),
        Plane::Bottom => crate::rat::ch_add(p.y, p.w),
        Plane::Near => ch_sub(p.w, p.z),
        Plane::Far => crate::rat::ch_add(p.z, p.w),
    }
}

/// The checked crossing parameter `a / (a - b)` of the edge from `prev` to
/// `curr`, with `a` and `b` the endpoints' signed distances.
pub open spec fn ch_radio(plane: Plane, prev: V4q, curr: V4q) -> Option<Q> {
    match (ch_signed_dist(plane, prev), ch_signed_dist(plane, curr)) {
        (Some(a), Some(b)) => match ch_sub(a, b) {
            Some(den) => if den.n == 0 {
                None
            } else {
                ch_div(a, den)
            },
            None => None,
        },
        _ => None,
    }
}

/// The crossing parameter of the edge from `prev` to `curr` against one
/// plane, derived from the two endpoints' signed boundary distances.  The
/// result is exactly `a / (a - b)` per `ch_radio`; `None` when the algebraic
/// denominator is zero (the edge is parallel to the plane) or a scalar
/// exceeds the backing store.
pub fn get_interest_radio(plane: Plane, prev: &Vector4, curr: &Vector4) -> (r: Option<Rat>)
    requires
        prev.wf(),
        curr.wf(),
    ensures
        opt_q(r) == ch_radio(plane, prev@, curr@),
        r matches Some(t) ==> t.wf(),
{
    let (a, b): (Rat, Rat) = match plane {
        Plane::W => {
            let eps = Rat::new(W_EPS_NUM, W_EPS_DEN);
            proof {
                lemma_w_eps_canon(eps@);
            }
            (prev.w.sub(&eps)?, curr.w.sub(&eps)?)
        },
        Plane::Left => (prev.x.add(&prev.w)?, curr.x.add(&curr.w)?),
        Plane::Right => (prev.w.sub(&prev.x)?, curr.w.sub(&curr.x)?),
        Plane::Top => (prev.w.sub(&prev.y)?, curr.w.sub(&curr.y)?),
        Plane::Bottom => (prev.y.add(&prev.w)?, curr.y.add(&curr.w)?),
        Plane::Near => (prev.w.sub(&prev.z)?, curr.w.sub(&curr.z)?),
        Plane::Far => (prev.z.add(&prev.w)?, curr.z.add(&curr.w)?),
    };
    let den = a.sub(&b)?;
    if den.is_zero() {
        return None;
    }
    a.div(&den)
}

/// The checked linear interpolation `a + (b - a) * t`.
pub open spec fn ch_lerp(a: Q, b: Q, t: Q) -> Option<Q> {
    match ch_sub(b, a) {
        Some(d) => match ch_mul(d, t) {
            Some(dt) => crate::rat::ch_add(a, dt),
            None => None,
        },
        None => None,
    }
}

/// The checked componentwise interpolation of four-vectors.
pub open spec fn ch_lerp4(a: V4q, b: V4q, t: Q) -> Option<V4q> {
    crate::vec::ch_v4(
        ch_lerp(a.x, b.x, t),
        ch_lerp(a.y, b.y, t),
        ch_lerp(a.z, b.z, t),
        ch_lerp(a.w, b.w, t),
    )
}

/// Linear interpolation `a + (b - a) * t`, exactly `ch_lerp`.
pub fn lerp_rat(a: &Rat, b: &Rat, t: &Rat) -> (r: Option<Rat>)
    requires
        a.wf(),
        b.wf(),
        t.wf(),
    ensures
        opt_q(r) == ch_lerp(a@, b@, t@),
        r matches Some(v) ==> v.wf(),
{
    let d = b.sub(a)?;
    let dt = d.mul(t)?;
    a.add(&dt)
}

pub fn lerp_vec4(a: &Vector4, b: &Vector4, t: &Rat) -> (r: Option<Vector4>)
    requires
        a.wf(),
        b.wf(),
        t.wf(),
    ensures
        opt_v4(r) == ch_lerp4(a@, b@, t@),
        r matches Some(v) ==> v.wf(),
{
    let x = lerp_rat(&a.x, &b.x, t)?;
    let y = lerp_rat(&a.y, &b.y, t)?;
    let z = lerp_rat(&a.z, &b.z, t)?;
    let w = lerp_rat(&a.w, &b.w, t)?;
    Some(Vector4 { x, y, z, w })
}

/// The checked interpolation of a whole vertex: positions always, each
/// optional attribute when both endpoints carry it.
pub open spec fn ch_vertex_interp(v1: Vertex, v2: Vertex, t: Q) -> Option<
    (V4q, V4q, Option<V4q>, Option<(Q, Q)>, Option<Q>),
> {
    match (ch_lerp4(v1.position@, v2.position@, t), ch_lerp4(
        v1.world_position@,
        v2.world_position@,
        t,
    )) {
        (Some(pos), Some(wpos)) => {
            let normal: Option<Option<V4q>> = match (v1.normal, v2.normal) {
                (Some(a), Some(b)) => match ch_lerp4(a@, b@, t) {
                    Some(n) => Some(Some(n)),
                    None => None,
                },
                _ => Some(None),
            };
            let wrec: Option<Option<Q>> = match (v1.w_reciprocal, v2.w_reciprocal) {
                (Some(a), Some(b)) => match ch_lerp(a@, b@, t) {
                    Some(w) => Some(Some(w)),
                    None => None,
                },
                _ => Some(None),
            };
            let tc: Option<Option<(Q, Q)>> = match (v1.texture_coordinate, v2.texture_coordinate) {
                (Some(a), Some(b)) => match (ch_lerp(a.0@, b.0@, t), ch_lerp(a.1@, b.1@, t)) {
                    (Some(u), Some(v)) => Some(Some((u, v))),
                    _ => None,
                },
                _ => Some(None),
            };
            match (normal, tc, wrec) {
                (Some(n), Some(c), Some(w)) => Some((pos, wpos, n, c, w)),
                _ => None,
            }
        },
        _ => None,
    }
}

/// The view of a vertex's optional attributes, for stating interpolation.
pub open spec fn vertex_attr_views(v: Vertex) -> (Option<V4q>, Option<(Q, Q)>, Option<Q>) {
    (
        match v.normal {
            Some(n) => Some(n@),
            None => None,
        },
        match v.texture_coordinate {
            Some(t) => Some((t.0@, t.1@)),
            None => None,
        },
        match v.w_reciprocal {
            Some(w) => Some(w@),
            None => None,
        },
    )
}

/// Interpolate every attribute present in both endpoints at parameter `t`,
/// exactly `ch_vertex_interp`.
pub fn interpolate_vertex(v1: &Vertex, v2: &Vertex, t: &Rat) -> (r: Option<Vertex>)
    requires
        v1.wf(),
        v2.wf(),
        t.wf(),
    ensures
        (r is Some) == (ch_vertex_interp(*v1, *v2, t@) is Some),
        r matches Some(v) ==> {
            let e = ch_vertex_interp(*v1, *v2, t@)->Some_0;
            &&& v.wf()
            &&& v.position@ == e.0
            &&& v.world_position@ == e.1
            &&& vertex_attr_views(v) == (e.2, e.3, e.4)
        },
{
    let position = lerp_vec4(&v1.position, &v2.position, t)?;
    let world_position = lerp_vec4(&v1.world_position, &v2.world_position, t)?;
    let normal: Option<Vector4> = match (&v1.normal, &v2.normal) {
        (Some(a), Some(b)) => Some(lerp_vec4(a, b, t)?),
        _ => None,
    };
    let w_reciprocal: Option<Rat> = match (&v1.w_reciprocal, &v2.w_reciprocal) {
        (Some(a), Some(b)) => Some(lerp_rat(a, b, t)?),
        _ => None,
    };
    let texture_coordinate: Option<(Rat, Rat)> = match (&v1.texture_coordinate,
    &v2.texture_coordinate) {
        (Some(a), Some(b)) => Some((lerp_rat(&a.0, &b.0, t)?, lerp_rat(&a.1, &b.1, t)?)),
        _ => None,
    };
    Some(Vertex { position, world_position, normal, texture_coordinate, w_reciprocal })
}

/// All of a polygon's vertices are inside the plane.
pub open spec fn all_inside(plane: Plane, vs: Seq<Vertex>) -> bool {
    forall|i: int| 0 <= i < vs.len() ==> spec_inside(plane, (#[trigger] vs[i]).position@)
}

pub open spec fn all_vertexs_wf(vs: Seq<Vertex>) -> bool {
    forall|i: int| 0 <= i < vs.len() ==> (#[trigger] vs[i]).wf()
}

/// One Sutherland-Hodgman pass against a single plane.
///
/// Clipping a polygon that is already entirely inside the plane succeeds and
/// returns it unchanged.  Every vertex of the result is inside the plane or
/// exactly on its boundary: crossing vertices are certified on the boundary
/// before they are emitted.  For the six frustum planes the boundary belongs
/// to the half-space, so every output polygon is itself entirely inside and
/// re-clipping it against the same plane is the identity.  `None` is
/// reported when an exact crossing cannot be represented (a scalar out of
/// range, or a degenerate edge); callers drop the polygon, producing no
/// triangles for it.
pub fn clip_plane(plane: Plane, vertexs: Vec<Vertex>) -> (r: Option<Vec<Vertex>>)
    requires
        all_vertexs_wf(vertexs@),
    ensures
        all_inside(plane, vertexs@) ==> (r matches Some(out) && out@ == vertexs@),
        r matches Some(out) ==> {
            &&& all_vertexs_wf(out@)
            &&& forall|i: int|
                0 <= i < out@.len() ==> spec_inside(plane, (#[trigger] out@[i]).position@)
                    || spec_on_boundary(plane, (#[trigger] out@[i]).position@)
            &&& !(plane is W) ==> all_inside(plane, out@)
        },
{
    let n = vertexs.len();
    if n == 0 {
        return Some(Vec::new());
    }
    let mut out: Vec<Vertex> = Vec::new();
    let mut i: usize = 0;
    while i < n
        invariant
            n == vertexs@.len(),
            n >= 1,
            i <= n,
            all_vertexs_wf(vertexs@),
            all_vertexs_wf(out@),
            all_inside(plane, vertexs@) ==> out@ == vertexs@.subrange(0, i as int),
            forall|k: int|
                0 <= k < out@.len() ==> spec_inside(plane, (#[trigger] out@[k]).position@)
                    || spec_on_boundary(plane, (#[trigger] out@[k]).position@),
        decreases n - i,
    {
        let prev_idx = if i == 0 {
            n - 1
        } else {
            i - 1
        };
        let prev = &vertexs[prev_idx];
        let curr = &vertexs[i];
        let prev_inside = inside_plane(plane, &prev.position);
        let curr_inside = inside_plane(plane, &curr.position);

        if prev_inside != curr_inside {
            proof {
                // A crossing edge has a vertex outside the plane, so the
                // fully-inside promise is not at stake on this path.
                assert(!all_inside(plane, vertexs@)) by {
                    if all_inside(plane, vertexs@) {
                        assert(spec_inside(plane, vertexs@[prev_idx as int].position@));
                        assert(spec_inside(plane, vertexs@[i as int].position@));
                    }
                }
            }
            let radio = match get_interest_radio(plane, &prev.position, &curr.position) {
                Some(t) => t,
                None => {
                    return None;
                },
            };
            let crossing = match interpolate_vertex(prev, curr, &radio) {
                Some(v) => v,
                None => {
                    return None;
                },
            };
            // Certify that the crossing point lies exactly on the boundary.
            if !on_plane_boundary(plane, &crossing.position) {
                return None;
            }
            out.push(crossing);
        }
        if curr_inside {
            out.push(*curr);
        }
        proof {
            if all_inside(plane, vertexs@) {
                assert(out@ == vertexs@.subrange(0, i + 1));
            }
        }
        i += 1;
    }
    proof {
        if all_inside(plane, vertexs@) {
            assert(vertexs@.subrange(0, n as int) == vertexs@);
        }
        if !(plane is W) {
            // For the frustum planes the boundary lies in the half-space.
            assert forall|k: int| 0 <= k < out@.len() implies spec_inside(
                plane,
                (#[trigger] out@[k]).position@,
            ) by {
                assert(spec_inside(plane, out@[k].position@) || spec_on_boundary(
                    plane,
                    out@[k].position@,
                ));
            }
        }
    }
    Some(out)
}

/// Whether a polygon is inside every one of the seven clip half-spaces.
pub open spec fn all_inside_every_plane(vs: Seq<Vertex>) -> bool {
    &&& all_inside(Plane::W, vs)
    &&& all_inside(Plane::Left, vs)
    &&& all_inside(Plane::Right, vs)
    &&& all_inside(Plane::Top, vs)
    &&& all_inside(Plane::Bottom, vs)
    &&& all_inside(Plane::Near, vs)
    &&& all_inside(Plane::Far, vs)
}

/// Clip one polygon against all seven planes in order.  A polygon already
/// inside every half-space passes through unchanged.
pub fn clip_all_planes(vertexs: Vec<Vertex>) -> (r: Option<Vec<Vertex>>)
    requires
        all_vertexs_wf(vertexs@),
    ensures
        r matches Some(out) ==> all_vertexs_wf(out@),
        all_inside_every_plane(vertexs@) ==> (r matches Some(out) && out@ == vertexs@),
{
    let vertexs = clip_plane(Plane::W, vertexs)?;
    let vertexs = clip_plane(Plane::Left, vertexs)?;
    let vertexs = clip_plane(Plane::Right, vertexs)?;
    let vertexs = clip_plane(Plane::Top, vertexs)?;
    let vertexs = clip_plane(Plane::Bottom, vertexs)?;
    let vertexs = clip_plane(Plane::Near, vertexs)?;
    clip_plane(Plane::Far, vertexs)
}

/// Clip every face of a model and fan-triangulate what is left.  A face
/// whose exact clip cannot be represented contributes no vertices.  The
/// result is a flat list of vertex triples.
pub fn complete_homogeneous_clip(model: &crate::model::Model) -> (r: Vec<Vertex>)
    requires
        model.wf(),
    ensures
        all_vertexs_wf(r@),
        r@.len() % 3 == 0,
{
    let mut new_vertexs: Vec<Vertex> = Vec::new();
    let mut f: usize = 0;
    while f < model.indices.len()
        invariant
            model.wf(),
            all_vertexs_wf(new_vertexs@),
            new_vertexs@.len() % 3 == 0,
        decreases model.indices@.len() - f,
    {
        let idx = &model.indices[f];
        let mut face: Vec<Vertex> = Vec::new();
        face.push(model.vertexs[idx[0] as usize]);
        face.push(model.vertexs[idx[1] as usize]);
        face.push(model.vertexs[idx[2] as usize]);
        match clip_all_planes(face) {
            Some(clipped) => {
                if clipped.len() >= 3 {
                    // Fan triangulation around the first vertex.
                    let mut k: usize = 1;
                    while k < clipped.len() - 1
                        invariant
                            all_vertexs_wf(clipped@),
                            clipped@.len() >= 3,
                            1 <= k,
                            all_vertexs_wf(new_vertexs@),
                            new_vertexs@.len() % 3 == 0,
                        decreases clipped@.len() - k,
                    {
                        new_vertexs.push(clipped[0]);
                        new_vertexs.push(clipped[k]);
                        new_vertexs.push(clipped[k + 1]);
                        k += 1;
                    }
                }
            },
            None => {},
        }
        f += 1;
    }
    new_vertexs
}

/// Group a flat vertex list into triangles, three vertices each.
pub fn primitive_assembly(vertexs: Vec<Vertex>) -> (r: Vec<Triangle>)
    requires
        all_vertexs_wf(vertexs@),
        vertexs@.len() % 3 == 0,
    ensures
        r@.len() == vertexs@.len() / 3,
        forall|k: int|
            0 <= k < r@.len() ==> {
                let t = #[trigger] r@[k];
                &&& t.wf()
                &&& t.vertexs@[0] == vertexs@[3 * k]
                &&& t.vertexs@[1] == vertexs@[3 * k + 1]
                &&& t.vertexs@[2] == vertexs@[3 * k + 2]
                &&& t.material is None
            },
{
    let mut r: Vec<Triangle> = Vec::new();
    let mut k: usize = 0;
    while k < vertexs.len()
        invariant
            all_vertexs_wf(vertexs@),
            vertexs@.len() % 3 == 0,
            k % 3 == 0,
            k <= vertexs@.len(),
            k < vertexs@.len() ==> k + 3 <= vertexs@.len(),
            r@.len() == k / 3,
            forall|t: int|
                0 <= t < r@.len() ==> {
                    let tr = #[trigger] r@[t];
                    &&& tr.wf()
                    &&& tr.vertexs@[0] == vertexs@[3 * t]
                    &&& tr.vertexs@[1] == vertexs@[3 * t + 1]
                    &&& tr.vertexs@[2] == vertexs@[3 * t + 2]
                    &&& tr.material is None
                },
        decreases vertexs@.len() - k,
    {
        proof {
            lemma_chunk_step(k as int, vertexs@.len() as int);
        }
        let t = Triangle::new(vertexs[k], vertexs[k + 1], vertexs[k + 2], None);
        r.push(t);
        proof {
            assert(k as int / 3 + 1 == (k + 3) as int / 3);
            assert(r@[k as int / 3].vertexs@[0] == vertexs@[3 * (k as int / 3)]);
        }
        k += 3;
    }
    r
}

/// A multiple-of-three cursor strictly below a multiple-of-three length has
/// room for a whole triple.
proof fn lemma_chunk_step(k: int, n: int)
    by (nonlinear_arith)
    requires
        0 <= k < n,
        k % 3 == 0,
        n % 3 == 0,
    ensures
        k + 3 <= n,
        (k + 3) % 3 == 0,
        k / 3 + 1 == (k + 3) / 3,
        k / 3 < n / 3,
{
}

/// The checked homogeneous division of one position by its `w`.
pub open spec fn ch_hdiv(p: V4q) -> Option<V4q> {
    if p.w.n == 0 {
        None
    } else {
        crate::vec::ch_v4(ch_div(p.x, p.w), ch_div(p.y, p.w), ch_div(p.z, p.w), ch_div(p.w, p.w))
    }
}

/// Every attribute of a vertex but its position is unchanged.
pub open spec fn same_but_position(a: Vertex, b: Vertex) -> bool {
    &&& a.world_position == b.world_position
    &&& a.normal == b.normal
    &&& a.texture_coordinate == b.texture_coordinate
    &&& a.w_reciprocal == b.w_reciprocal
}

/// Divide a vertex's position by its `w`, mapping clip space to the
/// canonical cube.  Each output position is exactly `ch_hdiv` of its input;
/// `None` exactly when some vertex has `w == 0` or a scalar leaves the
/// backing store.
pub fn homogeneous_division(vertexs: Vec<Vertex>) -> (r: Option<Vec<Vertex>>)
    requires
        all_vertexs_wf(vertexs@),
    ensures
        r matches Some(out) ==> {
            &&& all_vertexs_wf(out@)
            &&& out@.len() == vertexs@.len()
            &&& forall|i: int|
                0 <= i < out@.len() ==> ch_hdiv((#[trigger] vertexs@[i]).position@) == Some(
                    out@[i].position@,
                ) && same_but_position(out@[i], vertexs@[i])
        },
        r is None ==> exists|i: int|
            0 <= i < vertexs@.len() && ch_hdiv((#[trigger] vertexs@[i]).position@) is None,
{
    let mut out: Vec<Vertex> = Vec::new();
    let mut i: usize = 0;
    while i < vertexs.len()
        invariant
            all_vertexs_wf(vertexs@),
            all_vertexs_wf(out@),
            out@.len() == i,
            i <= vertexs@.len(),
            forall|k: int|
                0 <= k < i ==> ch_hdiv((#[trigger] vertexs@[k]).position@) == Some(
                    out@[k].position@,
                ) && same_but_position(out@[k], vertexs@[k]),
        decreases vertexs@.len() - i,
    {
        let mut v = vertexs[i];
        if v.position.w.is_zero() {
            return None;
        }
        let x = v.position.x.div(&v.position.w)?;
        let y = v.position.y.div(&v.position.w)?;
        let z = v.position.z.div(&v.position.w)?;
        let w = v.position.w.div(&v.position.w)?;
        v.position = Vector4 { x, y, z, w };
        out.push(v);
        i += 1;
    }
    Some(out)
}

/// The checked reciprocal `1 / w` of one position's `w`.
pub open spec fn ch_wrecip(p: V4q) -> Option<Q> {
    if p.w.n == 0 {
        None
    } else {
        ch_div(q_int(1), p.w)
    }
}

/// Record each vertex's reciprocal `1/w` for perspective-correct
/// interpolation.  Each output carries exactly `1 / w` of its own position,
/// everything else unchanged; `None` exactly when some vertex has `w == 0`
/// or the reciprocal leaves the backing store.
pub fn triangles_w_reciprocal(vertexs: Vec<Vertex>) -> (r: Option<Vec<Vertex>>)
    requires
        all_vertexs_wf(vertexs@),
    ensures
        r matches Some(out) ==> {
            &&& all_vertexs_wf(out@)
            &&& out@.len() == vertexs@.len()
            &&& forall|i: int|
                0 <= i < out@.len() ==> {
                    let v = #[trigger] out@[i];
                    &&& v.w_reciprocal matches Some(w) && Some(w@) == ch_wrecip(
                        vertexs@[i].position@,
                    )
                    &&& v.position == vertexs@[i].position
                    &&& v.world_position == vertexs@[i].world_position
                    &&& v.normal == vertexs@[i].normal
                    &&& v.texture_coordinate == vertexs@[i].texture_coordinate
                }
        },
        r is None ==> exists|i: int|
            0 <= i < vertexs@.len() && ch_wrecip((#[trigger] vertexs@[i]).position@) is None,
{
    let mut out: Vec<Vertex> = Vec::new();
    let mut i: usize = 0;
    while i < vertexs.len()
        invariant
            all_vertexs_wf(vertexs@),
            all_vertexs_wf(out@),
            out@.len() == i,
            i <= vertexs@.len(),
            forall|k: int|
                0 <= k < i ==> {
                    let v = #[trigger] out@[k];
                    &&& v.w_reciprocal matches Some(w) && Some(w@) == ch_wrecip(
                        vertexs@[k].position@,
                    )
                    &&& v.position == vertexs@[k].position
                    &&& v.world_position == vertexs@[k].world_position
                    &&& v.normal == vertexs@[k].normal
                    &&& v.texture_coordinate == vertexs@[k].texture_coordinate
                },
        decreases vertexs@.len() - i,
    {
        let mut v = vertexs[i];
        if v.position.w.is_zero() {
            return None;
        }
        let one = Rat::one();
        let rec = one.div(&v.position.w)?;
        v.w_reciprocal = Some(rec);
        out.push(v);
        i += 1;
    }
    Some(out)
}

/// Apply a transform matrix to every vertex position.  Each output position
/// is exactly the matrix applied to its input position, everything else
/// unchanged; `None` exactly when some product leaves the backing store.
pub fn transform_models_vertexs(vertexs: Vec<Vertex>, transform_matrix: &Matrix) -> (r: Option<
    Vec<Vertex>,
>)
    requires
        all_vertexs_wf(vertexs@),
        transform_matrix.wf(),
        transform_matrix.spec_rows() == 4,
        transform_matrix.spec_cols() == 4,
    ensures
        r matches Some(out) ==> {
            &&& all_vertexs_wf(out@)
            &&& out@.len() == vertexs@.len()
            &&& forall|i: int|
                0 <= i < out@.len() ==> crate::matrix::ch_apply4(
                    *transform_matrix,
                    (#[trigger] vertexs@[i]).position@,
                ) == Some(out@[i].position@) && same_but_position(out@[i], vertexs@[i])
        },
        r is None ==> exists|i: int|
            0 <= i < vertexs@.len() && crate::matrix::ch_apply4(
                *transform_matrix,
                (#[trigger] vertexs@[i]).position@,
            ) is None,
{
    let mut out: Vec<Vertex> = Vec::new();
    let mut i: usize = 0;
    while i < vertexs.len()
        invariant
            all_vertexs_wf(vertexs@),
            all_vertexs_wf(out@),
            out@.len() == i,
            i <= vertexs@.len(),
            transform_matrix.wf(),
            transform_matrix.spec_rows() == 4,
            transform_matrix.spec_cols() == 4,
            forall|k: int|
                0 <= k < i ==> crate::matrix::ch_apply4(
                    *transform_matrix,
                    (#[trigger] vertexs@[k]).position@,
                ) == Some(out@[k].position@) && same_but_position(out@[k], vertexs@[k]),
        decreases vertexs@.len() - i,
    {
        let mut v = vertexs[i];
        let p = transform_matrix.apply4(&v.position)?;
        v.position = p;
        out.push(v);
        i += 1;
    }
    Some(out)
}

/// The checked biased visibility of one vertex `p` against a face normal
/// `n`, with the eye at the origin: true when `s = -(n . p)` is negative, or
/// when `s^2 < |n|^2 / 400` (the squared form of `s < |n| / 20`).
pub open spec fn ch_visible(n: crate::vec::V3q, p: crate::vec::V3q) -> Option<bool> {
    match crate::vec::ch_v3_dot(n, p) {
        Some(dot) => {
            let s = q_neg(dot);
            if q_lt(s, q_int(0)) {
                Some(true)
            } else {
                match ch_mul(s, s) {
                    Some(s2) => match crate::vec::ch_v3_dot(n, n) {
                        Some(n2) => match ch_div(n2, q_int(400)) {
                            Some(bound) => Some(q_lt(s2, bound)),
                            None => None,
                        },
                        None => None,
                    },
                    None => None,
                }
            }
        },
        None => None,
    }
}

/// The squared back-face test: a triangle is kept when some vertex `p`
/// satisfies `n . (e - p) < (1/20) * |n|` with `n` the face normal and `e`
/// the origin; evaluated exactly by comparing signs and squares.
pub fn visible_vertex(n: &crate::vec::Vector3, p: &crate::vec::Vector3) -> (r: Option<bool>)
    requires
        n.wf(),
        p.wf(),
    ensures
        r == ch_visible(n@, p@),
{
    // s = n . (0 - p) = -(n . p)
    let dot = n.dot(p)?;
    let s = dot.neg();
    let zero = Rat::zero();
    if s.lt(&zero) {
        return Some(true);
    }
    // s >= 0: compare s^2 < |n|^2 / 400 exactly.
    let s2 = s.mul(&s)?;
    let n2 = n.dot(n)?;
    let bound = n2.div(&Rat::from_int(400))?;
    Some(s2.lt(&bound))
}

/// The three vertex positions of the face at triple `m`, as three-vectors.
pub open spec fn face_p(vs: Seq<Vertex>, m: int, j: int) -> crate::vec::V3q {
    let p = vs[3 * m + j].position@;
    crate::vec::V3q { x: p.x, y: p.y, z: p.z }
}

/// Whether the face at triple `m` survives the back-face test: its edge
/// cross product exists and some vertex passes the biased visibility test.
pub open spec fn face_kept(vs: Seq<Vertex>, m: int) -> bool {
    let p0 = face_p(vs, m, 0);
    let p1 = face_p(vs, m, 1);
    let p2 = face_p(vs, m, 2);
    match (crate::vec::ch_v3_sub(p1, p0), crate::vec::ch_v3_sub(p2, p0)) {
        (Some(l1), Some(l2)) => match crate::vec::ch_v3_cross(l1, l2) {
            Some(nv) => ch_visible(nv, p0) == Some(true) || ch_visible(nv, p1) == Some(true)
                || ch_visible(nv, p2) == Some(true),
            None => false,
        },
        _ => false,
    }
}

/// The first `m` faces of `vs`, with the culled ones removed, in order.
pub open spec fn culled_upto(vs: Seq<Vertex>, m: int) -> Seq<Vertex>
    decreases m,
{
    if m <= 0 {
        Seq::empty()
    } else {
        let prev = culled_upto(vs, m - 1);
        if face_kept(vs, m - 1) {
            prev + seq![vs[3 * (m - 1)], vs[3 * (m - 1) + 1], vs[3 * (m - 1) + 2]]
        } else {
            prev
        }
    }
}

/// Drop triangles that face away from the eye at the origin: a face is kept
/// exactly when `face_kept` holds of it, and the result is the kept faces in
/// their original order.
pub fn back_face_cull(vertexs: Vec<Vertex>) -> (r: Vec<Vertex>)
    requires
        all_vertexs_wf(vertexs@),
        vertexs@.len() % 3 == 0,
    ensures
        all_vertexs_wf(r@),
        r@.len() % 3 == 0,
        r@ == culled_upto(vertexs@, vertexs@.len() as int / 3),
{
    let mut out: Vec<Vertex> = Vec::new();
    let mut k: usize = 0;
    while k < vertexs.len()
        invariant
            all_vertexs_wf(vertexs@),
            vertexs@.len() % 3 == 0,
            k % 3 == 0,
            k <= vertexs@.len(),
            all_vertexs_wf(out@),
            out@.len() % 3 == 0,
            out@ == culled_upto(vertexs@, k as int / 3),
        decreases vertexs@.len() - k,
    {
        proof {
            lemma_chunk_step(k as int, vertexs@.len() as int);
        }
        let ghost m = k as int / 3;
        let p0 = crate::vec::Vector3::from_vector4(&vertexs[k].position);
        let p1 = crate::vec::Vector3::from_vector4(&vertexs[k + 1].position);
        let p2 = crate::vec::Vector3::from_vector4(&vertexs[k + 2].position);
        proof {
            assert(3 * m == k);
            assert(p0@ == face_p(vertexs@, m, 0));
            assert(p1@ == face_p(vertexs@, m, 1));
            assert(p2@ == face_p(vertexs@, m, 2));
        }
        let keep: bool = ({
            let l1 = p1.sub(&p0);
            let l2 = p2.sub(&p0);
            match (l1, l2) {
                (Some(l1), Some(l2)) => match l1.cross(&l2) {
                    Some(nv) => {
                        let a = visible_vertex(&nv, &p0);
                        let b = visible_vertex(&nv, &p1);
                        let c = visible_vertex(&nv, &p2);
                        (match a {
                            Some(true) => true,
                            _ => false,
                        }) || (match b {
                            Some(true) => true,
                            _ => false,
                        }) || (match c {
                            Some(true) => true,
                            _ => false,
                        })
                    },
                    None => false,
                },
                _ => false,
            }
        });
        proof {
            assert(keep == face_kept(vertexs@, m));
        }
        let ghost before = out@;
        if keep {
            out.push(vertexs[k]);
            out.push(vertexs[k + 1]);
            out.push(vertexs[k + 2]);
            proof {
                assert(out@ == before + seq![
                    vertexs@[3 * m],
                    vertexs@[3 * m + 1],
                    vertexs@[3 * m + 2],
                ]);
            }
        }
        proof {
            assert((k + 3) as int / 3 == m + 1);
            assert(out@ == culled_upto(vertexs@, m + 1));
        }
        k += 3;
    }
    proof {
        assert(k as int / 3 == vertexs@.len() as int / 3);
    }
    out
}

} // verus!
