//! The transform stage: cameras, lights, and the view, projection, viewport
//! and modeling matrices.
use crate::matrix::Matrix;
use crate::rat::{
    ch_add, ch_div, ch_mul, ch_sub, q_add, q_eq, q_int, q_le, q_lt, q_mul, q_neg, q_sub, Q, Rat,
};
use crate::vec::Vector3;
use vstd::prelude::*;

verus! {

/// A pinhole camera.  `half_fov_tan` holds the tangent of half the vertical
/// field of view, so the projection needs no trigonometry of its own.
#[derive(Debug, Clone, Copy)]
pub struct Camera {
    pub gaze_direct: Vector3,
    pub up_direct: Vector3,
    pub eye_position: Vector3,
    pub half_fov_tan: Rat,
    pub aspect_ratio: Rat,
    pub near: Rat,
    pub far: Rat,
}

impl Camera {
    pub open spec fn wf(&self) -> bool {
        &&& self.gaze_direct.wf()
        &&& self.up_direct.wf()
        &&& self.eye_position.wf()
        &&& self.half_fov_tan.wf()
        &&& self.aspect_ratio.wf()
        &&& self.near.wf()
        &&& self.far.wf()
    }

    pub fn new() -> (c: Camera)
        ensures
            c.wf(),
    {
        let z = Rat::zero();
        Camera {
            gaze_direct: Vector3 { x: z, y: z, z: z },
            up_direct: Vector3 { x: z, y: z, z: z },
            eye_position: Vector3 { x: z, y: z, z: z },
            half_fov_tan: z,
            aspect_ratio: z,
            near: z,
            far: z,
        }
    }

    pub fn gaze_direct(self, g: Vector3) -> (c: Camera)
        requires
            self.wf(),
            g.wf(),
        ensures
            c.wf(),
            c == (Camera { gaze_direct: g, ..self }),
    {
        Camera { gaze_direct: g, ..self }
    }

    pub fn up_direct(self, u: Vector3) -> (c: Camera)
        requires
            self.wf(),
            u.wf(),
        ensures
            c.wf(),
            c == (Camera { up_direct: u, ..self }),
    {
        Camera { up_direct: u, ..self }
    }

    pub fn eye_position(self, e: Vector3) -> (c: Camera)
        requires
            self.wf(),
            e.wf(),
        ensures
            c.wf(),
            c == (Camera { eye_position: e, ..self }),
    {
        Camera { eye_position: e, ..self }
    }

    pub fn half_fov_tan(self, t: Rat) -> (c: Camera)
        requires
            self.wf(),
            t.wf(),
        ensures
            c.wf(),
            c == (Camera { half_fov_tan: t, ..self }),
    {
        Camera { half_fov_tan: t, ..self }
    }

    pub fn aspect_ratio(self, a: Rat) -> (c: Camera)
        requires
            self.wf(),
            a.wf(),
        ensures
            c.wf(),
            c == (Camera { aspect_ratio: a, ..self }),
    {
        Camera { aspect_ratio: a, ..self }
    }

    pub fn near(self, n: Rat) -> (c: Camera)
        requires
            self.wf(),
            n.wf(),
        ensures
            c.wf(),
            c == (Camera { near: n, ..self }),
    {
        Camera { near: n, ..self }
    }

    pub fn far(self, f: Rat) -> (c: Camera)
        requires
            self.wf(),
            f.wf(),
        ensures
            c.wf(),
            c == (Camera { far: f, ..self }),
    {
        Camera { far: f, ..self }
    }
}

/// A point light with a scalar intensity.
#[derive(Debug, Clone, Copy)]
pub struct Light {
    pub position: Vector3,
    pub intensity: Rat,
}

impl Light {
    pub open spec fn wf(&self) -> bool {
        self.position.wf() && self.intensity.wf()
    }

    pub fn position(self, position: Vector3) -> (l: Light)
        requires
            self.wf(),
            position.wf(),
        ensures
            l.wf(),
            l == (Light { position, ..self }),
    {
        Light { position, ..self }
    }
}

/// A modeling transform under construction.
pub struct Modeling {
    pub transform_matrix: Matrix,
}

impl Modeling {
    pub open spec fn wf(&self) -> bool {
        &&& self.transform_matrix.wf()
        &&& self.transform_matrix.spec_rows() == 4
        &&& self.transform_matrix.spec_cols() == 4
    }

    /// Start from the identity transform.
    pub fn new() -> (m: Modeling)
        ensures
            m.wf(),
            forall|i: int, j: int|
                0 <= i < 4 && 0 <= j < 4 ==> m.transform_matrix.ent(i, j) == if i == j {
                    q_int(1)
                } else {
                    q_int(0)
                },
    {
        Modeling { transform_matrix: Matrix::unit(4) }
    }

    /// The accumulated transform matrix.
    pub fn modeling_martix(&self) -> (r: &Matrix)
        ensures
            r == &self.transform_matrix,
    {
        &self.transform_matrix
    }

    /// Compose one more transform on the left: the new matrix is the exact
    /// product `matrix * transform_matrix`, or `None` past scalar capacity.
    pub fn transform(self, matrix: &Matrix) -> (r: Option<Modeling>)
        requires
            self.wf(),
            matrix.wf(),
            matrix.spec_rows() == 4,
            matrix.spec_cols() == 4,
        ensures
            r matches Some(m) ==> m.wf() && forall|i: int, j: int|
                0 <= i < 4 && 0 <= j < 4 ==> Some(#[trigger] m.transform_matrix.ent(i, j))
                    == crate::matrix::ch_mm(*matrix, self.transform_matrix, i, j),
    {
        let m = matrix.mul(&self.transform_matrix)?;
        Some(Modeling { transform_matrix: m })
    }

    pub fn translate(self, x: Rat, y: Rat, z: Rat) -> (r: Option<Modeling>)
        requires
            self.wf(),
            x.wf(),
            y.wf(),
            z.wf(),
        ensures
            r matches Some(m) ==> m.wf(),
    {
        let t = Transformation::translation_matrix(x, y, z);
        self.transform(&t)
    }

    pub fn scale(self, sx: Rat, sy: Rat, sz: Rat) -> (r: Option<Modeling>)
        requires
            self.wf(),
            sx.wf(),
            sy.wf(),
            sz.wf(),
        ensures
            r matches Some(m) ==> m.wf(),
    {
        let t = Transformation::scale_matrix(sx, sy, sz);
        self.transform(&t)
    }

    /// Rotate about the `x` axis by the angle whose cosine and sine are the
    /// exact scalars given.
    pub fn rotate_around_x(self, c: Rat, s: Rat) -> (r: Option<Modeling>)
        requires
            self.wf(),
            c.wf(),
            s.wf(),
        ensures
            r matches Some(m) ==> m.wf(),
    {
        let t = Transformation::rotate_around_x_matrix(c, s);
        self.transform(&t)
    }

    pub fn rotate_around_y(self, c: Rat, s: Rat) -> (r: Option<Modeling>)
        requires
            self.wf(),
            c.wf(),
            s.wf(),
        ensures
            r matches Some(m) ==> m.wf(),
    {
        let t = Transformation::rotate_around_y_matrix(c, s);
        self.transform(&t)
    }

    pub fn rotate_around_z(self, c: Rat, s: Rat) -> (r: Option<Modeling>)
        requires
            self.wf(),
            c.wf(),
            s.wf(),
        ensures
            r matches Some(m) ==> m.wf(),
    {
        let t = Transformation::rotate_around_z_matrix(c, s);
        self.transform(&t)
    }
}

/// The checked look-at frame of a camera: the basis vectors `w = -gaze`,
/// `u = up x w`, `v = w x u`, and their dot products with the eye position.
pub open spec fn ch_view_frame(c: Camera) -> Option<
    (crate::vec::V3q, crate::vec::V3q, crate::vec::V3q, Q, Q, Q),
> {
    let g = c.gaze_direct@;
    let w = crate::vec::V3q { x: q_neg(g.x), y: q_neg(g.y), z: q_neg(g.z) };
    match crate::vec::ch_v3_cross(c.up_direct@, w) {
        Some(u) => match crate::vec::ch_v3_cross(w, u) {
            Some(v) => match (crate::vec::ch_v3_dot(u, c.eye_position@), crate::vec::ch_v3_dot(
                v,
                c.eye_position@,
            ), crate::vec::ch_v3_dot(w, c.eye_position@)) {
                (Some(d0), Some(d1), Some(d2)) => Some((u, v, w, d0, d1, d2)),
                _ => None,
            },
            None => None,
        },
        None => None,
    }
}

/// The checked scalars of the orthographic projection: the diagonal scales
/// `(1/r, 1/t, 2/(n-f))` and the composed translation entry `sz * cz`, with
/// `t = -n * tan(fov/2)`, `r = t * aspect`, `cz = -(n + f)/2`, and `n`, `f`
/// the (negative) view-space plane coordinates.
pub open spec fn ch_ortho(c: Camera) -> Option<(Q, Q, Q, Q)> {
    let n = q_neg(c.near@);
    let f = q_neg(c.far@);
    match ch_mul(q_neg(n), c.half_fov_tan@) {
        Some(tp) => match ch_mul(tp, c.aspect_ratio@) {
            Some(rp) => match ch_add(n, f) {
                Some(nf) => match ch_mul(nf, Q { n: 1, d: 2 }) {
                    Some(czm) => {
                        let cz = q_neg(czm);
                        if rp.n == 0 || tp.n == 0 {
                            None
                        } else {
                            match ch_sub(n, f) {
                                Some(snf) => if snf.n == 0 {
                                    None
                                } else {
                                    match (ch_div(q_int(1), rp), ch_div(q_int(1), tp), ch_div(
                                        q_int(2),
                                        snf,
                                    )) {
                                        (Some(sx), Some(sy), Some(sz)) => match ch_mul(sz, cz) {
                                            Some(tz) => Some((sx, sy, sz, tz)),
                                            None => None,
                                        },
                                        _ => None,
                                    }
                                },
                                None => None,
                            }
                        }
                    },
                    None => None,
                },
                None => None,
            },
            None => None,
        },
        None => None,
    }
}

/// The checked nontrivial entries of the full perspective projection: the
/// orthographic scalars composed with the `w = -z` squeeze, giving the
/// diagonal `(sx*(-n), sy*(-n), sz*(-(n+f)) - tz)` and `sz*f*n` in the last
/// column.
pub open spec fn ch_persp_proj(c: Camera) -> Option<(Q, Q, Q, Q)> {
    let n = q_neg(c.near@);
    let f = q_neg(c.far@);
    match ch_ortho(c) {
        Some(o) => {
            let nn = q_neg(n);
            match (ch_mul(o.0, nn), ch_mul(o.1, nn), ch_add(n, f), ch_mul(f, n)) {
                (Some(m00), Some(m11), Some(nf), Some(fnp)) => match ch_mul(o.2, q_neg(nf)) {
                    Some(t) => match ch_sub(t, o.3) {
                        Some(m22) => match ch_mul(o.2, fnp) {
                            Some(m23) => Some((m00, m11, m22, m23)),
                            None => None,
                        },
                        None => None,
                    },
                    None => None,
                },
                _ => None,
            }
        },
        None => None,
    }
}

/// The canonical form of one half is one half.
proof fn lemma_half_canon(h: Q)
    requires
        h == crate::rat::q_canon(Q { n: 1, d: 2 }),
    ensures
        h == (Q { n: 1, d: 2 }),
{
    reveal_with_fuel(crate::rat::gcd, 3);
    assert(crate::rat::gcd(1nat, 2nat) == 1);
    assert(1int / 1int == 1int);
    assert(2int / 1int == 2int);
}

/// Builders for the pipeline's matrices.
pub struct Transformation;

impl Transformation {
    /// The matrix a finished modeling transform denotes.
    pub fn modeling_matrix(modeling: Modeling) -> (r: Matrix)
        requires
            modeling.wf(),
        ensures
            r == modeling.transform_matrix,
            r.wf(),
    {
        modeling.transform_matrix
    }

    /// Translation by `(x, y, z)`.
    pub fn translation_matrix(x: Rat, y: Rat, z: Rat) -> (m: Matrix)
        requires
            x.wf(),
            y.wf(),
            z.wf(),
        ensures
            m.wf(),
            m.spec_rows() == 4,
            m.spec_cols() == 4,
            m.ent(0, 3) == x@ && m.ent(1, 3) == y@ && m.ent(2, 3) == z@,
            m.ent(0, 0) == q_int(1) && m.ent(1, 1) == q_int(1) && m.ent(2, 2) == q_int(1) && m.ent(
                3,
                3,
            ) == q_int(1),
            m.ent(0, 1) == q_int(0) && m.ent(0, 2) == q_int(0),
            m.ent(1, 0) == q_int(0) && m.ent(1, 2) == q_int(0),
            m.ent(2, 0) == q_int(0) && m.ent(2, 1) == q_int(0),
            m.ent(3, 0) == q_int(0) && m.ent(3, 1) == q_int(0) && m.ent(3, 2) == q_int(0),
    {
        let o = Rat::one();
        let n = Rat::zero();
        let mut vals: Vec<Rat> = Vec::new();
        vals.push(o);
        vals.push(n);
        vals.push(n);
        vals.push(x);
        vals.push(n);
        vals.push(o);
        vals.push(n);
        vals.push(y);
        vals.push(n);
        vals.push(n);
        vals.push(o);
        vals.push(z);
        vals.push(n);
        vals.push(n);
        vals.push(n);
        vals.push(o);
        Matrix::from_values(4, 4, vals)
    }

    /// Axis-aligned scaling.
    pub fn scale_matrix(sx: Rat, sy: Rat, sz: Rat) -> (m: Matrix)
        requires
            sx.wf(),
            sy.wf(),
            sz.wf(),
        ensures
            m.wf(),
            m.spec_rows() == 4,
            m.spec_cols() == 4,
            m.ent(0, 0) == sx@ && m.ent(1, 1) == sy@ && m.ent(2, 2) == sz@ && m.ent(3, 3) == q_int(
                1,
            ),
            m.ent(0, 1) == q_int(0) && m.ent(0, 2) == q_int(0) && m.ent(0, 3) == q_int(0),
            m.ent(1, 0) == q_int(0) && m.ent(1, 2) == q_int(0) && m.ent(1, 3) == q_int(0),
            m.ent(2, 0) == q_int(0) && m.ent(2, 1) == q_int(0) && m.ent(2, 3) == q_int(0),
            m.ent(3, 0) == q_int(0) && m.ent(3, 1) == q_int(0) && m.ent(3, 2) == q_int(0),
    {
        let o = Rat::one();
        let n = Rat::zero();
        let mut vals: Vec<Rat> = Vec::new();
        vals.push(sx);
        vals.push(n);
        vals.push(n);
        vals.push(n);
        vals.push(n);
        vals.push(sy);
        vals.push(n);
        vals.push(n);
        vals.push(n);
        vals.push(n);
        vals.push(sz);
        vals.push(n);
        vals.push(n);
        vals.push(n);
        vals.push(n);
        vals.push(o);
        Matrix::from_values(4, 4, vals)
    }

    /// Rotation about the `x` axis, given the angle's exact cosine and sine.
    pub fn rotate_around_x_matrix(c: Rat, s: Rat) -> (m: Matrix)
        requires
            c.wf(),
            s.wf(),
        ensures
            m.wf(),
            m.spec_rows() == 4,
            m.spec_cols() == 4,
            m.ent(1, 1) == c@ && m.ent(2, 2) == c@,
            m.ent(1, 2) == q_neg(s@) && m.ent(2, 1) == s@,
            m.ent(0, 0) == q_int(1) && m.ent(3, 3) == q_int(1),
    {
        let o = Rat::one();
        let n = Rat::zero();
        let ns = s.neg();
        let mut vals: Vec<Rat> = Vec::new();
        vals.push(o);
        vals.push(n);
        vals.push(n);
        vals.push(n);
        vals.push(n);
        vals.push(c);
        vals.push(ns);
        vals.push(n);
        vals.push(n);
        vals.push(s);
        vals.push(c);
        vals.push(n);
        vals.push(n);
        vals.push(n);
        vals.push(n);
        vals.push(o);
        Matrix::from_values(4, 4, vals)
    }

    pub fn rotate_around_y_matrix(c: Rat, s: Rat) -> (m: Matrix)
        requires
            c.wf(),
            s.wf(),
        ensures
            m.wf(),
            m.spec_rows() == 4,
            m.spec_cols() == 4,
            m.ent(0, 0) == c@ && m.ent(2, 2) == c@,
            m.ent(0, 2) == s@ && m.ent(2, 0) == q_neg(s@),
            m.ent(1, 1) == q_int(1) && m.ent(3, 3) == q_int(1),
    {
        let o = Rat::one();
        let n = Rat::zero();
        let ns = s.neg();
        let mut vals: Vec<Rat> = Vec::new();
        vals.push(c);
        vals.push(n);
        vals.push(s);
        vals.push(n);
        vals.push(n);
        vals.push(o);
        vals.push(n);
        vals.push(n);
        vals.push(ns);
        vals.push(n);
        vals.push(c);
        vals.push(n);
        vals.push(n);
        vals.push(n);
        vals.push(n);
        vals.push(o);
        Matrix::from_values(4, 4, vals)
    }

    pub fn rotate_around_z_matrix(c: Rat, s: Rat) -> (m: Matrix)
        requires
            c.wf(),
            s.wf(),
        ensures
            m.wf(),
            m.spec_rows() == 4,
            m.spec_cols() == 4,
            m.ent(0, 0) == c@ && m.ent(1, 1) == c@,
            m.ent(0, 1) == q_neg(s@) && m.ent(1, 0) == s@,
            m.ent(2, 2) == q_int(1) && m.ent(3, 3) == q_int(1),
    {
        let o = Rat::one();
        let n = Rat::zero();
        let ns = s.neg();
        let mut vals: Vec<Rat> = Vec::new();
        vals.push(c);
        vals.push(ns);
        vals.push(n);
        vals.push(n);
        vals.push(s);
        vals.push(c);
        vals.push(n);
        vals.push(n);
        vals.push(n);
        vals.push(n);
        vals.push(o);
        vals.push(n);
        vals.push(n);
        vals.push(n);
        vals.push(n);
        vals.push(o);
        Matrix::from_values(4, 4, vals)
    }

    /// The right-handed look-at view matrix: basis `w = -gaze`,
    /// `u = up x w`, `v = w x u`, composed with translation by the eye
    /// position.  The gaze and up directions are required to be exactly
    /// unit and orthogonal, so the normalizations of the look-at
    /// construction are identities and the basis (hence the matrix) is
    /// exact: the rotation rows hold the basis vectors and the last column
    /// the negated dot products of the basis with the eye, per
    /// `ch_view_frame`.  Callers with an approximate camera must scale it to
    /// an exactly unit, orthogonal pair first.
    pub fn view_matrix(camera: &Camera) -> (r: Option<Matrix>)
        requires
            camera.wf(),
            q_eq(
                crate::vec::v3_dot_q(camera.gaze_direct@, camera.gaze_direct@),
                q_int(1),
            ),
            q_eq(crate::vec::v3_dot_q(camera.up_direct@, camera.up_direct@), q_int(1)),
            q_eq(crate::vec::v3_dot_q(camera.gaze_direct@, camera.up_direct@), q_int(0)),
        ensures
            (r is Some) == (ch_view_frame(*camera) is Some),
            r matches Some(m) ==> {
                let f = ch_view_frame(*camera)->Some_0;
                &&& m.wf() && m.spec_rows() == 4 && m.spec_cols() == 4
                &&& m.ent(0, 0) == f.0.x && m.ent(0, 1) == f.0.y && m.ent(0, 2) == f.0.z
                &&& m.ent(1, 0) == f.1.x && m.ent(1, 1) == f.1.y && m.ent(1, 2) == f.1.z
                &&& m.ent(2, 0) == f.2.x && m.ent(2, 1) == f.2.y && m.ent(2, 2) == f.2.z
                &&& m.ent(0, 3) == q_neg(f.3) && m.ent(1, 3) == q_neg(f.4) && m.ent(2, 3) == q_neg(
                    f.5,
                )
                &&& m.ent(3, 0) == q_int(0) && m.ent(3, 1) == q_int(0) && m.ent(3, 2) == q_int(0)
                    && m.ent(3, 3) == q_int(1)
            },
    {
        let g = &camera.gaze_direct;
        let t = &camera.up_direct;
        let e = &camera.eye_position;
        let w = g.neg();
        let u = t.cross(&w)?;
        let v = w.cross(&u)?;
        let du = u.dot(e)?;
        let dv = v.dot(e)?;
        let dw = w.dot(e)?;
        let z = Rat::zero();
        let o = Rat::one();
        let mut vals: Vec<Rat> = Vec::new();
        vals.push(u.x);
        vals.push(u.y);
        vals.push(u.z);
        vals.push(du.neg());
        vals.push(v.x);
        vals.push(v.y);
        vals.push(v.z);
        vals.push(dv.neg());
        vals.push(w.x);
        vals.push(w.y);
        vals.push(w.z);
        vals.push(dw.neg());
        vals.push(z);
        vals.push(z);
        vals.push(z);
        vals.push(o);
        Some(Matrix::from_values(4, 4, vals))
    }

    /// Map the view frustum's box to the canonical cube: translate its center
    /// to the origin, then scale each axis to length two; the composed matrix
    /// is diagonal `(sx, sy, sz)` with `sz * cz` in the last column, per
    /// `ch_ortho`.
    pub fn orthogonal_projection_transform(camera: &Camera) -> (r: Option<Matrix>)
        requires
            camera.wf(),
        ensures
            (r is Some) == (ch_ortho(*camera) is Some),
            r matches Some(m) ==> {
                let o = ch_ortho(*camera)->Some_0;
                &&& m.wf() && m.spec_rows() == 4 && m.spec_cols() == 4
                &&& m.ent(0, 0) == o.0 && m.ent(1, 1) == o.1 && m.ent(2, 2) == o.2 && m.ent(2, 3)
                    == o.3
                &&& m.ent(3, 3) == q_int(1)
                &&& m.ent(0, 1) == q_int(0) && m.ent(0, 2) == q_int(0) && m.ent(0, 3) == q_int(0)
                &&& m.ent(1, 0) == q_int(0) && m.ent(1, 2) == q_int(0) && m.ent(1, 3) == q_int(0)
                &&& m.ent(2, 0) == q_int(0) && m.ent(2, 1) == q_int(0)
                &&& m.ent(3, 0) == q_int(0) && m.ent(3, 1) == q_int(0) && m.ent(3, 2) == q_int(0)
            },
    {
        let (sx, sy, sz, tz) = Transformation::ortho_scalars(camera)?;
        let z = Rat::zero();
        let o = Rat::one();
        let mut vals: Vec<Rat> = Vec::new();
        vals.push(sx);
        vals.push(z);
        vals.push(z);
        vals.push(z);
        vals.push(z);
        vals.push(sy);
        vals.push(z);
        vals.push(z);
        vals.push(z);
        vals.push(z);
        vals.push(sz);
        vals.push(tz);
        vals.push(z);
        vals.push(z);
        vals.push(z);
        vals.push(o);
        Some(Matrix::from_values(4, 4, vals))
    }

    /// The four nontrivial scalars of the orthographic projection.
    fn ortho_scalars(camera: &Camera) -> (r: Option<(Rat, Rat, Rat, Rat)>)
        requires
            camera.wf(),
        ensures
            (r is Some) == (ch_ortho(*camera) is Some),
            r matches Some(s) ==> {
                let o = ch_ortho(*camera)->Some_0;
                &&& s.0.wf() && s.1.wf() && s.2.wf() && s.3.wf()
                &&& s.0@ == o.0 && s.1@ == o.1 && s.2@ == o.2 && s.3@ == o.3
            },
    {
        let n = camera.near.neg();
        let f = camera.far.neg();
        // t = -n * tan(fov / 2); r = t * aspect.
        let tp = n.neg().mul(&camera.half_fov_tan)?;
        let rp = tp.mul(&camera.aspect_ratio)?;
        let two = Rat::from_int(2);
        let half = Rat::new(1, 2);
        proof {
            lemma_half_canon(half@);
        }
        // Center translation: x and y ranges are symmetric, z moves by
        // -(n + f) / 2.
        let nf = n.add(&f)?;
        let cz = nf.mul(&half)?.neg();
        // Scale to the canonical cube: 2/(r-l) = 1/r, 2/(t-b) = 1/t,
        // 2/(n-f).
        if rp.is_zero() || tp.is_zero() {
            return None;
        }
        let snf = n.sub(&f)?;
        if snf.is_zero() {
            return None;
        }
        let sx = Rat::one().div(&rp)?;
        let sy = Rat::one().div(&tp)?;
        let sz = two.div(&snf)?;
        let tz = sz.mul(&cz)?;
        Some((sx, sy, sz, tz))
    }

    /// The perspective-to-orthographic squeeze composed with the orthographic
    /// projection.  The squeeze carries `w = -z`, so points in front of the
    /// eye (negative view-space `z`) come out with positive `w`, the
    /// convention the clipper's half-spaces are stated in.  The composed
    /// entries are exactly those of `ch_persp_proj`, with `-1` at `(3, 2)`
    /// and zeros elsewhere off the stated entries.
    pub fn perspective_projection_transform(camera: &Camera) -> (r: Option<Matrix>)
        requires
            camera.wf(),
        ensures
            (r is Some) == (ch_persp_proj(*camera) is Some),
            r matches Some(m) ==> {
                let p = ch_persp_proj(*camera)->Some_0;
                &&& m.wf() && m.spec_rows() == 4 && m.spec_cols() == 4
                &&& m.ent(0, 0) == p.0 && m.ent(1, 1) == p.1 && m.ent(2, 2) == p.2 && m.ent(2, 3)
                    == p.3
                &&& m.ent(3, 2) == q_neg(q_int(1))
                &&& m.ent(0, 1) == q_int(0) && m.ent(0, 2) == q_int(0) && m.ent(0, 3) == q_int(0)
                &&& m.ent(1, 0) == q_int(0) && m.ent(1, 2) == q_int(0) && m.ent(1, 3) == q_int(0)
                &&& m.ent(2, 0) == q_int(0) && m.ent(2, 1) == q_int(0)
                &&& m.ent(3, 0) == q_int(0) && m.ent(3, 1) == q_int(0) && m.ent(3, 3) == q_int(0)
            },
    {
        let n = camera.near.neg();
        let f = camera.far.neg();
        let (sx, sy, sz, tz) = Transformation::ortho_scalars(camera)?;
        let nn = n.neg();
        let m00 = sx.mul(&nn)?;
        let m11 = sy.mul(&nn)?;
        let nf = n.add(&f)?;
        let m22 = sz.mul(&nf.neg())?.sub(&tz)?;
        let m23 = sz.mul(&f.mul(&n)?)?;
        let z = Rat::zero();
        let neg_one = Rat::one().neg();
        let mut vals: Vec<Rat> = Vec::new();
        vals.push(m00);
        vals.push(z);
        vals.push(z);
        vals.push(z);
        vals.push(z);
        vals.push(m11);
        vals.push(z);
        vals.push(z);
        vals.push(z);
        vals.push(z);
        vals.push(m22);
        vals.push(m23);
        vals.push(z);
        vals.push(z);
        vals.push(neg_one);
        vals.push(z);
        Some(Matrix::from_values(4, 4, vals))
    }

    /// Map the canonical cube's x/y to pixel coordinates: scale by half the
    /// frame size and translate to its center; z and w pass through.
    pub fn viewport_transform(width: i64, height: i64) -> (m: Matrix)
        requires
            1 <= width,
            1 <= height,
        ensures
            m.wf(),
            m.spec_rows() == 4,
            m.spec_cols() == 4,
            q_eq(m.ent(0, 0), Q { n: width as int, d: 2 }),
            q_eq(m.ent(0, 3), Q { n: width as int, d: 2 }),
            q_eq(m.ent(1, 1), Q { n: height as int, d: 2 }),
            q_eq(m.ent(1, 3), Q { n: height as int, d: 2 }),
            m.ent(2, 2) == q_int(1),
            m.ent(3, 3) == q_int(1),
            m.ent(0, 1) == q_int(0) && m.ent(0, 2) == q_int(0),
            m.ent(1, 0) == q_int(0) && m.ent(1, 2) == q_int(0),
            m.ent(2, 0) == q_int(0) && m.ent(2, 1) == q_int(0) && m.ent(2, 3) == q_int(0),
            m.ent(3, 0) == q_int(0) && m.ent(3, 1) == q_int(0) && m.ent(3, 2) == q_int(0),
    {
        let hw = Rat::new(width, 2);
        let hh = Rat::new(height, 2);
        let z = Rat::zero();
        let o = Rat::one();
        let mut vals: Vec<Rat> = Vec::new();
        vals.push(hw);
        vals.push(z);
        vals.push(z);
        vals.push(hw);
        vals.push(z);
        vals.push(hh);
        vals.push(z);
        vals.push(hh);
        vals.push(z);
        vals.push(z);
        vals.push(o);
        vals.push(z);
        vals.push(z);
        vals.push(z);
        vals.push(z);
        vals.push(o);
        Matrix::from_values(4, 4, vals)
    }
}

} // verus!
