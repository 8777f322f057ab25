//! Scene data: vertices, triangles, models and materials.
use crate::rat::{
    ch_add, ch_div, ch_mul, opt_q, q_add, q_int, q_le, q_lt, q_mul, Q, Rat, SQRT_SCALE,
};
use crate::vec::{ch_v3, ch_v4, opt_v3, opt_v4, Vector3, Vector4};
use vstd::prelude::*;

verus! {

/// The broad reflectance family of a surface.
#[derive(Debug, Clone, Copy)]
pub enum MaterialType {
    Diffuse,
    Microfacet,
}

/// Whether a term shades a direct light sample or an image-based/indirect one;
/// the two use different roughness remappings.
#[derive(Debug, Clone, Copy)]
pub enum IlluminateType {
    Direct,
    IBL,
}

/// Phong reflectance parameters.
#[derive(Debug, Clone, Copy)]
pub struct PhongMaterial {
    pub ambient_color: Vector3,
    pub diffuse_color: Vector3,
    pub specular_color: Vector3,
}

/// Cook-Torrance microfacet parameters.
#[derive(Debug, Clone, Copy)]
pub struct PBRMaterial {
    pub albedo: Vector3,
    pub metalness: Rat,
    pub roughness: Rat,
    pub refraction: Rat,
    pub f0: Vector3,
}

/// An emitting surface: radiance is `base_color * intensity`.
#[derive(Debug, Clone, Copy)]
pub struct EmissiveMaterial {
    pub base_color: Vector3,
    pub intensity: Rat,
}

/// The material of a surface.
#[derive(Debug, Clone, Copy)]
pub enum MaterialNew {
    Phong(PhongMaterial),
    PBR(PBRMaterial),
    Emissive(EmissiveMaterial),
}

impl PhongMaterial {
    pub open spec fn wf(&self) -> bool {
        self.ambient_color.wf() && self.diffuse_color.wf() && self.specular_color.wf()
    }
}

impl PBRMaterial {
    pub open spec fn wf(&self) -> bool {
        &&& self.albedo.wf()
        &&& self.metalness.wf()
        &&& self.roughness.wf()
        &&& self.refraction.wf()
        &&& self.f0.wf()
        &&& q_lt(q_int(0), self.roughness@)
    }
}

impl EmissiveMaterial {
    pub open spec fn wf(&self) -> bool {
        self.base_color.wf() && self.intensity.wf()
    }
}

impl MaterialNew {
    pub open spec fn wf(&self) -> bool {
        match self {
            MaterialNew::Phong(m) => m.wf(),
            MaterialNew::PBR(m) => m.wf(),
            MaterialNew::Emissive(m) => m.wf(),
        }
    }

    pub fn pbr_material(&self) -> (r: Option<&PBRMaterial>)
        ensures
            r matches Some(m) ==> *self == MaterialNew::PBR(*m),
            r is None <==> !(self is PBR),
    {
        if let MaterialNew::PBR(m) = self {
            Some(m)
        } else {
            None
        }
    }

    pub fn emissive_material(&self) -> (r: Option<&EmissiveMaterial>)
        ensures
            r matches Some(m) ==> *self == MaterialNew::Emissive(*m),
            r is None <==> !(self is Emissive),
    {
        if let MaterialNew::Emissive(m) = self {
            Some(m)
        } else {
            None
        }
    }

    pub fn phong_material(&self) -> (r: Option<&PhongMaterial>)
        ensures
            r matches Some(m) ==> *self == MaterialNew::Phong(*m),
            r is None <==> !(self is Phong),
    {
        if let MaterialNew::Phong(m) = self {
            Some(m)
        } else {
            None
        }
    }
}

/// One vertex with its interpolatable attributes.
#[derive(Debug, Clone, Copy)]
pub struct Vertex {
    /// Homogeneous position in the space of the current pipeline stage.
    pub position: Vector4,
    /// World-space position, kept for shading after projection.
    pub world_position: Vector4,
    /// Surface normal as a direction (`w = 0`), when present.
    pub normal: Option<Vector4>,
    /// Texture coordinate, when present.
    pub texture_coordinate: Option<(Rat, Rat)>,
    /// Reciprocal of the pre-division `w`, for perspective-correct
    /// interpolation, once it is computed.
    pub w_reciprocal: Option<Rat>,
}

impl Vertex {
    pub open spec fn wf(&self) -> bool {
        &&& self.position.wf()
        &&& self.world_position.wf()
        &&& (self.normal matches Some(n) ==> n.wf())
        &&& (self.texture_coordinate matches Some(t) ==> t.0.wf() && t.1.wf())
        &&& (self.w_reciprocal matches Some(w) ==> w.wf())
    }

    /// A vertex with only a position (the world position starts equal).
    pub fn from_position(position: Vector4) -> (v: Vertex)
        requires
            position.wf(),
        ensures
            v.wf(),
            v.position == position,
            v.world_position == position,
            v.normal is None,
            v.texture_coordinate is None,
            v.w_reciprocal is None,
    {
        Vertex {
            position,
            world_position: position,
            normal: None,
            texture_coordinate: None,
            w_reciprocal: None,
        }
    }
}

/// Three vertices plus the shared material and a precomputed surface area
/// (zero until `calc_area` runs).
#[derive(Debug, Clone, Copy)]
pub struct Triangle {
    pub vertexs: [Vertex; 3],
    pub material: Option<MaterialNew>,
    pub area: Rat,
}

impl Triangle {
    pub open spec fn wf(&self) -> bool {
        &&& self.vertexs@.len() == 3
        &&& self.vertexs@[0].wf()
        &&& self.vertexs@[1].wf()
        &&& self.vertexs@[2].wf()
        &&& (self.material matches Some(m) ==> m.wf())
        &&& self.area.wf()
    }

    pub fn new(v0: Vertex, v1: Vertex, v2: Vertex, material: Option<MaterialNew>) -> (t: Triangle)
        requires
            v0.wf(),
            v1.wf(),
            v2.wf(),
            material matches Some(m) ==> m.wf(),
        ensures
            t.wf(),
            t.vertexs@.len() == 3,
            t.vertexs@[0] == v0,
            t.vertexs@[1] == v1,
            t.vertexs@[2] == v2,
            t.material == material,
            t.area@ == q_int(0),
    {
        Triangle { vertexs: [v0, v1, v2], material, area: Rat::zero() }
    }

    /// The centroid of the three vertex positions.
    pub fn get_barycenter(&self) -> (r: Option<Vector4>)
        requires
            self.wf(),
        ensures
            opt_v4(r) == ({
                let p0 = self.vertexs@[0].position@;
                let p1 = self.vertexs@[1].position@;
                let p2 = self.vertexs@[2].position@;
                let third = Q { n: 1, d: 3 };
                match (crate::vec::ch_v4_add(p0, p1)) {
                    Some(s01) => match (crate::vec::ch_v4_add(s01, p2)) {
                        Some(s) => crate::vec::ch_v4_scale(s, third),
                        None => None::<crate::vec::V4q>,
                    },
                    None => None::<crate::vec::V4q>,
                }
            }),
            r matches Some(v) ==> v.wf(),
    {
        let p0 = &self.vertexs[0].position;
        let p1 = &self.vertexs[1].position;
        let p2 = &self.vertexs[2].position;
        let s01 = p0.add(p1)?;
        let s = s01.add(p2)?;
        let third = Rat::new(1, 3);
        proof {
            reveal_with_fuel(crate::rat::gcd, 4);
            assert(crate::rat::gcd(1nat, 3nat) == 1);
            assert(third@ == (Q { n: 1, d: 3 }));
        }
        s.scale(&third)
    }

    /// Compute and store the surface area: half the length of the cross
    /// product of two edges, to the square-root approximation's resolution.
    pub fn calc_area(&mut self) -> (r: Option<()>)
        requires
            old(self).wf(),
        ensures
            final(self).wf(),
            final(self).vertexs == old(self).vertexs,
            final(self).material == old(self).material,
            r is Some ==> q_le(q_int(0), final(self).area@),
            r is None ==> final(self).area == old(self).area,
    {
        let a = &self.vertexs[0].position;
        let b = &self.vertexs[1].position;
        let c = &self.vertexs[2].position;
        let ab3 = Vector3 { x: b.x.sub(&a.x)?, y: b.y.sub(&a.y)?, z: b.z.sub(&a.z)? };
        let ac3 = Vector3 { x: c.x.sub(&a.x)?, y: c.y.sub(&a.y)?, z: c.z.sub(&a.z)? };
        let cr = ab3.cross(&ac3)?;
        let norm_sq = cr.dot(&cr)?;
        if norm_sq.lt(&Rat::zero()) || Rat::from_int(0x7fff_ffff_ffff).lt(&norm_sq) {
            return None;
        }
        let len = Rat::sqrt_approx(&norm_sq);
        let half = Rat::new(1, 2);
        proof {
            reveal_with_fuel(crate::rat::gcd, 4);
            assert(crate::rat::gcd(crate::rat::iabs(1int), crate::rat::iabs(2int)) == 1);
            assert(1int / 1int == 1int);
            assert(2int / 1int == 2int);
            assert(crate::rat::q_canon(Q { n: 1, d: 2 }) == (Q { n: 1, d: 2 }));
            assert(half@ == (Q { n: 1, d: 2 }));
        }
        let area = len.mul(&half)?;
        proof {
            crate::vec::lemma_q_ops_wf(len@, half@);
            crate::vec::lemma_fit_canon_val(q_mul(len@, half@));
            assert(q_le(q_int(0), area@)) by (nonlinear_arith)
                requires
                    q_le(q_int(0), len@),
                    crate::rat::q_eq(area@, q_mul(len@, half@)),
                    len@.d > 0,
                    half@.d > 0,
                    area@.d > 0,
                    half@ == (Q { n: 1, d: 2 }),
            ;
        }
        self.area = area;
        Some(())
    }
}

/// Index triples into a vertex array, with one shared material.
#[derive(Debug)]
pub struct Model {
    pub indices: Vec<[u32; 3]>,
    pub vertexs: Vec<Vertex>,
    pub material: Option<MaterialNew>,
}

impl Model {
    /// Every face index points into the vertex array.
    pub open spec fn wf(&self) -> bool {
        &&& forall|k: int|
            0 <= k < self.indices@.len() ==> (#[trigger] self.indices@[k])[0]
                < self.vertexs@.len() && self.indices@[k][1] < self.vertexs@.len()
                && self.indices@[k][2] < self.vertexs@.len()
        &&& forall|k: int| 0 <= k < self.vertexs@.len() ==> (#[trigger] self.vertexs@[k]).wf()
        &&& (self.material matches Some(m) ==> m.wf())
    }

    pub fn new() -> (m: Model)
        ensures
            m.wf(),
            m.indices@.len() == 0,
            m.vertexs@.len() == 0,
            m.material is None,
    {
        Model { indices: Vec::new(), vertexs: Vec::new(), material: None }
    }

    /// Assemble the face list into per-triangle vertex copies.
    pub fn triangles(self) -> (r: Vec<Triangle>)
        requires
            self.wf(),
        ensures
            r@.len() == self.indices@.len(),
            forall|k: int|
                0 <= k < r@.len() ==> {
                    let t = #[trigger] r@[k];
                    &&& t.wf()
                    &&& t.vertexs@[0] == self.vertexs@[self.indices@[k][0] as int]
                    &&& t.vertexs@[1] == self.vertexs@[self.indices@[k][1] as int]
                    &&& t.vertexs@[2] == self.vertexs@[self.indices@[k][2] as int]
                    &&& t.material == self.material
                    &&& t.area@ == q_int(0)
                },
    {
        let mut r: Vec<Triangle> = Vec::new();
        let mut k: usize = 0;
        while k < self.indices.len()
            invariant
                self.wf(),
                k <= self.indices@.len(),
                r@.len() == k,
                forall|t: int|
                    0 <= t < k ==> {
                        let tr = #[trigger] r@[t];
                        &&& tr.wf()
                        &&& tr.vertexs@[0] == self.vertexs@[self.indices@[t][0] as int]
                        &&& tr.vertexs@[1] == self.vertexs@[self.indices@[t][1] as int]
                        &&& tr.vertexs@[2] == self.vertexs@[self.indices@[t][2] as int]
                        &&& tr.material == self.material
                        &&& tr.area@ == q_int(0)
                    },
            decreases self.indices@.len() - k,
        {
            let idx = &self.indices[k];
            let v0 = self.vertexs[idx[0] as usize];
            let v1 = self.vertexs[idx[1] as usize];
            let v2 = self.vertexs[idx[2] as usize];
            r.push(Triangle::new(v0, v1, v2, self.material));
            k += 1;
        }
        r
    }
}

/// A model flattened into triangles, with its total emitting area.
#[derive(Debug)]
pub struct TriangulatedModel {
    pub triangles: Vec<Triangle>,
    pub material: Option<MaterialNew>,
    pub area: Rat,
}

impl TriangulatedModel {
    pub open spec fn wf(&self) -> bool {
        &&& forall|k: int| 0 <= k < self.triangles@.len() ==> (#[trigger] self.triangles@[k]).wf()
        &&& (self.material matches Some(m) ==> m.wf())
        &&& self.area.wf()
    }

    /// The emitted radiance of this model's material, when it emits.
    pub fn emit(&self) -> (r: Option<Vector3>)
        requires
            self.wf(),
        ensures
            r matches Some(v) ==> (self.material matches Some(m) && m is Emissive && v.wf()),
            (self.material matches Some(m) && m is Emissive) ==> (r is Some || r is None),
            r matches Some(v) ==> (self.material matches Some(
                MaterialNew::Emissive(e),
            ) && opt_v3(Some(v)) == crate::vec::ch_v3_scale(e.base_color@, e.intensity@)),
    {
        match &self.material {
            Some(MaterialNew::Emissive(e)) => e.base_color.scale(&e.intensity),
            _ => None,
        }
    }

    /// Whether this model's surface emits light.
    pub fn has_emit(&self) -> (r: bool)
        requires
            self.wf(),
        ensures
            r == (self.material matches Some(m) && m is Emissive),
    {
        match &self.material {
            Some(MaterialNew::Emissive(_)) => true,
            _ => false,
        }
    }

    /// The stored total surface area.
    pub fn area(&self) -> (r: Rat)
        requires
            self.wf(),
        ensures
            r == self.area,
            r.wf(),
    {
        self.area
    }
}

/// The checked barycentric combination `alpha*a + beta*b + gamma*c` of
/// three four-vectors.
pub open spec fn ch_interp4(
    a: crate::vec::V4q,
    b: crate::vec::V4q,
    c: crate::vec::V4q,
    alpha: Q,
    beta: Q,
    gamma: Q,
) -> Option<crate::vec::V4q> {
    match (crate::vec::ch_v4_scale(a, alpha), crate::vec::ch_v4_scale(b, beta),
    crate::vec::ch_v4_scale(c, gamma)) {
        (Some(sa), Some(sb), Some(sc)) => match crate::vec::ch_v4_add(sa, sb) {
            Some(s) => crate::vec::ch_v4_add(s, sc),
            None => None,
        },
        _ => None,
    }
}

/// Interpolate three four-vectors with barycentric weights.
pub fn interpolate_vec4(
    a: &Vector4,
    b: &Vector4,
    c: &Vector4,
    alpha: &Rat,
    beta: &Rat,
    gamma: &Rat,
) -> (r: Option<Vector4>)
    requires
        a.wf(),
        b.wf(),
        c.wf(),
        alpha.wf(),
        beta.wf(),
        gamma.wf(),
    ensures
        opt_v4(r) == ch_interp4(a@, b@, c@, alpha@, beta@, gamma@),
        r matches Some(v) ==> v.wf(),
{
    let sa = a.scale(alpha)?;
    let sb = b.scale(beta)?;
    let sc = c.scale(gamma)?;
    let s = sa.add(&sb)?;
    s.add(&sc)
}

} // verus!
