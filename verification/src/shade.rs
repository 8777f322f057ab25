//! Fragment shading: the closed set of fragment shaders of the raster
//! pipeline, the texture sampler, and the legacy whole-buffer shaders.
use crate::color::{spec_channel, Color};
use crate::model::{MaterialNew, Triangle, TriangulatedModel};
use crate::rat::{ch_add, ch_mul, ch_sub, q_int, q_le, q_lt, q_max0, Q, Rat};
use crate::transform::{Camera, Light};
use crate::vec::Vector3;
use vstd::prelude::*;

verus! {

/// `floor(f * n)` clamped into `[0, n]`, at the specification level.
pub open spec fn spec_scaled(fq: Q, n: int) -> int {
    if fq.n < 0 {
        0
    } else if (fq.n * n) / fq.d <= n {
        (fq.n * n) / fq.d
    } else {
        n
    }
}

/// The texel column or row a clamped coordinate maps to: the coordinate is
/// clamped to `[0, 1]`, then scaled by `n` and floored.
pub open spec fn spec_tex_coord(vq: Q, n: int) -> int {
    if q_lt(vq, q_int(0)) {
        spec_scaled(q_int(0), n)
    } else if q_lt(q_int(1), vq) {
        spec_scaled(q_int(1), n)
    } else {
        spec_scaled(vq, n)
    }
}

/// A decoded texture: a row-major grid of texels.
pub struct Texture {
    pub width: usize,
    pub height: usize,
    pub texels: Vec<Color>,
}

impl Texture {
    pub open spec fn wf(&self) -> bool {
        &&& 1 <= self.width <= 0x8000
        &&& 1 <= self.height <= 0x8000
        &&& self.texels@.len() == self.width * self.height
    }

    pub fn new(width: usize, height: usize, texels: Vec<Color>) -> (r: Option<Texture>)
        ensures
            r matches Some(t) ==> t.wf() && t.width == width && t.height == height,
            r is None <==> !(1 <= width <= 0x8000 && 1 <= height <= 0x8000 && texels@.len()
                == width * height),
    {
        if 1 <= width && width <= 0x8000 && 1 <= height && height <= 0x8000 {
            proof {
                crate::matrix::lemma_texel_idx(
                    height as int - 1,
                    width as int - 1,
                    height as int,
                    width as int,
                );
                crate::matrix::lemma_texel_idx(
                    width as int - 1,
                    height as int - 1,
                    width as int,
                    height as int,
                );
            }
            if texels.len() == width * height {
                Some(Texture { width, height, texels })
            } else {
                None
            }
        } else {
            None
        }
    }

    /// Nearest-texel lookup: `u` and `v` are clamped to `[0, 1]`; `v = 0` is
    /// the image bottom (the last texel row).  The result is exactly the
    /// texel at the clamped, scaled and floored coordinates.
    pub fn get(&self, u: &Rat, v: &Rat) -> (c: Color)
        requires
            self.wf(),
            u.wf(),
            v.wf(),
        ensures
            c == self.texels@[(self.height - 1 - spec_tex_coord(v@, self.height as int - 1))
                * self.width + spec_tex_coord(u@, self.width as int - 1)],
    {
        let zero = Rat::zero();
        let one = Rat::one();
        let uc = if u.lt(&zero) {
            zero
        } else if one.lt(u) {
            one
        } else {
            *u
        };
        let vc = if v.lt(&zero) {
            zero
        } else if one.lt(v) {
            one
        } else {
            *v
        };
        // x = u * (width - 1), y = (height - 1) - v * (height - 1).
        let x = scaled_index(&uc, self.width - 1);
        let yo = scaled_index(&vc, self.height - 1);
        let y = self.height - 1 - yo;
        proof {
            crate::matrix::lemma_texel_idx(
                y as int,
                x as int,
                self.height as int,
                self.width as int,
            );
        }
        self.texels[y * self.width + x]
    }
}

/// `floor(f * n)` for a fraction `f` in `[0, 1]`, clamped into `[0, n]`.
fn scaled_index(f: &Rat, n: usize) -> (r: usize)
    requires
        f.wf(),
        n <= 0x8000,
    ensures
        r <= n,
        r == spec_scaled(f@, n as int),
{
    let num = f.num() as i128;
    let den = f.den() as i128;
    if num < 0 {
        return 0;
    }
    proof {
        assert(0 <= num * n as int <= 0x7fff_ffff_ffff_ffffi128 * 0x10000i128)
            by (nonlinear_arith)
            requires
                0 <= num <= 0x7fff_ffff_ffff_ffffi128,
                0 <= n <= 0x8000,
        ;
    }
    let scaled = num * (n as i128);
    proof {
        crate::rat::lemma_exact_div_bounds(scaled as int, den as int);
    }
    let q = scaled / den;
    if q <= n as i128 {
        q as usize
    } else {
        n
    }
}

/// Flat-color shading: the model's diffuse color, or a mid gray.
pub struct ColorShader;

/// The default gray used when a model has no Phong material.
pub const DEFAULT_GRAY: u8 = 127;

impl ColorShader {
    pub fn shade(model: &TriangulatedModel) -> (c: Color)
        requires
            model.wf(),
        ensures
            c.a == 255,
            model.material matches Some(MaterialNew::Phong(m)) ==> c.r == spec_channel(
                q_max0(m.diffuse_color@.x),
            ) && c.g == spec_channel(q_max0(m.diffuse_color@.y)) && c.b == spec_channel(
                q_max0(m.diffuse_color@.z),
            ),
            !(model.material matches Some(m) && m is Phong) ==> c == (Color {
                r: DEFAULT_GRAY,
                g: DEFAULT_GRAY,
                b: DEFAULT_GRAY,
                a: 255u8,
            }),
    {
        match &model.material {
            Some(MaterialNew::Phong(m)) => Color::from_unit_rgb(&m.diffuse_color.clamp0()),
            _ => Color::rgb(DEFAULT_GRAY, DEFAULT_GRAY, DEFAULT_GRAY),
        }
    }
}

/// Depth shading: white scaled by `z * 5 - 4`, clamped to the unit range.
pub struct ZShader;

/// The checked gray level of the depth shader: `max(0, z * 5 - 4)`.
pub open spec fn ch_zshade(z: Q) -> Option<Q> {
    match ch_mul(z, q_int(5)) {
        Some(t5) => match ch_sub(t5, q_int(4)) {
            Some(t) => Some(q_max0(t)),
            None => None,
        },
        None => None,
    }
}

impl ZShader {
    pub fn shade(z: &Rat) -> (c: Option<Color>)
        requires
            z.wf(),
        ensures
            (c is Some) == (ch_zshade(z@) is Some),
            c matches Some(v) ==> ({
                let g = ch_zshade(z@)->Some_0;
                v.a == 255 && v.r == spec_channel(g) && v.g == spec_channel(g) && v.b
                    == spec_channel(g)
            }),
    {
        let five = Rat::from_int(5);
        let four = Rat::from_int(4);
        let t = z.mul(&five)?.sub(&four)?;
        let unit = t.max0();
        let v = Vector3 { x: unit, y: unit, z: unit };
        Some(Color::from_unit_rgb(&v))
    }
}

/// Blinn-Phong shading with one point light, an ambient term and an optional
/// texture for the diffuse color.
pub struct PhongShader {
    pub eye_position: Vector3,
    pub light: Light,
    pub texture: Option<Texture>,
}

impl PhongShader {
    pub open spec fn wf(&self) -> bool {
        &&& self.eye_position.wf()
        &&& self.light.wf()
        &&& (self.texture matches Some(t) ==> t.wf())
    }

    pub fn color_shader(eye_position: Vector3, light: Light) -> (s: PhongShader)
        requires
            eye_position.wf(),
            light.wf(),
        ensures
            s.wf(),
            s.texture is None,
    {
        PhongShader { eye_position, light, texture: None }
    }

    pub fn texture_shader(eye_position: Vector3, light: Light, texture: Option<Texture>) -> (s:
        PhongShader)
        requires
            eye_position.wf(),
            light.wf(),
            texture matches Some(t) ==> t.wf(),
        ensures
            s.wf(),
    {
        PhongShader { eye_position, light, texture }
    }

    pub fn update_camera(&mut self, camera: &Camera)
        requires
            old(self).wf(),
            camera.wf(),
        ensures
            final(self).wf(),
            final(self).eye_position == camera.eye_position,
            final(self).light == old(self).light,
    {
        self.eye_position = camera.eye_position;
    }

    pub fn update_light(&mut self, light: &Light)
        requires
            old(self).wf(),
            light.wf(),
        ensures
            final(self).wf(),
            final(self).light == *light,
            final(self).eye_position == old(self).eye_position,
    {
        self.light = *light;
    }

    /// Ambient + diffuse + specular, each clamped nonnegative; `None` where a
    /// degenerate denominator or a scalar out of range leaves the fragment
    /// unshaded.
    pub fn shade(&self, triangle: &Triangle, barycenter: &(Rat, Rat, Rat)) -> (c: Option<Color>)
        requires
            self.wf(),
            triangle.wf(),
            barycenter.0.wf(),
            barycenter.1.wf(),
            barycenter.2.wf(),
        ensures
            c matches Some(v) ==> v.a == 255,
    {
        let material = match &triangle.material {
            Some(MaterialNew::Phong(m)) => Some(*m),
            _ => None,
        };
        let kd: Vector3 = match &self.texture {
            Some(texture) => {
                let (u, v) = interpolate_uv(triangle, barycenter)?;
                let c = texture.get(&u, &v);
                let s255 = Rat::from_int(255);
                Vector3 {
                    x: Rat::from_int(c.r as i64).div(&s255)?,
                    y: Rat::from_int(c.g as i64).div(&s255)?,
                    z: Rat::from_int(c.b as i64).div(&s255)?,
                }
            },
            None => match &material {
                Some(m) => m.diffuse_color,
                None => {
                    let h = Rat::new(1, 2);
                    Vector3 { x: h, y: h, z: h }
                },
            },
        };
        let ka: Vector3 = match &material {
            Some(m) => m.ambient_color,
            None => {
                let o = Rat::one();
                Vector3 { x: o, y: o, z: o }
            },
        };
        let ks: Vector3 = match &material {
            Some(m) => m.specular_color,
            None => {
                let e = Rat::new(4, 5);
                Vector3 { x: e, y: e, z: e }
            },
        };
        let position = ({
            let p4 = crate::model::interpolate_vec4(
                &triangle.vertexs[0].world_position,
                &triangle.vertexs[1].world_position,
                &triangle.vertexs[2].world_position,
                &barycenter.0,
                &barycenter.1,
                &barycenter.2,
            )?;
            Vector3::from_vector4(&p4)
        });
        let normal = match (&triangle.vertexs[0].normal, &triangle.vertexs[1].normal,
        &triangle.vertexs[2].normal) {
            (Some(n0), Some(n1), Some(n2)) => {
                let n4 = crate::model::interpolate_vec4(
                    n0,
                    n1,
                    n2,
                    &barycenter.0,
                    &barycenter.1,
                    &barycenter.2,
                )?;
                Vector3::from_vector4(&n4)
            },
            _ => {
                return None;
            },
        };
        let n = crate::vec::normalized_approx(&normal)?;
        let to_light = self.light.position.sub(&position)?;
        let l = crate::vec::normalized_approx(&to_light)?;
        let v = crate::vec::normalized_approx(&self.eye_position.sub(&position)?)?;
        let h = crate::vec::normalized_approx(&l.add(&v)?)?;
        let r2 = to_light.dot(&to_light)?;
        if r2.is_zero() {
            return None;
        }
        let falloff = self.light.intensity.div(&r2)?;
        let ambient_intensity = Rat::new(1, 5);
        let ambient = ka.scale(&ambient_intensity)?;
        let diffuse = kd.scale(&falloff.mul(&n.dot(&l)?.max0())?)?;
        let specular = ks.scale(&falloff.mul(&pow_nat(&n.dot(&h)?.max0(), 150)?)?)?;
        let color = ambient.add(&diffuse)?.add(&specular)?.clamp0();
        Some(Color::from_unit_rgb(&color))
    }
}

/// `x^e` by repeated multiplication.
pub fn pow_nat(x: &Rat, e: usize) -> (r: Option<Rat>)
    requires
        x.wf(),
    ensures
        r matches Some(v) ==> v.wf(),
{
    let mut acc = Rat::one();
    let mut k: usize = 0;
    while k < e
        invariant
            x.wf(),
            acc.wf(),
        decreases e - k,
    {
        acc = match acc.mul(x) {
            Some(v) => v,
            None => {
                return None;
            },
        };
        k += 1;
    }
    Some(acc)
}

/// The checked barycentric mix `x0*a + x1*b + x2*c` of one scalar attribute.
pub open spec fn ch_mix(x0: Q, x1: Q, x2: Q, a: Q, b: Q, c: Q) -> Option<Q> {
    match (ch_mul(x0, a), ch_mul(x1, b), ch_mul(x2, c)) {
        (Some(m0), Some(m1), Some(m2)) => match ch_add(m0, m1) {
            Some(s) => ch_add(s, m2),
            None => None,
        },
        _ => None,
    }
}

/// The checked texture coordinates of a fragment: the barycentric mix of
/// the vertices' coordinates, present on all three vertices.
pub open spec fn ch_uv(t: Triangle, a: Q, b: Q, c: Q) -> Option<(Q, Q)> {
    match (t.vertexs@[0].texture_coordinate, t.vertexs@[1].texture_coordinate,
    t.vertexs@[2].texture_coordinate) {
        (Some(t0), Some(t1), Some(t2)) => match (ch_mix(t0.0@, t1.0@, t2.0@, a, b, c), ch_mix(
            t0.1@,
            t1.1@,
            t2.1@,
            a,
            b,
            c,
        )) {
            (Some(u), Some(v)) => Some((u, v)),
            _ => None,
        },
        _ => None,
    }
}

/// Interpolate the texture coordinates of a fragment, exactly `ch_uv`.
pub fn interpolate_uv(triangle: &Triangle, barycenter: &(Rat, Rat, Rat)) -> (r: Option<(Rat, Rat)>)
    requires
        triangle.wf(),
        barycenter.0.wf(),
        barycenter.1.wf(),
        barycenter.2.wf(),
    ensures
        (r is Some) == (ch_uv(*triangle, barycenter.0@, barycenter.1@, barycenter.2@) is Some),
        r matches Some(t) ==> t.0.wf() && t.1.wf() && ({
            let e = ch_uv(*triangle, barycenter.0@, barycenter.1@, barycenter.2@)->Some_0;
            t.0@ == e.0 && t.1@ == e.1
        }),
{
    let (u0, v0) = match &triangle.vertexs[0].texture_coordinate {
        Some(t) => *t,
        None => {
            return None;
        },
    };
    let (u1, v1) = match &triangle.vertexs[1].texture_coordinate {
        Some(t) => *t,
        None => {
            return None;
        },
    };
    let (u2, v2) = match &triangle.vertexs[2].texture_coordinate {
        Some(t) => *t,
        None => {
            return None;
        },
    };
    let u = u0.mul(&barycenter.0)?.add(&u1.mul(&barycenter.1)?)?.add(&u2.mul(&barycenter.2)?)?;
    let v = v0.mul(&barycenter.0)?.add(&v1.mul(&barycenter.1)?)?.add(&v2.mul(&barycenter.2)?)?;
    Some((u, v))
}

/// The closed set of fragment shaders; dispatch is a branch on a small enum.
pub enum FragmentShader {
    Z(ZShader),
    Color(ColorShader),
    Texture(Texture),
    Phong(PhongShader),
}

impl FragmentShader {
    pub open spec fn wf(&self) -> bool {
        match self {
            FragmentShader::Z(_) => true,
            FragmentShader::Color(_) => true,
            FragmentShader::Texture(t) => t.wf(),
            FragmentShader::Phong(p) => p.wf(),
        }
    }

    /// Shade one fragment; `None` leaves the pixel unwritten.  Each variant
    /// of the dispatch is pinned: the depth shader's gray level, the color
    /// shader's channels, and the texture shader's texel are stated exactly;
    /// the Blinn-Phong variant is stated by its own contract.
    pub fn shade(
        &self,
        model: &TriangulatedModel,
        triangle: &Triangle,
        barycenter: &(Rat, Rat, Rat),
        z: &Rat,
    ) -> (c: Option<Color>)
        requires
            self.wf(),
            model.wf(),
            triangle.wf(),
            barycenter.0.wf(),
            barycenter.1.wf(),
            barycenter.2.wf(),
            z.wf(),
        ensures
            ({
                match self {
                    FragmentShader::Z(_) => (c is Some) == (ch_zshade(z@) is Some) && (c matches
                        Some(v) ==> ({
                        let g = ch_zshade(z@)->Some_0;
                        v.a == 255 && v.r == spec_channel(g) && v.g == spec_channel(g) && v.b
                            == spec_channel(g)
                    })),
                    FragmentShader::Color(_) => c matches Some(v) && v.a == 255 && (model.material
                        matches Some(MaterialNew::Phong(m)) ==> v.r == spec_channel(
                        q_max0(m.diffuse_color@.x),
                    ) && v.g == spec_channel(q_max0(m.diffuse_color@.y)) && v.b == spec_channel(
                        q_max0(m.diffuse_color@.z),
                    )) && (!(model.material matches Some(m) && m is Phong) ==> v == (Color {
                        r: DEFAULT_GRAY,
                        g: DEFAULT_GRAY,
                        b: DEFAULT_GRAY,
                        a: 255u8,
                    })),
                    FragmentShader::Texture(t) => (match ch_uv(
                        *triangle,
                        barycenter.0@,
                        barycenter.1@,
                        barycenter.2@,
                    ) {
                        Some(uv) => c matches Some(col) && col == t.texels@[(t.height - 1
                            - spec_tex_coord(uv.1, t.height as int - 1)) * t.width
                            + spec_tex_coord(uv.0, t.width as int - 1)],
                        None => c is None,
                    }),
                    FragmentShader::Phong(_) => c matches Some(v) ==> v.a == 255,
                }
            }),
    {
        match self {
            FragmentShader::Z(_) => ZShader::shade(z),
            FragmentShader::Color(_) => Some(ColorShader::shade(model)),
            FragmentShader::Texture(t) => {
                let (u, v) = interpolate_uv(triangle, barycenter)?;
                Some(t.get(&u, &v))
            },
            FragmentShader::Phong(p) => p.shade(triangle, barycenter),
        }
    }
}

/// The per-pixel buffers the legacy whole-buffer shaders consume.
pub struct FragmentBuffer {
    pub width: usize,
    pub height: usize,
    pub z_buffer: Vec<Rat>,
    pub barycenter_buffer: Vec<Option<(Rat, Rat, Rat)>>,
}

impl FragmentBuffer {
    pub open spec fn wf(&self) -> bool {
        &&& forall|k: int| 0 <= k < self.z_buffer@.len() ==> (#[trigger] self.z_buffer@[k]).wf()
        &&& forall|k: int|
            0 <= k < self.barycenter_buffer@.len() ==> ((#[trigger] self.barycenter_buffer@[k])
                matches Some(b) ==> (b.0.wf() && b.1.wf() && b.2.wf()))
    }
}

/// The legacy whole-buffer shader interface.
pub trait Shader {
    /// Produce one color per fragment of the buffer.
    fn shade(fragments: &FragmentBuffer) -> (r: Vec<Color>)
        requires
            fragments.wf(),
    ;
}

/// Shades each fragment by its depth.
pub struct DepthShader;

impl Shader for DepthShader {
    fn shade(fragments: &FragmentBuffer) -> (r: Vec<Color>) {
        let mut out: Vec<Color> = Vec::new();
        let mut k: usize = 0;
        while k < fragments.z_buffer.len()
            invariant
                fragments.wf(),
                k <= fragments.z_buffer@.len(),
            decreases fragments.z_buffer@.len() - k,
        {
            let z = fragments.z_buffer[k];
            let c = ({
                let shifted = z.add(&Rat::new(3, 10));
                match shifted {
                    Some(v) => {
                        let unit = v.max0();
                        let tri = Vector3 { x: unit, y: unit, z: unit };
                        let base = Color::from_unit_rgb(&tri);
                        Color::rgba(base.r, base.g, base.b, 100)
                    },
                    None => Color::rgba(255, 255, 255, 100),
                }
            });
            out.push(c);
            k += 1;
        }
        out
    }
}

/// Shades each covered fragment by blending three fixed colors with its
/// barycentric weights; uncovered fragments stay white.
pub struct VertexShader;

impl Shader for VertexShader {
    fn shade(fragments: &FragmentBuffer) -> (r: Vec<Color>) {
        let c1 = Color::rgba(255, 102, 153, 100);
        let c2 = Color::rgba(103, 153, 255, 100);
        let c3 = Color::rgba(153, 255, 102, 100);
        let white = Color::rgba(255, 255, 255, 100);
        let mut out: Vec<Color> = Vec::new();
        let mut k: usize = 0;
        while k < fragments.barycenter_buffer.len()
            invariant
                fragments.wf(),
                k <= fragments.barycenter_buffer@.len(),
            decreases fragments.barycenter_buffer@.len() - k,
        {
            let c = match &fragments.barycenter_buffer[k] {
                Some(b) => match blend_color(&c1, &b.0, &c2, &b.1, &c3, &b.2) {
                    Some(c) => c,
                    None => white,
                },
                None => white,
            };
            out.push(c);
            k += 1;
        }
        out
    }
}

/// The catalogue of legacy whole-buffer shaders.
#[derive(Debug, Clone, Copy, PartialEq, Eq, Structural)]
pub enum ShaderKind {
    Depth,
    Vertex,
}

/// Every legacy shader, in a fixed order.
pub fn all_shaders() -> (r: Vec<ShaderKind>)
    ensures
        r@.len() == 2,
        r@[0] == ShaderKind::Depth,
        r@[1] == ShaderKind::Vertex,
{
    let mut v: Vec<ShaderKind> = Vec::new();
    v.push(ShaderKind::Depth);
    v.push(ShaderKind::Vertex);
    v
}

/// Run one legacy shader over a fragment buffer.
pub fn shade_with(kind: ShaderKind, fragments: &FragmentBuffer) -> (r: Vec<Color>)
    requires
        fragments.wf(),
{
    match kind {
        ShaderKind::Depth => DepthShader::shade(fragments),
        ShaderKind::Vertex => VertexShader::shade(fragments),
    }
}

/// Blend three colors with the given weights, rounding toward zero.
pub fn blend_color(
    c1: &Color,
    p1: &Rat,
    c2: &Color,
    p2: &Rat,
    c3: &Color,
    p3: &Rat,
) -> (r: Option<Color>)
    requires
        p1.wf(),
        p2.wf(),
        p3.wf(),
    ensures
        r matches Some(c) ==> c.a == 100,
{
    let r = blend_channel(c1.r, p1, c2.r, p2, c3.r, p3)?;
    let g = blend_channel(c1.g, p1, c2.g, p2, c3.g, p3)?;
    let b = blend_channel(c1.b, p1, c2.b, p2, c3.b, p3)?;
    Some(Color::rgba(r, g, b, 100))
}

/// One blended channel, clamped into the byte range.
fn blend_channel(a: u8, p1: &Rat, b: u8, p2: &Rat, c: u8, p3: &Rat) -> (r: Option<u8>)
    requires
        p1.wf(),
        p2.wf(),
        p3.wf(),
{
    let va = Rat::from_int(a as i64).mul(p1)?;
    let vb = Rat::from_int(b as i64).mul(p2)?;
    let vc = Rat::from_int(c as i64).mul(p3)?;
    let sum = va.add(&vb)?.add(&vc)?.max0();
    let byte = Color::channel_from_unit(&sum.div(&Rat::from_int(255))?.max0());
    Some(byte)
}

} // verus!
