use tiny_renderer::clip::{clip_plane, Plane};
use tiny_renderer::model::{EmissiveMaterial, MaterialNew, PBRMaterial, Triangle, TriangulatedModel, Vertex};
use tiny_renderer::pathtrace::RayTracer;
use tiny_renderer::raster::{
    barycentric_2d, inside_triangle_by_barycenter, perspective_correct, zbuffer_update, ZBufferItem,
};
use tiny_renderer::rat::Rat;
use tiny_renderer::ray::Ray;
use tiny_renderer::vec::{vector3, vector4, Vector3};

fn r(n: i64) -> Rat {
    Rat::from_int(n)
}

fn ratio(n: i64, d: i64) -> Rat {
    Rat::new(n, d)
}

fn clip_vertex(x: Rat, y: Rat, z: Rat, w: Rat) -> Vertex {
    Vertex::from_position(vector4(x, y, z, w))
}

fn screen_vertex(x: i64, y: i64, z: (i64, i64), w: i64) -> Vertex {
    let mut v = Vertex::from_position(vector4(r(x), r(y), ratio(z.0, z.1), r(w)));
    v.w_reciprocal = Some(Rat::one().div(&r(w)).unwrap());
    v
}

/// Clipping a triangle that is already fully inside a plane returns the
/// same three vertices unchanged.
#[test]
fn clip_plane_idempotent_when_inside() {
    // Points in front of the eye have positive w; all three vertices are
    // inside the Left half-space (x >= -w).
    let vs = vec![
        clip_vertex(r(0), r(0), r(0), r(2)),
        clip_vertex(r(1), r(0), r(0), r(2)),
        clip_vertex(r(0), r(1), r(0), r(2)),
    ];
    let out = clip_plane(Plane::Left, vs.clone()).expect("exact clip");
    assert_eq!(out.len(), 3);
    for (a, b) in out.iter().zip(vs.iter()) {
        assert!(a.position.x.eq_rat(&b.position.x));
        assert!(a.position.y.eq_rat(&b.position.y));
        assert!(a.position.z.eq_rat(&b.position.z));
        assert!(a.position.w.eq_rat(&b.position.w));
    }
}

/// Clipping a triangle that straddles a plane yields vertices that are all
/// inside or exactly on that plane's boundary, and re-clipping that output
/// against the same plane is a no-op.
#[test]
fn clip_plane_conservative() {
    // w = 2 everywhere; inside Left means x >= -w = -2, so x = -4 is
    // outside and the other two vertices are inside.
    let vs = vec![
        clip_vertex(r(-4), r(0), r(0), r(2)),
        clip_vertex(r(0), r(0), r(0), r(2)),
        clip_vertex(r(0), r(2), r(0), r(2)),
    ];
    let out = clip_plane(Plane::Left, vs).expect("exact clip");
    assert!(out.len() >= 3);
    for v in out.iter() {
        // inside or exactly on: x >= -w
        assert!(v.position.w.neg().le(&v.position.x));
    }
    // Re-clipping the clipped polygon changes nothing.
    let again = clip_plane(Plane::Left, out.clone()).expect("exact clip");
    assert_eq!(again.len(), out.len());
    for (a, b) in again.iter().zip(out.iter()) {
        assert!(a.position.x.eq_rat(&b.position.x));
        assert!(a.position.y.eq_rat(&b.position.y));
        assert!(a.position.z.eq_rat(&b.position.z));
        assert!(a.position.w.eq_rat(&b.position.w));
    }
}

/// The barycentric weights of a covered pixel are nonnegative and sum to
/// exactly one.
#[test]
fn barycentric_partition_of_unity() {
    let t = Triangle::new(
        clip_vertex(r(0), r(0), r(0), r(1)),
        clip_vertex(r(4), r(0), r(0), r(1)),
        clip_vertex(r(0), r(4), r(0), r(1)),
        None,
    );
    let b = barycentric_2d(&ratio(3, 2), &ratio(1, 2), &t).expect("nondegenerate");
    assert!(inside_triangle_by_barycenter(&b));
    let sum = b.0.add(&b.1).unwrap().add(&b.2).unwrap();
    assert!(sum.eq_rat(&Rat::one()));
}

/// Evaluating the barycentric weights at each vertex's exact position gives
/// that vertex weight one and the others zero, so interpolating any
/// attribute there returns the vertex's own value; the perspective
/// correction fixes such unit weights.
#[test]
fn perspective_interpolation_round_trip() {
    let t = Triangle::new(
        screen_vertex(0, 0, (0, 1), 2),
        screen_vertex(4, 0, (0, 1), 2),
        screen_vertex(0, 4, (0, 1), 2),
        None,
    );
    let b0 = barycentric_2d(&r(0), &r(0), &t).expect("vertex 0");
    assert!(b0.0.eq_rat(&Rat::one()) && b0.1.is_zero() && b0.2.is_zero());
    let b1 = barycentric_2d(&r(4), &r(0), &t).expect("vertex 1");
    assert!(b1.1.eq_rat(&Rat::one()) && b1.0.is_zero() && b1.2.is_zero());
    let b2 = barycentric_2d(&r(0), &r(4), &t).expect("vertex 2");
    assert!(b2.2.eq_rat(&Rat::one()) && b2.0.is_zero() && b2.1.is_zero());
    // Perspective correction keeps a unit weight a unit weight.
    let c0 = perspective_correct(&t, &b0).expect("unit weights");
    assert!(c0.0.eq_rat(&Rat::one()) && c0.1.is_zero() && c0.2.is_zero());
    // Interpolating the position at vertex 1's weights returns vertex 1.
    let p = tiny_renderer::model::interpolate_vec4(
        &t.vertexs[0].position,
        &t.vertexs[1].position,
        &t.vertexs[2].position,
        &b1.0,
        &b1.1,
        &b1.2,
    )
    .unwrap();
    assert!(p.x.eq_rat(&t.vertexs[1].position.x));
    assert!(p.y.eq_rat(&t.vertexs[1].position.y));
}

/// The z-buffer stores the nearer of two overlapping fragments whichever
/// order they arrive in.
#[test]
fn zbuffer_nearest_wins() {
    let near = ZBufferItem {
        z: ratio(1, 2),
        model_index: 0,
        triangle_index: 0,
        barycenter: (Rat::one(), Rat::zero(), Rat::zero()),
    };
    let far = ZBufferItem {
        z: r(2),
        model_index: 1,
        triangle_index: 1,
        barycenter: (Rat::one(), Rat::zero(), Rat::zero()),
    };
    let mut buf_a: Vec<Option<ZBufferItem>> = vec![None];
    zbuffer_update(&mut buf_a, 0, near);
    zbuffer_update(&mut buf_a, 0, far);
    let mut buf_b: Vec<Option<ZBufferItem>> = vec![None];
    zbuffer_update(&mut buf_b, 0, far);
    zbuffer_update(&mut buf_b, 0, near);
    let za = buf_a[0].as_ref().unwrap().z;
    let zb = buf_b[0].as_ref().unwrap().z;
    assert!(za.eq_rat(&ratio(1, 2)));
    assert!(zb.eq_rat(&ratio(1, 2)));
    assert_eq!(buf_a[0].as_ref().unwrap().model_index, 0);
    assert_eq!(buf_b[0].as_ref().unwrap().model_index, 0);
}

fn pbr_material() -> MaterialNew {
    let half = ratio(1, 2);
    MaterialNew::PBR(PBRMaterial {
        albedo: vector3(half, half, half),
        metalness: ratio(1, 10),
        roughness: ratio(1, 2),
        refraction: ratio(3, 2),
        f0: vector3(ratio(1, 25), ratio(1, 25), ratio(1, 25)),
    })
}

fn lit_scene() -> Vec<TriangulatedModel> {
    let mk = |p0: (i64, i64, i64), p1: (i64, i64, i64), p2: (i64, i64, i64), m: Option<MaterialNew>| {
        let mut v0 = Vertex::from_position(vector4(r(p0.0), r(p0.1), r(p0.2), r(1)));
        let mut v1 = Vertex::from_position(vector4(r(p1.0), r(p1.1), r(p1.2), r(1)));
        let mut v2 = Vertex::from_position(vector4(r(p2.0), r(p2.1), r(p2.2), r(1)));
        let up = vector4(r(0), r(0), r(1), r(0));
        v0.normal = Some(up);
        v1.normal = Some(up);
        v2.normal = Some(up);
        Triangle::new(v0, v1, v2, m)
    };
    let floor_mat = Some(pbr_material());
    let mut floor = mk((0, 0, 0), (8, 0, 0), (0, 8, 0), floor_mat);
    floor.calc_area();
    let emissive = Some(MaterialNew::Emissive(EmissiveMaterial {
        base_color: vector3(Rat::one(), Rat::one(), Rat::one()),
        intensity: r(5),
    }));
    let mut lamp = mk((1, 1, 6), (3, 1, 6), (1, 3, 6), emissive);
    lamp.calc_area();
    let lamp_area = lamp.area;
    let floor_area = floor.area;
    vec![
        TriangulatedModel { triangles: vec![floor], material: floor_mat_copy(), area: floor_area },
        TriangulatedModel {
            triangles: vec![lamp],
            material: Some(MaterialNew::Emissive(EmissiveMaterial {
                base_color: vector3(Rat::one(), Rat::one(), Rat::one()),
                intensity: r(5),
            })),
            area: lamp_area,
        },
    ]
}

fn floor_mat_copy() -> Option<MaterialNew> {
    Some(pbr_material())
}

/// Path-traced radiance is never negative, over many pixels and samples.
#[test]
fn shade_radiance_nonnegative() {
    let models = lit_scene();
    let mut triangles: Vec<Triangle> = Vec::new();
    for m in models.iter() {
        for t in m.triangles.iter() {
            triangles.push(*t);
        }
    }
    let tracer = RayTracer::new(16, 16, triangles, models, 1);
    let zero = Rat::zero();
    for x in 0..16usize {
        for y in 0..16usize {
            if let Some(ray) = tracer.pixel_to_ray(x, y) {
                let c = tracer.shade(&ray, 0);
                assert!(zero.le(&c.x));
                assert!(zero.le(&c.y));
                assert!(zero.le(&c.z));
            }
        }
    }
}

/// A ray fired straight at the emissive scene directly from above sees the
/// emitter as white at depth zero.
#[test]
fn primary_ray_sees_emitter() {
    let models = lit_scene();
    let mut triangles: Vec<Triangle> = Vec::new();
    for m in models.iter() {
        for t in m.triangles.iter() {
            triangles.push(*t);
        }
    }
    let tracer = RayTracer::new(16, 16, triangles, models, 1);
    let origin = vector3(ratio(3, 2), ratio(3, 2), r(10));
    let ray = Ray::new(&origin, &vector3(r(0), r(0), r(-1)));
    let c = tracer.shade(&ray, 0);
    assert!(c.x.eq_rat(&Rat::one()));
    assert!(c.y.eq_rat(&Rat::one()));
    assert!(c.z.eq_rat(&Rat::one()));
}
