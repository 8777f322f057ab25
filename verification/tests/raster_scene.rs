use tiny_renderer::color::{bitmap_from_framebuffer, Color, BACKGROUND_PIXEL};
use tiny_renderer::model::{Triangle, TriangulatedModel, Vertex};
use tiny_renderer::raster::Rasterizer;
use tiny_renderer::rat::Rat;
use tiny_renderer::shade::{FragmentShader, ZShader};
use tiny_renderer::vec::vector4;

fn r(n: i64) -> Rat {
    Rat::from_int(n)
}

fn face_vertex(x: i64, y: i64, z: i64) -> Vertex {
    let mut v = Vertex::from_position(vector4(r(x), r(y), r(z), r(1)));
    // The face is planar: every vertex carries the same +z normal.
    v.normal = Some(vector4(r(0), r(0), r(1), r(0)));
    v.w_reciprocal = Some(Rat::one());
    v
}

/// The front face of a cube, seen from far on the `+z` axis with an
/// orthographic-equivalent setup: every covered fragment of the face reports
/// exactly the same interpolated normal, because the face is planar and all
/// its vertex normals agree.
#[test]
fn cube_face_fragments_share_normal() {
    // The face spans pixels [2, 10) x [2, 10) at depth z = 1.
    let t0 = Triangle::new(
        face_vertex(2, 2, 1),
        face_vertex(10, 2, 1),
        face_vertex(10, 10, 1),
        None,
    );
    let t1 = Triangle::new(
        face_vertex(2, 2, 1),
        face_vertex(10, 10, 1),
        face_vertex(2, 10, 1),
        None,
    );
    let model = TriangulatedModel {
        triangles: vec![t0, t1],
        material: None,
        area: Rat::zero(),
    };
    let raster = Rasterizer::new(12, 12, vec![model]);
    let mut covered = 0usize;
    for item in raster.z_buffer.iter() {
        if let Some(item) = item {
            covered += 1;
            let t = &raster.models[item.model_index].triangles[item.triangle_index];
            let n = tiny_renderer::model::interpolate_vec4(
                t.vertexs[0].normal.as_ref().unwrap(),
                t.vertexs[1].normal.as_ref().unwrap(),
                t.vertexs[2].normal.as_ref().unwrap(),
                &item.barycenter.0,
                &item.barycenter.1,
                &item.barycenter.2,
            )
            .unwrap();
            // The interpolated normal is exactly the shared one.
            assert!(n.x.is_zero());
            assert!(n.y.is_zero());
            assert!(n.z.eq_rat(&Rat::one()));
            assert!(n.w.is_zero());
        }
    }
    // The interior of the face is genuinely covered.
    assert!(covered >= 36);
}

/// The depth shader produces a frame the size of the buffer, and packing it
/// flips rows and fills uncovered pixels with the background.
#[test]
fn rasterize_and_pack() {
    let t0 = Triangle::new(
        face_vertex(0, 0, 1),
        face_vertex(3, 0, 1),
        face_vertex(0, 3, 1),
        None,
    );
    let model = TriangulatedModel {
        triangles: vec![t0],
        material: None,
        area: Rat::zero(),
    };
    let raster = Rasterizer::new(4, 4, vec![model]);
    let frame = raster.rasterize(&FragmentShader::Z(ZShader {}));
    assert_eq!(frame.len(), 16);
    let bitmap = bitmap_from_framebuffer(&frame, 4, 4);
    assert_eq!(bitmap.len(), 16);
    for y in 0..4usize {
        for x in 0..4usize {
            let flipped = bitmap[(3 - y) * 4 + x];
            match &frame[y * 4 + x] {
                Some(c) => {
                    let packed = (c.a as u32) << 24 | (c.r as u32) << 16 | (c.g as u32) << 8
                        | c.b as u32;
                    assert_eq!(flipped, packed);
                },
                None => assert_eq!(flipped, BACKGROUND_PIXEL),
            }
        }
    }
}

/// Saturating color channels: components above one clamp to 255.
#[test]
fn color_saturates() {
    let v = tiny_renderer::vec::vector3(Rat::new(9, 5), Rat::new(1, 2), Rat::from_int(3));
    let c = Color::from_unit_rgb(&v);
    assert_eq!(c.r, 255);
    assert_eq!(c.g, 127);
    assert_eq!(c.b, 255);
    assert_eq!(c.a, 255);
}

/// Channelwise color addition under the byte bound.
#[test]
fn color_add_channels() {
    let mut a = Color::rgba(10, 20, 30, 77);
    let b = Color::rgb(1, 2, 3);
    a.add(&b);
    assert_eq!((a.r, a.g, a.b, a.a), (11, 22, 33, 77));
}
