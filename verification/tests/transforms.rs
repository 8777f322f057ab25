use tiny_renderer::matrix::Matrix;
use tiny_renderer::rat::Rat;
use tiny_renderer::transform::{Camera, Modeling, Transformation};
use tiny_renderer::vec::{vector3, vector4, Vector4};

fn r(n: i64) -> Rat {
    Rat::from_int(n)
}

fn point(x: i64, y: i64, z: i64) -> Vector4 {
    vector4(r(x), r(y), r(z), r(1))
}

fn assert_v4(v: &Vector4, x: i64, y: i64, z: i64, w: i64) {
    assert!(v.x.eq_rat(&r(x)));
    assert!(v.y.eq_rat(&r(y)));
    assert!(v.z.eq_rat(&r(z)));
    assert!(v.w.eq_rat(&r(w)));
}

fn apply(m: &Matrix, v: &Vector4) -> Vector4 {
    m.apply4(v).expect("small integers")
}

/// The look-at matrix carries the cube's corner (1, 1, -1) into view space:
/// translated by the eye to (0, 0, -2), then flipped onto the +z axis.
#[test]
fn view_transformation() {
    let camera = Camera::new()
        .up_direct(vector3(r(0), r(1), r(0)))
        .gaze_direct(vector3(r(0), r(0), r(1)))
        .eye_position(vector3(r(1), r(1), r(1)));
    let view = Transformation::view_matrix(&camera).expect("view matrix");
    let out = apply(&view, &point(1, 1, -1));
    assert_v4(&out, 0, 0, 2, 1);
}

/// Translate, scale, then rotate a quarter turn about x:
/// (1, 1, -1) -> (2, 2, 0) -> (1, 4, 0) -> (1, 0, 4).
#[test]
fn modeling_transformation() {
    let modeling = Modeling::new()
        .translate(r(1), r(1), r(1))
        .expect("small integers")
        .scale(Rat::new(1, 2), r(2), r(1))
        .expect("small integers")
        .rotate_around_x(r(0), r(1))
        .expect("small integers");
    let m = Transformation::modeling_matrix(modeling);
    let out = apply(&m, &point(1, 1, -1));
    assert_v4(&out, 1, 0, 4, 1);
}

#[test]
fn world_translate() {
    let m = Transformation::translation_matrix(r(-1), r(-1), r(1));
    let out = apply(&m, &point(1, 1, -1));
    assert_v4(&out, 0, 0, 0, 1);
}

#[test]
fn world_scale() {
    let m = Transformation::scale_matrix(r(1), Rat::new(1, 2), r(2));
    let out = apply(&m, &point(1, 1, -1));
    assert!(out.x.eq_rat(&r(1)));
    assert!(out.y.eq_rat(&Rat::new(1, 2)));
    assert!(out.z.eq_rat(&r(-2)));
    assert!(out.w.eq_rat(&r(1)));
}

/// A quarter turn about x, with exact cosine 0 and sine 1.
#[test]
fn world_rotate_around_x() {
    let m = Transformation::rotate_around_x_matrix(r(0), r(1));
    let out = apply(&m, &point(1, 1, -1));
    assert_v4(&out, 1, 1, 1, 1);
}

#[test]
fn world_rotate_around_y() {
    let m = Transformation::rotate_around_y_matrix(r(0), r(1));
    let out = apply(&m, &point(1, 1, -1));
    assert_v4(&out, -1, 1, -1, 1);
}

#[test]
fn world_rotate_around_z() {
    let m = Transformation::rotate_around_z_matrix(r(0), r(1));
    let out = apply(&m, &point(1, 1, -1));
    assert_v4(&out, -1, 1, -1, 1);
}
