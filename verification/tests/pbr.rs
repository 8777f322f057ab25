use tiny_renderer::bvh::{nearest_in_triangles, node_nearest, BVHTree};
use tiny_renderer::model::{Triangle, Vertex};
use tiny_renderer::rat::Rat;
use tiny_renderer::ray::Ray;
use tiny_renderer::vec::{vector3, vector4, Vector3, Vector4};
use tiny_renderer::Color;

fn r(n: i64) -> Rat {
    Rat::from_int(n)
}

fn ratio(n: i64, d: i64) -> Rat {
    Rat::new(n, d)
}

fn point(x: Rat, y: Rat, z: Rat) -> Vertex {
    Vertex::from_position(vector4(x, y, z, Rat::from_int(1)))
}

fn tri(p0: (i64, i64, i64), p1: (i64, i64, i64), p2: (i64, i64, i64)) -> Triangle {
    Triangle::new(
        point(r(p0.0), r(p0.1), r(p0.2)),
        point(r(p1.0), r(p1.1), r(p1.2)),
        point(r(p2.0), r(p2.1), r(p2.2)),
        None,
    )
}

#[test]
pub fn color() {
    let v = vector3(ratio(9, 5), ratio(3, 2), ratio(3, 2));
    let c = Color::from_unit_rgb(&v);
    println!("{:?}", c);
}

/// The ground-truth intersection: the unit right triangle in the `z = 0`
/// plane is hit from `(0.2, 0.2, 1)` straight down at `t = 1`, and missed
/// from `(5, 5, 1)`.
#[test]
fn ray_triangle_ground_truth() {
    let t = tri((0, 0, 0), (1, 0, 0), (0, 1, 0));
    let down = vector3(r(0), r(0), r(-1));
    let ray = Ray::new(&vector3(ratio(1, 5), ratio(1, 5), r(1)), &down);
    let hit = ray.intersect_triangle(&t).expect("the ray must hit");
    assert_eq!(hit.t.num(), 1);
    assert_eq!(hit.t.den(), 1);
    // The weights sum to one exactly.
    let sum = hit
        .b0
        .add(&hit.b1)
        .unwrap()
        .add(&hit.b2)
        .unwrap();
    assert!(sum.eq_rat(&Rat::one()));
    assert!(hit.b0.eq_rat(&ratio(3, 5)));
    assert!(hit.b1.eq_rat(&ratio(1, 5)));
    assert!(hit.b2.eq_rat(&ratio(1, 5)));

    let miss = Ray::new(&vector3(r(5), r(5), r(1)), &down);
    assert!(miss.intersect_triangle(&t).is_none());
}

/// Twenty-one triangles sit just above the leaf threshold of twenty: the
/// root must split once into two nonempty leaves that together hold all of
/// them.
#[test]
fn bvh_median_split() {
    let mut ts: Vec<Triangle> = Vec::new();
    for i in 0..21i64 {
        ts.push(tri((2 * i, 0, 0), (2 * i + 1, 0, 0), (2 * i, 1, 0)));
    }
    let tree = BVHTree::from_triangles(ts).expect("nonempty scene");
    let root = &tree.root;
    assert!(!root.is_leaf());
    let left = root.l.as_ref().expect("left child");
    let right = root.r.as_ref().expect("right child");
    assert!(left.is_leaf());
    assert!(right.is_leaf());
    let ln = left.data.as_ref().unwrap().len();
    let rn = right.data.as_ref().unwrap().len();
    assert!(ln >= 1 && rn >= 1);
    assert_eq!(ln + rn, 21);
}

/// The hierarchy finds the same nearest hit as brute force over the whole
/// set, for a spread of rays.
#[test]
fn bvh_matches_brute_force() {
    let mut ts: Vec<Triangle> = Vec::new();
    // A field of small triangles at varying depths.
    for i in 0..6i64 {
        for j in 0..6i64 {
            let z = -(((i * 7 + j * 3) % 11) + 1);
            ts.push(tri((2 * i, 2 * j, z), (2 * i + 1, 2 * j, z), (2 * i, 2 * j + 1, z)));
        }
    }
    let flat = ts.clone();
    let tree = BVHTree::from_triangles(ts).expect("nonempty scene");
    for sx in 0..6i64 {
        for sy in 0..6i64 {
            let origin = vector3(ratio(6 * sx + 1, 3), ratio(6 * sy + 1, 3), r(5));
            let ray = Ray::new(&origin, &vector3(r(0), r(0), r(-1)));
            let brute = nearest_in_triangles(&flat, &ray);
            let fast = node_nearest(&tree.root, &ray);
            match (brute, fast) {
                (Some(a), Some(b)) => {
                    assert!(a.hit.t.eq_rat(&b.hit.t), "nearest distances must agree");
                },
                (None, None) => {},
                _ => panic!("one query found a hit the other missed"),
            }
        }
    }
}

/// Leaf boxes contain their triangles' vertices and internal boxes contain
/// their children's boxes, checked structurally on a built tree.
#[test]
fn bvh_boxes_contain_contents() {
    let mut ts: Vec<Triangle> = Vec::new();
    for i in 0..30i64 {
        let z = -(i % 5) - 1;
        ts.push(tri((i, i % 4, z), (i + 1, i % 4, z), (i, i % 4 + 1, z)));
    }
    let tree = BVHTree::from_triangles(ts).expect("nonempty scene");
    check_node(&tree.root);
}

fn check_node(node: &tiny_renderer::bvh::BVHNode) {
    match &node.data {
        Some(ts) => {
            assert!(ts.len() >= 1 && ts.len() <= 20);
            for t in ts.iter() {
                for v in t.vertexs.iter() {
                    assert!(node.bounding_box.x0.le(&v.position.x));
                    assert!(v.position.x.le(&node.bounding_box.x1));
                    assert!(node.bounding_box.y0.le(&v.position.y));
                    assert!(v.position.y.le(&node.bounding_box.y1));
                    assert!(node.bounding_box.z0.le(&v.position.z));
                    assert!(v.position.z.le(&node.bounding_box.z1));
                }
            }
        },
        None => {
            let l = node.l.as_ref().unwrap();
            let r = node.r.as_ref().unwrap();
            assert!(node.bounding_box.x0.le(&l.bounding_box.x0));
            assert!(l.bounding_box.x1.le(&node.bounding_box.x1));
            assert!(node.bounding_box.x0.le(&r.bounding_box.x0));
            assert!(r.bounding_box.x1.le(&node.bounding_box.x1));
            check_node(l);
            check_node(r);
        },
    }
}
