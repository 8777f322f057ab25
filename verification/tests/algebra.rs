use tiny_renderer::matrix::Matrix;
use tiny_renderer::rat::Rat;

fn mat2(vals: [i64; 4]) -> Matrix {
    let v = vals.iter().map(|&n| Rat::from_int(n)).collect();
    Matrix::from_values(2, 2, v)
}

fn col3(vals: [i64; 3]) -> Matrix {
    let v = vals.iter().map(|&n| Rat::from_int(n)).collect();
    Matrix::from_values(3, 1, v)
}

#[test]
fn matrix_index() {
    let m = mat2([1, 2, 3, 4]);
    assert_eq!(m.at(0, 0).num(), 1);
    assert_eq!(m.at(0, 0).den(), 1);
    assert_eq!(m.at(1, 1).num(), 4);
    assert_eq!(m.at(1, 1).den(), 1);
}

#[test]
fn matrix_index_out_of_range() {
    let m = mat2([1, 2, 3, 4]);
    assert!(m.get(1, 2).is_none());
    assert!(m.get(2, 0).is_none());
    assert!(m.get(1, 1).is_some());
}

#[test]
fn matrix_add() {
    let m1 = mat2([1, 2, 3, 4]);
    let m2 = mat2([4, 3, 2, 1]);
    let sum = m1.add(&m2).unwrap();
    assert!(mat2([5, 5, 5, 5]).eq_matrix(&sum));
}

#[test]
fn matrix_sub() {
    let m1 = mat2([1, 2, 3, 4]);
    let m2 = mat2([4, 3, 2, 1]);
    let diff = m1.sub(&m2).unwrap();
    assert!(mat2([-3, -1, 1, 3]).eq_matrix(&diff));
}

#[test]
fn matrix_mul() {
    let m1 = mat2([1, 2, 3, 4]);
    let m2 = mat2([4, 3, 2, 1]);
    let prod = m1.mul(&m2).unwrap();
    assert!(mat2([8, 5, 20, 13]).eq_matrix(&prod));
}

#[test]
fn matrix_transpose() {
    let m1 = col3([1, 2, 3]);
    let t = m1.transpose();
    assert_eq!(t.rows(), 1);
    assert_eq!(t.cols(), 3);
    let v = vec![
        Rat::from_int(1),
        Rat::from_int(2),
        Rat::from_int(3),
    ];
    let row3 = Matrix::from_values(1, 3, v);
    assert!(row3.eq_matrix(&t));
}

#[test]
fn matrix_unit_is_identity() {
    let id = Matrix::unit(3);
    let m = Matrix::from_values(
        3,
        3,
        (1..=9).map(Rat::from_int).collect(),
    );
    let prod = id.mul(&m).unwrap();
    assert!(prod.eq_matrix(&m));
    let prod2 = m.mul(&id).unwrap();
    assert!(prod2.eq_matrix(&m));
}

#[test]
fn vector_dot() {
    let v1 = tiny_renderer::vec::vector4(
        Rat::from_int(1),
        Rat::from_int(2),
        Rat::from_int(3),
        Rat::from_int(4),
    );
    let v2 = tiny_renderer::vec::vector4(
        Rat::from_int(4),
        Rat::from_int(3),
        Rat::from_int(2),
        Rat::from_int(1),
    );
    let d = v1.dot(&v2).expect("small integers");
    assert!(d.eq_rat(&Rat::from_int(20)));
}

#[test]
fn vector_cross() {
    let v1 = tiny_renderer::vec::vector3(Rat::from_int(1), Rat::from_int(2), Rat::from_int(3));
    let v2 = tiny_renderer::vec::vector3(Rat::from_int(0), Rat::from_int(1), Rat::from_int(2));
    let c = v1.cross(&v2).expect("small integers");
    assert!(c.x.eq_rat(&Rat::from_int(1)));
    assert!(c.y.eq_rat(&Rat::from_int(-2)));
    assert!(c.z.eq_rat(&Rat::from_int(1)));
}

#[test]
fn matrix_dot() {
    let m1 = mat2([1, 2, 3, 4]);
    let m2 = mat2([4, 3, 2, 1]);
    let mut sum = Rat::from_int(0);
    for i in 0..2 {
        for j in 0..2 {
            let p = m1.at(i, j).mul(&m2.at(i, j)).expect("small integers");
            sum = sum.add(&p).expect("small integers");
        }
    }
    assert!(sum.eq_rat(&Rat::from_int(20)));
}

#[test]
fn normalize_vector() {
    let v = tiny_renderer::vec::vector3(Rat::from_int(0), Rat::from_int(0), Rat::from_int(2));
    let n = tiny_renderer::vec::normalized_approx(&v).expect("nonzero");
    assert!(n.x.eq_rat(&Rat::from_int(0)));
    assert!(n.y.eq_rat(&Rat::from_int(0)));
    assert!(n.z.eq_rat(&Rat::from_int(1)));
}
