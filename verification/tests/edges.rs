use tiny_renderer::matrix::Matrix;
use tiny_renderer::rat::Rat;
use tiny_renderer::rng::{rand_index, rand_upto};
use tiny_renderer::shade::Texture;
use tiny_renderer::Color;

#[test]
fn matrix_set_rejects_out_of_range() {
    let mut m = Matrix::new(2, 2);
    assert!(m.set(0, 1, Rat::from_int(7)).is_ok());
    assert!(m.set(2, 0, Rat::from_int(7)).is_err());
    assert!(m.set(0, 2, Rat::from_int(7)).is_err());
    assert_eq!(m.at(0, 1).num(), 7);
}

#[test]
fn texture_rejects_bad_dimensions() {
    assert!(Texture::new(0, 4, Vec::new()).is_none());
    assert!(Texture::new(2, 2, vec![Color::rgb(0, 0, 0); 3]).is_none());
    assert!(Texture::new(2, 2, vec![Color::rgb(0, 0, 0); 4]).is_some());
}

#[test]
fn rational_arithmetic_is_exact_and_reduced() {
    let a = Rat::new(2, 4);
    assert_eq!((a.num(), a.den()), (1, 2));
    let b = Rat::new(1, 3);
    let s = a.add(&b).unwrap();
    assert_eq!((s.num(), s.den()), (5, 6));
    let p = a.mul(&b).unwrap();
    assert_eq!((p.num(), p.den()), (1, 6));
    let q = a.div(&b).unwrap();
    assert_eq!((q.num(), q.den()), (3, 2));
    let n = a.sub(&b).unwrap();
    assert_eq!((n.num(), n.den()), (1, 6));
    // Division by zero is ruled out by contract; value equality is exact.
    assert!(Rat::new(2, 6).eq_rat(&b));
    assert!(!Rat::new(2, 5).eq_rat(&b));
}

#[test]
fn sqrt_approximation_brackets() {
    let x = Rat::from_int(2);
    let r = Rat::sqrt_approx(&x);
    let r2 = r.mul(&r).unwrap();
    assert!(r2.le(&x));
    let step = Rat::new(1, 0x1_0000);
    let upper = r.add(&step).unwrap();
    let u2 = upper.mul(&upper).unwrap();
    assert!(x.lt(&u2));
}

#[test]
fn random_draws_respect_their_ranges() {
    for _ in 0..200 {
        let i = rand_index(3, 10);
        assert!((3..10).contains(&i));
        let f = rand_upto(100);
        assert!(f <= 100);
    }
    // Degenerate ranges are forced.
    assert_eq!(rand_index(5, 6), 5);
    assert_eq!(rand_upto(0), 0);
}
