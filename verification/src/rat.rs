//! Exact rational scalars.
//!
//! Every coordinate, depth and weight in this renderer is a rational number
//! held as a canonical `i64` fraction.  Arithmetic is exact: an operation
//! either returns the mathematically exact (reduced) result or reports that
//! the reduced result does not fit the 64-bit backing store.  Comparisons are
//! always exact and total.
use vstd::arithmetic::div_mod::{
    lemma_fundamental_div_mod, lemma_mod_multiples_vanish, lemma_mod_self_0,
};
use vstd::prelude::*;

verus! {

/// Largest magnitude a canonical numerator or denominator may have.
pub const MAG_LIMIT: i64 = 0x7fff_ffff_ffff_ffff;

/// A mathematical rational, as an unbounded numerator/denominator pair.
/// Values of this type appear only in specifications.
pub struct Q {
    pub n: int,
    pub d: int,
}

pub open spec fn iabs(x: int) -> nat {
    if x >= 0 {
        x as nat
    } else {
        (-x) as nat
    }
}

/// Greatest common divisor, by Euclid's rule.
pub open spec fn gcd(a: nat, b: nat) -> nat
    decreases b,
{
    if b == 0 {
        a
    } else {
        gcd(b, a % b)
    }
}

/// A well-formed rational has a positive denominator.
pub open spec fn q_wf(q: Q) -> bool {
    q.d > 0
}

/// Equality of the represented values, by cross multiplication.
pub open spec fn q_eq(a: Q, b: Q) -> bool {
    a.n * b.d == b.n * a.d
}

/// `a <= b` on the represented values; meaningful when both are well formed.
pub open spec fn q_le(a: Q, b: Q) -> bool {
    a.n * b.d <= b.n * a.d
}

pub open spec fn q_lt(a: Q, b: Q) -> bool {
    a.n * b.d < b.n * a.d
}

pub open spec fn q_add(a: Q, b: Q) -> Q {
    Q { n: a.n * b.d + b.n * a.d, d: a.d * b.d }
}

pub open spec fn q_sub(a: Q, b: Q) -> Q {
    Q { n: a.n * b.d - b.n * a.d, d: a.d * b.d }
}

pub open spec fn q_mul(a: Q, b: Q) -> Q {
    Q { n: a.n * b.n, d: a.d * b.d }
}

pub open spec fn q_neg(a: Q) -> Q {
    Q { n: -a.n, d: a.d }
}

/// Division, with the sign moved into the numerator.
pub open spec fn q_div(a: Q, b: Q) -> Q {
    if b.n < 0 {
        Q { n: -(a.n * b.d), d: -(a.d * b.n) }
    } else {
        Q { n: a.n * b.d, d: a.d * b.n }
    }
}

pub open spec fn q_int(i: int) -> Q {
    Q { n: i, d: 1 }
}

/// The value clamped from below at zero.
pub open spec fn q_max0(a: Q) -> Q {
    if q_le(q_int(0), a) {
        a
    } else {
        q_int(0)
    }
}

/// The canonical (fully reduced) representative of a rational.
pub open spec fn q_canon(q: Q) -> Q {
    let g = gcd(iabs(q.n), iabs(q.d)) as int;
    if q.n >= 0 {
        Q { n: iabs(q.n) as int / g, d: iabs(q.d) as int / g }
    } else {
        Q { n: -(iabs(q.n) as int / g), d: iabs(q.d) as int / g }
    }
}

/// Whether a canonical pair fits the 64-bit backing store.
pub open spec fn q_fits(q: Q) -> bool {
    &&& -(MAG_LIMIT as int) <= q.n <= MAG_LIMIT as int
    &&& 1 <= q.d <= MAG_LIMIT as int
}

/// Reduce, then keep the result only if it fits.
pub open spec fn q_fit_canon(q: Q) -> Option<Q> {
    let c = q_canon(q);
    if q_fits(c) {
        Some(c)
    } else {
        None
    }
}

pub open spec fn ch_add(a: Q, b: Q) -> Option<Q> {
    q_fit_canon(q_add(a, b))
}

pub open spec fn ch_sub(a: Q, b: Q) -> Option<Q> {
    q_fit_canon(q_sub(a, b))
}

pub open spec fn ch_mul(a: Q, b: Q) -> Option<Q> {
    q_fit_canon(q_mul(a, b))
}

pub open spec fn ch_div(a: Q, b: Q) -> Option<Q> {
    if b.n == 0 {
        None
    } else {
        q_fit_canon(q_div(a, b))
    }
}

/// The divisibility facts behind canonical reduction.
pub proof fn lemma_gcd_divides(a: nat, b: nat)
    requires
        a > 0 || b > 0,
    ensures
        gcd(a, b) > 0,
        a as int % (gcd(a, b) as int) == 0,
        b as int % (gcd(a, b) as int) == 0,
    decreases b,
{
    if b == 0 {
        lemma_mod_self_0(a as int);
        assert(0int % (a as int) == 0) by {
            lemma_mod_multiples_vanish(0, 0, a as int);
        }
    } else {
        lemma_gcd_divides(b, a % b);
        let ai = a as int;
        let bi = b as int;
        let g = gcd(b, a % b) as int;
        // a = b * (a / b) + a % b; both summands vanish mod g.
        lemma_fundamental_div_mod(ai, bi);
        let k = ai / bi;
        let r = ai % bi;
        lemma_fundamental_div_mod(bi, g);
        lemma_fundamental_div_mod(r, g);
        let m = k * (bi / g) + r / g;
        assert(ai == g * m) by (nonlinear_arith)
            requires
                ai == bi * k + r,
                bi == g * (bi / g) + bi % g,
                r == g * (r / g) + r % g,
                bi % g == 0,
                r % g == 0,
                m == k * (bi / g) + r / g,
        ;
        assert(ai % g == 0) by {
            lemma_mod_multiples_vanish(m, 0, g);
        }
    }
}

/// Exact division recombines: if `d` divides `x`, then `d * (x / d) == x`.
pub proof fn lemma_exact_div(x: int, d: int)
    requires
        d > 0,
        x % d == 0,
    ensures
        d * (x / d) == x,
        x > 0 ==> x / d > 0,
        x >= 0 ==> x / d >= 0,
{
    lemma_fundamental_div_mod(x, d);
    assert(x == d * (x / d));
    if x > 0 && x / d <= 0 {
        assert(d * (x / d) <= 0) by (nonlinear_arith)
            requires
                d > 0,
                x / d <= 0,
        ;
    }
    if x >= 0 && x / d < 0 {
        assert(d * (x / d) < 0) by (nonlinear_arith)
            requires
                d > 0,
                x / d < 0,
        ;
    }
}

/// Canonical reduction is well formed and preserves the represented value.
pub proof fn lemma_canon(q: Q)
    requires
        q_wf(q),
    ensures
        q_wf(q_canon(q)),
        q_eq(q_canon(q), q),
        q_eq(q, q_canon(q)),
{
    let nm = iabs(q.n) as int;
    let dm = q.d;
    lemma_gcd_divides(iabs(q.n), iabs(q.d));
    let g = gcd(iabs(q.n), iabs(q.d)) as int;
    lemma_exact_div(nm, g);
    lemma_exact_div(dm, g);
    let rn = nm / g;
    let rd = dm / g;
    assert(q_canon(q).d == rd);
    if q.n >= 0 {
        assert(rn * q.d == q.n * rd) by (nonlinear_arith)
            requires
                g * rn == q.n,
                g * rd == q.d,
                g > 0,
        ;
    } else {
        assert((-rn) * q.d == q.n * rd) by (nonlinear_arith)
            requires
                g * rn == -q.n,
                g * rd == q.d,
                g > 0,
        ;
    }
}

/// Values equal to a common rational are equal to each other (given positive
/// denominators); `q_eq` is an equivalence on well-formed rationals.
pub proof fn lemma_q_eq_trans(a: Q, b: Q, c: Q)
    requires
        q_wf(a),
        q_wf(b),
        q_wf(c),
        q_eq(a, b),
        q_eq(b, c),
    ensures
        q_eq(a, c),
{
    assert(a.n * c.d == c.n * a.d) by (nonlinear_arith)
        requires
            a.n * b.d == b.n * a.d,
            b.n * c.d == c.n * b.d,
            b.d > 0,
    ;
}

/// An exact rational scalar: a canonical fraction of 64-bit magnitude.
#[derive(Debug, Clone, Copy)]
pub struct Rat {
    n: i64,
    d: i64,
}

impl View for Rat {
    type V = Q;

    closed spec fn view(&self) -> Q {
        Q { n: self.n as int, d: self.d as int }
    }
}

/// The Option of an exact operation, seen at the specification level.
pub open spec fn opt_q(r: Option<Rat>) -> Option<Q> {
    match r {
        Some(v) => Some(v@),
        None => None,
    }
}

/// Euclid's algorithm on unsigned 128-bit integers.
fn gcd_u128(a0: u128, b0: u128) -> (g: u128)
    ensures
        g == gcd(a0 as nat, b0 as nat),
{
    let mut a = a0;
    let mut b = b0;
    loop
        invariant
            gcd(a as nat, b as nat) == gcd(a0 as nat, b0 as nat),
        decreases b,
    {
        if b == 0 {
            return a;
        }
        let r = a % b;
        a = b;
        b = r;
    }
}

impl Rat {
    /// Invariant carried by every reachable `Rat`.
    pub open spec fn wf(&self) -> bool {
        &&& q_wf(self@)
        &&& q_fits(self@)
    }

    /// Canonical numerator of the held value.
    pub fn num(&self) -> (r: i64)
        ensures
            r == self@.n,
    {
        self.n
    }

    /// Canonical denominator of the held value.
    pub fn den(&self) -> (r: i64)
        ensures
            r == self@.d,
    {
        self.d
    }

    /// Reduce a wide fraction to a canonical `Rat`, if it fits.
    fn make(num: i128, den: i128) -> (r: Option<Rat>)
        requires
            den > 0,
            num as int > -0x8000_0000_0000_0000_0000_0000_0000_0000int,
        ensures
            opt_q(r) == q_fit_canon(Q { n: num as int, d: den as int }),
            r matches Some(v) ==> v.wf(),
    {
        let q = Ghost(Q { n: num as int, d: den as int });
        let nmag: u128 = if num >= 0 {
            num as u128
        } else {
            (-num) as u128
        };
        let dmag: u128 = den as u128;
        proof {
            assert(nmag == iabs(q@.n));
            assert(dmag == iabs(q@.d));
            lemma_gcd_divides(iabs(q@.n), iabs(q@.d));
        }
        let g = gcd_u128(nmag, dmag);
        let rn = nmag / g;
        let rd = dmag / g;
        proof {
            lemma_exact_div(nmag as int, g as int);
            lemma_exact_div(dmag as int, g as int);
            assert(rn == iabs(q@.n) as int / gcd(iabs(q@.n), iabs(q@.d)) as int);
            assert(rd == iabs(q@.d) as int / gcd(iabs(q@.n), iabs(q@.d)) as int);
            assert(rd >= 1);
        }
        if rn <= MAG_LIMIT as u128 && rd <= MAG_LIMIT as u128 {
            let rdn: i64 = rd as i64;
            if num >= 0 {
                Some(Rat { n: rn as i64, d: rdn })
            } else {
                Some(Rat { n: -(rn as i64), d: rdn })
            }
        } else {
            proof {
                assert(!q_fits(q_canon(q@)));
            }
            None
        }
    }

    /// Build the canonical rational `n / d`.
    pub fn new(n: i64, d: i64) -> (r: Rat)
        requires
            d >= 1,
            n as int > -0x8000_0000_0000_0000int,
        ensures
            r.wf(),
            r@ == q_canon(Q { n: n as int, d: d as int }),
            q_eq(r@, Q { n: n as int, d: d as int }),
    {
        proof {
            lemma_canon(Q { n: n as int, d: d as int });
            lemma_gcd_divides(iabs(n as int), iabs(d as int));
            let g = gcd(iabs(n as int), iabs(d as int)) as int;
            lemma_exact_div(iabs(n as int) as int, g);
            lemma_exact_div(iabs(d as int) as int, g);
            assert(iabs(n as int) as int / g <= iabs(n as int) as int && iabs(d as int) as int / g
                <= iabs(d as int) as int) by (nonlinear_arith)
                requires
                    g >= 1,
                    g * (iabs(n as int) as int / g) == iabs(n as int) as int,
                    g * (iabs(d as int) as int / g) == iabs(d as int) as int,
                    iabs(n as int) as int / g >= 0,
                    iabs(d as int) as int / g > 0,
            ;
        }
        let r = Self::make(n as i128, d as i128);
        match r {
            Some(v) => v,
            None => {
                proof {
                    assert(false);
                }
                Rat { n: 0, d: 1 }
            },
        }
    }

    /// The canonical integer `i`.
    pub fn from_int(i: i64) -> (r: Rat)
        requires
            i as int > -0x8000_0000_0000_0000int,
        ensures
            r.wf(),
            q_eq(r@, q_int(i as int)),
            r@.n == i as int,
            r@.d == 1,
    {
        proof {
            let q = Q { n: i as int, d: 1 };
            lemma_gcd_divides(iabs(q.n), 1);
            let g = gcd(iabs(q.n), 1) as int;
            assert(1int % g == 0 && g > 0);
            lemma_exact_div(1, g);
            assert(g * (1int / g) == 1);
            assert(g == 1) by (nonlinear_arith)
                requires
                    g >= 1,
                    g * (1int / g) == 1,
                    1int / g > 0,
            ;
            lemma_exact_div(iabs(q.n) as int, 1);
            assert(iabs(q.n) as int / 1 == iabs(q.n) as int);
        }
        Rat { n: i, d: 1 }
    }

    pub fn zero() -> (r: Rat)
        ensures
            r.wf(),
            r@.n == 0,
            r@.d == 1,
    {
        Rat::from_int(0)
    }

    pub fn one() -> (r: Rat)
        ensures
            r.wf(),
            r@.n == 1,
            r@.d == 1,
    {
        Rat::from_int(1)
    }

    pub fn is_zero(&self) -> (r: bool)
        requires
            self.wf(),
        ensures
            r == (self@.n == 0),
    {
        self.n == 0
    }

    /// Exact sum; `None` when the reduced sum overflows the backing store.
    pub fn add(&self, other: &Rat) -> (r: Option<Rat>)
        requires
            self.wf(),
            other.wf(),
        ensures
            opt_q(r) == ch_add(self@, other@),
            r matches Some(v) ==> v.wf(),
    {
        let (an, ad) = (self.n as i128, self.d as i128);
        let (bn, bd) = (other.n as i128, other.d as i128);
        proof {
            lemma_i64_prod_bound(self.n as int, other.d as int);
            lemma_i64_prod_bound(other.n as int, self.d as int);
            lemma_i64_prod_bound(self.d as int, other.d as int);
        }
        let num = an * bd + bn * ad;
        let den = ad * bd;
        proof {
            lemma_pos_prod(ad as int, bd as int);
        }
        Self::make(num, den)
    }

    /// Exact difference.
    pub fn sub(&self, other: &Rat) -> (r: Option<Rat>)
        requires
            self.wf(),
            other.wf(),
        ensures
            opt_q(r) == ch_sub(self@, other@),
            r matches Some(v) ==> v.wf(),
    {
        let (an, ad) = (self.n as i128, self.d as i128);
        let (bn, bd) = (other.n as i128, other.d as i128);
        proof {
            lemma_i64_prod_bound(self.n as int, other.d as int);
            lemma_i64_prod_bound(other.n as int, self.d as int);
            lemma_i64_prod_bound(self.d as int, other.d as int);
        }
        let num = an * bd - bn * ad;
        let den = ad * bd;
        proof {
            lemma_pos_prod(ad as int, bd as int);
        }
        Self::make(num, den)
    }

    /// Exact product.
    pub fn mul(&self, other: &Rat) -> (r: Option<Rat>)
        requires
            self.wf(),
            other.wf(),
        ensures
            opt_q(r) == ch_mul(self@, other@),
            r matches Some(v) ==> v.wf(),
    {
        let (an, ad) = (self.n as i128, self.d as i128);
        let (bn, bd) = (other.n as i128, other.d as i128);
        proof {
            lemma_i64_prod_bound(self.n as int, other.n as int);
            lemma_i64_prod_bound(self.d as int, other.d as int);
        }
        let num = an * bn;
        let den = ad * bd;
        proof {
            lemma_pos_prod(ad as int, bd as int);
        }
        Self::make(num, den)
    }

    /// Exact quotient; the divisor must be nonzero.
    pub fn div(&self, other: &Rat) -> (r: Option<Rat>)
        requires
            self.wf(),
            other.wf(),
            other@.n != 0,
        ensures
            opt_q(r) == ch_div(self@, other@),
            r matches Some(v) ==> v.wf(),
    {
        let (an, ad) = (self.n as i128, self.d as i128);
        let (bn, bd) = (other.n as i128, other.d as i128);
        proof {
            lemma_i64_prod_bound(self.n as int, other.d as int);
            lemma_i64_prod_bound(self.d as int, other.n as int);
        }
        let num = an * bd;
        let den = ad * bn;
        proof {
            assert((other@.n < 0 ==> den < 0) && (other@.n > 0 ==> den > 0)) by (nonlinear_arith)
                requires
                    den == ad * bn,
                    ad > 0,
                    bn == other@.n,
            ;
        }
        if den < 0 {
            Self::make(-num, -den)
        } else {
            Self::make(num, den)
        }
    }

    /// Exact negation; always representable.
    pub fn neg(&self) -> (r: Rat)
        requires
            self.wf(),
        ensures
            r.wf(),
            r@ == q_neg(self@),
    {
        Rat { n: -self.n, d: self.d }
    }

    /// Exact comparison of the represented values.
    pub fn le(&self, other: &Rat) -> (r: bool)
        requires
            self.wf(),
            other.wf(),
        ensures
            r == q_le(self@, other@),
    {
        proof {
            lemma_i64_prod_bound(self.n as int, other.d as int);
            lemma_i64_prod_bound(other.n as int, self.d as int);
        }
        (self.n as i128) * (other.d as i128) <= (other.n as i128) * (self.d as i128)
    }

    pub fn lt(&self, other: &Rat) -> (r: bool)
        requires
            self.wf(),
            other.wf(),
        ensures
            r == q_lt(self@, other@),
    {
        proof {
            lemma_i64_prod_bound(self.n as int, other.d as int);
            lemma_i64_prod_bound(other.n as int, self.d as int);
        }
        (self.n as i128) * (other.d as i128) < (other.n as i128) * (self.d as i128)
    }

    /// Exact value equality (not representation equality).
    pub fn eq_rat(&self, other: &Rat) -> (r: bool)
        requires
            self.wf(),
            other.wf(),
        ensures
            r == q_eq(self@, other@),
    {
        proof {
            lemma_i64_prod_bound(self.n as int, other.d as int);
            lemma_i64_prod_bound(other.n as int, self.d as int);
        }
        (self.n as i128) * (other.d as i128) == (other.n as i128) * (self.d as i128)
    }

    /// The absolute value.
    pub fn abs(&self) -> (r: Rat)
        requires
            self.wf(),
        ensures
            r.wf(),
            q_le(q_int(0), r@),
            q_le(q_int(0), self@) ==> r == *self,
            !q_le(q_int(0), self@) ==> r@ == q_neg(self@),
    {
        let zero = Rat::zero();
        if zero.le(self) {
            *self
        } else {
            self.neg()
        }
    }

    /// The value clamped from below at zero.
    pub fn max0(&self) -> (r: Rat)
        requires
            self.wf(),
        ensures
            r.wf(),
            q_le(q_int(0), r@),
            q_le(q_int(0), self@) ==> r == *self,
            r@ == q_max0(self@),
    {
        let zero = Rat::zero();
        if zero.le(self) {
            *self
        } else {
            zero
        }
    }

    /// The smaller of the two values.
    pub fn min(&self, other: &Rat) -> (r: Rat)
        requires
            self.wf(),
            other.wf(),
        ensures
            r.wf(),
            r == if q_le(self@, other@) {
                *self
            } else {
                *other
            },
    {
        if self.le(other) {
            *self
        } else {
            *other
        }
    }

    /// The larger of the two values.
    pub fn max(&self, other: &Rat) -> (r: Rat)
        requires
            self.wf(),
            other.wf(),
        ensures
            r.wf(),
            r == if q_le(self@, other@) {
                *other
            } else {
                *self
            },
    {
        if self.le(other) {
            *other
        } else {
            *self
        }
    }
}

/// Integer square root: the greatest `s` with `s * s <= m`.
fn isqrt_u128(m: u128) -> (s: u128)
    ensures
        s * s <= m,
        m < (s + 1) * (s + 1),
        s < 0x1_0000_0000_0000_0000u128,
{
    let mut lo: u128 = 0;
    let mut hi: u128 = 0x1_0000_0000_0000_0000;
    while lo + 1 < hi
        invariant
            lo < hi,
            hi <= 0x1_0000_0000_0000_0000,
            lo * lo <= m,
            m < hi * hi,
        decreases hi - lo,
    {
        let mid = lo + (hi - lo) / 2;
        proof {
            assert(mid * mid < 0x1_0000_0000_0000_0000u128 * 0x1_0000_0000_0000_0000u128)
                by (nonlinear_arith)
                requires
                    mid < 0x1_0000_0000_0000_0000u128,
            ;
        }
        if mid * mid <= m {
            lo = mid;
        } else {
            hi = mid;
        }
    }
    lo
}

/// The scale used by the square-root approximation: results are resolved to
/// multiples of `1 / SQRT_SCALE`.
pub const SQRT_SCALE: i64 = 0x1_0000;

impl Rat {
    /// A rational approximation of the square root from below:
    /// `r * r <= x < (r + 1/SQRT_SCALE) * (r + 1/SQRT_SCALE)`.
    pub fn sqrt_approx(x: &Rat) -> (r: Rat)
        requires
            x.wf(),
            q_le(q_int(0), x@),
            q_le(x@, Q { n: 0x7fff_ffff_ffffi64 as int, d: 1 }),
        ensures
            r.wf(),
            q_le(q_int(0), r@),
            q_le(q_mul(r@, r@), x@),
            q_lt(
                x@,
                q_mul(
                    q_add(r@, Q { n: 1, d: SQRT_SCALE as int }),
                    q_add(r@, Q { n: 1, d: SQRT_SCALE as int }),
                ),
            ),
    {
        let n = x.n as i128;
        let d = x.d as i128;
        proof {
            assert(0 <= n * (SQRT_SCALE as int * SQRT_SCALE as int) <= 0x8000_0000_0000_0000_0000_0000int)
                by (nonlinear_arith)
                requires
                    0 <= n <= MAG_LIMIT as int,
                    SQRT_SCALE as int == 0x1_0000int,
            ;
        }
        let scaled: i128 = n * (SQRT_SCALE as i128 * SQRT_SCALE as i128);
        proof {
            lemma_div_pos(scaled as int, d as int);
            assert(scaled as int / (d as int) <= scaled) by (nonlinear_arith)
                requires
                    scaled >= 0,
                    d >= 1,
                    d as int * (scaled as int / (d as int)) <= scaled,
                    0 <= scaled as int / (d as int),
            ;
        }
        let m: i128 = scaled / d;
        let s = isqrt_u128(m as u128);
        proof {
            assert(s < 0x1_0000_0000_0000u128) by (nonlinear_arith)
                requires
                    s as int * s as int <= m as int,
                    m as int <= 0x8000_0000_0000_0000_0000_0000int,
            ;
        }
        let sr = Rat::new(s as i64, SQRT_SCALE);
        proof {
            lemma_sqrt_bounds(
                x@.n,
                x@.d,
                m as int,
                s as int,
                SQRT_SCALE as int,
                sr@.n,
                sr@.d,
            );
        }
        sr
    }
}

/// Floor division of a nonnegative value by a positive one brackets exactly.
proof fn lemma_div_pos(x: int, d: int)
    requires
        x >= 0,
        d >= 1,
    ensures
        0 <= x / d,
        d * (x / d) <= x,
        x < d * (x / d + 1),
{
    lemma_fundamental_div_mod(x, d);
    vstd::arithmetic::div_mod::lemma_mod_division_less_than_divisor(x, d);
    if x / d < 0 {
        assert(d * (x / d) + x % d < d) by (nonlinear_arith)
            requires
                d >= 1,
                x / d <= -1,
                x % d < d,
        ;
    }
    assert(d * (x / d + 1) == d * (x / d) + d) by (nonlinear_arith);
}

/// Transfer the integer square-root bracket to the rational result.
proof fn lemma_sqrt_bounds(xn: int, xd: int, m: int, s: int, scale: int, rn: int, rd: int)
    by (nonlinear_arith)
    requires
        xd >= 1,
        xn >= 0,
        scale >= 1,
        0 <= m,
        0 <= s,
        xd * m <= xn * (scale * scale),
        xn * (scale * scale) < xd * (m + 1),
        s * s <= m,
        m < (s + 1) * (s + 1),
        rd >= 1,
        rn * scale == s * rd,
    ensures
        0 <= rn,
        (rn * rn) * xd <= xn * (rd * rd),
        xn * ((rd * scale) * (rd * scale)) < ((rn * scale + rd) * (rn * scale + rd)) * xd,
{
}

/// Truncated division of nonnegative values stays within the dividend.
pub proof fn lemma_exact_div_bounds(x: int, d: int)
    requires
        x >= 0,
        d >= 1,
    ensures
        0 <= x / d <= x,
{
    lemma_div_pos(x, d);
    assert(x / d <= x) by (nonlinear_arith)
        requires
            d >= 1,
            x >= 0,
            d * (x / d) <= x,
            0 <= x / d,
    ;
}

/// Transitivity of the exact order (positive denominators).
pub proof fn lemma_q_le_trans(a: Q, b: Q, c: Q)
    by (nonlinear_arith)
    requires
        q_wf(a),
        q_wf(b),
        q_wf(c),
        q_le(a, b),
        q_le(b, c),
    ensures
        q_le(a, c),
{
}

/// Mixed transitivity: `a <= b < c` gives `a < c`, and `a < b <= c` too.
pub proof fn lemma_q_le_lt_trans(a: Q, b: Q, c: Q)
    by (nonlinear_arith)
    requires
        q_wf(a),
        q_wf(b),
        q_wf(c),
    ensures
        q_le(a, b) && q_lt(b, c) ==> q_lt(a, c),
        q_lt(a, b) && q_le(b, c) ==> q_lt(a, c),
{
}

/// Order respects value equality on both sides.
pub proof fn lemma_q_le_congruence(a: Q, b: Q, a2: Q, b2: Q)
    by (nonlinear_arith)
    requires
        q_wf(a),
        q_wf(b),
        q_wf(a2),
        q_wf(b2),
        q_eq(a, a2),
        q_eq(b, b2),
    ensures
        q_le(a, b) == q_le(a2, b2),
        q_lt(a, b) == q_lt(a2, b2),
{
}

/// Multiplying both sides of an order by a nonnegative weight keeps it.
proof fn lemma_q_mul_mono(b: Q, lo: Q, x: Q)
    requires
        q_wf(b),
        q_wf(lo),
        q_wf(x),
        q_le(q_int(0), b),
        q_le(lo, x),
    ensures
        q_le(q_mul(b, lo), q_mul(b, x)),
{
    assert((b.n * lo.n) * (b.d * x.d) <= (b.n * x.n) * (b.d * lo.d)) by (nonlinear_arith)
        requires
            b.n >= 0,
            b.d > 0,
            lo.n * x.d <= x.n * lo.d,
    ;
}

/// Addition is monotonic in both arguments.
#[verifier::rlimit(100)]
proof fn lemma_q_add_mono(a1: Q, b1: Q, a2: Q, b2: Q)
    requires
        q_wf(a1),
        q_wf(b1),
        q_wf(a2),
        q_wf(b2),
        q_le(a1, b1),
        q_le(a2, b2),
    ensures
        q_le(q_add(a1, a2), q_add(b1, b2)),
{
    assert((a1.n * a2.d) * (b1.d * b2.d) <= (b1.n * b2.d) * (a1.d * a2.d)) by (nonlinear_arith)
        requires
            a1.n * b1.d <= b1.n * a1.d,
            a2.d > 0,
            b2.d > 0,
    ;
    assert((a2.n * a1.d) * (b1.d * b2.d) <= (b2.n * b1.d) * (a1.d * a2.d)) by (nonlinear_arith)
        requires
            a2.n * b2.d <= b2.n * a2.d,
            a1.d > 0,
            b1.d > 0,
    ;
    assert((a1.n * a2.d + a2.n * a1.d) * (b1.d * b2.d) <= (b1.n * b2.d + b2.n * b1.d) * (a1.d
        * a2.d)) by (nonlinear_arith)
        requires
            (a1.n * a2.d) * (b1.d * b2.d) <= (b1.n * b2.d) * (a1.d * a2.d),
            (a2.n * a1.d) * (b1.d * b2.d) <= (b2.n * b1.d) * (a1.d * a2.d),
    ;
}

/// Multiplication commutes, as represented values.
proof fn lemma_q_mul_comm(a: Q, b: Q)
    ensures
        q_eq(q_mul(a, b), q_mul(b, a)),
{
    assert((a.n * b.n) * (b.d * a.d) == (b.n * a.n) * (a.d * b.d)) by (nonlinear_arith);
}

/// Weighting distributes: `a*lo + b*lo` equals `lo * (a + b)`.
#[verifier::rlimit(100)]
proof fn lemma_q_distrib_bl(lo: Q, a: Q, b: Q)
    ensures
        q_eq(q_add(q_mul(a, lo), q_mul(b, lo)), q_mul(lo, q_add(a, b))),
{
    let t1 = ((a.n * lo.n) * (b.d * lo.d)) * (lo.d * (a.d * b.d));
    let t2 = ((b.n * lo.n) * (a.d * lo.d)) * (lo.d * (a.d * b.d));
    let r1 = (lo.n * (a.n * b.d)) * ((a.d * lo.d) * (b.d * lo.d));
    let r2 = (lo.n * (b.n * a.d)) * ((a.d * lo.d) * (b.d * lo.d));
    assert(t1 == r1) by (nonlinear_arith)
        requires
            t1 == ((a.n * lo.n) * (b.d * lo.d)) * (lo.d * (a.d * b.d)),
            r1 == (lo.n * (a.n * b.d)) * ((a.d * lo.d) * (b.d * lo.d)),
    ;
    assert(t2 == r2) by (nonlinear_arith)
        requires
            t2 == ((b.n * lo.n) * (a.d * lo.d)) * (lo.d * (a.d * b.d)),
            r2 == (lo.n * (b.n * a.d)) * ((a.d * lo.d) * (b.d * lo.d)),
    ;
    assert(((a.n * lo.n) * (b.d * lo.d) + (b.n * lo.n) * (a.d * lo.d)) * (lo.d * (a.d * b.d))
        == t1 + t2) by (nonlinear_arith)
        requires
            t1 == ((a.n * lo.n) * (b.d * lo.d)) * (lo.d * (a.d * b.d)),
            t2 == ((b.n * lo.n) * (a.d * lo.d)) * (lo.d * (a.d * b.d)),
    ;
    assert((lo.n * (a.n * b.d + b.n * a.d)) * ((a.d * lo.d) * (b.d * lo.d)) == r1 + r2)
        by (nonlinear_arith)
        requires
            r1 == (lo.n * (a.n * b.d)) * ((a.d * lo.d) * (b.d * lo.d)),
            r2 == (lo.n * (b.n * a.d)) * ((a.d * lo.d) * (b.d * lo.d)),
    ;
}

/// A convex combination (nonnegative weights summing to one) of three
/// points within `[lo, hi]` lies within `[lo, hi]`.
pub proof fn lemma_convex3_bounds(lo: Q, hi: Q, x0: Q, x1: Q, x2: Q, b0: Q, b1: Q, b2: Q)
    requires
        q_wf(lo),
        q_wf(hi),
        q_wf(x0),
        q_wf(x1),
        q_wf(x2),
        q_wf(b0),
        q_wf(b1),
        q_wf(b2),
        q_le(lo, x0),
        q_le(x0, hi),
        q_le(lo, x1),
        q_le(x1, hi),
        q_le(lo, x2),
        q_le(x2, hi),
        q_le(q_int(0), b0),
        q_le(q_int(0), b1),
        q_le(q_int(0), b2),
        q_eq(q_add(q_add(b0, b1), b2), q_int(1)),
    ensures
        q_le(lo, q_add(q_add(q_mul(b0, x0), q_mul(b1, x1)), q_mul(b2, x2))),
        q_le(q_add(q_add(q_mul(b0, x0), q_mul(b1, x1)), q_mul(b2, x2)), hi),
{
    let s = q_add(q_add(b0, b1), b2);
    let s01 = q_add(b0, b1);
    let comb = q_add(q_add(q_mul(b0, x0), q_mul(b1, x1)), q_mul(b2, x2));
    lemma_weighted_sum_is_bound(lo, b0, b1, b2);
    lemma_weighted_sum_is_bound(hi, b0, b1, b2);
    // Termwise bounds, summed.
    crate::vec::lemma_q_ops_wf(b0, lo);
    crate::vec::lemma_q_ops_wf(b1, lo);
    crate::vec::lemma_q_ops_wf(b2, lo);
    crate::vec::lemma_q_ops_wf(b0, hi);
    crate::vec::lemma_q_ops_wf(b1, hi);
    crate::vec::lemma_q_ops_wf(b2, hi);
    crate::vec::lemma_q_ops_wf(b0, x0);
    crate::vec::lemma_q_ops_wf(b1, x1);
    crate::vec::lemma_q_ops_wf(b2, x2);
    crate::vec::lemma_q_ops_wf(q_mul(b0, lo), q_mul(b1, lo));
    crate::vec::lemma_q_ops_wf(q_mul(b0, hi), q_mul(b1, hi));
    crate::vec::lemma_q_ops_wf(q_mul(b0, x0), q_mul(b1, x1));
    crate::vec::lemma_q_ops_wf(q_add(q_mul(b0, lo), q_mul(b1, lo)), q_mul(b2, lo));
    crate::vec::lemma_q_ops_wf(q_add(q_mul(b0, hi), q_mul(b1, hi)), q_mul(b2, hi));
    crate::vec::lemma_q_ops_wf(q_add(q_mul(b0, x0), q_mul(b1, x1)), q_mul(b2, x2));
    lemma_q_mul_mono(b0, lo, x0);
    lemma_q_mul_mono(b1, lo, x1);
    lemma_q_mul_mono(b2, lo, x2);
    lemma_q_add_mono(q_mul(b0, lo), q_mul(b0, x0), q_mul(b1, lo), q_mul(b1, x1));
    lemma_q_add_mono(
        q_add(q_mul(b0, lo), q_mul(b1, lo)),
        q_add(q_mul(b0, x0), q_mul(b1, x1)),
        q_mul(b2, lo),
        q_mul(b2, x2),
    );
    lemma_q_mul_mono(b0, x0, hi);
    lemma_q_mul_mono(b1, x1, hi);
    lemma_q_mul_mono(b2, x2, hi);
    lemma_q_add_mono(q_mul(b0, x0), q_mul(b0, hi), q_mul(b1, x1), q_mul(b1, hi));
    lemma_q_add_mono(
        q_add(q_mul(b0, x0), q_mul(b1, x1)),
        q_add(q_mul(b0, hi), q_mul(b1, hi)),
        q_mul(b2, x2),
        q_mul(b2, hi),
    );
    let losum = q_add(q_add(q_mul(b0, lo), q_mul(b1, lo)), q_mul(b2, lo));
    let hisum = q_add(q_add(q_mul(b0, hi), q_mul(b1, hi)), q_mul(b2, hi));
    lemma_q_le_congruence(losum, comb, lo, comb);
    lemma_q_le_congruence(comb, hisum, comb, hi);
}

/// With weights summing to one, the weighted copies of a single bound sum
/// back to that bound.
proof fn lemma_weighted_sum_is_bound(lo: Q, b0: Q, b1: Q, b2: Q)
    requires
        q_wf(lo),
        q_wf(b0),
        q_wf(b1),
        q_wf(b2),
        q_eq(q_add(q_add(b0, b1), b2), q_int(1)),
    ensures
        q_wf(q_add(q_add(q_mul(b0, lo), q_mul(b1, lo)), q_mul(b2, lo))),
        q_eq(q_add(q_add(q_mul(b0, lo), q_mul(b1, lo)), q_mul(b2, lo)), lo),
{
    let s = q_add(q_add(b0, b1), b2);
    let s01 = q_add(b0, b1);
    let losum = q_add(q_add(q_mul(b0, lo), q_mul(b1, lo)), q_mul(b2, lo));
    crate::vec::lemma_q_ops_wf(b0, b1);
    crate::vec::lemma_q_ops_wf(s01, b2);
    crate::vec::lemma_q_ops_wf(b0, lo);
    crate::vec::lemma_q_ops_wf(b1, lo);
    crate::vec::lemma_q_ops_wf(b2, lo);
    crate::vec::lemma_q_ops_wf(q_mul(b0, lo), q_mul(b1, lo));
    crate::vec::lemma_q_ops_wf(q_add(q_mul(b0, lo), q_mul(b1, lo)), q_mul(b2, lo));
    crate::vec::lemma_q_ops_wf(lo, s01);
    crate::vec::lemma_q_ops_wf(s01, lo);
    crate::vec::lemma_q_ops_wf(lo, s);
    crate::vec::lemma_q_ops_wf(q_mul(s01, lo), q_mul(b2, lo));
    lemma_q_distrib_bl(lo, b0, b1);
    lemma_q_mul_comm(lo, s01);
    lemma_q_eq_trans(q_add(q_mul(b0, lo), q_mul(b1, lo)), q_mul(lo, s01), q_mul(s01, lo));
    crate::ray::lemma_add_congruence(
        q_add(q_mul(b0, lo), q_mul(b1, lo)),
        q_mul(b2, lo),
        q_mul(s01, lo),
        q_mul(b2, lo),
    );
    lemma_q_distrib_bl(lo, s01, b2);
    lemma_q_eq_trans(
        losum,
        q_add(q_mul(s01, lo), q_mul(b2, lo)),
        q_mul(lo, s),
    );
    // The unit weight sum cancels.
    assert((lo.n * s.n) * lo.d == lo.n * (lo.d * s.d)) by (nonlinear_arith)
        requires
            s.n * 1 == 1 * s.d,
    ;
    lemma_q_eq_trans(losum, q_mul(lo, s), lo);
}

/// A product of positive factors is positive.
pub proof fn lemma_pos_prod(a: int, b: int)
    by (nonlinear_arith)
    requires
        a > 0,
        b > 0,
    ensures
        a * b > 0,
{
}

/// Products of magnitudes below `MAG_LIMIT` stay far inside `i128`.
pub proof fn lemma_i64_prod_bound(a: int, b: int)
    by (nonlinear_arith)
    requires
        -(MAG_LIMIT as int) <= a <= MAG_LIMIT as int,
        -(MAG_LIMIT as int) <= b <= MAG_LIMIT as int,
    ensures
        -(0x4000_0000_0000_0000_0000_0000_0000_0000int) < a * b < 0x4000_0000_0000_0000_0000_0000_0000_0000int,
{
}

} // verus!
