//! Rectangular matrices of exact rational scalars.
//!
//! Dimensions are small (at most 16 on a side): the renderer works with
//! 2-, 3- and 4-dimensional square matrices and column vectors.
use crate::rat::{ch_add, ch_mul, ch_sub, opt_q, q_int, Q, Rat};
use vstd::prelude::*;

verus! {

/// Largest admitted row or column count.
pub const DIM_LIMIT: usize = 16;

/// A row-major matrix of rationals.
#[derive(Debug)]
pub struct Matrix {
    rows: usize,
    cols: usize,
    data: Vec<Rat>,
}

/// Checked sum of the first `k` products of row `i` of `a` with column `j`
/// of `b` (the running state of a matrix-product entry).
pub open spec fn ch_mm_k(a: Matrix, b: Matrix, i: int, j: int, k: int) -> Option<Q>
    decreases k,
{
    if k <= 0 {
        Some(q_int(0))
    } else {
        match (ch_mm_k(a, b, i, j, k - 1), ch_mul(a.ent(i, k - 1), b.ent(k - 1, j))) {
            (Some(s), Some(m)) => ch_add(s, m),
            _ => None,
        }
    }
}

/// The checked matrix-product entry at `(i, j)`.
pub open spec fn ch_mm(a: Matrix, b: Matrix, i: int, j: int) -> Option<Q> {
    ch_mm_k(a, b, i, j, a.spec_cols())
}

/// Once a partial product sum has failed, every longer sum fails.
proof fn lemma_mm_k_none(a: Matrix, b: Matrix, i: int, j: int, k: int, n: int)
    requires
        0 <= k <= n,
        ch_mm_k(a, b, i, j, k) is None,
    ensures
        ch_mm_k(a, b, i, j, n) is None,
    decreases n,
{
    if n > k {
        lemma_mm_k_none(a, b, i, j, k, n - 1);
    }
}

/// Row-major index arithmetic stays inside the flattened grid.
proof fn lemma_idx(i: int, j: int, rows: int, cols: int)
    by (nonlinear_arith)
    requires
        0 <= i < rows,
        0 <= j < cols,
        rows <= DIM_LIMIT as int,
        cols <= DIM_LIMIT as int,
    ensures
        0 <= i * cols + j < rows * cols,
        rows * cols <= DIM_LIMIT as int * DIM_LIMIT as int,
{
}

/// A flattened index decomposes into valid row and column indices.
proof fn lemma_flat_bounds(t: int, rows: int, cols: int)
    by (nonlinear_arith)
    requires
        0 <= t < rows * cols,
        1 <= cols,
        1 <= rows,
    ensures
        0 <= t / cols < rows,
        0 <= t % cols < cols,
{
}

/// Row and column indices flatten to a unique in-range offset.
proof fn lemma_unflatten(i: int, j: int, rows: int, cols: int)
    by (nonlinear_arith)
    requires
        0 <= i < rows,
        0 <= j < cols,
    ensures
        0 <= i * cols + j < rows * cols,
        (i * cols + j) / cols == i,
        (i * cols + j) % cols == j,
{
}

/// A clamped texel coordinate stays inside the flattened grid.
pub proof fn lemma_texel_idx(y: int, x: int, rows: int, cols: int)
    by (nonlinear_arith)
    requires
        0 <= y < rows,
        0 <= x < cols,
        rows <= 0x8000,
        cols <= 0x8000,
    ensures
        0 <= y * cols + x < rows * cols,
        rows * cols <= 0x4000_0000,
        rows * cols == cols * rows,
{
}

impl Matrix {
    pub closed spec fn spec_rows(&self) -> int {
        self.rows as int
    }

    pub closed spec fn spec_cols(&self) -> int {
        self.cols as int
    }

    /// The rational held at row `i`, column `j`.
    pub closed spec fn ent(&self, i: int, j: int) -> Q {
        self.data@[i * self.cols as int + j]@
    }

    pub closed spec fn wf(&self) -> bool {
        &&& 1 <= self.rows <= DIM_LIMIT
        &&& 1 <= self.cols <= DIM_LIMIT
        &&& self.data@.len() == self.rows * self.cols
        &&& forall|k: int| 0 <= k < self.data@.len() ==> (#[trigger] self.data@[k]).wf()
    }

    /// Entries of well-formed matrices are well-formed scalars.
    pub proof fn lemma_ent_wf(&self, i: int, j: int)
        requires
            self.wf(),
            0 <= i < self.spec_rows(),
            0 <= j < self.spec_cols(),
        ensures
            crate::rat::q_wf(self.ent(i, j)),
            crate::rat::q_fits(self.ent(i, j)),
    {
        let c = self.cols as int;
        assert(0 <= i * c + j < self.rows * self.cols) by (nonlinear_arith)
            requires
                0 <= i < self.rows,
                0 <= j < c,
                c == self.cols,
        ;
    }

    pub fn rows(&self) -> (r: usize)
        ensures
            r == self.spec_rows(),
    {
        self.rows
    }

    pub fn cols(&self) -> (r: usize)
        ensures
            r == self.spec_cols(),
    {
        self.cols
    }

    /// The zero matrix of the given shape.
    pub fn new(rows: usize, cols: usize) -> (m: Matrix)
        requires
            1 <= rows <= DIM_LIMIT,
            1 <= cols <= DIM_LIMIT,
        ensures
            m.wf(),
            m.spec_rows() == rows,
            m.spec_cols() == cols,
            forall|i: int, j: int|
                0 <= i < rows && 0 <= j < cols ==> m.ent(i, j) == q_int(0),
    {
        proof {
            lemma_idx(rows as int - 1, cols as int - 1, rows as int, cols as int);
        }
        let n = rows * cols;
        let mut data: Vec<Rat> = Vec::new();
        let mut k: usize = 0;
        while k < n
            invariant
                k <= n,
                n == rows * cols,
                data@.len() == k,
                forall|t: int| 0 <= t < k ==> (#[trigger] data@[t])@ == q_int(0),
                forall|t: int| 0 <= t < k ==> (#[trigger] data@[t]).wf(),
            decreases n - k,
        {
            data.push(Rat::zero());
            k += 1;
        }
        let m = Matrix { rows, cols, data };
        proof {
            assert forall|i: int, j: int| 0 <= i < rows && 0 <= j < cols implies m.ent(i, j)
                == q_int(0) by {
                assert(0 <= i * cols as int + j < rows * cols) by (nonlinear_arith)
                    requires
                        0 <= i < rows,
                        0 <= j < cols,
                ;
            }
        }
        m
    }

    /// Build a matrix from row-major entries.
    pub fn from_values(rows: usize, cols: usize, vals: Vec<Rat>) -> (m: Matrix)
        requires
            1 <= rows <= DIM_LIMIT,
            1 <= cols <= DIM_LIMIT,
            vals@.len() == rows * cols,
            forall|k: int| 0 <= k < vals@.len() ==> (#[trigger] vals@[k]).wf(),
        ensures
            m.wf(),
            m.spec_rows() == rows,
            m.spec_cols() == cols,
            forall|i: int, j: int|
                0 <= i < rows && 0 <= j < cols ==> m.ent(i, j) == vals@[i * cols as int + j]@,
    {
        Matrix { rows, cols, data: vals }
    }

    /// The square identity matrix.
    pub fn unit(n: usize) -> (m: Matrix)
        requires
            1 <= n <= DIM_LIMIT,
        ensures
            m.wf(),
            m.spec_rows() == n,
            m.spec_cols() == n,
            forall|i: int, j: int|
                0 <= i < n && 0 <= j < n ==> m.ent(i, j) == if i == j {
                    q_int(1)
                } else {
                    q_int(0)
                },
    {
        proof {
            lemma_idx(n as int - 1, n as int - 1, n as int, n as int);
        }
        let total = n * n;
        let mut data: Vec<Rat> = Vec::new();
        let mut k: usize = 0;
        while k < total
            invariant
                k <= total,
                total == n * n,
                n >= 1,
                data@.len() == k,
                forall|t: int|
                    0 <= t < k ==> (#[trigger] data@[t])@ == if t / (n as int) == t % (n as int) {
                        q_int(1)
                    } else {
                        q_int(0)
                    },
                forall|t: int| 0 <= t < k ==> (#[trigger] data@[t]).wf(),
            decreases total - k,
        {
            if k / n == k % n {
                data.push(Rat::one());
            } else {
                data.push(Rat::zero());
            }
            k += 1;
        }
        let m = Matrix { rows: n, cols: n, data };
        proof {
            assert forall|i: int, j: int| 0 <= i < n && 0 <= j < n implies m.ent(i, j) == (if i
                == j {
                q_int(1)
            } else {
                q_int(0)
            }) by {
                let t = i * n as int + j;
                assert(0 <= t < n * n && t / (n as int) == i && t % (n as int) == j)
                    by (nonlinear_arith)
                    requires
                        0 <= i < n,
                        0 <= j < n,
                        t == i * n as int + j,
                ;
            }
        }
        m
    }

    /// The entry at `(i, j)`; the indices must be in range.
    pub fn at(&self, i: usize, j: usize) -> (r: Rat)
        requires
            self.wf(),
            i < self.spec_rows(),
            j < self.spec_cols(),
        ensures
            r@ == self.ent(i as int, j as int),
            r.wf(),
    {
        proof {
            lemma_idx(i as int, j as int, self.rows as int, self.cols as int);
        }
        self.data[i * self.cols + j]
    }

    /// The entry at `(i, j)`, or `None` when out of range.
    pub fn get(&self, i: usize, j: usize) -> (r: Option<Rat>)
        requires
            self.wf(),
        ensures
            r matches Some(v) ==> i < self.spec_rows() && j < self.spec_cols() && v@ == self.ent(
                i as int,
                j as int,
            ),
            r is None <==> !(i < self.spec_rows() && j < self.spec_cols()),
    {
        if i < self.rows && j < self.cols {
            Some(self.at(i, j))
        } else {
            None
        }
    }

    /// Overwrite the entry at `(i, j)`; fails when out of range.
    pub fn set(&mut self, i: usize, j: usize, v: Rat) -> (r: Result<(), ()>)
        requires
            old(self).wf(),
            v.wf(),
        ensures
            final(self).wf(),
            final(self).spec_rows() == old(self).spec_rows(),
            final(self).spec_cols() == old(self).spec_cols(),
            r matches Ok(u) ==> i < old(self).spec_rows() && j < old(self).spec_cols()
                && final(self).ent(i as int, j as int) == v@ && forall|a: int, b: int|
                0 <= a < old(self).spec_rows() && 0 <= b < old(self).spec_cols() && !(a == i && b
                    == j) ==> final(self).ent(a, b) == old(self).ent(a, b),
            r is Err <==> !(i < old(self).spec_rows() && j < old(self).spec_cols()),
            r is Err ==> *final(self) == *old(self),
    {
        if i < self.rows && j < self.cols {
            proof {
                lemma_idx(i as int, j as int, self.rows as int, self.cols as int);
            }
            let idx = i * self.cols + j;
            self.data.set(idx, v);
            proof {
                assert forall|a: int, b: int|
                    0 <= a < self.spec_rows() && 0 <= b < self.spec_cols() && !(a == i && b
                        == j) implies self.ent(a, b) == old(self).ent(a, b) by {
                    assert(0 <= a * self.cols as int + b < self.rows * self.cols && a
                        * self.cols as int + b != i * self.cols as int + j) by (nonlinear_arith)
                        requires
                            0 <= a < self.rows,
                            0 <= b < self.cols,
                            0 <= i < self.rows,
                            0 <= j < self.cols,
                            !(a == i && b == j),
                    ;
                }
            }
            Ok(())
        } else {
            Err(())
        }
    }

    /// Exact entrywise sum.
    /// Exact entrywise sum.
    pub fn add(&self, o: &Matrix) -> (r: Option<Matrix>)
        requires
            self.wf(),
            o.wf(),
            self.spec_rows() == o.spec_rows(),
            self.spec_cols() == o.spec_cols(),
        ensures
            r matches Some(m) ==> m.wf() && m.spec_rows() == self.spec_rows() && m.spec_cols()
                == self.spec_cols() && forall|i: int, j: int|
                0 <= i < m.spec_rows() && 0 <= j < m.spec_cols() ==> Some(#[trigger] m.ent(i, j))
                    == ch_add(self.ent(i, j), o.ent(i, j)),
            r is None ==> exists|i: int, j: int|
                0 <= i < self.spec_rows() && 0 <= j < self.spec_cols() && #[trigger] ch_add(
                    self.ent(i, j),
                    o.ent(i, j),
                ) is None,
    {
        proof {
            lemma_idx(self.rows as int - 1, self.cols as int - 1, self.rows as int, self.cols as int);
        }
        let total = self.rows * self.cols;
        let cols = self.cols;
        let mut data: Vec<Rat> = Vec::new();
        let mut k: usize = 0;
        while k < total
            invariant
                self.wf(),
                o.wf(),
                self.rows == o.rows,
                self.cols == o.cols,
                cols == self.cols,
                total == self.rows * self.cols,
                k <= total,
                data@.len() == k,
                forall|t: int|
                    0 <= t < k ==> Some((#[trigger] data@[t])@) == ch_add(
                        self.ent(t / cols as int, t % cols as int),
                        o.ent(t / cols as int, t % cols as int),
                    ),
                forall|t: int| 0 <= t < k ==> (#[trigger] data@[t]).wf(),
            decreases total - k,
        {
            let i = k / cols;
            let j = k % cols;
            proof {
                lemma_flat_bounds(k as int, self.rows as int, self.cols as int);
                self.lemma_ent_wf(i as int, j as int);
                o.lemma_ent_wf(i as int, j as int);
            }
            let s = self.at(i, j).add(&o.at(i, j));
            match s {
                Some(v) => {
                    data.push(v);
                },
                None => {
                    return None;
                },
            }
            k += 1;
        }
        let m = Matrix { rows: self.rows, cols: self.cols, data };
        proof {
            assert forall|i: int, j: int|
                0 <= i < m.spec_rows() && 0 <= j < m.spec_cols() implies Some(
                #[trigger] m.ent(i, j),
            ) == ch_add(self.ent(i, j), o.ent(i, j)) by {
                lemma_unflatten(i, j, self.rows as int, self.cols as int);
                assert(Some(m.data@[i * m.cols as int + j]@) == ch_add(self.ent(i, j), o.ent(i, j)));
            }
        }
        Some(m)
    }

    /// Exact entrywise difference.
    pub fn sub(&self, o: &Matrix) -> (r: Option<Matrix>)
        requires
            self.wf(),
            o.wf(),
            self.spec_rows() == o.spec_rows(),
            self.spec_cols() == o.spec_cols(),
        ensures
            r matches Some(m) ==> m.wf() && m.spec_rows() == self.spec_rows() && m.spec_cols()
                == self.spec_cols() && forall|i: int, j: int|
                0 <= i < m.spec_rows() && 0 <= j < m.spec_cols() ==> Some(#[trigger] m.ent(i, j))
                    == ch_sub(self.ent(i, j), o.ent(i, j)),
            r is None ==> exists|i: int, j: int|
                0 <= i < self.spec_rows() && 0 <= j < self.spec_cols() && #[trigger] ch_sub(
                    self.ent(i, j),
                    o.ent(i, j),
                ) is None,
    {
        proof {
            lemma_idx(self.rows as int - 1, self.cols as int - 1, self.rows as int, self.cols as int);
        }
        let total = self.rows * self.cols;
        let cols = self.cols;
        let mut data: Vec<Rat> = Vec::new();
        let mut k: usize = 0;
        while k < total
            invariant
                self.wf(),
                o.wf(),
                self.rows == o.rows,
                self.cols == o.cols,
                cols == self.cols,
                total == self.rows * self.cols,
                k <= total,
                data@.len() == k,
                forall|t: int|
                    0 <= t < k ==> Some((#[trigger] data@[t])@) == ch_sub(
                        self.ent(t / cols as int, t % cols as int),
                        o.ent(t / cols as int, t % cols as int),
                    ),
                forall|t: int| 0 <= t < k ==> (#[trigger] data@[t]).wf(),
            decreases total - k,
        {
            let i = k / cols;
            let j = k % cols;
            proof {
                lemma_flat_bounds(k as int, self.rows as int, self.cols as int);
                self.lemma_ent_wf(i as int, j as int);
                o.lemma_ent_wf(i as int, j as int);
            }
            let s = self.at(i, j).sub(&o.at(i, j));
            match s {
                Some(v) => {
                    data.push(v);
                },
                None => {
                    return None;
                },
            }
            k += 1;
        }
        let m = Matrix { rows: self.rows, cols: self.cols, data };
        proof {
            assert forall|i: int, j: int|
                0 <= i < m.spec_rows() && 0 <= j < m.spec_cols() implies Some(
                #[trigger] m.ent(i, j),
            ) == ch_sub(self.ent(i, j), o.ent(i, j)) by {
                lemma_unflatten(i, j, self.rows as int, self.cols as int);
                assert(Some(m.data@[i * m.cols as int + j]@) == ch_sub(self.ent(i, j), o.ent(i, j)));
            }
        }
        Some(m)
    }

    fn mm_entry(&self, o: &Matrix, i: usize, j: usize) -> (r: Option<Rat>)
        requires
            self.wf(),
            o.wf(),
            self.spec_cols() == o.spec_rows(),
            i < self.spec_rows(),
            j < o.spec_cols(),
        ensures
            opt_q(r) == ch_mm(*self, *o, i as int, j as int),
            r matches Some(v) ==> v.wf(),
    {
        let mut acc = Rat::zero();
        let mut k: usize = 0;
        while k < self.cols
            invariant
                self.wf(),
                o.wf(),
                self.cols == o.rows,
                i < self.rows,
                j < o.cols,
                k <= self.cols,
                acc.wf(),
                Some(acc@) == ch_mm_k(*self, *o, i as int, j as int, k as int),
            decreases self.cols - k,
        {
            proof {
                self.lemma_ent_wf(i as int, k as int);
                o.lemma_ent_wf(k as int, j as int);
            }
            let m = self.at(i, k).mul(&o.at(k, j));
            match m {
                Some(mv) => {
                    match acc.add(&mv) {
                        Some(s) => {
                            acc = s;
                        },
                        None => {
                            proof {
                                lemma_mm_k_none(
                                    *self,
                                    *o,
                                    i as int,
                                    j as int,
                                    k as int + 1,
                                    self.cols as int,
                                );
                            }
                            return None;
                        },
                    }
                },
                None => {
                    proof {
                        lemma_mm_k_none(
                            *self,
                            *o,
                            i as int,
                            j as int,
                            k as int + 1,
                            self.cols as int,
                        );
                    }
                    return None;
                },
            }
            k += 1;
        }
        Some(acc)
    }

    /// Exact matrix product.
    /// Exact matrix product.
    pub fn mul(&self, o: &Matrix) -> (r: Option<Matrix>)
        requires
            self.wf(),
            o.wf(),
            self.spec_cols() == o.spec_rows(),
        ensures
            r matches Some(m) ==> m.wf() && m.spec_rows() == self.spec_rows() && m.spec_cols()
                == o.spec_cols() && forall|i: int, j: int|
                0 <= i < m.spec_rows() && 0 <= j < m.spec_cols() ==> Some(#[trigger] m.ent(i, j))
                    == ch_mm(*self, *o, i, j),
            r is None ==> exists|i: int, j: int|
                0 <= i < self.spec_rows() && 0 <= j < o.spec_cols() && #[trigger] ch_mm(
                    *self,
                    *o,
                    i,
                    j,
                ) is None,
    {
        proof {
            lemma_idx(self.rows as int - 1, o.cols as int - 1, self.rows as int, o.cols as int);
        }
        let total = self.rows * o.cols;
        let cols = o.cols;
        let mut data: Vec<Rat> = Vec::new();
        let mut k: usize = 0;
        while k < total
            invariant
                self.wf(),
                o.wf(),
                self.cols == o.rows,
                cols == o.cols,
                total == self.rows * o.cols,
                k <= total,
                data@.len() == k,
                forall|t: int|
                    0 <= t < k ==> Some((#[trigger] data@[t])@) == ch_mm(
                        *self,
                        *o,
                        t / cols as int,
                        t % cols as int,
                    ),
                forall|t: int| 0 <= t < k ==> (#[trigger] data@[t]).wf(),
            decreases total - k,
        {
            let i = k / cols;
            let j = k % cols;
            proof {
                lemma_flat_bounds(k as int, self.rows as int, o.cols as int);
            }
            let e = self.mm_entry(o, i, j);
            match e {
                Some(v) => {
                    data.push(v);
                },
                None => {
                    return None;
                },
            }
            k += 1;
        }
        let m = Matrix { rows: self.rows, cols: o.cols, data };
        proof {
            assert forall|i: int, j: int|
                0 <= i < m.spec_rows() && 0 <= j < m.spec_cols() implies Some(
                #[trigger] m.ent(i, j),
            ) == ch_mm(*self, *o, i, j) by {
                lemma_unflatten(i, j, self.rows as int, o.cols as int);
                assert(Some(m.data@[i * m.cols as int + j]@) == ch_mm(*self, *o, i, j));
            }
        }
        Some(m)
    }

    /// The transposed matrix; always exact.
    pub fn transpose(&self) -> (r: Matrix)
        requires
            self.wf(),
        ensures
            r.wf(),
            r.spec_rows() == self.spec_cols(),
            r.spec_cols() == self.spec_rows(),
            forall|i: int, j: int|
                0 <= i < r.spec_rows() && 0 <= j < r.spec_cols() ==> #[trigger] r.ent(i, j)
                    == self.ent(j, i),
    {
        proof {
            lemma_idx(self.cols as int - 1, self.rows as int - 1, self.cols as int, self.rows as int);
        }
        let total = self.cols * self.rows;
        let cols = self.rows;
        let mut data: Vec<Rat> = Vec::new();
        let mut k: usize = 0;
        while k < total
            invariant
                self.wf(),
                cols == self.rows,
                total == self.cols * self.rows,
                k <= total,
                data@.len() == k,
                forall|t: int|
                    0 <= t < k ==> (#[trigger] data@[t])@ == self.ent(
                        t % cols as int,
                        t / cols as int,
                    ),
                forall|t: int| 0 <= t < k ==> (#[trigger] data@[t]).wf(),
            decreases total - k,
        {
            let i = k / cols;
            let j = k % cols;
            proof {
                lemma_flat_bounds(k as int, self.cols as int, self.rows as int);
            }
            data.push(self.at(j, i));
            k += 1;
        }
        let m = Matrix { rows: self.cols, cols: self.rows, data };
        proof {
            assert forall|i: int, j: int|
                0 <= i < m.spec_rows() && 0 <= j < m.spec_cols() implies #[trigger] m.ent(i, j)
                == self.ent(j, i) by {
                lemma_unflatten(i, j, self.cols as int, self.rows as int);
                assert(m.data@[i * m.cols as int + j]@ == self.ent(j, i));
            }
        }
        m
    }
    /// Whether two matrices hold entrywise equal rational values.
    pub fn eq_matrix(&self, o: &Matrix) -> (r: bool)
        requires
            self.wf(),
            o.wf(),
        ensures
            r <==> (self.spec_rows() == o.spec_rows() && self.spec_cols() == o.spec_cols() && forall|
                i: int,
                j: int,
            |
                0 <= i < self.spec_rows() && 0 <= j < self.spec_cols() ==> crate::rat::q_eq(
                    #[trigger] self.ent(i, j),
                    o.ent(i, j),
                )),
    {
        if self.rows != o.rows || self.cols != o.cols {
            return false;
        }
        let mut i: usize = 0;
        while i < self.rows
            invariant
                self.wf(),
                o.wf(),
                self.rows == o.rows,
                self.cols == o.cols,
                i <= self.rows,
                forall|a: int, b: int|
                    0 <= a < i && 0 <= b < self.spec_cols() ==> crate::rat::q_eq(
                        #[trigger] self.ent(a, b),
                        o.ent(a, b),
                    ),
            decreases self.rows - i,
        {
            let mut j: usize = 0;
            while j < self.cols
                invariant
                    self.wf(),
                    o.wf(),
                    self.rows == o.rows,
                    self.cols == o.cols,
                    i < self.rows,
                    j <= self.cols,
                    forall|a: int, b: int|
                        0 <= a < i && 0 <= b < self.spec_cols() ==> crate::rat::q_eq(
                            #[trigger] self.ent(a, b),
                            o.ent(a, b),
                        ),
                    forall|b: int|
                        0 <= b < j ==> crate::rat::q_eq(
                            #[trigger] self.ent(i as int, b),
                            o.ent(i as int, b),
                        ),
                decreases self.cols - j,
            {
                proof {
                    self.lemma_ent_wf(i as int, j as int);
                    o.lemma_ent_wf(i as int, j as int);
                }
                if !self.at(i, j).eq_rat(&o.at(i, j)) {
                    return false;
                }
                j += 1;
            }
            i += 1;
        }
        true
    }
}

/// Checked linear combination `e0*x + e1*y + e2*z + e3*w` of one matrix row
/// with a four-vector.
pub open spec fn ch_row4(m: Matrix, i: int, v: crate::vec::V4q) -> Option<Q> {
    match (ch_mul(m.ent(i, 0), v.x), ch_mul(m.ent(i, 1), v.y), ch_mul(m.ent(i, 2), v.z), ch_mul(
        m.ent(i, 3),
        v.w,
    )) {
        (Some(a), Some(b), Some(c), Some(d)) => match ch_add(a, b) {
            Some(s0) => match ch_add(s0, c) {
                Some(s1) => ch_add(s1, d),
                None => None,
            },
            None => None,
        },
        _ => None,
    }
}

/// The checked product of a 4x4 matrix and a homogeneous vector.
pub open spec fn ch_apply4(m: Matrix, v: crate::vec::V4q) -> Option<crate::vec::V4q> {
    match (ch_row4(m, 0, v), ch_row4(m, 1, v), ch_row4(m, 2, v), ch_row4(m, 3, v)) {
        (Some(a), Some(b), Some(c), Some(d)) => Some(crate::vec::V4q { x: a, y: b, z: c, w: d }),
        _ => None,
    }
}

impl Matrix {
    /// Apply a 4x4 matrix to a homogeneous vector.
    pub fn apply4(&self, v: &crate::vec::Vector4) -> (r: Option<crate::vec::Vector4>)
        requires
            self.wf(),
            self.spec_rows() == 4,
            self.spec_cols() == 4,
            v.wf(),
        ensures
            crate::vec::opt_v4(r) == ch_apply4(*self, v@),
            r matches Some(u) ==> u.wf(),
    {
        let x = self.row_apply4(v, 0)?;
        let y = self.row_apply4(v, 1)?;
        let z = self.row_apply4(v, 2)?;
        let w = self.row_apply4(v, 3)?;
        Some(crate::vec::Vector4 { x, y, z, w })
    }

    fn row_apply4(&self, v: &crate::vec::Vector4, i: usize) -> (r: Option<Rat>)
        requires
            self.wf(),
            self.spec_rows() == 4,
            self.spec_cols() == 4,
            i < 4,
            v.wf(),
        ensures
            opt_q(r) == ch_row4(*self, i as int, v@),
            r matches Some(u) ==> u.wf(),
    {
        proof {
            self.lemma_ent_wf(i as int, 0);
            self.lemma_ent_wf(i as int, 1);
            self.lemma_ent_wf(i as int, 2);
            self.lemma_ent_wf(i as int, 3);
        }
        let a = self.at(i, 0).mul(&v.x)?;
        let b = self.at(i, 1).mul(&v.y)?;
        let c = self.at(i, 2).mul(&v.z)?;
        let d = self.at(i, 3).mul(&v.w)?;
        let s0 = a.add(&b)?;
        let s1 = s0.add(&c)?;
        s1.add(&d)
    }
}

} // verus!
