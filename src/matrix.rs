//! A dense matrix over a generic element type, with the operations of
//! linear algebra that homogeneous transforms need.
use vstd::prelude::*;

verus! {

use crate::arith::{
    default_value, exact_add_mul, exact_div, exact_eq, exact_ring, is_default, is_negation, is_unit,
    negation,
    total_add_mul, total_div, total_ring, unit_value,
};
use crate::model::{
    cofactor_fits, cofactor_model, column, det_fits, det_model, det_terms, dot, filled,
    identity_model, inverse_fits, inverse_model, lemma_terms_fit_prefix, minor_fits, minor_model,
    product_fits, product_model, rotation_model,
    scaling_model, shearing_model, submatrix_model, terms_fit, translation_model, transpose_model,
};
use vstd::std_specs::cmp::PartialEqSpec;
use vstd::std_specs::ops::AddSpec;
use vstd::std_specs::ops::DivSpec;
use vstd::std_specs::ops::MulSpec;
use vstd::std_specs::ops::NegSpec;
use vstd::std_specs::ops::SubSpec;

/// The error of every matrix operation: its arguments do not fit it.
#[derive(Debug)]
pub enum MatrixError {
    InvalidArgument(String),
}

impl MatrixError {
    /// What was wrong with the arguments.
    pub fn message(&self) -> (r: &String)
        ensures
            r == match self {
                MatrixError::InvalidArgument(m) => m,
            },
    {
        match self {
            MatrixError::InvalidArgument(m) => m,
        }
    }
}

/// The axis of a rotation.
#[derive(Debug, Clone, Copy, PartialEq, Eq, Structural)]
pub enum Axis {
    X,
    Y,
    Z,
}

/// A `rows` by `cols` matrix, held row by row.
#[derive(Debug, Clone, PartialEq, Eq)]
pub struct Matrix<T> {
    rows: usize,
    cols: usize,
    data: Vec<Vec<T>>,
}

impl<T> View for Matrix<T> {
    type V = Seq<Seq<T>>;

    closed spec fn view(&self) -> Seq<Seq<T>> {
        self.data@.map_values(|row: Vec<T>| row@)
    }
}

impl<T> Matrix<T> {
    /// The number of rows.
    pub closed spec fn nrows(&self) -> nat {
        self.rows as nat
    }

    /// The number of columns.
    pub closed spec fn ncols(&self) -> nat {
        self.cols as nat
    }

    /// The view has `nrows` rows of `ncols` entries each.
    pub open spec fn wf(&self) -> bool {
        &&& self@.len() == self.nrows()
        &&& forall|i: int| 0 <= i < self@.len() ==> (#[trigger] self@[i]).len() == self.ncols()
    }

    /// The number of rows.
    pub fn num_rows(&self) -> (r: usize)
        ensures
            r == self.nrows(),
    {
        self.rows
    }

    /// The number of columns.
    pub fn num_cols(&self) -> (r: usize)
        ensures
            r == self.ncols(),
    {
        self.cols
    }

    /// Row `i` of the view is the view of row `i` of the data.
    proof fn lemma_view_row(&self, i: int)
        requires
            0 <= i < self.data@.len(),
        ensures
            self@[i] == self.data@[i]@,
            self@.len() == self.data@.len(),
    {
    }
}

impl<T: Copy> Matrix<T> {
    /// A `rows` by `cols` matrix with every entry `v`.
    pub fn filled_with(rows: usize, cols: usize, v: T) -> (m: Self)
        ensures
            m.wf(),
            m.nrows() == rows,
            m.ncols() == cols,
            m@ == filled(rows as nat, cols as nat, v),
    {
        let mut data: Vec<Vec<T>> = Vec::new();
        let mut i: usize = 0;
        while i < rows
            invariant
                i <= rows,
                data@.len() == i,
                forall|k: int| 0 <= k < i ==> (#[trigger] data@[k])@ == Seq::new(cols as nat, |j: int| v),
            decreases rows - i,
        {
            let mut row: Vec<T> = Vec::new();
            let mut j: usize = 0;
            while j < cols
                invariant
                    j <= cols,
                    row@ == Seq::new(j as nat, |k: int| v),
                decreases cols - j,
            {
                row.push(v);
                j += 1;
                assert(row@ =~= Seq::new(j as nat, |k: int| v));
            }
            data.push(row);
            i += 1;
        }
        let m = Matrix { rows, cols, data };
        assert(m@ =~= filled(rows as nat, cols as nat, v));
        m
    }

    /// The entry at `row`, `col`.
    pub fn get(&self, row: usize, col: usize) -> (r: T)
        requires
            self.wf(),
            row < self.nrows(),
            col < self.ncols(),
        ensures
            r == self@[row as int][col as int],
    {
        proof { self.lemma_view_row(row as int); }
        self.data[row][col]
    }

    /// Sets the entry at `row`, `col` to `v`.
    pub fn set(&mut self, row: usize, col: usize, v: T)
        requires
            old(self).wf(),
            row < old(self).nrows(),
            col < old(self).ncols(),
        ensures
            final(self).wf(),
            final(self).nrows() == old(self).nrows(),
            final(self).ncols() == old(self).ncols(),
            final(self)@ == old(self)@.update(row as int, old(self)@[row as int].update(col as int, v)),
    {
        proof { self.lemma_view_row(row as int); }
        self.data[row][col] = v;
        proof {
            assert(self@ =~= old(self)@.update(row as int, old(self)@[row as int].update(col as int, v)));
        }
    }
}

impl<T: Copy> Matrix<T> {
    /// The rows of the matrix, in order.
    pub fn iter(&self) -> (r: Vec<Vec<T>>)
        requires
            self.wf(),
        ensures
            r@.map_values(|row: Vec<T>| row@) == self@,
    {
        let mut out: Vec<Vec<T>> = Vec::new();
        let mut i: usize = 0;
        while i < self.rows
            invariant
                self.wf(),
                i <= self.nrows(),
                out@.len() == i,
                forall|k: int| 0 <= k < i ==> (#[trigger] out@[k])@ == self@[k],
            decreases self.rows - i,
        {
            proof { self.lemma_view_row(i as int); }
            let row = self.copy_row(i);
            out.push(row);
            i += 1;
        }
        assert(out@.map_values(|row: Vec<T>| row@) =~= self@);
        out
    }

    fn copy_row(&self, i: usize) -> (r: Vec<T>)
        requires
            self.wf(),
            i < self.nrows(),
        ensures
            r@ == self@[i as int],
    {
        proof { self.lemma_view_row(i as int); }
        let src = &self.data[i];
        let mut row: Vec<T> = Vec::new();
        let mut j: usize = 0;
        while j < src.len()
            invariant
                j <= src@.len(),
                row@ == src@.take(j as int),
            decreases src.len() - j,
        {
            row.push(src[j]);
            j += 1;
            assert(row@ =~= src@.take(j as int));
        }
        assert(src@.take(j as int) =~= src@);
        row
    }

    /// The entries in row-major order.
    pub fn to_vec(&self) -> (r: Vec<T>)
        requires
            self.wf(),
        ensures
            r@ == self@.flatten(),
    {
        let mut out: Vec<T> = Vec::new();
        let mut i: usize = 0;
        while i < self.rows
            invariant
                self.wf(),
                i <= self.nrows(),
                out@ == self@.take(i as int).flatten(),
            decreases self.rows - i,
        {
            proof { self.lemma_view_row(i as int); }
            let mut j: usize = 0;
            while j < self.cols
                invariant
                    self.wf(),
                    i < self.nrows(),
                    j <= self.ncols(),
                    out@ == self@.take(i as int).flatten() + self@[i as int].take(j as int),
                decreases self.cols - j,
            {
                proof { self.lemma_view_row(i as int); }
                out.push(self.data[i][j]);
                j += 1;
                assert(out@ =~= self@.take(i as int).flatten() + self@[i as int].take(j as int));
            }
            proof {
                assert(self@[i as int].take(j as int) =~= self@[i as int]);
                assert(self@.take(i + 1) =~= self@.take(i as int).push(self@[i as int]));
                self@.take(i as int).lemma_flatten_push(self@[i as int]);
            }
            i += 1;
        }
        assert(self@.take(i as int) =~= self@);
        out
    }

    /// The matrix whose rows are the given arrays.
    pub fn from_rows<const R: usize, const C: usize>(x: [[T; C]; R]) -> (m: Self)
        ensures
            m.wf(),
            m.nrows() == R,
            m.ncols() == C,
            m@ == x@.map_values(|row: [T; C]| row@),
    {
        let mut data: Vec<Vec<T>> = Vec::new();
        let mut r: usize = 0;
        while r < R
            invariant
                r <= R,
                data@.len() == r,
                forall|k: int| 0 <= k < r ==> (#[trigger] data@[k])@ == x@[k]@,
            decreases R - r,
        {
            let src: [T; C] = x[r];
            let mut row: Vec<T> = Vec::new();
            let mut c: usize = 0;
            while c < C
                invariant
                    c <= C,
                    row@ == src@.take(c as int),
                decreases C - c,
            {
                row.push(src[c]);
                c += 1;
                assert(row@ =~= src@.take(c as int));
            }
            assert(src@.take(c as int) =~= src@);
            data.push(row);
            r += 1;
        }
        let m = Matrix { rows: R, cols: C, data };
        assert(m@ =~= x@.map_values(|row: [T; C]| row@));
        m
    }

    /// The matrix with one column holding the given array.
    pub fn from_column<const R: usize>(x: [T; R]) -> (m: Self)
        ensures
            m.wf(),
            m.nrows() == R,
            m.ncols() == 1,
            m@ == x@.map_values(|v: T| seq![v]),
    {
        let mut data: Vec<Vec<T>> = Vec::new();
        let mut r: usize = 0;
        while r < R
            invariant
                r <= R,
                data@.len() == r,
                forall|k: int| 0 <= k < r ==> (#[trigger] data@[k])@ == seq![x@[k]],
            decreases R - r,
        {
            let mut row: Vec<T> = Vec::new();
            row.push(x[r]);
            assert(row@ =~= seq![x@[r as int]]);
            data.push(row);
            r += 1;
        }
        let m = Matrix { rows: R, cols: 1, data };
        assert(m@ =~= x@.map_values(|v: T| seq![v]));
        m
    }

    /// The transpose: entry `(c, r)` of the result is entry `(r, c)` of `self`.
    pub fn transpose(&self) -> (m: Self)
        requires
            self.wf(),
        ensures
            m.wf(),
            m.nrows() == self.ncols(),
            m.ncols() == self.nrows(),
            m@ == transpose_model(self@, self.nrows(), self.ncols()),
    {
        let ghost t = transpose_model(self@, self.nrows(), self.ncols());
        let mut data: Vec<Vec<T>> = Vec::new();
        let mut c: usize = 0;
        while c < self.cols
            invariant
                self.wf(),
                c <= self.ncols(),
                t == transpose_model(self@, self.nrows(), self.ncols()),
                data@.len() == c,
                forall|k: int| 0 <= k < c ==> (#[trigger] data@[k])@ == t[k],
            decreases self.cols - c,
        {
            let mut row: Vec<T> = Vec::new();
            let mut r: usize = 0;
            while r < self.rows
                invariant
                    self.wf(),
                    c < self.ncols(),
                    r <= self.nrows(),
                    row@ == t[c as int].take(r as int),
                    t == transpose_model(self@, self.nrows(), self.ncols()),
                decreases self.rows - r,
            {
                proof { self.lemma_view_row(r as int); }
                row.push(self.data[r][c]);
                r += 1;
                assert(row@ =~= t[c as int].take(r as int));
            }
            assert(t[c as int].take(r as int) =~= t[c as int]);
            data.push(row);
            c += 1;
        }
        let m = Matrix { rows: self.cols, cols: self.rows, data };
        assert(m@ =~= t);
        m
    }

    /// The matrix without row `row` and column `col`; an error when either
    /// index is out of range.
    pub fn submatrix(&self, row: usize, col: usize) -> (r: Result<Self, MatrixError>)
        requires
            self.wf(),
        ensures
            r is Err <==> (row >= self.nrows() || col >= self.ncols()),
            r matches Ok(m) ==> {
                &&& m.wf()
                &&& m.nrows() == self.nrows() - 1
                &&& m.ncols() == self.ncols() - 1
                &&& m@ == submatrix_model(self@, row as int, col as int)
            },
    {
        if row >= self.rows || col >= self.cols {
            return Err(MatrixError::InvalidArgument("row or column out of range".to_owned()));
        }
        let ghost s = submatrix_model(self@, row as int, col as int);
        let mut data: Vec<Vec<T>> = Vec::new();
        let mut r: usize = 0;
        while r < self.rows
            invariant
                self.wf(),
                row < self.nrows(),
                col < self.ncols(),
                r <= self.nrows(),
                s == submatrix_model(self@, row as int, col as int),
                s.len() == self.nrows() - 1,
                data@.len() == if r <= row { r as int } else { r - 1 },
                forall|k: int| 0 <= k < data@.len() ==> (#[trigger] data@[k])@ == s[k],
            decreases self.rows - r,
        {
            if r != row {
                proof { self.lemma_view_row(r as int); }
                let ghost k: int = if r < row { r as int } else { r - 1 };
                assert(s[k] == self@[r as int].remove(col as int));
                let mut out: Vec<T> = Vec::new();
                let mut c: usize = 0;
                while c < self.cols
                    invariant
                        self.wf(),
                        r < self.nrows(),
                        col < self.ncols(),
                        c <= self.ncols(),
                        out@ == self@[r as int].remove(col as int).take(if c <= col { c as int } else { c - 1 }),
                    decreases self.cols - c,
                {
                    proof { self.lemma_view_row(r as int); }
                    if c != col {
                        out.push(self.data[r][c]);
                    }
                    c += 1;
                    assert(out@ =~= self@[r as int].remove(col as int).take(if c <= col { c as int } else { c - 1 }));
                }
                assert(self@[r as int].remove(col as int).take(c - 1) =~= self@[r as int].remove(col as int));
                data.push(out);
            }
            r += 1;
        }
        let m = Matrix { rows: self.rows - 1, cols: self.cols - 1, data };
        assert(m@ =~= s);
        Ok(m)
    }
}

impl<T: Copy + Default> Matrix<T> {
    /// A `rows` by `cols` matrix of default entries.
    pub fn new(rows: usize, cols: usize) -> (m: Self)
        ensures
            m.wf(),
            m.nrows() == rows,
            m.ncols() == cols,
            exists|z: T| is_default(z) && m@ == filled(rows as nat, cols as nat, z),
    {
        let z: T = default_value();
        Self::filled_with(rows, cols, z)
    }

    /// A `dimensions` by `dimensions` matrix with `value` on the diagonal and
    /// default entries elsewhere.
    pub fn identity(dimensions: usize, value: T) -> (m: Self)
        ensures
            m.wf(),
            m.nrows() == dimensions,
            m.ncols() == dimensions,
            exists|z: T| is_default(z) && m@ == identity_model(dimensions as nat, value, z),
    {
        let z: T = default_value();
        let mut m = Self::filled_with(dimensions, dimensions, z);
        let mut i: usize = 0;
        while i < dimensions
            invariant
                m.wf(),
                i <= dimensions,
                m.nrows() == dimensions,
                m.ncols() == dimensions,
                forall|r: int, c: int| 0 <= r < dimensions && 0 <= c < dimensions ==>
                    #[trigger] m@[r][c] == if r == c && r < i { value } else { z },
            decreases dimensions - i,
        {
            m.set(i, i, value);
            i += 1;
        }
        assert forall|r: int| 0 <= r < dimensions implies #[trigger] m@[r] =~= identity_model(
            dimensions as nat,
            value,
            z,
        )[r] by {
            assert(m@[r].len() == dimensions);
        }
        assert(m@ =~= identity_model(dimensions as nat, value, z));
        m
    }
}

impl<T> Matrix<T> where T: Copy + Default + core::ops::Add<Output = T> + core::ops::Mul<Output = T> {
    /// The product may be computed: `T`'s operators are total, or they are
    /// exact and no step of the product overflows.
    pub open spec fn can_multiply(&self, rhs: &Matrix<T>) -> bool {
        ||| total_add_mul::<T>()
        ||| exact_add_mul::<T>() && forall|z: T| is_default(z) ==> product_fits(self@, rhs@, rhs.ncols(), z)
    }

    /// The product `self * rhs`; an error when the number of columns of
    /// `self` differs from the number of rows of `rhs`.
    pub fn multiply(&self, rhs: &Matrix<T>) -> (r: Result<Matrix<T>, MatrixError>)
        requires
            self.wf(),
            rhs.wf(),
            self.can_multiply(rhs),
        ensures
            r is Err <==> self.ncols() != rhs.nrows(),
            r matches Ok(m) ==> {
                &&& m.wf()
                &&& m.nrows() == self.nrows()
                &&& m.ncols() == rhs.ncols()
                &&& exact_add_mul::<T>() ==> exists|z: T|
                    is_default(z) && m@ == product_model(self@, rhs@, rhs.ncols(), z)
            },
    {
        if self.cols != rhs.rows {
            return Err(MatrixError::InvalidArgument("inner dimensions differ".to_owned()));
        }
        let z: T = default_value();
        let ghost p = product_model(self@, rhs@, rhs.ncols(), z);
        let mut data: Vec<Vec<T>> = Vec::new();
        let mut i: usize = 0;
        while i < self.rows
            invariant
                self.wf(),
                rhs.wf(),
                self.ncols() == rhs.nrows(),
                is_default(z),
                self.can_multiply(rhs),
                p == product_model(self@, rhs@, rhs.ncols(), z),
                i <= self.nrows(),
                data@.len() == i,
                forall|k: int| 0 <= k < i ==> (#[trigger] data@[k])@.len() == rhs.ncols(),
                exact_add_mul::<T>() ==> forall|k: int| 0 <= k < i ==> (#[trigger] data@[k])@ == p[k],
            decreases self.rows - i,
        {
            proof { self.lemma_view_row(i as int); }
            let mut row: Vec<T> = Vec::new();
            let mut j: usize = 0;
            while j < rhs.cols
                invariant
                    self.wf(),
                    rhs.wf(),
                    self.ncols() == rhs.nrows(),
                    is_default(z),
                    self.can_multiply(rhs),
                    p == product_model(self@, rhs@, rhs.ncols(), z),
                    i < self.nrows(),
                    j <= rhs.ncols(),
                    row@.len() == j,
                    exact_add_mul::<T>() ==> forall|k: int| 0 <= k < j ==> row@[k] == p[i as int][k],
                decreases rhs.cols - j,
            {
                let mut acc: T = z;
                let mut k: usize = 0;
                while k < self.cols
                    invariant
                        self.wf(),
                        rhs.wf(),
                        self.ncols() == rhs.nrows(),
                        is_default(z),
                        self.can_multiply(rhs),
                        i < self.nrows(),
                        j < rhs.ncols(),
                        k <= self.ncols(),
                        exact_add_mul::<T>() ==> acc == dot(z, self@[i as int], column(rhs@, j as int), k as int),
                    decreases self.cols - k,
                {
                    proof {
                        self.lemma_view_row(i as int);
                        rhs.lemma_view_row(k as int);
                    }
                    let x = self.data[i][k];
                    let y = rhs.data[k][j];
                    proof {
                        if !total_add_mul::<T>() {
                            assert(product_fits(self@, rhs@, rhs.ncols(), z));
                            assert(column(rhs@, j as int)[k as int] == y);
                            assert(x.mul_req(y));
                            assert(dot(z, self@[i as int], column(rhs@, j as int), k as int).add_req(x.mul_spec(y)));
                        }
                    }
                    let prod = x * y;
                    acc = acc + prod;
                    k += 1;
                    proof {
                        if exact_add_mul::<T>() {
                            assert(column(rhs@, j as int)[k - 1] == y);
                        }
                    }
                }
                row.push(acc);
                j += 1;
            }
            data.push(row);
            i += 1;
        }
        let m = Matrix { rows: self.rows, cols: rhs.cols, data };
        proof {
            assert forall|k: int| 0 <= k < m@.len() implies (#[trigger] m@[k]).len() == m.ncols() by {
                m.lemma_view_row(k);
            }
            if exact_add_mul::<T>() {
                assert forall|k: int| 0 <= k < m@.len() implies #[trigger] m@[k] =~= p[k] by {
                    m.lemma_view_row(k);
                }
                assert(m@ =~= p);
            }
        }
        Ok(m)
    }
}

impl<T> Matrix<T> where
    T: Copy + Default + core::ops::Add<Output = T> + core::ops::Sub<Output = T> + core::ops::Mul<Output = T> + core::ops::Neg<Output = T>,
 {
    fn det_from(&self, z: T) -> (r: Result<T, MatrixError>)
        requires
            self.wf(),
            self.nrows() == self.ncols() ==> total_ring::<T>() || (exact_ring::<T>() && det_fits(self@, z)),
        ensures
            r is Err <==> self.nrows() != self.ncols(),
            r matches Ok(d) ==> (exact_ring::<T>() ==> d == det_model(self@, z)),
        decreases self.nrows(), 2int, 0int,
    {
        if self.rows != self.cols {
            return Err(MatrixError::InvalidArgument("expected a square matrix".to_owned()));
        }
        if self.cols == 1 {
            proof {
                self.lemma_view_row(0);
            }
            return Ok(self.data[0][0]);
        }
        if self.cols == 2 {
            proof {
                self.lemma_view_row(0);
                self.lemma_view_row(1);
            }
            let p = self.data[0][0] * self.data[1][1];
            let q = self.data[0][1] * self.data[1][0];
            return Ok(p - q);
        }
        let n = self.cols;
        let mut det: T = z;
        let mut col: usize = 0;
        while col < n
            invariant
                self.wf(),
                n == self.nrows(),
                n == self.ncols(),
                n != 1,
                n != 2,
                col <= n,
                total_ring::<T>() || (exact_ring::<T>() && det_fits(self@, z)),
                exact_ring::<T>() ==> det == det_terms(self@, z, col as int),
            decreases n - col,
        {
            proof {
                self.lemma_view_row(0);
                if !total_ring::<T>() {
                    lemma_terms_fit_prefix(self@, z, col + 1, n as int);
                    assert(terms_fit(self@, z, col + 1));
                }
            }
            let c = match self.cofactor_from(0, col, z) {
                Ok(c) => c,
                Err(e) => {
                    return Err(e);
                },
            };
            let x = self.data[0][col];
            let prod = x * c;
            det = det + prod;
            col += 1;
        }
        Ok(det)
    }

    fn minor_from(&self, row: usize, col: usize, z: T) -> (r: Result<T, MatrixError>)
        requires
            self.wf(),
            row < self.nrows() && col < self.ncols() && self.nrows() == self.ncols() ==>
                total_ring::<T>() || (exact_ring::<T>() && minor_fits(self@, z, row as int, col as int)),
        ensures
            r is Err <==> !(row < self.nrows() && col < self.ncols() && self.nrows() == self.ncols()),
            r matches Ok(d) ==> (exact_ring::<T>() ==> d == minor_model(self@, z, row as int, col as int)),
        decreases self.nrows(), 0int, 0int,
    {
        let s = match self.submatrix(row, col) {
            Ok(s) => s,
            Err(e) => {
                return Err(e);
            },
        };
        s.det_from(z)
    }

    fn cofactor_from(&self, row: usize, col: usize, z: T) -> (r: Result<T, MatrixError>)
        requires
            self.wf(),
            row < self.nrows() && col < self.ncols() && self.nrows() == self.ncols() ==>
                total_ring::<T>() || (exact_ring::<T>() && cofactor_fits(self@, z, row as int, col as int)),
        ensures
            r is Err <==> !(row < self.nrows() && col < self.ncols() && self.nrows() == self.ncols()),
            r matches Ok(d) ==> (exact_ring::<T>() ==> d == cofactor_model(self@, z, row as int, col as int)),
        decreases self.nrows(), 0int, 1int,
    {
        let m = match self.minor_from(row, col, z) {
            Ok(m) => m,
            Err(e) => {
                return Err(e);
            },
        };
        if row % 2 != col % 2 {
            assert((row + col) % 2 == 1);
            Ok(core::ops::Neg::neg(m))
        } else {
            assert((row + col) % 2 == 0);
            Ok(m)
        }
    }
}

impl<T> Matrix<T> where
    T: Copy + Default + core::ops::Add<Output = T> + core::ops::Sub<Output = T> + core::ops::Mul<Output = T> + core::ops::Neg<Output = T>,
 {
    /// The determinant may be computed: `T`'s operators are total, or they
    /// are exact and no step of the expansion overflows.
    pub open spec fn det_computable(&self) -> bool {
        ||| total_ring::<T>()
        ||| exact_ring::<T>() && forall|z: T| is_default(z) ==> det_fits(self@, z)
    }

    /// The determinant; an error when the matrix is not square. A 0 by 0
    /// matrix has no row to expand along: its determinant is the default value.
    pub fn determinant(&self) -> (r: Result<T, MatrixError>)
        requires
            self.wf(),
            self.nrows() == self.ncols() ==> self.det_computable(),
        ensures
            r is Err <==> self.nrows() != self.ncols(),
            r matches Ok(d) ==> (exact_ring::<T>() ==> exists|z: T|
                is_default(z) && d == det_model(self@, z)),
    {
        let z: T = default_value();
        self.det_from(z)
    }

    /// The determinant of the matrix without row `row` and column `col`; an
    /// error when the matrix is not square or an index is out of range.
    pub fn minor(&self, row: usize, col: usize) -> (r: Result<T, MatrixError>)
        requires
            self.wf(),
            row < self.nrows() && col < self.ncols() && self.nrows() == self.ncols() ==>
                total_ring::<T>() || (exact_ring::<T>() && forall|z: T|
                    is_default(z) ==> minor_fits(self@, z, row as int, col as int)),
        ensures
            r is Err <==> !(row < self.nrows() && col < self.ncols() && self.nrows() == self.ncols()),
            r matches Ok(d) ==> (exact_ring::<T>() ==> exists|z: T|
                is_default(z) && d == minor_model(self@, z, row as int, col as int)),
    {
        let z: T = default_value();
        self.minor_from(row, col, z)
    }

    /// The minor at `row`, `col`, negated where `row + col` is odd; an error
    /// when the matrix is not square or an index is out of range.
    pub fn cofactor(&self, row: usize, col: usize) -> (r: Result<T, MatrixError>)
        requires
            self.wf(),
            row < self.nrows() && col < self.ncols() && self.nrows() == self.ncols() ==>
                total_ring::<T>() || (exact_ring::<T>() && forall|z: T|
                    is_default(z) ==> cofactor_fits(self@, z, row as int, col as int)),
        ensures
            r is Err <==> !(row < self.nrows() && col < self.ncols() && self.nrows() == self.ncols()),
            r matches Ok(d) ==> (exact_ring::<T>() ==> exists|z: T|
                is_default(z) && d == cofactor_model(self@, z, row as int, col as int)),
    {
        let z: T = default_value();
        self.cofactor_from(row, col, z)
    }
}

impl<T> Matrix<T> where
    T: Copy + Default + PartialEq + core::ops::Add<Output = T> + core::ops::Sub<Output = T> + core::ops::Mul<Output = T> + core::ops::Neg<Output = T> + core::ops::Div<Output = T>,
 {
    /// Whether the determinant differs from the default value; an error when
    /// the matrix is not square.
    pub fn is_invertible(&self) -> (r: Result<bool, MatrixError>)
        requires
            self.wf(),
            self.nrows() == self.ncols() ==> self.det_computable(),
        ensures
            r is Err <==> self.nrows() != self.ncols(),
            r matches Ok(b) ==> (exact_ring::<T>() && exact_eq::<T>() ==> exists|z: T|
                is_default(z) && b == !det_model(self@, z).eq_spec(&z)),
    {
        let z: T = default_value();
        match self.det_from(z) {
            Ok(d) => Ok(!(d == z)),
            Err(e) => Err(e),
        }
    }

    /// The inverse may be computed: `T`'s operators are total, or they are
    /// exact and no step of the determinant or of a quotient overflows.
    pub open spec fn inverse_computable(&self) -> bool {
        ||| total_ring::<T>() && total_div::<T>()
        ||| exact_ring::<T>() && exact_div::<T>() && exact_eq::<T>() && forall|z: T|
            is_default(z) ==> inverse_fits(self@, z)
    }

    /// The inverse: the transposed cofactors over the determinant; an error
    /// when the matrix is not square or its determinant is the default value.
    pub fn inverse(&self) -> (r: Result<Self, MatrixError>)
        requires
            self.wf(),
            self.nrows() == self.ncols() ==> self.inverse_computable(),
        ensures
            self.nrows() != self.ncols() ==> r is Err,
            r matches Ok(m) ==> m.wf() && m.nrows() == self.nrows() && m.ncols() == self.ncols(),
            self.nrows() == self.ncols() && exact_ring::<T>() && exact_div::<T>() && exact_eq::<T>() ==> exists|z: T| {
                &&& is_default(z)
                &&& r is Err <==> det_model(self@, z).eq_spec(&z)
                &&& r matches Ok(m) ==> m@ == inverse_model(self@, z)
            },
    {
        if self.rows != self.cols {
            return Err(MatrixError::InvalidArgument("expected a square matrix".to_owned()));
        }
        let z: T = default_value();
        let det = match self.det_from(z) {
            Ok(d) => d,
            Err(e) => {
                return Err(e);
            },
        };
        if det == z {
            return Err(MatrixError::InvalidArgument("matrix is not invertible".to_owned()));
        }
        let n = self.rows;
        let ghost exact = exact_ring::<T>() && exact_div::<T>() && exact_eq::<T>();
        let ghost inv = inverse_model(self@, z);
        let mut data: Vec<Vec<T>> = Vec::new();
        let mut i: usize = 0;
        while i < n
            invariant
                self.wf(),
                n == self.nrows(),
                n == self.ncols(),
                is_default(z),
                self.inverse_computable(),
                exact == (exact_ring::<T>() && exact_div::<T>() && exact_eq::<T>()),
                exact ==> det == det_model(self@, z) && !det.eq_spec(&z),
                inv == inverse_model(self@, z),
                i <= n,
                data@.len() == i,
                forall|k: int| 0 <= k < i ==> (#[trigger] data@[k])@.len() == n,
                exact ==> forall|k: int| 0 <= k < i ==> (#[trigger] data@[k])@ == inv[k],
            decreases n - i,
        {
            let mut row: Vec<T> = Vec::new();
            let mut j: usize = 0;
            while j < n
                invariant
                    self.wf(),
                    n == self.nrows(),
                    n == self.ncols(),
                    is_default(z),
                    self.inverse_computable(),
                    exact == (exact_ring::<T>() && exact_div::<T>() && exact_eq::<T>()),
                    exact ==> det == det_model(self@, z) && !det.eq_spec(&z),
                    inv == inverse_model(self@, z),
                    i < n,
                    j <= n,
                    row@.len() == j,
                    exact ==> forall|k: int| 0 <= k < j ==> row@[k] == inv[i as int][k],
                decreases n - j,
            {
                proof {
                    if !(total_ring::<T>() && total_div::<T>()) {
                        assert(inverse_fits(self@, z));
                        assert(cofactor_fits(self@, z, j as int, i as int));
                    }
                }
                let c = match self.cofactor_from(j, i, z) {
                    Ok(c) => c,
                    Err(e) => {
                        return Err(e);
                    },
                };
                row.push(c / det);
                j += 1;
            }
            data.push(row);
            i += 1;
        }
        let m = Matrix { rows: n, cols: n, data };
        proof {
            assert forall|k: int| 0 <= k < m@.len() implies (#[trigger] m@[k]).len() == m.ncols() by {
                m.lemma_view_row(k);
            }
            if exact {
                assert forall|k: int| 0 <= k < m@.len() implies #[trigger] m@[k] =~= inv[k] by {
                    m.lemma_view_row(k);
                }
                assert(m@ =~= inv);
            }
        }
        Ok(m)
    }
}

impl<T: Copy + Default + From<u8>> Matrix<T> {
    /// The 4 by 4 matrix that moves a point by `(x, y, z)`.
    pub fn translation(x: T, y: T, z: T) -> (m: Self)
        ensures
            m.wf(),
            m.nrows() == 4,
            m.ncols() == 4,
            exists|o: T, e: T| is_unit(o) && is_default(e) && m@ == translation_model(x, y, z, o, e),
    {
        let o: T = unit_value();
        let e: T = default_value();
        let m = Self::from_rows([[o, e, e, x], [e, o, e, y], [e, e, o, z], [e, e, e, o]]);
        assert(m@ =~= translation_model(x, y, z, o, e));
        m
    }

    /// The 4 by 4 matrix that scales each coordinate by `x`, `y` and `z`.
    pub fn scaling(x: T, y: T, z: T) -> (m: Self)
        ensures
            m.wf(),
            m.nrows() == 4,
            m.ncols() == 4,
            exists|o: T, e: T| is_unit(o) && is_default(e) && m@ == scaling_model(x, y, z, o, e),
    {
        let o: T = unit_value();
        let e: T = default_value();
        let m = Self::from_rows([[x, e, e, e], [e, y, e, e], [e, e, z, e], [e, e, e, o]]);
        assert(m@ =~= scaling_model(x, y, z, o, e));
        m
    }

    /// The 4 by 4 matrix that adds to each coordinate the others in the given
    /// proportions: `x` gains `xy * y + xz * z`, and so on.
    pub fn shearing(xy: T, xz: T, yx: T, yz: T, zx: T, zy: T) -> (m: Self)
        ensures
            m.wf(),
            m.nrows() == 4,
            m.ncols() == 4,
            exists|o: T, e: T|
                is_unit(o) && is_default(e) && m@ == shearing_model(xy, xz, yx, yz, zx, zy, o, e),
    {
        let o: T = unit_value();
        let e: T = default_value();
        let m = Self::from_rows([[o, xy, xz, e], [yx, o, yz, e], [zx, zy, o, e], [e, e, e, o]]);
        assert(m@ =~= shearing_model(xy, xz, yx, yz, zx, zy, o, e));
        m
    }
}

impl<T: Copy + Default + From<u8> + core::ops::Neg<Output = T>> Matrix<T> {
    /// The 4 by 4 right-handed rotation about `axis` by the angle whose cosine
    /// and sine are `cos` and `sin`.
    pub fn rotation(axis: Axis, cos: T, sin: T) -> (m: Self)
        requires
            sin.neg_req(),
        ensures
            m.wf(),
            m.nrows() == 4,
            m.ncols() == 4,
            exists|n: T, o: T, e: T| {
                &&& is_negation(sin, n)
                &&& T::obeys_neg_spec() ==> n == sin.neg_spec()
                &&& is_unit(o)
                &&& is_default(e)
                &&& m@ == rotation_model(axis, cos, sin, n, o, e)
            },
    {
        let o: T = unit_value();
        let e: T = default_value();
        let n = negation(sin);
        let m = match axis {
            Axis::X => Self::from_rows([[o, e, e, e], [e, cos, n, e], [e, sin, cos, e], [e, e, e, o]]),
            Axis::Y => Self::from_rows([[cos, e, sin, e], [e, o, e, e], [n, e, cos, e], [e, e, e, o]]),
            Axis::Z => Self::from_rows([[cos, n, e, e], [sin, cos, e, e], [e, e, o, e], [e, e, e, o]]),
        };
        assert(m@ =~= rotation_model(axis, cos, sin, n, o, e));
        m
    }
}

impl<T> Matrix<T> where
    T: Copy + Default + From<u8> + core::ops::Add<Output = T> + core::ops::Mul<Output = T>,
 {
    /// `self` followed by the translation by `(x, y, z)`.
    pub fn translate(self, x: T, y: T, z: T) -> (r: Result<Matrix<T>, MatrixError>)
        requires
            self.wf(),
            total_add_mul::<T>() || (exact_add_mul::<T>() && forall|o: T, e: T, d: T|
                is_unit(o) && is_default(e) && is_default(d) ==> product_fits(
                    translation_model(x, y, z, o, e),
                    self@,
                    self.ncols(),
                    d,
                )),
        ensures
            r is Err <==> self.nrows() != 4,
            r matches Ok(m) ==> {
                &&& m.wf()
                &&& m.nrows() == 4
                &&& m.ncols() == self.ncols()
                &&& exact_add_mul::<T>() ==> exists|o: T, e: T, d: T| {
                    &&& is_unit(o)
                    &&& is_default(e)
                    &&& is_default(d)
                    &&& m@ == product_model(translation_model(x, y, z, o, e), self@, self.ncols(), d)
                }
            },
    {
        let t = Matrix::translation(x, y, z);
        let ghost (o, e) = choose|o: T, e: T| is_unit(o) && is_default(e) && t@ == translation_model(x, y, z, o, e);
        let r = t.multiply(&self);
        proof {
            if let Ok(m) = &r {
                if exact_add_mul::<T>() {
                    let d = choose|d: T| is_default(d) && m@ == product_model(t@, self@, self.ncols(), d);
                    assert(is_unit(o) && is_default(e) && is_default(d) && m@ == product_model(
                        translation_model(x, y, z, o, e),
                        self@,
                        self.ncols(),
                        d,
                    ));
                }
            }
        }
        r
    }

    /// `self` followed by the scaling by `(x, y, z)`.
    pub fn scale(self, x: T, y: T, z: T) -> (r: Result<Matrix<T>, MatrixError>)
        requires
            self.wf(),
            total_add_mul::<T>() || (exact_add_mul::<T>() && forall|o: T, e: T, d: T|
                is_unit(o) && is_default(e) && is_default(d) ==> product_fits(
                    scaling_model(x, y, z, o, e),
                    self@,
                    self.ncols(),
                    d,
                )),
        ensures
            r is Err <==> self.nrows() != 4,
            r matches Ok(m) ==> {
                &&& m.wf()
                &&& m.nrows() == 4
                &&& m.ncols() == self.ncols()
                &&& exact_add_mul::<T>() ==> exists|o: T, e: T, d: T| {
                    &&& is_unit(o)
                    &&& is_default(e)
                    &&& is_default(d)
                    &&& m@ == product_model(scaling_model(x, y, z, o, e), self@, self.ncols(), d)
                }
            },
    {
        let t = Matrix::scaling(x, y, z);
        let ghost (o, e) = choose|o: T, e: T| is_unit(o) && is_default(e) && t@ == scaling_model(x, y, z, o, e);
        let r = t.multiply(&self);
        proof {
            if let Ok(m) = &r {
                if exact_add_mul::<T>() {
                    let d = choose|d: T| is_default(d) && m@ == product_model(t@, self@, self.ncols(), d);
                    assert(is_unit(o) && is_default(e) && is_default(d) && m@ == product_model(
                        scaling_model(x, y, z, o, e),
                        self@,
                        self.ncols(),
                        d,
                    ));
                }
            }
        }
        r
    }

    /// `self` followed by the shearing with the given proportions.
    pub fn shear(self, xy: T, xz: T, yx: T, yz: T, zx: T, zy: T) -> (r: Result<Matrix<T>, MatrixError>)
        requires
            self.wf(),
            total_add_mul::<T>() || (exact_add_mul::<T>() && forall|o: T, e: T, d: T|
                is_unit(o) && is_default(e) && is_default(d) ==> product_fits(
                    shearing_model(xy, xz, yx, yz, zx, zy, o, e),
                    self@,
                    self.ncols(),
                    d,
                )),
        ensures
            r is Err <==> self.nrows() != 4,
            r matches Ok(m) ==> {
                &&& m.wf()
                &&& m.nrows() == 4
                &&& m.ncols() == self.ncols()
                &&& exact_add_mul::<T>() ==> exists|o: T, e: T, d: T| {
                    &&& is_unit(o)
                    &&& is_default(e)
                    &&& is_default(d)
                    &&& m@ == product_model(
                        shearing_model(xy, xz, yx, yz, zx, zy, o, e),
                        self@,
                        self.ncols(),
                        d,
                    )
                }
            },
    {
        let t = Matrix::shearing(xy, xz, yx, yz, zx, zy);
        let ghost (o, e) = choose|o: T, e: T|
            is_unit(o) && is_default(e) && t@ == shearing_model(xy, xz, yx, yz, zx, zy, o, e);
        let r = t.multiply(&self);
        proof {
            if let Ok(m) = &r {
                if exact_add_mul::<T>() {
                    let d = choose|d: T| is_default(d) && m@ == product_model(t@, self@, self.ncols(), d);
                    assert(is_unit(o) && is_default(e) && is_default(d) && m@ == product_model(
                        shearing_model(xy, xz, yx, yz, zx, zy, o, e),
                        self@,
                        self.ncols(),
                        d,
                    ));
                }
            }
        }
        r
    }
}

impl<T> Matrix<T> where
    T: Copy + Default + From<u8> + core::ops::Add<Output = T> + core::ops::Mul<Output = T> + core::ops::Neg<Output = T>,
 {
    /// `self` followed by the rotation about `axis` by the angle whose cosine
    /// and sine are `cos` and `sin`.
    pub fn rotate(self, axis: Axis, cos: T, sin: T) -> (r: Result<Matrix<T>, MatrixError>)
        requires
            self.wf(),
            sin.neg_req(),
            total_add_mul::<T>() || (exact_add_mul::<T>() && forall|n: T, o: T, e: T, d: T|
                is_negation(sin, n) && is_unit(o) && is_default(e) && is_default(d) ==> product_fits(
                    rotation_model(axis, cos, sin, n, o, e),
                    self@,
                    self.ncols(),
                    d,
                )),
        ensures
            r is Err <==> self.nrows() != 4,
            r matches Ok(m) ==> {
                &&& m.wf()
                &&& m.nrows() == 4
                &&& m.ncols() == self.ncols()
                &&& exact_add_mul::<T>() ==> exists|n: T, o: T, e: T, d: T| {
                    &&& is_negation(sin, n)
                    &&& is_unit(o)
                    &&& is_default(e)
                    &&& is_default(d)
                    &&& m@ == product_model(rotation_model(axis, cos, sin, n, o, e), self@, self.ncols(), d)
                }
            },
    {
        let t = Matrix::rotation(axis, cos, sin);
        let ghost (n, o, e) = choose|n: T, o: T, e: T|
            is_negation(sin, n) && is_unit(o) && is_default(e) && t@ == rotation_model(axis, cos, sin, n, o, e);
        let r = t.multiply(&self);
        proof {
            if let Ok(m) = &r {
                if exact_add_mul::<T>() {
                    let d = choose|d: T| is_default(d) && m@ == product_model(t@, self@, self.ncols(), d);
                    assert(is_negation(sin, n) && is_unit(o) && is_default(e) && is_default(d) && m@
                        == product_model(rotation_model(axis, cos, sin, n, o, e), self@, self.ncols(), d));
                }
            }
        }
        r
    }
}

impl<T> core::ops::Mul for Matrix<T> where
    T: Copy + Default + core::ops::Add<Output = T> + core::ops::Mul<Output = T>,
 {
    type Output = Result<Matrix<T>, MatrixError>;

    fn mul(self, rhs: Matrix<T>) -> (r: Result<Matrix<T>, MatrixError>)
        ensures
            r is Err <==> self.ncols() != rhs.nrows(),
            r matches Ok(m) ==> {
                &&& m.wf()
                &&& m.nrows() == self.nrows()
                &&& m.ncols() == rhs.ncols()
                &&& exact_add_mul::<T>() ==> exists|z: T|
                    is_default(z) && m@ == product_model(self@, rhs@, rhs.ncols(), z)
            },
    {
        self.multiply(&rhs)
    }
}

impl<T> vstd::std_specs::ops::MulSpecImpl for Matrix<T> where
    T: Copy + Default + core::ops::Add<Output = T> + core::ops::Mul<Output = T>,
 {
    open spec fn obeys_mul_spec() -> bool {
        false
    }

    open spec fn mul_req(self, rhs: Matrix<T>) -> bool {
        self.wf() && rhs.wf() && self.can_multiply(&rhs)
    }

    open spec fn mul_spec(self, rhs: Matrix<T>) -> Result<Matrix<T>, MatrixError> {
        arbitrary()
    }
}

impl<'a, T> core::ops::Mul for &'a Matrix<T> where
    T: Copy + Default + core::ops::Add<Output = T> + core::ops::Mul<Output = T>,
 {
    type Output = Result<Matrix<T>, MatrixError>;

    fn mul(self, rhs: &'a Matrix<T>) -> (r: Result<Matrix<T>, MatrixError>)
        ensures
            r is Err <==> self.ncols() != rhs.nrows(),
            r matches Ok(m) ==> {
                &&& m.wf()
                &&& m.nrows() == self.nrows()
                &&& m.ncols() == rhs.ncols()
                &&& exact_add_mul::<T>() ==> exists|z: T|
                    is_default(z) && m@ == product_model(self@, rhs@, rhs.ncols(), z)
            },
    {
        self.multiply(rhs)
    }
}

impl<'a, T> vstd::std_specs::ops::MulSpecImpl for &'a Matrix<T> where
    T: Copy + Default + core::ops::Add<Output = T> + core::ops::Mul<Output = T>,
 {
    open spec fn obeys_mul_spec() -> bool {
        false
    }

    open spec fn mul_req(self, rhs: &'a Matrix<T>) -> bool {
        self.wf() && rhs.wf() && self.can_multiply(rhs)
    }

    open spec fn mul_spec(self, rhs: &'a Matrix<T>) -> Result<Matrix<T>, MatrixError> {
        arbitrary()
    }
}

impl<T, const R: usize> core::ops::Mul<[T; R]> for Matrix<T> where
    T: Copy + Default + core::ops::Add<Output = T> + core::ops::Mul<Output = T>,
 {
    type Output = Result<Matrix<T>, MatrixError>;

    fn mul(self, rhs: [T; R]) -> (r: Result<Matrix<T>, MatrixError>)
        ensures
            r is Err <==> self.ncols() != R,
            r matches Ok(m) ==> {
                &&& m.wf()
                &&& m.nrows() == self.nrows()
                &&& m.ncols() == 1
                &&& exact_add_mul::<T>() ==> exists|z: T|
                    is_default(z) && m@ == product_model(self@, rhs@.map_values(|v: T| seq![v]), 1, z)
            },
    {
        let column = Matrix::from_column(rhs);
        self.multiply(&column)
    }
}

impl<T, const R: usize> vstd::std_specs::ops::MulSpecImpl<[T; R]> for Matrix<T> where
    T: Copy + Default + core::ops::Add<Output = T> + core::ops::Mul<Output = T>,
 {
    open spec fn obeys_mul_spec() -> bool {
        false
    }

    open spec fn mul_req(self, rhs: [T; R]) -> bool {
        &&& self.wf()
        &&& total_add_mul::<T>() || (exact_add_mul::<T>() && forall|z: T|
            is_default(z) ==> product_fits(self@, rhs@.map_values(|v: T| seq![v]), 1, z))
    }

    open spec fn mul_spec(self, rhs: [T; R]) -> Result<Matrix<T>, MatrixError> {
        arbitrary()
    }
}

impl<T: Copy, const R: usize, const C: usize> From<[[T; C]; R]> for Matrix<T> {
    fn from(x: [[T; C]; R]) -> (m: Matrix<T>)
        ensures
            m.wf(),
            m.nrows() == R,
            m.ncols() == C,
            m@ == x@.map_values(|row: [T; C]| row@),
    {
        Matrix::from_rows(x)
    }
}

impl<T: Copy, const R: usize, const C: usize> vstd::std_specs::convert::FromSpecImpl<[[T; C]; R]> for Matrix<T> {
    open spec fn obeys_from_spec() -> bool {
        false
    }

    open spec fn from_spec(x: [[T; C]; R]) -> Matrix<T> {
        arbitrary()
    }
}

impl<T: Copy, const R: usize> From<[T; R]> for Matrix<T> {
    fn from(x: [T; R]) -> (m: Matrix<T>)
        ensures
            m.wf(),
            m.nrows() == R,
            m.ncols() == 1,
            m@ == x@.map_values(|v: T| seq![v]),
    {
        Matrix::from_column(x)
    }
}

impl<T: Copy, const R: usize> vstd::std_specs::convert::FromSpecImpl<[T; R]> for Matrix<T> {
    open spec fn obeys_from_spec() -> bool {
        false
    }

    open spec fn from_spec(x: [T; R]) -> Matrix<T> {
        arbitrary()
    }
}

} // verus!
