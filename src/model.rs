//! The mathematical model of a matrix: a sequence of rows, each a sequence of
//! entries, and the spec functions that the matrix operations are stated over.
use vstd::prelude::*;

verus! {

use crate::matrix::Axis;
use vstd::std_specs::ops::AddSpec;
use vstd::std_specs::ops::MulSpec;
use vstd::std_specs::ops::NegSpec;
use vstd::std_specs::ops::SubSpec;
use vstd::std_specs::ops::DivSpec;
use vstd::std_specs::cmp::PartialEqSpec;

/// A `rows` by `cols` model with every entry equal to `v`.
pub open spec fn filled<T>(rows: nat, cols: nat, v: T) -> Seq<Seq<T>> {
    Seq::new(rows, |i: int| Seq::new(cols, |j: int| v))
}

/// An `n` by `n` model with `v` on the diagonal and `z` elsewhere.
pub open spec fn identity_model<T>(n: nat, v: T, z: T) -> Seq<Seq<T>> {
    Seq::new(n, |i: int| Seq::new(n, |j: int| if i == j { v } else { z }))
}

/// Column `c` of `a`, as a sequence over the rows.
pub open spec fn column<T>(a: Seq<Seq<T>>, c: int) -> Seq<T> {
    Seq::new(a.len(), |r: int| a[r][c])
}

/// The transpose of a `rows` by `cols` model: `cols` by `rows`, entry `(c, r)` is `a[r][c]`.
pub open spec fn transpose_model<T>(a: Seq<Seq<T>>, rows: nat, cols: nat) -> Seq<Seq<T>> {
    Seq::new(cols, |c: int| Seq::new(rows, |r: int| a[r][c]))
}

/// `a` without row `r` and column `c`.
pub open spec fn submatrix_model<T>(a: Seq<Seq<T>>, r: int, c: int) -> Seq<Seq<T>> {
    a.remove(r).map_values(|row: Seq<T>| row.remove(c))
}

/// `z` plus the products `a[i] * b[i]` for `i < k`, added left to right.
pub open spec fn dot<T: core::ops::Add<Output = T> + core::ops::Mul<Output = T>>(
    z: T,
    a: Seq<T>,
    b: Seq<T>,
    k: int,
) -> T
    decreases k,
{
    if k <= 0 {
        z
    } else {
        dot(z, a, b, k - 1).add_spec(a[k - 1].mul_spec(b[k - 1]))
    }
}

/// The product of `a` and `b`, where `b` has `cols` columns: entry `(i, j)`
/// is row `i` of `a` times column `j` of `b`, accumulated from `z`.
pub open spec fn product_model<T: core::ops::Add<Output = T> + core::ops::Mul<Output = T>>(
    a: Seq<Seq<T>>,
    b: Seq<Seq<T>>,
    cols: nat,
    z: T,
) -> Seq<Seq<T>> {
    Seq::new(a.len(), |i: int| Seq::new(cols, |j: int| dot(z, a[i], column(b, j), b.len() as int)))
}

/// No step of the product of `a` and `b` leaves the domain of `T`'s operators.
pub open spec fn product_fits<T: core::ops::Add<Output = T> + core::ops::Mul<Output = T>>(
    a: Seq<Seq<T>>,
    b: Seq<Seq<T>>,
    cols: nat,
    z: T,
) -> bool {
    forall|i: int, j: int, k: int|
        0 <= i < a.len() && 0 <= j < cols && 0 <= k < b.len() ==> {
            &&& a[i][k].mul_req(b[k][j])
            &&& (#[trigger] dot(z, a[i], column(b, j), k)).add_req(a[i][k].mul_spec(b[k][j]))
        }
}

/// The determinant of a square model: the entry itself for one row, `ad - bc`
/// for two rows; otherwise the Laplace expansion along row 0, accumulated
/// from `z`. An empty model has no row to expand along; its determinant is
/// `z` itself, the value that sums start from.
pub open spec fn det_model<T>(a: Seq<Seq<T>>, z: T) -> T where
    T: core::ops::Add<Output = T> + core::ops::Sub<Output = T> + core::ops::Mul<Output = T> + core::ops::Neg<Output = T>,

    decreases a.len(), 2int, 0int,
{
    if a.len() == 1 {
        a[0][0]
    } else if a.len() == 2 {
        a[0][0].mul_spec(a[1][1]).sub_spec(a[0][1].mul_spec(a[1][0]))
    } else {
        det_terms(a, z, a.len() as int)
    }
}

/// `z` plus the first `k` terms `a[0][c] * cofactor(0, c)` of the expansion.
pub open spec fn det_terms<T>(a: Seq<Seq<T>>, z: T, k: int) -> T where
    T: core::ops::Add<Output = T> + core::ops::Sub<Output = T> + core::ops::Mul<Output = T> + core::ops::Neg<Output = T>,

    decreases a.len(), 1int, k,
{
    if k <= 0 || a.len() == 0 {
        z
    } else {
        det_terms(a, z, k - 1).add_spec(a[0][k - 1].mul_spec(cofactor_model(a, z, 0, k - 1)))
    }
}

/// The minor at `(r, c)`: the determinant of `a` without row `r` and column `c`.
pub open spec fn minor_model<T>(a: Seq<Seq<T>>, z: T, r: int, c: int) -> T where
    T: core::ops::Add<Output = T> + core::ops::Sub<Output = T> + core::ops::Mul<Output = T> + core::ops::Neg<Output = T>,

    decreases a.len(), 0int, 0int,
{
    if 0 <= r < a.len() {
        det_model(submatrix_model(a, r, c), z)
    } else {
        z
    }
}

/// The cofactor at `(r, c)`: the minor, negated where `r + c` is odd.
pub open spec fn cofactor_model<T>(a: Seq<Seq<T>>, z: T, r: int, c: int) -> T where
    T: core::ops::Add<Output = T> + core::ops::Sub<Output = T> + core::ops::Mul<Output = T> + core::ops::Neg<Output = T>,

    decreases a.len(), 0int, 1int,
{
    if 0 <= r < a.len() {
        if (r + c) % 2 == 1 {
            minor_model(a, z, r, c).neg_spec()
        } else {
            minor_model(a, z, r, c)
        }
    } else {
        z
    }
}

/// No step of `det_model(a, z)` leaves the domain of `T`'s operators.
pub open spec fn det_fits<T>(a: Seq<Seq<T>>, z: T) -> bool where
    T: core::ops::Add<Output = T> + core::ops::Sub<Output = T> + core::ops::Mul<Output = T> + core::ops::Neg<Output = T>,

    decreases a.len(), 2int, 0int,
{
    if a.len() == 1 {
        true
    } else if a.len() == 2 {
        &&& a[0][0].mul_req(a[1][1])
        &&& a[0][1].mul_req(a[1][0])
        &&& a[0][0].mul_spec(a[1][1]).sub_req(a[0][1].mul_spec(a[1][0]))
    } else {
        terms_fit(a, z, a.len() as int)
    }
}

/// No step of `det_terms(a, z, k)` leaves the domain of `T`'s operators.
pub open spec fn terms_fit<T>(a: Seq<Seq<T>>, z: T, k: int) -> bool where
    T: core::ops::Add<Output = T> + core::ops::Sub<Output = T> + core::ops::Mul<Output = T> + core::ops::Neg<Output = T>,

    decreases a.len(), 1int, k,
{
    if k <= 0 || a.len() == 0 {
        true
    } else {
        &&& terms_fit(a, z, k - 1)
        &&& cofactor_fits(a, z, 0, k - 1)
        &&& a[0][k - 1].mul_req(cofactor_model(a, z, 0, k - 1))
        &&& det_terms(a, z, k - 1).add_req(a[0][k - 1].mul_spec(cofactor_model(a, z, 0, k - 1)))
    }
}

/// No step of `minor_model(a, z, r, c)` leaves the domain of `T`'s operators.
pub open spec fn minor_fits<T>(a: Seq<Seq<T>>, z: T, r: int, c: int) -> bool where
    T: core::ops::Add<Output = T> + core::ops::Sub<Output = T> + core::ops::Mul<Output = T> + core::ops::Neg<Output = T>,

    decreases a.len(), 0int, 0int,
{
    if 0 <= r < a.len() {
        det_fits(submatrix_model(a, r, c), z)
    } else {
        true
    }
}

/// No step of `cofactor_model(a, z, r, c)` leaves the domain of `T`'s operators.
pub open spec fn cofactor_fits<T>(a: Seq<Seq<T>>, z: T, r: int, c: int) -> bool where
    T: core::ops::Add<Output = T> + core::ops::Sub<Output = T> + core::ops::Mul<Output = T> + core::ops::Neg<Output = T>,

    decreases a.len(), 0int, 1int,
{
    if 0 <= r < a.len() {
        &&& minor_fits(a, z, r, c)
        &&& (r + c) % 2 == 1 ==> minor_model(a, z, r, c).neg_req()
    } else {
        true
    }
}

/// What `terms_fit` says of `k` terms it says of fewer.
pub proof fn lemma_terms_fit_prefix<T>(a: Seq<Seq<T>>, z: T, j: int, k: int) where
    T: core::ops::Add<Output = T> + core::ops::Sub<Output = T> + core::ops::Mul<Output = T> + core::ops::Neg<Output = T>,

    requires
        0 <= j <= k,
        terms_fit(a, z, k),
    ensures
        terms_fit(a, z, j),
    decreases k - j,
{
    if j < k {
        lemma_terms_fit_prefix(a, z, j, k - 1);
    }
}

/// The inverse of a square model with determinant `det_model(a, z)`: entry
/// `(i, j)` is the cofactor at `(j, i)` divided by the determinant.
pub open spec fn inverse_model<T>(a: Seq<Seq<T>>, z: T) -> Seq<Seq<T>> where
    T: core::ops::Add<Output = T> + core::ops::Sub<Output = T> + core::ops::Mul<Output = T> + core::ops::Neg<Output = T> + core::ops::Div<Output = T>,
 {
    Seq::new(
        a.len(),
        |i: int| Seq::new(a.len(), |j: int| cofactor_model(a, z, j, i).div_spec(det_model(a, z))),
    )
}

/// No step of `inverse_model(a, z)` leaves the domain of `T`'s operators,
/// where the determinant is not `z`.
pub open spec fn inverse_fits<T>(a: Seq<Seq<T>>, z: T) -> bool where
    T: core::ops::Add<Output = T> + core::ops::Sub<Output = T> + core::ops::Mul<Output = T> + core::ops::Neg<Output = T> + core::ops::Div<Output = T> + PartialEq,
 {
    &&& det_fits(a, z)
    &&& !det_model(a, z).eq_spec(&z) ==> forall|i: int, j: int|
        0 <= i < a.len() && 0 <= j < a.len() ==> {
            &&& #[trigger] cofactor_fits(a, z, i, j)
            &&& cofactor_model(a, z, i, j).div_req(det_model(a, z))
        }
}

/// Entry `(i, j)` of a submatrix is the entry of `a` that lies past the
/// removed row and column where `i` or `j` reaches them.
pub proof fn lemma_submatrix_index<T>(a: Seq<Seq<T>>, r: int, c: int)
    requires
        0 <= r < a.len(),
        0 <= c < a.len(),
        forall|i: int| 0 <= i < a.len() ==> (#[trigger] a[i]).len() == a.len(),
    ensures
        submatrix_model(a, r, c).len() == a.len() - 1,
        forall|i: int| 0 <= i < a.len() - 1 ==> (#[trigger] submatrix_model(a, r, c)[i]).len() == a.len() - 1,
        forall|i: int, j: int| 0 <= i < a.len() - 1 && 0 <= j < a.len() - 1 ==>
            #[trigger] submatrix_model(a, r, c)[i][j] == a[if i < r { i } else { i + 1 }][if j < c { j } else { j + 1 }],
{
    let s = submatrix_model(a, r, c);
    a.remove_ensures(r);
    assert forall|i: int| 0 <= i < a.len() - 1 implies (#[trigger] s[i]).len() == a.len() - 1 by {
        a.remove(r)[i].remove_ensures(c);
    }
    assert forall|i: int, j: int| 0 <= i < a.len() - 1 && 0 <= j < a.len() - 1 implies
        #[trigger] s[i][j] == a[if i < r { i } else { i + 1 }][if j < c { j } else { j + 1 }] by {
        a.remove(r)[i].remove_ensures(c);
    }
}

/// The 4 by 4 translation by `(x, y, z)`, with unit `o` and zero `e`.
pub open spec fn translation_model<T>(x: T, y: T, z: T, o: T, e: T) -> Seq<Seq<T>> {
    seq![seq![o, e, e, x], seq![e, o, e, y], seq![e, e, o, z], seq![e, e, e, o]]
}

/// The 4 by 4 scaling by `(x, y, z)`, with unit `o` and zero `e`.
pub open spec fn scaling_model<T>(x: T, y: T, z: T, o: T, e: T) -> Seq<Seq<T>> {
    seq![seq![x, e, e, e], seq![e, y, e, e], seq![e, e, z, e], seq![e, e, e, o]]
}

/// The 4 by 4 shearing that moves each coordinate in proportion to the two
/// others, with unit `o` and zero `e`.
pub open spec fn shearing_model<T>(xy: T, xz: T, yx: T, yz: T, zx: T, zy: T, o: T, e: T) -> Seq<Seq<T>> {
    seq![seq![o, xy, xz, e], seq![yx, o, yz, e], seq![zx, zy, o, e], seq![e, e, e, o]]
}

/// The 4 by 4 right-handed rotation about the X axis by the angle with
/// cosine `c` and sine `s`, where `n` is the negated sine, with unit `o` and
/// zero `e`.
pub open spec fn rotation_x_model<T>(c: T, s: T, n: T, o: T, e: T) -> Seq<Seq<T>> {
    seq![seq![o, e, e, e], seq![e, c, n, e], seq![e, s, c, e], seq![e, e, e, o]]
}

/// The 4 by 4 right-handed rotation about the Y axis.
pub open spec fn rotation_y_model<T>(c: T, s: T, n: T, o: T, e: T) -> Seq<Seq<T>> {
    seq![seq![c, e, s, e], seq![e, o, e, e], seq![n, e, c, e], seq![e, e, e, o]]
}

/// The 4 by 4 right-handed rotation about the Z axis.
pub open spec fn rotation_z_model<T>(c: T, s: T, n: T, o: T, e: T) -> Seq<Seq<T>> {
    seq![seq![c, n, e, e], seq![s, c, e, e], seq![e, e, o, e], seq![e, e, e, o]]
}

/// The 4 by 4 right-handed rotation about `axis`.
pub open spec fn rotation_model<T>(axis: Axis, c: T, s: T, n: T, o: T, e: T) -> Seq<Seq<T>> {
    match axis {
        Axis::X => rotation_x_model(c, s, n, o, e),
        Axis::Y => rotation_y_model(c, s, n, o, e),
        Axis::Z => rotation_z_model(c, s, n, o, e),
    }
}

} // verus!
