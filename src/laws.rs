//! Laws of the matrix engine, proved over its spec model.
use vstd::prelude::*;

verus! {

use crate::model::{
    cofactor_fits, cofactor_model, det_fits, det_model, det_terms, identity_model,
    lemma_submatrix_index, minor_fits, minor_model, submatrix_model, terms_fit,
};

/// A square model of zeros and ones with at most one one in each row and
/// in each column.
spec fn partial_permutation(a: Seq<Seq<i64>>) -> bool {
    &&& forall|i: int| 0 <= i < a.len() ==> (#[trigger] a[i]).len() == a.len()
    &&& forall|i: int, j: int|
        0 <= i < a.len() && 0 <= j < a.len() ==> #[trigger] a[i][j] == 0 || a[i][j] == 1
    &&& forall|i: int, j: int, k: int|
        0 <= i < a.len() && 0 <= j < a.len() && 0 <= k < a.len() && #[trigger] a[i][j] == 1
            && #[trigger] a[i][k] == 1 ==> j == k
    &&& forall|i: int, j: int, k: int|
        0 <= i < a.len() && 0 <= j < a.len() && 0 <= k < a.len() && #[trigger] a[i][k] == 1
            && #[trigger] a[j][k] == 1 ==> i == j
}

proof fn lemma_partial_permutation_submatrix(a: Seq<Seq<i64>>, r: int, c: int)
    requires
        partial_permutation(a),
        0 <= r < a.len(),
        0 <= c < a.len(),
    ensures
        partial_permutation(submatrix_model(a, r, c)),
{
    lemma_submatrix_index(a, r, c);
    let s = submatrix_model(a, r, c);
    assert forall|i: int, j: int, k: int|
        0 <= i < s.len() && 0 <= j < s.len() && 0 <= k < s.len() && #[trigger] s[i][j] == 1
            && #[trigger] s[i][k] == 1 implies j == k by {
        let ii = if i < r { i } else { i + 1 };
        assert(a[ii][if j < c { j } else { j + 1 }] == 1);
        assert(a[ii][if k < c { k } else { k + 1 }] == 1);
    }
    assert forall|i: int, j: int, k: int|
        0 <= i < s.len() && 0 <= j < s.len() && 0 <= k < s.len() && #[trigger] s[i][k] == 1
            && #[trigger] s[j][k] == 1 implies i == j by {
        let kk = if k < c { k } else { k + 1 };
        assert(a[if i < r { i } else { i + 1 }][kk] == 1);
        assert(a[if j < r { j } else { j + 1 }][kk] == 1);
    }
}

/// The expansion of a partial permutation never leaves `-1..=1`.
proof fn lemma_partial_permutation_det(a: Seq<Seq<i64>>)
    requires
        partial_permutation(a),
    ensures
        det_fits(a, 0i64),
        -1 <= det_model(a, 0i64) <= 1,
    decreases a.len(), 1int, 0int,
{
    if a.len() == 1 {
        assert(a[0][0] == 0 || a[0][0] == 1);
    } else if a.len() == 2 {
        assert(a[0][0] == 0 || a[0][0] == 1);
        assert(a[0][1] == 0 || a[0][1] == 1);
        assert(a[1][0] == 0 || a[1][0] == 1);
        assert(a[1][1] == 0 || a[1][1] == 1);
        assert(a[0][0] * a[1][1] == 0 || a[0][0] * a[1][1] == 1) by (nonlinear_arith)
            requires
                a[0][0] == 0 || a[0][0] == 1,
                a[1][1] == 0 || a[1][1] == 1,
        ;
        assert(a[0][1] * a[1][0] == 0 || a[0][1] * a[1][0] == 1) by (nonlinear_arith)
            requires
                a[0][1] == 0 || a[0][1] == 1,
                a[1][0] == 0 || a[1][0] == 1,
        ;
    } else {
        lemma_partial_permutation_terms(a, a.len() as int);
    }
}

proof fn lemma_partial_permutation_terms(a: Seq<Seq<i64>>, k: int)
    requires
        partial_permutation(a),
        0 <= k <= a.len(),
    ensures
        terms_fit(a, 0i64, k),
        -1 <= det_terms(a, 0i64, k) <= 1,
        det_terms(a, 0i64, k) != 0 ==> exists|c: int| 0 <= c < k && a[0][c] == 1,
    decreases a.len(), 0int, k,
{
    if k > 0 && a.len() > 0 {
        let c = k - 1;
        lemma_partial_permutation_terms(a, c);
        lemma_partial_permutation_submatrix(a, 0, c);
        lemma_partial_permutation_det(submatrix_model(a, 0, c));
        let m = minor_model(a, 0i64, 0, c);
        let cof = cofactor_model(a, 0i64, 0, c);
        assert(minor_fits(a, 0i64, 0, c));
        assert(-1 <= m <= 1);
        assert(-1 <= cof <= 1);
        assert(cofactor_fits(a, 0i64, 0, c));
        let x = a[0][c];
        assert(x == 0 || x == 1);
        assert(x * cof == 0 || x * cof == cof) by (nonlinear_arith)
            requires
                x == 0 || x == 1,
        ;
        if x == 1 {
            if det_terms(a, 0i64, c) != 0 {
                let d = choose|d: int| 0 <= d < c && a[0][d] == 1;
                assert(a[0][d] == 1 && a[0][c] == 1);
                assert(false);
            }
        }
    }
}

proof fn lemma_identity_submatrix(n: nat)
    requires
        n >= 1,
    ensures
        submatrix_model(identity_model(n, 1i64, 0i64), 0, 0) == identity_model((n - 1) as nat, 1i64, 0i64),
{
    let a = identity_model(n, 1i64, 0i64);
    lemma_submatrix_index(a, 0, 0);
    let s = submatrix_model(a, 0, 0);
    let b = identity_model((n - 1) as nat, 1i64, 0i64);
    assert forall|i: int| 0 <= i < n - 1 implies #[trigger] s[i] =~= b[i] by {
        assert forall|j: int| 0 <= j < n - 1 implies s[i][j] == b[i][j] by {
            assert(s[i][j] == a[i + 1][j + 1]);
        }
    }
    assert(s =~= b);
}

proof fn lemma_identity_det(n: nat)
    requires
        n >= 1,
    ensures
        det_model(identity_model(n, 1i64, 0i64), 0i64) == 1,
    decreases n, 1int, 0int,
{
    let a = identity_model(n, 1i64, 0i64);
    if n == 1 {
        assert(a[0][0] == 1);
    } else if n == 2 {
        assert(a[0][0] == 1 && a[1][1] == 1 && a[0][1] == 0 && a[1][0] == 0);
    } else {
        lemma_identity_terms(n, n as int);
    }
}

proof fn lemma_identity_terms(n: nat, k: int)
    requires
        n >= 3,
        1 <= k <= n,
    ensures
        det_terms(identity_model(n, 1i64, 0i64), 0i64, k) == 1,
    decreases n, 0int, k,
{
    let a = identity_model(n, 1i64, 0i64);
    if k == 1 {
        lemma_identity_submatrix(n);
        lemma_identity_det((n - 1) as nat);
        assert(det_terms(a, 0i64, 0) == 0);
        assert(cofactor_model(a, 0i64, 0, 0) == 1);
    } else {
        lemma_identity_terms(n, k - 1);
        assert(a[0][k - 1] == 0);
    }
}

/// The determinant of an identity matrix with a unit diagonal is one, for
/// every size from one up, and no step of its expansion overflows.
pub proof fn lemma_determinant_of_identity(n: nat)
    requires
        n >= 1,
    ensures
        det_fits(identity_model(n, 1i64, 0i64), 0i64),
        det_model(identity_model(n, 1i64, 0i64), 0i64) == 1,
{
    let a = identity_model(n, 1i64, 0i64);
    assert(partial_permutation(a));
    lemma_partial_permutation_det(a);
    lemma_identity_det(n);
}

} // verus!
