//! The algebraic laws of the matrix operations, stated over the
//! sequence-level model that the executable methods' contracts use.

use vstd::prelude::*;

verus! {

use crate::model::dot_prefix;
use crate::model::dot_step_in_range;
use crate::model::ew_add;
use crate::model::ew_add_in_range;
use crate::model::ew_sub;
use crate::model::fits_i64;
use crate::model::identity_of;
use crate::model::lemma_div_trunc_exact;
use crate::model::lemma_flat_index;
use crate::model::lemma_unflatten;
use crate::model::product_in_range;
use crate::model::product_of;
use crate::model::sc_add;
use crate::model::sc_add_in_range;
use crate::model::sc_div;
use crate::model::sc_mul;
use crate::model::sc_mul_in_range;
use crate::model::sc_sub;
use crate::model::transpose_of;

/// Transposing a `rows` by `cols` matrix moves entry (i, j) to position
/// (j, i) of the `cols` by `rows` result.
pub proof fn lemma_transpose_entry(m: Seq<i64>, rows: int, cols: int, i: int, j: int)
    requires
        rows > 0,
        cols > 0,
        m.len() == rows * cols,
        0 <= i < rows,
        0 <= j < cols,
    ensures
        transpose_of(m, rows, cols)[j * rows + i] == m[i * cols + j],
{
    lemma_flat_index(j, i, cols, rows);
    assert(cols * rows == rows * cols) by (nonlinear_arith);
}

/// Transposing twice gives back the original element sequence, for every
/// matrix; for a square matrix this also says that transposing in place
/// twice restores the original matrix.
pub proof fn lemma_transpose_involutive(m: Seq<i64>, rows: int, cols: int)
    requires
        rows > 0,
        cols > 0,
        m.len() == rows * cols,
    ensures
        transpose_of(transpose_of(m, rows, cols), cols, rows) == m,
{
    let t = transpose_of(m, rows, cols);
    assert(cols * rows == rows * cols) by (nonlinear_arith);
    assert forall|p: int| 0 <= p < m.len() implies transpose_of(t, cols, rows)[p] == m[p] by {
        lemma_unflatten(p, rows, cols);
        let x = p / cols;
        let y = p % cols;
        lemma_flat_index(y, x, cols, rows);
        lemma_flat_index(x, y, rows, cols);
    }
    assert(transpose_of(t, cols, rows) =~= m);
}

/// Elementwise addition and subtraction are inverses: adding `b` and then
/// subtracting it gives back `a`, whenever the sums stay within `i64`.
pub proof fn lemma_add_sub_inverse(a: Seq<i64>, b: Seq<i64>)
    requires
        a.len() == b.len(),
        ew_add_in_range(a, b),
    ensures
        ew_sub(ew_add(a, b), b) == a,
{
    assert forall|k: int| 0 <= k < a.len() implies ew_sub(ew_add(a, b), b)[k] == a[k] by {
        assert(fits_i64(a[k] + b[k]));
    }
    assert(ew_sub(ew_add(a, b), b) =~= a);
}

/// Broadcasting a scalar sum and then the matching difference gives back
/// the original elements, whenever the sums stay within `i64`.
pub proof fn lemma_scalar_add_sub_inverse(a: Seq<i64>, s: i64)
    requires
        sc_add_in_range(a, s),
    ensures
        sc_sub(sc_add(a, s), s) == a,
{
    assert forall|k: int| 0 <= k < a.len() implies sc_sub(sc_add(a, s), s)[k] == a[k] by {
        assert(fits_i64(a[k] + s));
    }
    assert(sc_sub(sc_add(a, s), s) =~= a);
}

/// Broadcasting a scalar product and then the matching quotient gives back
/// the original elements: the division is exact by construction, so the
/// truncating quotient of `a[k] * s` by `s` is `a[k]`.
pub proof fn lemma_scalar_mul_div_inverse(a: Seq<i64>, s: i64)
    requires
        s != 0,
        sc_mul_in_range(a, s),
    ensures
        sc_div(sc_mul(a, s), s) == a,
{
    assert forall|k: int| 0 <= k < a.len() implies sc_div(sc_mul(a, s), s)[k] == a[k] by {
        assert(fits_i64(a[k] * s));
        lemma_div_trunc_exact(a[k] as int, s as int);
    }
    assert(sc_div(sc_mul(a, s), s) =~= a);
}

/// The dot product of row `i` of `m` with column `j` of the identity keeps
/// exactly the term at position `j`: its first `k` terms sum to `m[(i, j)]`
/// once `k` has passed `j`, and to zero before that.
proof fn lemma_dot_prefix_identity_right(m: Seq<i64>, n: int, i: int, j: int, k: int)
    requires
        n > 0,
        m.len() == n * n,
        0 <= i < n,
        0 <= j < n,
        0 <= k <= n,
    ensures
        dot_prefix(m, identity_of(n), n, i, j, k) == if j < k {
            m[i * n + j] as int
        } else {
            0
        },
    decreases k,
{
    if k > 0 {
        lemma_dot_prefix_identity_right(m, n, i, j, k - 1);
        lemma_flat_index(k - 1, j, n, n);
        lemma_flat_index(i, k - 1, n, n);
    }
}

/// The dot product of row `i` of the identity with column `j` of `m` keeps
/// exactly the term at position `i`.
proof fn lemma_dot_prefix_identity_left(m: Seq<i64>, n: int, i: int, j: int, k: int)
    requires
        n > 0,
        m.len() == n * n,
        0 <= i < n,
        0 <= j < n,
        0 <= k <= n,
    ensures
        dot_prefix(identity_of(n), m, n, i, j, k) == if i < k {
            m[i * n + j] as int
        } else {
            0
        },
    decreases k,
{
    if k > 0 {
        lemma_dot_prefix_identity_left(m, n, i, j, k - 1);
        lemma_flat_index(i, k - 1, n, n);
        lemma_flat_index(k - 1, j, n, n);
    }
}

/// Multiplying a square matrix by the identity on the right gives back the
/// matrix, and the accumulation never leaves `i64`.
pub proof fn lemma_identity_right(m: Seq<i64>, n: int)
    requires
        n > 0,
        m.len() == n * n,
    ensures
        product_of(m, identity_of(n), n) == m,
        product_in_range(m, identity_of(n), n),
{
    assert forall|i: int, j: int, k: int|
        0 <= i < n && 0 <= j < n && 0 <= k < n implies dot_step_in_range(
        m,
        identity_of(n),
        n,
        i,
        j,
        k,
    ) by {
        lemma_dot_prefix_identity_right(m, n, i, j, k + 1);
        lemma_flat_index(k, j, n, n);
        lemma_flat_index(i, k, n, n);
    }
    assert forall|p: int| 0 <= p < m.len() implies product_of(m, identity_of(n), n)[p]
        == m[p] by {
        lemma_unflatten(p, n, n);
        lemma_dot_prefix_identity_right(m, n, p / n, p % n, n);
    }
    assert(product_of(m, identity_of(n), n) =~= m);
}

/// Multiplying a square matrix by the identity on the left gives back the
/// matrix, and the accumulation never leaves `i64`.
pub proof fn lemma_identity_left(m: Seq<i64>, n: int)
    requires
        n > 0,
        m.len() == n * n,
    ensures
        product_of(identity_of(n), m, n) == m,
        product_in_range(identity_of(n), m, n),
{
    assert forall|i: int, j: int, k: int|
        0 <= i < n && 0 <= j < n && 0 <= k < n implies dot_step_in_range(
        identity_of(n),
        m,
        n,
        i,
        j,
        k,
    ) by {
        lemma_dot_prefix_identity_left(m, n, i, j, k + 1);
        lemma_flat_index(i, k, n, n);
        lemma_flat_index(k, j, n, n);
    }
    assert forall|p: int| 0 <= p < m.len() implies product_of(identity_of(n), m, n)[p]
        == m[p] by {
        lemma_unflatten(p, n, n);
        lemma_dot_prefix_identity_left(m, n, p / n, p % n, n);
    }
    assert(product_of(identity_of(n), m, n) =~= m);
}

} // verus!
