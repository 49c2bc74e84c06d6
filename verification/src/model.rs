//! The mathematical model of a matrix: a flat sequence of `i64` elements in
//! row-major order, together with the spec-level operations that the
//! executable methods are proved against.

use vstd::prelude::*;

verus! {

use vstd::arithmetic::div_mod::lemma_div_multiples_vanish;
use vstd::arithmetic::div_mod::lemma_div_pos_is_pos;
use vstd::arithmetic::div_mod::lemma_fundamental_div_mod;
use vstd::arithmetic::div_mod::lemma_fundamental_div_mod_converse;
use vstd::arithmetic::div_mod::lemma_mod_bound;
use vstd::arithmetic::div_mod::lemma_mod_division_less_than_divisor;
use vstd::arithmetic::div_mod::lemma_multiply_divide_lt;

/// True when the mathematical integer `x` is representable as an `i64`.
pub open spec fn fits_i64(x: int) -> bool {
    i64::MIN <= x <= i64::MAX
}

/// Rust's truncating integer division, written with the Euclidean `/` of
/// specifications: the quotient is rounded toward zero, so a negative
/// dividend is negated before and after dividing.
pub open spec fn div_trunc(x: int, d: int) -> int
    recommends
        d != 0,
{
    if x >= 0 {
        x / d
    } else {
        -((-x) / d)
    }
}

/// Dividing by a negated positive divisor negates the Euclidean quotient
/// and keeps the remainder.
pub proof fn lemma_div_neg_divisor(x: int, d: int)
    requires
        d > 0,
    ensures
        x / (-d) == -(x / d),
        x % (-d) == x % d,
{
    lemma_fundamental_div_mod(x, d);
    lemma_fundamental_div_mod(x, -d);
    lemma_mod_bound(x, d);
    assert(0 <= x % (-d) < d);
    let q = x / d;
    let r = x % d;
    let q2 = x / (-d);
    let r2 = x % (-d);
    assert(d * (q + q2) == r2 - r) by (nonlinear_arith)
        requires
            x == d * q + r,
            x == (-d) * q2 + r2,
    ;
    assert(q + q2 == 0 && r2 == r) by (nonlinear_arith)
        requires
            d * (q + q2) == r2 - r,
            0 <= r < d,
            0 <= r2 < d,
    ;
}

/// Dividing the exact product `a * s` by `s` with truncating division gives
/// back `a`.
pub proof fn lemma_div_trunc_exact(a: int, s: int)
    requires
        s != 0,
    ensures
        div_trunc(a * s, s) == a,
{
    if s > 0 {
        if a >= 0 {
            assert(a * s >= 0) by (nonlinear_arith)
                requires
                    a >= 0,
                    s > 0,
            ;
            assert(a * s == s * a) by (nonlinear_arith);
            lemma_div_multiples_vanish(a, s);
        } else {
            assert(a * s < 0) by (nonlinear_arith)
                requires
                    a < 0,
                    s > 0,
            ;
            assert(-(a * s) == s * (-a)) by (nonlinear_arith);
            lemma_div_multiples_vanish(-a, s);
        }
    } else {
        let t = -s;
        if a <= 0 {
            assert(a * s >= 0) by (nonlinear_arith)
                requires
                    a <= 0,
                    s < 0,
            ;
            assert(a * s == t * (-a)) by (nonlinear_arith)
                requires
                    t == -s,
            ;
            lemma_div_neg_divisor(a * s, t);
            lemma_div_multiples_vanish(-a, t);
        } else {
            assert(a * s < 0) by (nonlinear_arith)
                requires
                    a > 0,
                    s < 0,
            ;
            assert(-(a * s) == t * a) by (nonlinear_arith)
                requires
                    t == -s,
            ;
            lemma_div_neg_divisor(-(a * s), t);
            lemma_div_multiples_vanish(a, t);
        }
    }
}

/// Elementwise sum of two equally long element sequences.
pub open spec fn ew_add(a: Seq<i64>, b: Seq<i64>) -> Seq<i64>
    recommends
        a.len() == b.len(),
{
    Seq::new(a.len(), |k: int| (a[k] + b[k]) as i64)
}

/// Elementwise difference of two equally long element sequences.
pub open spec fn ew_sub(a: Seq<i64>, b: Seq<i64>) -> Seq<i64>
    recommends
        a.len() == b.len(),
{
    Seq::new(a.len(), |k: int| (a[k] - b[k]) as i64)
}

/// The scalar `s` added to every element.
pub open spec fn sc_add(a: Seq<i64>, s: i64) -> Seq<i64> {
    Seq::new(a.len(), |k: int| (a[k] + s) as i64)
}

/// The scalar `s` subtracted from every element.
pub open spec fn sc_sub(a: Seq<i64>, s: i64) -> Seq<i64> {
    Seq::new(a.len(), |k: int| (a[k] - s) as i64)
}

/// Every element multiplied by the scalar `s`.
pub open spec fn sc_mul(a: Seq<i64>, s: i64) -> Seq<i64> {
    Seq::new(a.len(), |k: int| (a[k] * s) as i64)
}

/// Every element divided by the scalar `s`, with Rust's truncating division.
pub open spec fn sc_div(a: Seq<i64>, s: i64) -> Seq<i64>
    recommends
        s != 0,
{
    Seq::new(a.len(), |k: int| div_trunc(a[k] as int, s as int) as i64)
}

/// The row-major transpose of `m` viewed as a `rows` by `cols` matrix:
/// entry (j, i) of the result is entry (i, j) of `m`.
pub open spec fn transpose_of(m: Seq<i64>, rows: int, cols: int) -> Seq<i64>
    recommends
        rows > 0,
        cols > 0,
        m.len() == rows * cols,
{
    Seq::new(m.len(), |p: int| m[(p % rows) * cols + p / rows])
}

/// The sum of the first `k` terms of the dot product of row `i` of `a` with
/// column `j` of `b`, both viewed as square matrices of order `n`,
/// accumulated left to right.
pub open spec fn dot_prefix(a: Seq<i64>, b: Seq<i64>, n: int, i: int, j: int, k: int) -> int
    decreases k,
{
    if k <= 0 {
        0
    } else {
        dot_prefix(a, b, n, i, j, k - 1) + a[i * n + (k - 1)] * b[(k - 1) * n + j]
    }
}

/// The matrix product of two square matrices of order `n`, in row-major
/// order: entry (i, j) is the dot product of row `i` of `a` with column `j`
/// of `b`.
pub open spec fn product_of(a: Seq<i64>, b: Seq<i64>, n: int) -> Seq<i64>
    recommends
        n > 0,
        a.len() == n * n,
        b.len() == n * n,
{
    Seq::new(a.len(), |p: int| dot_prefix(a, b, n, p / n, p % n, n) as i64)
}

/// The identity matrix of order `n`: ones on the diagonal, zeroes elsewhere.
pub open spec fn identity_of(n: int) -> Seq<i64>
    recommends
        n > 0,
{
    Seq::new((n * n) as nat, |p: int| if p / n == p % n { 1i64 } else { 0i64 })
}

/// Every elementwise sum of `a` and `b` is representable as an `i64`.
pub open spec fn ew_add_in_range(a: Seq<i64>, b: Seq<i64>) -> bool {
    forall|k: int| 0 <= k < a.len() ==> fits_i64(#[trigger] a[k] + b[k])
}

/// Every elementwise difference of `a` and `b` is representable as an `i64`.
pub open spec fn ew_sub_in_range(a: Seq<i64>, b: Seq<i64>) -> bool {
    forall|k: int| 0 <= k < a.len() ==> fits_i64(#[trigger] a[k] - b[k])
}

/// Every element of `a` plus `s` is representable as an `i64`.
pub open spec fn sc_add_in_range(a: Seq<i64>, s: i64) -> bool {
    forall|k: int| 0 <= k < a.len() ==> fits_i64(#[trigger] a[k] + s)
}

/// Every element of `a` minus `s` is representable as an `i64`.
pub open spec fn sc_sub_in_range(a: Seq<i64>, s: i64) -> bool {
    forall|k: int| 0 <= k < a.len() ==> fits_i64(#[trigger] a[k] - s)
}

/// Every element of `a` times `s` is representable as an `i64`.
pub open spec fn sc_mul_in_range(a: Seq<i64>, s: i64) -> bool {
    forall|k: int| 0 <= k < a.len() ==> fits_i64(#[trigger] a[k] * s)
}

/// Dividing element `k` of `a` by `s` neither divides by zero nor overflows
/// (the one overflowing case is `i64::MIN / -1`).
pub open spec fn sc_div_in_range(a: Seq<i64>, s: i64) -> bool {
    s != 0 && forall|k: int| 0 <= k < a.len() ==> !(#[trigger] a[k] == i64::MIN && s == -1)
}

/// Step `k` of the dot product for entry (i, j) stays within `i64`: the term
/// itself and the running sum after adding it.
pub open spec fn dot_step_in_range(a: Seq<i64>, b: Seq<i64>, n: int, i: int, j: int, k: int) -> bool {
    fits_i64(a[i * n + k] * b[k * n + j]) && fits_i64(dot_prefix(a, b, n, i, j, k + 1))
}

/// Sequential accumulation of the matrix product of `a` and `b` never leaves
/// `i64`: every term and every running sum is representable.
pub open spec fn product_in_range(a: Seq<i64>, b: Seq<i64>, n: int) -> bool {
    forall|i: int, j: int, k: int|
        0 <= i < n && 0 <= j < n && 0 <= k < n ==> #[trigger] dot_step_in_range(a, b, n, i, j, k)
}

/// Entry (i, j) of a row-major sequence with `n` columns.
pub open spec fn entry_of(m: Seq<i64>, n: int, i: int, j: int) -> i64 {
    m[i * n + j]
}

/// The sequence `v` with entries (r, c) and (c, r) of a square matrix of
/// order `n` exchanged.
pub open spec fn swap_entries(v: Seq<i64>, n: int, r: int, c: int) -> Seq<i64> {
    v.update(r * n + c, v[c * n + r]).update(c * n + r, v[r * n + c])
}

/// Exchanging the mirrored pair (r, c), (c, r) changes exactly those two
/// entries and leaves every other entry in place.
pub proof fn lemma_entry_after_swap(v: Seq<i64>, n: int, r: int, c: int, x: int, y: int)
    requires
        v.len() == n * n,
        0 <= r < n,
        0 <= c < n,
        r != c,
        0 <= x < n,
        0 <= y < n,
    ensures
        entry_of(swap_entries(v, n, r, c), n, x, y) == if x == r && y == c {
            entry_of(v, n, c, r)
        } else if x == c && y == r {
            entry_of(v, n, r, c)
        } else {
            entry_of(v, n, x, y)
        },
{
    lemma_flat_index(r, c, n, n);
    lemma_flat_index(c, r, n, n);
    lemma_flat_index(x, y, n, n);
    assert(x * n + y == r * n + c ==> x == r && y == c) by {
        if x * n + y == r * n + c {
            assert(x == (x * n + y) / n && y == (x * n + y) % n);
        }
    }
    assert(x * n + y == c * n + r ==> x == c && y == r) by {
        if x * n + y == c * n + r {
            assert(x == (x * n + y) / n && y == (x * n + y) % n);
        }
    }
}

/// The flat offset of entry (i, j) lies inside the storage, and the offset
/// maps back to (i, j) under division and remainder by `cols`.
pub proof fn lemma_flat_index(i: int, j: int, rows: int, cols: int)
    requires
        0 <= i < rows,
        0 <= j < cols,
    ensures
        0 <= i * cols + j < rows * cols,
        (i * cols + j) / cols == i,
        (i * cols + j) % cols == j,
{
    assert(0 <= i * cols + j < rows * cols) by (nonlinear_arith)
        requires
            0 <= i < rows,
            0 <= j < cols,
    ;
    lemma_fundamental_div_mod_converse(i * cols + j, cols, i, j);
}

/// A flat position `p` inside a `rows` by `cols` matrix decomposes into the
/// row `p / cols` and the column `p % cols`.
pub proof fn lemma_unflatten(p: int, rows: int, cols: int)
    requires
        rows > 0,
        cols > 0,
        0 <= p < rows * cols,
    ensures
        0 <= p / cols < rows,
        0 <= p % cols < cols,
        p == (p / cols) * cols + p % cols,
{
    lemma_fundamental_div_mod(p, cols);
    assert(cols * (p / cols) == (p / cols) * cols) by (nonlinear_arith);
    lemma_div_pos_is_pos(p, cols);
    lemma_mod_division_less_than_divisor(p, cols);
    assert(p < cols * rows) by (nonlinear_arith)
        requires
            p < rows * cols,
    ;
    lemma_multiply_divide_lt(p, cols, rows);
}

} // verus!
