//! The dynamic-shape matrix type: a flat `Vec<i64>` of elements in row-major
//! order together with the stored row count; the column count is derived
//! from the element count.

use vstd::prelude::*;

verus! {

use vstd::arithmetic::div_mod::lemma_fundamental_div_mod;
use vstd::arithmetic::div_mod::lemma_fundamental_div_mod_converse;
use vstd::pervasive::VecAdditionalExecFns;

use crate::array_matrix::ArrayMatrix;
use crate::model::dot_prefix;
use crate::model::dot_step_in_range;
use crate::model::entry_of;
use crate::model::ew_add;
use crate::model::ew_add_in_range;
use crate::model::ew_sub;
use crate::model::ew_sub_in_range;
use crate::model::fits_i64;
use crate::model::lemma_entry_after_swap;
use crate::model::lemma_flat_index;
use crate::model::lemma_unflatten;
use crate::model::product_in_range;
use crate::model::product_of;
use crate::model::sc_add;
use crate::model::sc_add_in_range;
use crate::model::sc_div;
use crate::model::sc_div_in_range;
use crate::model::sc_mul;
use crate::model::sc_mul_in_range;
use crate::model::sc_sub;
use crate::model::sc_sub_in_range;
use crate::model::swap_entries;
use crate::model::transpose_of;

/// The two fault kinds an operation can report: an index pair outside the
/// shape, or operands whose shapes the operation cannot combine.
#[derive(Clone, Copy, Debug, PartialEq, Eq, Structural)]
pub enum MatrixError {
    /// An index pair lay outside the matrix shape.
    IndexOutOfRange,
    /// Two operands had shapes that the operation cannot combine.
    ShapeMismatch,
}

/// Shape queries shared by matrix containers over elements of type `Inner`.
pub trait Matrix<Inner> {
    /// The number of rows, as specifications see it.
    spec fn row_count(&self) -> int;

    /// The number of columns, as specifications see it.
    spec fn col_count(&self) -> int;

    /// The implementor's well-formedness invariant.
    spec fn shape_wf(&self) -> bool;

    /// Get the row length.
    fn row_len(&self) -> (r: usize)
        requires
            self.shape_wf(),
        ensures
            r as int == self.row_count(),
    ;

    /// Get the column length.
    fn column_len(&self) -> (c: usize)
        requires
            self.shape_wf(),
        ensures
            c as int == self.col_count(),
    ;
}

/// A row-major matrix that owns its elements in a flat vector. The stored
/// `row_len` is the row count; the column count is `inner.len() / row_len`.
#[derive(Debug)]
pub struct VecMatrix {
    inner: Vec<i64>,
    row_len: usize,
}

impl View for VecMatrix {
    type V = Seq<i64>;

    closed spec fn view(&self) -> Seq<i64> {
        self.inner@
    }
}

impl VecMatrix {
    /// Build a matrix from a flat row-major element vector and the row
    /// count; the vector's length must be a positive multiple of it.
    pub fn from_vec(elements: Vec<i64>, row_len: usize) -> (m: VecMatrix)
        requires
            row_len > 0,
            elements@.len() > 0,
            elements@.len() as int % (row_len as int) == 0,
        ensures
            m.wf(),
            m.rows() == row_len as int,
            m.cols() == elements@.len() as int / row_len as int,
            m@ == elements@,
    {
        VecMatrix { inner: elements, row_len }
    }

    /// The identity matrix of the given positive order: ones on the
    /// diagonal, zeroes elsewhere.
    pub fn identity(order: usize) -> (m: VecMatrix)
        requires
            order > 0,
            order as int * order as int <= usize::MAX as int,
        ensures
            m.wf(),
            m.rows() == order as int,
            m.cols() == order as int,
            m@ == crate::model::identity_of(order as int),
    {
        let len = order * order;
        proof {
            assert(order as int * order as int > 0) by (nonlinear_arith)
                requires
                    order > 0,
            ;
        }
        let mut out: Vec<i64> = Vec::new();
        let mut p: usize = 0;
        while p < len
            invariant
                p <= len,
                len == order * order,
                order > 0,
                out@ =~= crate::model::identity_of(order as int).take(p as int),
            decreases len - p,
        {
            let v: i64 = if p / order == p % order {
                1
            } else {
                0
            };
            out.push(v);
            p += 1;
        }
        proof {
            assert(out@ =~= crate::model::identity_of(order as int));
            lemma_fundamental_div_mod_converse(len as int, order as int, order as int, 0);
        }
        VecMatrix { inner: out, row_len: order }
    }

    /// The elements in row-major order, for inspection and debugging.
    pub fn elements(&self) -> (r: &Vec<i64>)
        ensures
            r@ == self@,
    {
        &self.inner
    }

    /// Write `value` at row `i`, column `j`.
    pub fn set(&mut self, i: usize, j: usize, value: i64)
        requires
            old(self).wf(),
            (i as int) < old(self).rows(),
            (j as int) < old(self).cols(),
        ensures
            final(self).wf(),
            final(self).rows() == old(self).rows(),
            final(self).cols() == old(self).cols(),
            final(self)@ == old(self)@.update(i as int * old(self).cols() + j as int, value),
    {
        proof {
            self.lemma_wf();
            lemma_flat_index(i as int, j as int, self.rows(), self.cols());
        }
        let cols = self.inner.len() / self.row_len;
        self.inner.set(i * cols + j, value);
    }

    /// Read the element at row `i`, column `j`, or report `IndexOutOfRange`
    /// when the pair lies outside the shape.
    pub fn try_get(&self, i: usize, j: usize) -> (r: Result<i64, MatrixError>)
        requires
            self.wf(),
        ensures
            (i as int) < self.rows() && (j as int) < self.cols() ==> r == Ok::<i64, MatrixError>(
                self@[i as int * self.cols() + j as int],
            ),
            !((i as int) < self.rows() && (j as int) < self.cols()) ==> r == Err::<
                i64,
                MatrixError,
            >(MatrixError::IndexOutOfRange),
    {
        if i < self.row() && j < self.column() {
            Ok(self.get(i, j))
        } else {
            Err(MatrixError::IndexOutOfRange)
        }
    }

    /// Write `value` at row `i`, column `j`, or report `IndexOutOfRange` and
    /// leave the matrix unchanged when the pair lies outside the shape.
    pub fn try_set(&mut self, i: usize, j: usize, value: i64) -> (r: Result<(), MatrixError>)
        requires
            old(self).wf(),
        ensures
            final(self).wf(),
            final(self).rows() == old(self).rows(),
            final(self).cols() == old(self).cols(),
            (i as int) < old(self).rows() && (j as int) < old(self).cols() ==> r == Ok::<
                (),
                MatrixError,
            >(()) && final(self)@ == old(self)@.update(
                i as int * old(self).cols() + j as int,
                value,
            ),
            !((i as int) < old(self).rows() && (j as int) < old(self).cols()) ==> r == Err::<
                (),
                MatrixError,
            >(MatrixError::IndexOutOfRange) && *final(self) == *old(self),
    {
        proof {
            self.lemma_wf();
        }
        if i < self.row() && j < self.column() {
            self.set(i, j, value);
            Ok(())
        } else {
            Err(MatrixError::IndexOutOfRange)
        }
    }

    /// Elementwise sum of two same-shape matrices; consumes both operands.
    #[verifier::loop_isolation(false)]
    pub fn add(self, rhs: VecMatrix) -> (r: VecMatrix)
        requires
            self.wf(),
            rhs.wf(),
            self.rows() == rhs.rows(),
            self@.len() == rhs@.len(),
            ew_add_in_range(self@, rhs@),
        ensures
            r.wf(),
            r.rows() == self.rows(),
            r.cols() == self.cols(),
            r@ == ew_add(self@, rhs@),
    {
        proof {
            self.lemma_wf();
        }
        let len = self.inner.len();
        let mut out: Vec<i64> = Vec::new();
        let mut k: usize = 0;
        while k < len
            invariant
                k <= len,
                out@ =~= ew_add(self@, rhs@).take(k as int),
            decreases len - k,
        {
            proof {
                assert(fits_i64(self@[k as int] + rhs@[k as int]));
            }
            out.push(self.inner[k] + rhs.inner[k]);
            k += 1;
        }
        proof {
            assert(out@ =~= ew_add(self@, rhs@));
        }
        VecMatrix { inner: out, row_len: self.row_len }
    }

    /// Elementwise sum that reports `ShapeMismatch` when the operands'
    /// shapes disagree, instead of requiring them to agree.
    pub fn try_add(self, rhs: VecMatrix) -> (r: Result<VecMatrix, MatrixError>)
        requires
            self.wf(),
            rhs.wf(),
            self.rows() == rhs.rows() && self@.len() == rhs@.len() ==> ew_add_in_range(
                self@,
                rhs@,
            ),
        ensures
            self.rows() == rhs.rows() && self@.len() == rhs@.len() ==> (r matches Ok(m) && m.wf()
                && m.rows() == self.rows() && m.cols() == self.cols() && m@ == ew_add(
                self@,
                rhs@,
            )),
            !(self.rows() == rhs.rows() && self@.len() == rhs@.len()) ==> r == Err::<
                VecMatrix,
                MatrixError,
            >(MatrixError::ShapeMismatch),
    {
        if self.row_len == rhs.row_len && self.inner.len() == rhs.inner.len() {
            Ok(self.add(rhs))
        } else {
            Err(MatrixError::ShapeMismatch)
        }
    }

    /// Elementwise difference of two same-shape matrices; consumes both
    /// operands.
    #[verifier::loop_isolation(false)]
    pub fn sub(self, rhs: VecMatrix) -> (r: VecMatrix)
        requires
            self.wf(),
            rhs.wf(),
            self.rows() == rhs.rows(),
            self@.len() == rhs@.len(),
            ew_sub_in_range(self@, rhs@),
        ensures
            r.wf(),
            r.rows() == self.rows(),
            r.cols() == self.cols(),
            r@ == ew_sub(self@, rhs@),
    {
        proof {
            self.lemma_wf();
        }
        let len = self.inner.len();
        let mut out: Vec<i64> = Vec::new();
        let mut k: usize = 0;
        while k < len
            invariant
                k <= len,
                out@ =~= ew_sub(self@, rhs@).take(k as int),
            decreases len - k,
        {
            proof {
                assert(fits_i64(self@[k as int] - rhs@[k as int]));
            }
            out.push(self.inner[k] - rhs.inner[k]);
            k += 1;
        }
        proof {
            assert(out@ =~= ew_sub(self@, rhs@));
        }
        VecMatrix { inner: out, row_len: self.row_len }
    }

    /// Elementwise sum in place: adds each element of `rhs` to the matching
    /// element of the receiver.
    #[verifier::loop_isolation(false)]
    pub fn add_assign(&mut self, rhs: VecMatrix)
        requires
            old(self).wf(),
            rhs.wf(),
            old(self).rows() == rhs.rows(),
            old(self)@.len() == rhs@.len(),
            ew_add_in_range(old(self)@, rhs@),
        ensures
            final(self).wf(),
            final(self).rows() == old(self).rows(),
            final(self).cols() == old(self).cols(),
            final(self)@ == ew_add(old(self)@, rhs@),
    {
        proof {
            self.lemma_wf();
        }
        let ghost m = self.inner@;
        let len = self.inner.len();
        let mut k: usize = 0;
        while k < len
            invariant
                k <= len,
                self.row_len == old(self).row_len,
                self.inner@.len() == m.len(),
                forall|t: int| 0 <= t < k ==> self.inner@[t] == ew_add(m, rhs@)[t],
                forall|t: int| k <= t < m.len() ==> self.inner@[t] == m[t],
            decreases len - k,
        {
            proof {
                assert(fits_i64(m[k as int] + rhs@[k as int]));
            }
            let v = self.inner[k] + rhs.inner[k];
            self.inner.set(k, v);
            k += 1;
        }
        proof {
            assert(self.inner@ =~= ew_add(m, rhs@));
        }
    }

    /// Elementwise difference in place: subtracts each element of `rhs`
    /// from the matching element of the receiver.
    #[verifier::loop_isolation(false)]
    pub fn sub_assign(&mut self, rhs: VecMatrix)
        requires
            old(self).wf(),
            rhs.wf(),
            old(self).rows() == rhs.rows(),
            old(self)@.len() == rhs@.len(),
            ew_sub_in_range(old(self)@, rhs@),
        ensures
            final(self).wf(),
            final(self).rows() == old(self).rows(),
            final(self).cols() == old(self).cols(),
            final(self)@ == ew_sub(old(self)@, rhs@),
    {
        proof {
            self.lemma_wf();
        }
        let ghost m = self.inner@;
        let len = self.inner.len();
        let mut k: usize = 0;
        while k < len
            invariant
                k <= len,
                self.row_len == old(self).row_len,
                self.inner@.len() == m.len(),
                forall|t: int| 0 <= t < k ==> self.inner@[t] == ew_sub(m, rhs@)[t],
                forall|t: int| k <= t < m.len() ==> self.inner@[t] == m[t],
            decreases len - k,
        {
            proof {
                assert(fits_i64(m[k as int] - rhs@[k as int]));
            }
            let v = self.inner[k] - rhs.inner[k];
            self.inner.set(k, v);
            k += 1;
        }
        proof {
            assert(self.inner@ =~= ew_sub(m, rhs@));
        }
    }

    /// The scalar broadcast sum: `s` added to every element.
    #[verifier::loop_isolation(false)]
    pub fn add_scalar(self, s: i64) -> (r: VecMatrix)
        requires
            self.wf(),
            sc_add_in_range(self@, s),
        ensures
            r.wf(),
            r.rows() == self.rows(),
            r.cols() == self.cols(),
            r@ == sc_add(self@, s),
    {
        proof {
            self.lemma_wf();
        }
        let len = self.inner.len();
        let mut out: Vec<i64> = Vec::new();
        let mut k: usize = 0;
        while k < len
            invariant
                k <= len,
                out@ =~= sc_add(self@, s).take(k as int),
            decreases len - k,
        {
            proof {
                assert(fits_i64(self@[k as int] + s));
            }
            out.push(self.inner[k] + s);
            k += 1;
        }
        proof {
            assert(out@ =~= sc_add(self@, s));
        }
        VecMatrix { inner: out, row_len: self.row_len }
    }

    /// The scalar broadcast sum in place.
    #[verifier::loop_isolation(false)]
    pub fn add_scalar_assign(&mut self, s: i64)
        requires
            old(self).wf(),
            sc_add_in_range(old(self)@, s),
        ensures
            final(self).wf(),
            final(self).rows() == old(self).rows(),
            final(self).cols() == old(self).cols(),
            final(self)@ == sc_add(old(self)@, s),
    {
        proof {
            self.lemma_wf();
        }
        let ghost m = self.inner@;
        let len = self.inner.len();
        let mut k: usize = 0;
        while k < len
            invariant
                k <= len,
                self.row_len == old(self).row_len,
                self.inner@.len() == m.len(),
                forall|t: int| 0 <= t < k ==> self.inner@[t] == sc_add(m, s)[t],
                forall|t: int| k <= t < m.len() ==> self.inner@[t] == m[t],
            decreases len - k,
        {
            proof {
                assert(fits_i64(m[k as int] + s));
            }
            let v = self.inner[k] + s;
            self.inner.set(k, v);
            k += 1;
        }
        proof {
            assert(self.inner@ =~= sc_add(m, s));
        }
    }

    /// The scalar broadcast difference: `s` subtracted from every element.
    #[verifier::loop_isolation(false)]
    pub fn sub_scalar(self, s: i64) -> (r: VecMatrix)
        requires
            self.wf(),
            sc_sub_in_range(self@, s),
        ensures
            r.wf(),
            r.rows() == self.rows(),
            r.cols() == self.cols(),
            r@ == sc_sub(self@, s),
    {
        proof {
            self.lemma_wf();
        }
        let len = self.inner.len();
        let mut out: Vec<i64> = Vec::new();
        let mut k: usize = 0;
        while k < len
            invariant
                k <= len,
                out@ =~= sc_sub(self@, s).take(k as int),
            decreases len - k,
        {
            proof {
                assert(fits_i64(self@[k as int] - s));
            }
            out.push(self.inner[k] - s);
            k += 1;
        }
        proof {
            assert(out@ =~= sc_sub(self@, s));
        }
        VecMatrix { inner: out, row_len: self.row_len }
    }

    /// The scalar broadcast difference in place.
    #[verifier::loop_isolation(false)]
    pub fn sub_scalar_assign(&mut self, s: i64)
        requires
            old(self).wf(),
            sc_sub_in_range(old(self)@, s),
        ensures
            final(self).wf(),
            final(self).rows() == old(self).rows(),
            final(self).cols() == old(self).cols(),
            final(self)@ == sc_sub(old(self)@, s),
    {
        proof {
            self.lemma_wf();
        }
        let ghost m = self.inner@;
        let len = self.inner.len();
        let mut k: usize = 0;
        while k < len
            invariant
                k <= len,
                self.row_len == old(self).row_len,
                self.inner@.len() == m.len(),
                forall|t: int| 0 <= t < k ==> self.inner@[t] == sc_sub(m, s)[t],
                forall|t: int| k <= t < m.len() ==> self.inner@[t] == m[t],
            decreases len - k,
        {
            proof {
                assert(fits_i64(m[k as int] - s));
            }
            let v = self.inner[k] - s;
            self.inner.set(k, v);
            k += 1;
        }
        proof {
            assert(self.inner@ =~= sc_sub(m, s));
        }
    }

    /// The scalar broadcast product: every element multiplied by `s`.
    #[verifier::loop_isolation(false)]
    pub fn mul_scalar(self, s: i64) -> (r: VecMatrix)
        requires
            self.wf(),
            sc_mul_in_range(self@, s),
        ensures
            r.wf(),
            r.rows() == self.rows(),
            r.cols() == self.cols(),
            r@ == sc_mul(self@, s),
    {
        proof {
            self.lemma_wf();
        }
        let len = self.inner.len();
        let mut out: Vec<i64> = Vec::new();
        let mut k: usize = 0;
        while k < len
            invariant
                k <= len,
                out@ =~= sc_mul(self@, s).take(k as int),
            decreases len - k,
        {
            proof {
                assert(fits_i64(self@[k as int] * s));
            }
            out.push(self.inner[k] * s);
            k += 1;
        }
        proof {
            assert(out@ =~= sc_mul(self@, s));
        }
        VecMatrix { inner: out, row_len: self.row_len }
    }

    /// The scalar broadcast product in place.
    #[verifier::loop_isolation(false)]
    pub fn mul_scalar_assign(&mut self, s: i64)
        requires
            old(self).wf(),
            sc_mul_in_range(old(self)@, s),
        ensures
            final(self).wf(),
            final(self).rows() == old(self).rows(),
            final(self).cols() == old(self).cols(),
            final(self)@ == sc_mul(old(self)@, s),
    {
        proof {
            self.lemma_wf();
        }
        let ghost m = self.inner@;
        let len = self.inner.len();
        let mut k: usize = 0;
        while k < len
            invariant
                k <= len,
                self.row_len == old(self).row_len,
                self.inner@.len() == m.len(),
                forall|t: int| 0 <= t < k ==> self.inner@[t] == sc_mul(m, s)[t],
                forall|t: int| k <= t < m.len() ==> self.inner@[t] == m[t],
            decreases len - k,
        {
            proof {
                assert(fits_i64(m[k as int] * s));
            }
            let v = self.inner[k] * s;
            self.inner.set(k, v);
            k += 1;
        }
        proof {
            assert(self.inner@ =~= sc_mul(m, s));
        }
    }

    /// The scalar broadcast quotient: every element divided by `s`, with
    /// the element type's own truncating division.
    #[verifier::loop_isolation(false)]
    pub fn div_scalar(self, s: i64) -> (r: VecMatrix)
        requires
            self.wf(),
            sc_div_in_range(self@, s),
        ensures
            r.wf(),
            r.rows() == self.rows(),
            r.cols() == self.cols(),
            r@ == sc_div(self@, s),
    {
        proof {
            self.lemma_wf();
        }
        let len = self.inner.len();
        let mut out: Vec<i64> = Vec::new();
        let mut k: usize = 0;
        while k < len
            invariant
                k <= len,
                out@ =~= sc_div(self@, s).take(k as int),
            decreases len - k,
        {
            proof {
                assert(!(self@[k as int] == i64::MIN && s == -1));
            }
            out.push(self.inner[k] / s);
            k += 1;
        }
        proof {
            assert(out@ =~= sc_div(self@, s));
        }
        VecMatrix { inner: out, row_len: self.row_len }
    }

    /// The scalar broadcast quotient in place.
    #[verifier::loop_isolation(false)]
    pub fn div_scalar_assign(&mut self, s: i64)
        requires
            old(self).wf(),
            sc_div_in_range(old(self)@, s),
        ensures
            final(self).wf(),
            final(self).rows() == old(self).rows(),
            final(self).cols() == old(self).cols(),
            final(self)@ == sc_div(old(self)@, s),
    {
        proof {
            self.lemma_wf();
        }
        let ghost m = self.inner@;
        let len = self.inner.len();
        let mut k: usize = 0;
        while k < len
            invariant
                k <= len,
                self.row_len == old(self).row_len,
                self.inner@.len() == m.len(),
                forall|t: int| 0 <= t < k ==> self.inner@[t] == sc_div(m, s)[t],
                forall|t: int| k <= t < m.len() ==> self.inner@[t] == m[t],
            decreases len - k,
        {
            proof {
                assert(!(m[k as int] == i64::MIN && s == -1));
            }
            let v = self.inner[k] / s;
            self.inner.set(k, v);
            k += 1;
        }
        proof {
            assert(self.inner@ =~= sc_div(m, s));
        }
    }

    /// Matrix product with any matrix container of the same square shape:
    /// entry (i, j) of the result is the dot product of row `i` of the
    /// receiver with column `j` of `other`, accumulated left to right.
    /// Only square, equal-shape operands are supported: the result storage
    /// takes its shape from the receiver, which is correct exactly then.
    #[verifier::loop_isolation(false)]
    pub fn mul<M: ArrayMatrix>(self, other: M) -> (r: VecMatrix)
        requires
            self.wf(),
            other.wf(),
            self.rows() == self.cols(),
            other.rows() == self.rows(),
            other.cols() == self.cols(),
            product_in_range(self@, other.elems(), self.rows()),
        ensures
            r.wf(),
            r.rows() == self.rows(),
            r.cols() == self.cols(),
            r@ == product_of(self@, other.elems(), self.rows()),
    {
        proof {
            self.lemma_wf();
            other.lemma_wf();
        }
        let n = self.row_len;
        let len = self.inner.len();
        let ghost a = self@;
        let ghost b = other.elems();
        let ghost nn = n as int;
        let mut out: Vec<i64> = Vec::new();
        let mut p: usize = 0;
        while p < len
            invariant
                p <= len,
                out@ =~= product_of(a, b, nn).take(p as int),
            decreases len - p,
        {
            proof {
                lemma_unflatten(p as int, nn, nn);
            }
            let i = p / n;
            let j = p % n;
            let mut k: usize = 0;
            let mut sum: i64 = 0;
            while k < n
                invariant
                    k <= n,
                    (i as int) < nn,
                    (j as int) < nn,
                    sum as int == dot_prefix(a, b, nn, i as int, j as int, k as int),
                decreases n - k,
            {
                proof {
                    assert(dot_step_in_range(a, b, nn, i as int, j as int, k as int));
                    lemma_flat_index(i as int, k as int, nn, nn);
                    lemma_flat_index(k as int, j as int, nn, nn);
                }
                let term = self.get(i, k) * other.get(k, j);
                sum = sum + term;
                k += 1;
            }
            out.push(sum);
            p += 1;
        }
        proof {
            assert(out@ =~= product_of(a, b, nn));
            lemma_fundamental_div_mod_converse(len as int, nn, nn, 0);
        }
        VecMatrix { inner: out, row_len: n }
    }
}

impl Matrix<i64> for VecMatrix {
    open spec fn row_count(&self) -> int {
        self.rows()
    }

    open spec fn col_count(&self) -> int {
        self.cols()
    }

    open spec fn shape_wf(&self) -> bool {
        self.wf()
    }

    fn row_len(&self) -> usize {
        self.row_len
    }

    fn column_len(&self) -> usize {
        self.inner.len() / self.row_len
    }
}

impl ArrayMatrix for VecMatrix {
    closed spec fn rows(&self) -> int {
        self.row_len as int
    }

    closed spec fn cols(&self) -> int {
        self.inner@.len() as int / self.row_len as int
    }

    open spec fn elems(&self) -> Seq<i64> {
        self@
    }

    closed spec fn wf(&self) -> bool {
        self.row_len > 0 && self.inner@.len() > 0 && self.inner@.len() as int % (
        self.row_len as int) == 0
    }

    proof fn lemma_wf(&self) {
        lemma_fundamental_div_mod(self.inner@.len() as int, self.row_len as int);
        assert(self.rows() * 0 == 0);
        vstd::arithmetic::div_mod::lemma_div_pos_is_pos(
            self.inner@.len() as int,
            self.row_len as int,
        );
    }

    fn row(&self) -> usize {
        self.row_len
    }

    fn column(&self) -> usize {
        self.inner.len() / self.row_len
    }

    fn size(&self) -> (usize, usize) {
        (self.row(), self.column())
    }

    fn get(&self, i: usize, j: usize) -> i64 {
        proof {
            self.lemma_wf();
            lemma_flat_index(i as int, j as int, self.rows(), self.cols());
        }
        let cols = self.inner.len() / self.row_len;
        self.inner[i * cols + j]
    }

    #[verifier::loop_isolation(false)]
    fn transpose(&self) -> Self {
        proof {
            self.lemma_wf();
        }
        let rows = self.row_len;
        let cols = self.inner.len() / self.row_len;
        let len = self.inner.len();
        let mut out: Vec<i64> = Vec::new();
        let mut p: usize = 0;
        while p < len
            invariant
                p <= len,
                out@ =~= transpose_of(self@, rows as int, cols as int).take(p as int),
            decreases len - p,
        {
            proof {
                assert(rows as int * cols as int == cols as int * rows as int) by (nonlinear_arith);
                lemma_unflatten(p as int, cols as int, rows as int);
                lemma_flat_index(
                    p as int % rows as int,
                    p as int / rows as int,
                    rows as int,
                    cols as int,
                );
            }
            let r = p % rows;
            let c = p / rows;
            out.push(self.inner[r * cols + c]);
            p += 1;
        }
        proof {
            assert(out@ =~= transpose_of(self@, rows as int, cols as int));
            lemma_fundamental_div_mod_converse(len as int, cols as int, rows as int, 0);
        }
        VecMatrix { inner: out, row_len: cols }
    }

    #[verifier::loop_isolation(false)]
    fn transpose_mut(&mut self) {
        proof {
            self.lemma_wf();
        }
        let n = self.row_len;
        let len = self.inner.len();
        let ghost m = self.inner@;
        let ghost nn = n as int;
        let mut r: usize = 0;
        while r < n
            invariant
                self.wf(),
                self.row_len == n,
                self.inner@.len() == m.len(),
                r <= n,
                forall|x: int, y: int|
                    0 <= x < nn && 0 <= y < nn && x < y ==> {
                        &&& (x < r as int ==> #[trigger] entry_of(self.inner@, nn, x, y)
                            == entry_of(m, nn, y, x) && entry_of(self.inner@, nn, y, x)
                            == entry_of(m, nn, x, y))
                        &&& (x >= r as int ==> entry_of(self.inner@, nn, x, y) == entry_of(
                            m,
                            nn,
                            x,
                            y,
                        ) && entry_of(self.inner@, nn, y, x) == entry_of(m, nn, y, x))
                    },
                forall|d: int|
                    0 <= d < nn ==> #[trigger] entry_of(self.inner@, nn, d, d) == entry_of(
                        m,
                        nn,
                        d,
                        d,
                    ),
            decreases n - r,
        {
            let mut c: usize = r + 1;
            proof {
                let ghost ri = r as int;
                assert forall|x: int, y: int| 0 <= x < nn && 0 <= y < nn && x < y implies {
                    &&& ((x < ri || (x == ri && y < ri + 1)) ==> entry_of(self.inner@, nn, x, y)
                        == entry_of(m, nn, y, x) && entry_of(self.inner@, nn, y, x) == entry_of(
                        m,
                        nn,
                        x,
                        y,
                    ))
                    &&& (!(x < ri || (x == ri && y < ri + 1)) ==> entry_of(self.inner@, nn, x, y)
                        == entry_of(m, nn, x, y) && entry_of(self.inner@, nn, y, x) == entry_of(
                        m,
                        nn,
                        y,
                        x,
                    ))
                } by {
                    assert(entry_of(self.inner@, nn, x, y) == self.inner@[x * nn + y]);
                }
            }
            while c < n
                invariant
                    self.wf(),
                    self.row_len == n,
                    self.inner@.len() == m.len(),
                    r < n,
                    r < c,
                    c <= n,
                    forall|x: int, y: int|
                        0 <= x < nn && 0 <= y < nn && x < y ==> {
                            &&& ((x < r as int || (x == r as int && y < c as int))
                                ==> #[trigger] entry_of(self.inner@, nn, x, y) == entry_of(
                                m,
                                nn,
                                y,
                                x,
                            ) && entry_of(self.inner@, nn, y, x) == entry_of(m, nn, x, y))
                            &&& (!(x < r as int || (x == r as int && y < c as int)) ==> entry_of(
                                self.inner@,
                                nn,
                                x,
                                y,
                            ) == entry_of(m, nn, x, y) && entry_of(self.inner@, nn, y, x)
                                == entry_of(m, nn, y, x))
                        },
                    forall|d: int|
                        0 <= d < nn ==> #[trigger] entry_of(self.inner@, nn, d, d) == entry_of(
                            m,
                            nn,
                            d,
                            d,
                        ),
                decreases n - c,
            {
                proof {
                    lemma_flat_index(r as int, c as int, nn, nn);
                    lemma_flat_index(c as int, r as int, nn, nn);
                    assert(self.inner@.len() == nn * nn);
                }
                let fa = r * n + c;
                let fb = c * n + r;
                let va = self.inner[fa];
                let vb = self.inner[fb];
                let ghost prev = self.inner@;
                self.inner.set(fa, vb);
                self.inner.set(fb, va);
                proof {
                    assert(self.inner@ == swap_entries(prev, nn, r as int, c as int));
                    let ghost ri = r as int;
                    let ghost ci = c as int;
                    assert forall|x: int, y: int| 0 <= x < nn && 0 <= y < nn && x < y implies {
                        &&& ((x < ri || (x == ri && y < ci + 1)) ==> entry_of(
                            self.inner@,
                            nn,
                            x,
                            y,
                        ) == entry_of(m, nn, y, x) && entry_of(self.inner@, nn, y, x) == entry_of(
                            m,
                            nn,
                            x,
                            y,
                        ))
                        &&& (!(x < ri || (x == ri && y < ci + 1)) ==> entry_of(
                            self.inner@,
                            nn,
                            x,
                            y,
                        ) == entry_of(m, nn, x, y) && entry_of(self.inner@, nn, y, x) == entry_of(
                            m,
                            nn,
                            y,
                            x,
                        ))
                    } by {
                        lemma_entry_after_swap(prev, nn, ri, ci, x, y);
                        lemma_entry_after_swap(prev, nn, ri, ci, y, x);
                        assert(entry_of(prev, nn, x, y) == prev[x * nn + y]);
                        assert(entry_of(prev, nn, y, x) == prev[y * nn + x]);
                        assert(entry_of(prev, nn, ri, ci) == prev[ri * nn + ci]);
                        assert(entry_of(prev, nn, ci, ri) == prev[ci * nn + ri]);
                    }
                    assert forall|d: int| 0 <= d < nn implies entry_of(self.inner@, nn, d, d)
                        == entry_of(m, nn, d, d) by {
                        lemma_entry_after_swap(prev, nn, ri, ci, d, d);
                        assert(entry_of(prev, nn, d, d) == prev[d * nn + d]);
                    }
                }
                c += 1;
            }
            proof {
                let ghost ri = r as int;
                assert forall|x: int, y: int| 0 <= x < nn && 0 <= y < nn && x < y implies {
                    &&& (x < ri + 1 ==> entry_of(self.inner@, nn, x, y) == entry_of(m, nn, y, x)
                        && entry_of(self.inner@, nn, y, x) == entry_of(m, nn, x, y))
                    &&& (x >= ri + 1 ==> entry_of(self.inner@, nn, x, y) == entry_of(m, nn, x, y)
                        && entry_of(self.inner@, nn, y, x) == entry_of(m, nn, y, x))
                } by {
                    assert(entry_of(self.inner@, nn, x, y) == self.inner@[x * nn + y]);
                }
            }
            r += 1;
        }
        proof {
            assert forall|p: int| 0 <= p < m.len() implies self.inner@[p] == transpose_of(
                m,
                nn,
                nn,
            )[p] by {
                lemma_unflatten(p, nn, nn);
                let x = p / nn;
                let y = p % nn;
                lemma_flat_index(x, y, nn, nn);
                lemma_flat_index(y, x, nn, nn);
                assert(entry_of(self.inner@, nn, x, y) == self.inner@[p]);
                assert(entry_of(self.inner@, nn, y, x) == self.inner@[y * nn + x]);
            }
            assert(self.inner@ =~= transpose_of(m, nn, nn));
        }
    }

    fn swap(&mut self, a: (usize, usize), b: (usize, usize)) {
        proof {
            self.lemma_wf();
            lemma_flat_index(a.0 as int, a.1 as int, self.rows(), self.cols());
            lemma_flat_index(b.0 as int, b.1 as int, self.rows(), self.cols());
        }
        let cols = self.inner.len() / self.row_len;
        let fa = a.0 * cols + a.1;
        let fb = b.0 * cols + b.1;
        let va = self.inner[fa];
        let vb = self.inner[fb];
        self.inner.set(fa, vb);
        self.inner.set(fb, va);
    }
}

impl PartialEq for VecMatrix {
    /// Structural equality: two matrices are equal exactly when their
    /// element sequences are equal in order.
    #[verifier::loop_isolation(false)]
    fn eq(&self, other: &VecMatrix) -> (r: bool) {
        if self.inner.len() != other.inner.len() {
            return false;
        }
        let mut k: usize = 0;
        while k < self.inner.len()
            invariant
                k <= self.inner@.len(),
                forall|t: int| 0 <= t < k ==> self.inner@[t] == other.inner@[t],
            decreases self.inner@.len() - k,
        {
            if self.inner[k] != other.inner[k] {
                return false;
            }
            k += 1;
        }
        proof {
            assert(self.inner@ =~= other.inner@);
        }
        true
    }
}

impl vstd::std_specs::cmp::PartialEqSpecImpl for VecMatrix {
    open spec fn obeys_eq_spec() -> bool {
        true
    }

    open spec fn eq_spec(&self, other: &VecMatrix) -> bool {
        self@ == other@
    }
}

} // verus!
