//! Basic matrix trait: shape queries, indexed read, element swap, and
//! transposition, each with a full contract over the implementor's
//! sequence-level view.

use vstd::prelude::*;

verus! {

use crate::model::transpose_of;

/// Basic matrix trait.
///
/// An implementor exposes its shape (`rows`/`cols`) and its elements in
/// row-major order (`elems`) as specification-level views; `wf` is the
/// implementor's well-formedness invariant, and `lemma_wf` obliges every
/// implementor to prove that a well-formed matrix has a positive shape and
/// exactly `rows * cols` elements.
pub trait ArrayMatrix: Sized {
    /// The number of rows, as seen by specifications.
    spec fn rows(&self) -> int;

    /// The number of columns, as seen by specifications.
    spec fn cols(&self) -> int;

    /// The elements in row-major order, as seen by specifications.
    spec fn elems(&self) -> Seq<i64>;

    /// The implementor's well-formedness invariant.
    spec fn wf(&self) -> bool;

    /// A well-formed matrix has a positive shape and `rows * cols` elements.
    proof fn lemma_wf(&self)
        requires
            self.wf(),
        ensures
            self.rows() > 0,
            self.cols() > 0,
            self.elems().len() == self.rows() * self.cols(),
    ;

    /// Get the row length.
    fn row(&self) -> (r: usize)
        requires
            self.wf(),
        ensures
            r as int == self.rows(),
    ;

    /// Get the column length.
    fn column(&self) -> (c: usize)
        requires
            self.wf(),
        ensures
            c as int == self.cols(),
    ;

    /// Get row and column length as a tuple.
    fn size(&self) -> (s: (usize, usize))
        requires
            self.wf(),
        ensures
            s.0 as int == self.rows(),
            s.1 as int == self.cols(),
    ;

    /// Read the element at row `i`, column `j`.
    fn get(&self, i: usize, j: usize) -> (v: i64)
        requires
            self.wf(),
            (i as int) < self.rows(),
            (j as int) < self.cols(),
        ensures
            v == self.elems()[i as int * self.cols() + j as int],
    ;

    /// Get transpose of the matrix.
    fn transpose(&self) -> (t: Self)
        requires
            self.wf(),
        ensures
            t.wf(),
            t.rows() == self.cols(),
            t.cols() == self.rows(),
            t.elems() == transpose_of(self.elems(), self.rows(), self.cols()),
    ;

    /// Transpose in place; only square matrices can be transposed without
    /// allocating a second buffer.
    fn transpose_mut(&mut self)
        requires
            old(self).wf(),
            old(self).rows() == old(self).cols(),
        ensures
            final(self).wf(),
            final(self).rows() == old(self).rows(),
            final(self).cols() == old(self).cols(),
            final(self).elems() == transpose_of(
                old(self).elems(),
                old(self).rows(),
                old(self).cols(),
            ),
    ;

    /// Swaps two elements in a matrix.
    fn swap(&mut self, a: (usize, usize), b: (usize, usize))
        requires
            old(self).wf(),
            (a.0 as int) < old(self).rows(),
            (a.1 as int) < old(self).cols(),
            (b.0 as int) < old(self).rows(),
            (b.1 as int) < old(self).cols(),
        ensures
            final(self).wf(),
            final(self).rows() == old(self).rows(),
            final(self).cols() == old(self).cols(),
            final(self).elems() == old(self).elems().update(
                a.0 as int * old(self).cols() + a.1 as int,
                old(self).elems()[b.0 as int * old(self).cols() + b.1 as int],
            ).update(
                b.0 as int * old(self).cols() + b.1 as int,
                old(self).elems()[a.0 as int * old(self).cols() + a.1 as int],
            ),
    ;
}

} // verus!
