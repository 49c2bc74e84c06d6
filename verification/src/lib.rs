//! A small row-major 2D matrix library with verified indexing, transposition
//! (both allocating and in place), and elementwise, scalar and matrix
//! arithmetic over `i64` elements.

pub mod array_matrix;
pub mod laws;
pub mod matrix;
pub mod model;

pub use crate::array_matrix::ArrayMatrix;
pub use crate::matrix::Matrix;
pub use crate::matrix::MatrixError;
pub use crate::matrix::VecMatrix;
