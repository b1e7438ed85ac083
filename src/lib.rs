//! Fixed-size dense matrices: element-wise and scalar arithmetic, matrix products and
//! elementary row operations, each specified over an integer model of the matrix.

pub mod grid;
pub mod laws;
pub mod matrix;

pub use matrix::Matrix;
