//! Integer vectors and matrices.
pub mod matrix;
pub mod vector;
