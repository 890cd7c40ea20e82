//! A small dense-linear-algebra kernel over exact integer arithmetic:
//! a row-major matrix type with validated construction, indexed access,
//! shape-checked arithmetic and a recursive cofactor determinant, plus
//! 2-D and 3-D vector types built on the same primitives.

pub mod approx_eq;
pub mod matrix;
pub mod vector2;
pub mod vector3;
pub mod matrix_laws;
pub mod molecules;
