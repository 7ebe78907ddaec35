//! Dense matrices and column vectors stored row by row, with the shape,
//! indexing and arithmetic of each operation proved against a model of
//! the matrix as a sequence of rows.

pub mod arith;
pub mod elementwise;
pub mod errors;
pub mod laws;
pub mod linalg;
pub mod matrix;
pub mod order;
pub mod text;
pub mod vector;
pub mod vector_ops;

pub use errors::Errors;
pub use matrix::FennMatrix;
pub use vector::FennVector;
