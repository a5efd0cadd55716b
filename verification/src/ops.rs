//! Operations on matrices.

pub mod det;
pub mod eq;
pub mod id;
pub mod lu;
pub mod mul;
pub mod transpose;
