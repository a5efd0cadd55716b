//! What holds of the operations taken together.

pub mod determinant;
pub mod identity;
pub mod reconstruction;
pub mod transposition;
