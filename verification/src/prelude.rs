//! The one import that brings in the number type and the arithmetic
//! capability trait it rests on.

pub use crate::number::FromStrError;
pub use crate::number::YololNumber;
pub use crate::yolol_ops::YololOps;
