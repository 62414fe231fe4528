//! Layers.

pub use crate::layer::AvgPool;
pub use crate::layer::Convolution;
pub use crate::layer::Linear;
