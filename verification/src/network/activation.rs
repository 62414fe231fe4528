//! Activation functions.

pub use crate::activation::Identity;
pub use crate::activation::ReLU;
pub use crate::activation::Softmax;
