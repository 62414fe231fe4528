//! The building blocks of a network: layers and activation functions.

pub mod activation;
pub mod layer;

pub use crate::activation::Activation;
pub use crate::layer::Layer;
