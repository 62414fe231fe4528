//! ALAN
//! Autodifferentiation Library with Applications to Neural networks
//!
//! Main library.

pub mod activation;
pub mod architecture;
pub mod dataset;
pub mod hyperparameters;
pub mod layer;
pub mod loss;
pub mod models;
pub mod network;
pub mod numeric;
pub mod optim;
pub mod tensor;
pub mod tensors;

pub use crate::numeric::fixed16::x16;
pub use crate::numeric::Numeric;
