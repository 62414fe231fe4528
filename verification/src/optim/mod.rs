//! What training is steered by: hyperparameters and loss functions.

pub mod loss;

pub use crate::hyperparameters::Hyperparameters;
pub use crate::loss::Loss;
