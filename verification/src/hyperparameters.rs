//! Hyperparameters abstraction.

use crate::numeric::Numeric;
use vstd::prelude::*;

verus! {

/// Hyperparameters for model training.
///
/// - `epochs`: the number of passes over the training set
/// - `lr`: the learning rate
#[derive(Clone, Copy, Debug)]
pub struct Hyperparameters<T: Numeric> {
    pub epochs: usize,
    pub lr: T,
}

} // verus!
