//! Network loss function abstraction.

pub mod mse;
pub mod sse;
pub mod xent;

use crate::numeric::Numeric;
use crate::tensors::Batch;
use vstd::prelude::*;

pub use mse::MSELoss;
pub use sse::SSELoss;
pub use xent::CrossEntropyLoss;

verus! {

/// Network loss function abstraction.
///
/// A loss reduces a batch of predictions and a batch of labels to one
/// scalar, and remembers what its backward pass needs. Its view is what it
/// remembers.
pub trait Loss<const B: usize, T: Numeric, const N: usize>: Sized + View {
    /// The state of a new loss function.
    spec fn initial() -> Self::V;

    /// The loss of `prediction` against `labels`.
    spec fn loss(prediction: Seq<Seq<T>>, labels: Seq<Seq<T>>) -> T;

    /// The state that a forward pass leaves behind.
    spec fn forward_state(prediction: Seq<Seq<T>>, labels: Seq<Seq<T>>) -> Self::V;

    /// The gradient of the loss with respect to the prediction, read off
    /// the state `v`.
    spec fn gradient(v: Self::V) -> Seq<Seq<T>>;

    /// Construct a new loss function.
    fn new() -> (r: Self)
        ensures
            r@ == Self::initial(),
    ;

    /// Complete a forward pass through this layer.
    fn forward(&mut self, prediction: &Batch<B, T, N>, labels: &Batch<B, T, N>) -> (r: T)
        ensures
            r == Self::loss(prediction@, labels@),
            final(self)@ == Self::forward_state(prediction@, labels@),
    ;

    /// Complete a backward pass through this layer.
    fn backward(&self) -> (r: Batch<B, T, N>)
        ensures
            r@ == Self::gradient(self@),
    ;
}

} // verus!
