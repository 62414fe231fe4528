//! Network activation function abstraction.

pub mod identity;
pub mod relu;
pub mod softmax;

use crate::numeric::Numeric;
use crate::tensors::Batch;
use vstd::prelude::*;

pub use identity::Identity;
pub use relu::ReLU;
pub use softmax::Softmax;

verus! {

/// Network activation function abstraction.
///
/// An activation keeps the shape of its input. Its view is what it
/// remembers between a forward and a backward pass.
pub trait Activation<const B: usize, T: Numeric, const N: usize>: Sized + View {
    /// The state of a new activation.
    spec fn initial() -> Self::V;

    /// What a forward pass over `batch` returns in state `v`.
    spec fn forward_output(v: Self::V, batch: Seq<Seq<T>>) -> Seq<Seq<T>>;

    /// The state that a forward pass over `batch` leaves behind.
    spec fn forward_state(v: Self::V, batch: Seq<Seq<T>>) -> Self::V;

    /// What a backward pass over `batch` returns in state `v`.
    spec fn backward_output(v: Self::V, batch: Seq<Seq<T>>) -> Seq<Seq<T>>;

    /// Construct a new network activation function.
    fn new() -> (r: Self)
        ensures
            r@ == Self::initial(),
    ;

    /// Complete a forward pass through this activation function.
    fn forward(&mut self, batch: &Batch<B, T, N>) -> (r: Batch<B, T, N>)
        ensures
            final(self)@ == Self::forward_state(old(self)@, batch@),
            r@ == Self::forward_output(old(self)@, batch@),
    ;

    /// Complete a backward pass through this activation function.
    fn backward(&self, batch: &Batch<B, T, N>) -> (r: Batch<B, T, N>)
        ensures
            r@ == Self::backward_output(self@, batch@),
    ;
}

} // verus!
