//! Network layer abstraction.

pub mod avgpool;
pub mod convolutional;
pub mod linear;
pub mod relu;

use crate::numeric::Numeric;
use crate::tensors::Batch;
use vstd::prelude::*;

pub use avgpool::AvgPool;
pub use convolutional::Convolution;
pub use linear::Linear;

verus! {

/// Network layer abstraction.
///
/// A layer maps batches of `N`-entry tensors to batches of `M`-entry
/// tensors. Its view is its mathematical state: the parameters it has
/// learnt and the single input it remembers from the last forward pass.
/// The four specification functions say, over views, what a forward and a
/// backward pass return and what state they leave behind.
pub trait Layer<const B: usize, T: Numeric, const N: usize, const M: usize>: Sized + View {
    /// Whether the layer's shape parameters agree with each other.
    spec fn valid_shape() -> bool;

    /// Whether this layer is well formed.
    spec fn wf(&self) -> bool;

    /// What a forward pass over `batch` returns in state `v`.
    spec fn forward_output(v: Self::V, batch: Seq<Seq<T>>) -> Seq<Seq<T>>;

    /// The state that a forward pass over `batch` leaves behind.
    spec fn forward_state(v: Self::V, batch: Seq<Seq<T>>) -> Self::V;

    /// What a backward pass over `gradients` returns in state `v`: the
    /// gradient with respect to the remembered input.
    spec fn backward_output(v: Self::V, gradients: Seq<Seq<T>>) -> Seq<Seq<T>>;

    /// The state that a backward pass over `gradients` with learning rate
    /// `lr` leaves behind.
    spec fn backward_state(v: Self::V, gradients: Seq<Seq<T>>, lr: T) -> Self::V;

    /// Construct a new network layer.
    fn new() -> (r: Self)
        requires
            Self::valid_shape(),
        ensures
            r.wf(),
    ;

    /// Complete a forward pass through this layer.
    fn forward(&mut self, batch: &Batch<B, T, N>) -> (r: Batch<B, T, M>)
        requires
            old(self).wf(),
        ensures
            final(self).wf(),
            final(self)@ == Self::forward_state(old(self)@, batch@),
            r@ == Self::forward_output(old(self)@, batch@),
    ;

    /// Complete a backward pass through this layer.
    fn backward(&mut self, gradients: &Batch<B, T, M>, lr: T) -> (r: Batch<B, T, N>)
        requires
            old(self).wf(),
        ensures
            final(self).wf(),
            final(self)@ == Self::backward_state(old(self)@, gradients@, lr),
            r@ == Self::backward_output(old(self)@, gradients@),
    ;
}

} // verus!
