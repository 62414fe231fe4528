//! ReLU activation layer.

use crate::activation::relu::{rectify, rectify_slope};
use crate::layer::Layer;
use crate::numeric::Numeric;
use crate::tensors::Batch;
use vstd::prelude::*;

verus! {

/// The rectified linear unit as a layer without parameters.
pub struct ReLU<const N: usize>;

impl<const N: usize> View for ReLU<N> {
    type V = ();

    open spec fn view(&self) -> () {
        ()
    }
}

impl<const B: usize, T: Numeric, const N: usize> Layer<B, T, N, N> for ReLU<N> {
    open spec fn valid_shape() -> bool {
        true
    }

    open spec fn wf(&self) -> bool {
        true
    }

    /// Entry by entry, `max(0, x)`.
    open spec fn forward_output(v: (), batch: Seq<Seq<T>>) -> Seq<Seq<T>> {
        crate::activation::relu::rectified_rows(batch)
    }

    open spec fn forward_state(v: (), batch: Seq<Seq<T>>) -> () {
        ()
    }

    /// Entry by entry, one where the value handed in is not zero. The
    /// value handed in is meant to be the forward pass's output.
    open spec fn backward_output(v: (), gradients: Seq<Seq<T>>) -> Seq<Seq<T>> {
        crate::activation::relu::rectified_slope_rows(gradients)
    }

    open spec fn backward_state(v: (), gradients: Seq<Seq<T>>, lr: T) -> () {
        ()
    }

    fn new() -> (r: Self) {
        Self
    }

    /// Entry by entry, `max(0, x)`.
    fn forward(&mut self, batch: &Batch<B, T, N>) -> (r: Batch<B, T, N>)
        ensures
            forall|b: int, i: int|
                0 <= b < B && 0 <= i < N ==> r@[b][i] == crate::activation::relu::rectified(
                    batch@[b][i],
                ),
    {
        proof {
            batch.lemma_shape();
        }
        rectify(batch)
    }

    /// Entry by entry, one where `gradients` is not zero, and zero
    /// elsewhere.
    fn backward(&mut self, gradients: &Batch<B, T, N>, lr: T) -> (r: Batch<B, T, N>)
        ensures
            forall|b: int, i: int|
                0 <= b < B && 0 <= i < N ==> r@[b][i]
                    == crate::activation::relu::rectified_slope(gradients@[b][i]),
    {
        proof {
            gradients.lemma_shape();
        }
        rectify_slope(gradients)
    }
}

} // verus!
