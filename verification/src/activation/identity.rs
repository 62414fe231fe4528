//! Identity activation function.

use crate::activation::Activation;
use crate::numeric::Numeric;
use crate::tensors::Batch;
use vstd::prelude::*;

verus! {

/// The activation that changes nothing.
pub struct Identity<const N: usize>;

impl<const N: usize> View for Identity<N> {
    type V = ();

    open spec fn view(&self) -> () {
        ()
    }
}

impl<const B: usize, T: Numeric, const N: usize> Activation<B, T, N> for Identity<N> {
    open spec fn initial() -> () {
        ()
    }

    /// The forward pass returns its input.
    open spec fn forward_output(v: (), batch: Seq<Seq<T>>) -> Seq<Seq<T>> {
        batch
    }

    open spec fn forward_state(v: (), batch: Seq<Seq<T>>) -> () {
        ()
    }

    /// The backward pass returns the gradient it is given.
    open spec fn backward_output(v: (), batch: Seq<Seq<T>>) -> Seq<Seq<T>> {
        batch
    }

    fn new() -> (r: Self) {
        Self
    }

    /// Returns `batch`.
    fn forward(&mut self, batch: &Batch<B, T, N>) -> (r: Batch<B, T, N>)
        ensures
            r == *batch,
    {
        *batch
    }

    /// Returns `batch`.
    fn backward(&self, batch: &Batch<B, T, N>) -> (r: Batch<B, T, N>)
        ensures
            r == *batch,
    {
        *batch
    }
}

} // verus!
