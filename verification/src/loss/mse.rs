//! Mean squared error loss function.

use crate::loss::sse::{squared_error_gradients, sum_squared_errors, SquaredErrorView};
use crate::loss::Loss;
use crate::numeric::{count_grid, Numeric};
use crate::tensors::Batch;
use vstd::prelude::*;

verus! {

/// Mean squared error loss layer.
pub struct MSELoss<const B: usize, T: Numeric, const N: usize> {
    prediction: Batch<B, T, N>,
    labels: Batch<B, T, N>,
}

impl<const B: usize, T: Numeric, const N: usize> View for MSELoss<B, T, N> {
    type V = SquaredErrorView<T>;

    closed spec fn view(&self) -> SquaredErrorView<T> {
        SquaredErrorView { prediction: self.prediction@, labels: self.labels@ }
    }
}

impl<const B: usize, T: Numeric, const N: usize> Loss<B, T, N> for MSELoss<B, T, N> {
    /// A new loss remembers zeros.
    open spec fn initial() -> SquaredErrorView<T> {
        SquaredErrorView {
            prediction: crate::tensors::zero_rows::<T>(B as nat, N as nat),
            labels: crate::tensors::zero_rows::<T>(B as nat, N as nat),
        }
    }

    /// The mean over all samples and entries of
    /// `(prediction[b][i] - labels[b][i])²`: their sum divided by the
    /// number of entries in the batch, `B * N`.
    open spec fn loss(prediction: Seq<Seq<T>>, labels: Seq<Seq<T>>) -> T {
        crate::loss::sse::squared_error_sum(prediction, labels, N as nat).div_spec(
            crate::numeric::count::<T>((B * N) as nat),
        )
    }

    open spec fn forward_state(prediction: Seq<Seq<T>>, labels: Seq<Seq<T>>) -> SquaredErrorView<
        T,
    > {
        SquaredErrorView { prediction, labels }
    }

    /// `2 * (prediction[b][i] - labels[b][i])`: unlike the loss itself, the
    /// gradient is not divided by the number of entries.
    open spec fn gradient(v: SquaredErrorView<T>) -> Seq<Seq<T>> {
        crate::loss::sse::squared_error_gradient(v)
    }

    /// A loss that remembers zeros.
    fn new() -> (r: Self) {
        Self { prediction: Batch::zero(), labels: Batch::zero() }
    }

    /// Remembers the prediction and the labels, and returns the mean of
    /// the squared errors over all samples and entries.
    fn forward(&mut self, prediction: &Batch<B, T, N>, labels: &Batch<B, T, N>) -> (r: T)
        ensures
            r == crate::loss::sse::squared_error_sum(prediction@, labels@, N as nat).div_spec(
                crate::numeric::count::<T>((B * N) as nat),
            ),
            final(self)@.prediction == prediction@,
            final(self)@.labels == labels@,
    {
        self.prediction = *prediction;
        self.labels = *labels;
        sum_squared_errors(prediction, labels).div(count_grid::<T>(B, N))
    }

    /// Returns `2 * (prediction - labels)`, entry by entry, for what the
    /// last forward pass has remembered; before any forward pass that is
    /// zero.
    fn backward(&self) -> (r: Batch<B, T, N>)
        ensures
            forall|b: int, i: int|
                0 <= b < B && 0 <= i < N ==> r@[b][i] == T::one_spec().add_spec(
                    T::one_spec(),
                ).mul_spec(self@.prediction[b][i].sub_spec(self@.labels[b][i])),
    {
        squared_error_gradients(&self.prediction, &self.labels)
    }
}

} // verus!
