//! Linear regressor.

use crate::activation::Identity;
use crate::architecture::Architecture;
use crate::layer::linear::LinearView;
use crate::layer::{Layer, Linear};
use crate::loss::MSELoss;
use crate::numeric::Numeric;
use crate::tensors::Batch;
use vstd::prelude::*;

verus! {

/// Single variable linear regression model.
pub struct LinearRegressor<const B: usize, T: Numeric> {
    linear_layer: Linear<B, T, 1, 1>,
}

impl<const B: usize, T: Numeric> View for LinearRegressor<B, T> {
    type V = LinearView<T>;

    /// The state of the one linear layer.
    closed spec fn view(&self) -> LinearView<T> {
        self.linear_layer@
    }
}

impl<const B: usize, T: Numeric> LinearRegressor<B, T> {
    /// A regressor that starts from the given weight and bias.
    pub fn with_parameters(weight: T, bias: T) -> (r: Self)
        ensures
            r@.weights == seq![seq![weight]],
            r@.bias == seq![bias],
            r@.input == crate::tensors::zero_rows::<T>(B as nat, 1),
    {
        let r = Self { linear_layer: Linear::with_parameters([[weight]], [bias]) };
        assert(r@.weights =~~= seq![seq![weight]]);
        assert(r@.bias =~= seq![bias]);
        r
    }

    /// The weight of the regressor.
    pub fn weight(&self) -> (r: T)
        ensures
            self@.weights == seq![seq![r]],
    {
        let w = self.linear_layer.weights();
        assert(self@.weights =~~= seq![seq![w[0][0]]]);
        w[0][0]
    }

    /// The bias of the regressor.
    pub fn bias(&self) -> (r: T)
        ensures
            self@.bias == seq![r],
    {
        let b = self.linear_layer.bias();
        assert(self@.bias =~= seq![b[0]]);
        b[0]
    }
}

/// Training and inference implementation for this regressor.
impl<const B: usize, T: Numeric> Architecture<B, T, 1, 1> for LinearRegressor<B, T> {
    /// Mean squared error loss.
    type LossFunction = MSELoss<B, T, 1>;

    /// Identity activation
    type Activation = Identity<1>;

    open spec fn wf(&self) -> bool {
        true
    }

    open spec fn forward_output(v: LinearView<T>, batch: Seq<Seq<T>>) -> Seq<Seq<T>> {
        <Linear<B, T, 1, 1> as Layer<B, T, 1, 1>>::forward_output(v, batch)
    }

    open spec fn forward_state(v: LinearView<T>, batch: Seq<Seq<T>>) -> LinearView<T> {
        <Linear<B, T, 1, 1> as Layer<B, T, 1, 1>>::forward_state(v, batch)
    }

    open spec fn backward_state(v: LinearView<T>, gradients: Seq<Seq<T>>, lr: T) -> LinearView<T> {
        <Linear<B, T, 1, 1> as Layer<B, T, 1, 1>>::backward_state(v, gradients, lr)
    }

    /// Construct this regressor: its one weight and its bias are values
    /// that `random` has returned, and it remembers a zero input.
    fn new() -> (r: Self)
        ensures
            r@.input == crate::tensors::zero_rows::<T>(B as nat, 1),
            crate::tensors::has_shape(r@.weights, 1, 1),
            r@.bias.len() == 1,
            r@.weights[0][0].random_spec(),
            r@.bias[0].random_spec(),
    {
        let linear_layer = Linear::<B, T, 1, 1>::new();
        proof {
            linear_layer.lemma_view_shape();
        }
        Self { linear_layer }
    }

    /// Compute the forward pass of this regressor.
    fn forward(&mut self, batch: &Batch<B, T, 1>) -> (r: Batch<B, T, 1>) {
        self.linear_layer.forward(batch)
    }

    /// Compute the backward pass of this regressor.
    fn backward(&mut self, gradients: &Batch<B, T, 1>, lr: T) {
        let _ = self.linear_layer.backward(gradients, lr);
    }
}

} // verus!
