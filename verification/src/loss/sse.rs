//! Sum of squared error loss function.

use crate::loss::Loss;
use crate::numeric::Numeric;
use crate::tensors::Batch;
use vstd::prelude::*;

verus! {

/// What a squared-error loss remembers: the last prediction and its labels.
#[verifier::ext_equal]
pub struct SquaredErrorView<T> {
    /// The prediction of the last forward pass.
    pub prediction: Seq<Seq<T>>,
    /// The labels of the last forward pass.
    pub labels: Seq<Seq<T>>,
}

/// Sum of squared error loss layer.
pub struct SSELoss<const B: usize, T: Numeric, const N: usize> {
    prediction: Batch<B, T, N>,
    labels: Batch<B, T, N>,
}

/// The step of a sum of squared errors:
/// `acc + (prediction[b][i] - labels[b][i])²`.
pub open spec fn squared_error_step<T: Numeric>(
    prediction: Seq<Seq<T>>,
    labels: Seq<Seq<T>>,
) -> spec_fn(T, int, int) -> T {
    |acc: T, b: int, i: int|
        acc.add_spec(
            prediction[b][i].sub_spec(labels[b][i]).mul_spec(
                prediction[b][i].sub_spec(labels[b][i]),
            ),
        )
}

/// The sum of `(prediction[b][i] - labels[b][i])²` over the first `n`
/// entries of every sample, sample by sample.
pub open spec fn squared_error_sum<T: Numeric>(
    prediction: Seq<Seq<T>>,
    labels: Seq<Seq<T>>,
    n: nat,
) -> T {
    crate::numeric::fold2(
        squared_error_step(prediction, labels),
        T::zero_spec(),
        prediction.len(),
        n,
    )
}

/// The gradient of the squared error, entry by entry:
/// `2 * (prediction[b][i] - labels[b][i])`, not divided by the batch size.
pub open spec fn squared_error_gradient<T: Numeric>(v: SquaredErrorView<T>) -> Seq<Seq<T>> {
    Seq::new(
        v.prediction.len(),
        |b: int|
            Seq::new(
                v.prediction[b].len(),
                |i: int|
                    T::one_spec().add_spec(T::one_spec()).mul_spec(
                        v.prediction[b][i].sub_spec(v.labels[b][i]),
                    ),
            ),
    )
}

/// Sums the squared errors of `prediction` against `labels`.
pub fn sum_squared_errors<const B: usize, T: Numeric, const N: usize>(
    prediction: &Batch<B, T, N>,
    labels: &Batch<B, T, N>,
) -> (r: T)
    ensures
        r == squared_error_sum(prediction@, labels@, N as nat),
{
    let ghost step = squared_error_step(prediction@, labels@);
    let mut acc = T::zero();
    let mut b: usize = 0;
    while b < B
        invariant
            b <= B,
            step == squared_error_step(prediction@, labels@),
            acc == crate::numeric::fold2(step, T::zero_spec(), b as nat, N as nat),
        decreases B - b,
    {
        let ghost start = acc;
        let mut i: usize = 0;
        while i < N
            invariant
                b < B,
                i <= N,
                step == squared_error_step(prediction@, labels@),
                acc == crate::numeric::fold(
                    crate::numeric::inner_step(step, b as int),
                    start,
                    i as nat,
                ),
            decreases N - i,
        {
            let d = prediction.get(b, i).sub(labels.get(b, i));
            acc = acc.add(d.mul(d));
            i += 1;
        }
        proof {
            crate::numeric::lemma_fold2_row(step, T::zero_spec(), b as nat, N as nat);
        }
        b += 1;
    }
    acc
}

/// The gradient of the squared error of `prediction` against `labels`.
pub fn squared_error_gradients<const B: usize, T: Numeric, const N: usize>(
    prediction: &Batch<B, T, N>,
    labels: &Batch<B, T, N>,
) -> (r: Batch<B, T, N>)
    ensures
        r@ == squared_error_gradient(
            SquaredErrorView { prediction: prediction@, labels: labels@ },
        ),
{
    let ghost v = SquaredErrorView { prediction: prediction@, labels: labels@ };
    let mut result = Batch::<B, T, N>::zero();
    let two = T::one().add(T::one());
    let mut b: usize = 0;
    while b < B
        invariant
            b <= B,
            two == T::one_spec().add_spec(T::one_spec()),
            forall|p: int, q: int|
                0 <= p < b && 0 <= q < N ==> result@[p][q] == two.mul_spec(
                    prediction@[p][q].sub_spec(labels@[p][q]),
                ),
        decreases B - b,
    {
        let mut i: usize = 0;
        while i < N
            invariant
                b < B,
                i <= N,
                two == T::one_spec().add_spec(T::one_spec()),
                forall|p: int, q: int|
                    0 <= p < b && 0 <= q < N ==> result@[p][q] == two.mul_spec(
                        prediction@[p][q].sub_spec(labels@[p][q]),
                    ),
                forall|q: int|
                    0 <= q < i ==> result@[b as int][q] == two.mul_spec(
                        prediction@[b as int][q].sub_spec(labels@[b as int][q]),
                    ),
            decreases N - i,
        {
            let value = two.mul(prediction.get(b, i).sub(labels.get(b, i)));
            result.set(b, i, value);
            i += 1;
        }
        b += 1;
    }
    assert(result@ =~~= squared_error_gradient(v));
    result
}

impl<const B: usize, T: Numeric, const N: usize> View for SSELoss<B, T, N> {
    type V = SquaredErrorView<T>;

    closed spec fn view(&self) -> SquaredErrorView<T> {
        SquaredErrorView { prediction: self.prediction@, labels: self.labels@ }
    }
}

impl<const B: usize, T: Numeric, const N: usize> Loss<B, T, N> for SSELoss<B, T, N> {
    /// A new loss remembers zeros.
    open spec fn initial() -> SquaredErrorView<T> {
        SquaredErrorView {
            prediction: crate::tensors::zero_rows::<T>(B as nat, N as nat),
            labels: crate::tensors::zero_rows::<T>(B as nat, N as nat),
        }
    }

    /// The sum over all samples and entries of
    /// `(prediction[b][i] - labels[b][i])²`.
    open spec fn loss(prediction: Seq<Seq<T>>, labels: Seq<Seq<T>>) -> T {
        squared_error_sum(prediction, labels, N as nat)
    }

    open spec fn forward_state(prediction: Seq<Seq<T>>, labels: Seq<Seq<T>>) -> SquaredErrorView<
        T,
    > {
        SquaredErrorView { prediction, labels }
    }

    open spec fn gradient(v: SquaredErrorView<T>) -> Seq<Seq<T>> {
        squared_error_gradient(v)
    }

    /// A loss that remembers zeros.
    fn new() -> (r: Self) {
        Self { prediction: Batch::zero(), labels: Batch::zero() }
    }

    /// Remembers the prediction and the labels, and returns the sum of the
    /// squared errors.
    fn forward(&mut self, prediction: &Batch<B, T, N>, labels: &Batch<B, T, N>) -> (r: T)
        ensures
            r == squared_error_sum(prediction@, labels@, N as nat),
            final(self)@.prediction == prediction@,
            final(self)@.labels == labels@,
    {
        self.prediction = *prediction;
        self.labels = *labels;
        sum_squared_errors(prediction, labels)
    }

    /// Returns `2 * (prediction - labels)`, entry by entry, for what the
    /// last forward pass has remembered; before any forward pass that is
    /// zero.
    fn backward(&self) -> (r: Batch<B, T, N>)
        ensures
            forall|b: int, i: int|
                0 <= b < B && 0 <= i < N ==> r@[b][i] == T::one_spec().add_spec(
                    T::one_spec(),
                ).mul_spec(self@.prediction[b][i].sub_spec(self@.labels[b][i])),
    {
        squared_error_gradients(&self.prediction, &self.labels)
    }
}

} // verus!
