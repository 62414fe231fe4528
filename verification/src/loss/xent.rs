//! Cross-entropy loss function.

use crate::activation::softmax::{exp_sum_of_row, max_of_row, softmax};
use crate::loss::Loss;
use crate::numeric::{count_as, Numeric};
use crate::tensors::Batch;
use vstd::prelude::*;

verus! {

/// What a cross-entropy loss remembers.
#[verifier::ext_equal]
pub struct CrossEntropyView<T> {
    /// The class probabilities of the last forward pass: the softmax of
    /// the scores it was given.
    pub probabilities: Seq<Seq<T>>,
    /// The labels of the last forward pass.
    pub labels: Seq<Seq<T>>,
}

/// Cross-entropy loss layer.
///
/// This layer accepts raw scores, not class probabilities: it applies the
/// softmax itself.
pub struct CrossEntropyLoss<const B: usize, T: Numeric, const N: usize> {
    prediction: Batch<B, T, N>,
    labels: Batch<B, T, N>,
}

/// The step of the cross-entropy sum:
/// `acc - labels[b][i] * (scores[b][i] - max_b - log(denominator_b))`,
/// where `max_b` is the largest score of sample `b` and `denominator_b` its
/// softmax denominator.
pub open spec fn cross_entropy_step<T: Numeric>(
    scores: Seq<Seq<T>>,
    labels: Seq<Seq<T>>,
) -> spec_fn(T, int, int) -> T {
    |acc: T, b: int, i: int|
        acc.sub_spec(
            labels[b][i].mul_spec(
                scores[b][i].sub_spec(crate::activation::softmax::row_max(scores[b])).sub_spec(
                    crate::activation::softmax::row_exp_sum(scores[b]).log_spec(),
                ),
            ),
        )
}

/// Minus the sum, over all samples and their first `n` entries, of
/// `labels[b][i]` times the logarithm of the softmax of the scores.
pub open spec fn cross_entropy_sum<T: Numeric>(
    scores: Seq<Seq<T>>,
    labels: Seq<Seq<T>>,
    n: nat,
) -> T {
    crate::numeric::fold2(cross_entropy_step(scores, labels), T::zero_spec(), scores.len(), n)
}

/// The gradient of the cross-entropy of a softmax with respect to the
/// scores, entry by entry: `probabilities[b][i] - labels[b][i]`.
pub open spec fn cross_entropy_gradient<T: Numeric>(v: CrossEntropyView<T>) -> Seq<Seq<T>> {
    Seq::new(
        v.probabilities.len(),
        |b: int|
            Seq::new(
                v.probabilities[b].len(),
                |i: int| v.probabilities[b][i].sub_spec(v.labels[b][i]),
            ),
    )
}

impl<const B: usize, T: Numeric, const N: usize> View for CrossEntropyLoss<B, T, N> {
    type V = CrossEntropyView<T>;

    closed spec fn view(&self) -> CrossEntropyView<T> {
        CrossEntropyView { probabilities: self.prediction@, labels: self.labels@ }
    }
}

impl<const B: usize, T: Numeric, const N: usize> CrossEntropyLoss<B, T, N> {
    /// After a forward pass over `prediction` and `labels`, the gradient
    /// with respect to the scores is the softmax of the scores less the
    /// labels, entry by entry: the Jacobian of the softmax never has to be
    /// formed, and the largest score that the stable softmax takes off
    /// does not show in the gradient other than through the softmax
    /// itself.
    pub proof fn lemma_gradient_is_probability_minus_label(
        prediction: Seq<Seq<T>>,
        labels: Seq<Seq<T>>,
        b: int,
        i: int,
    )
        requires
            0 <= b < prediction.len(),
            0 <= i < prediction[b].len(),
        ensures
            <Self as Loss<B, T, N>>::gradient(
                <Self as Loss<B, T, N>>::forward_state(prediction, labels),
            )[b][i] == crate::activation::softmax::softmax_at(prediction[b], i).sub_spec(
                labels[b][i],
            ),
    {
    }
}

impl<const B: usize, T: Numeric, const N: usize> CrossEntropyLoss<B, T, N> {
    /// Neither the loss nor the gradient depends on a constant added to
    /// every score: where a shift is exact, a forward pass over the shifted
    /// scores returns the loss, and leaves behind the state and with it
    /// the gradient, of a forward pass over the scores themselves.
    pub proof fn lemma_shift_changes_nothing(prediction: Seq<Seq<T>>, labels: Seq<Seq<T>>, c: T)
        requires
            crate::numeric::exact::shifts_exactly::<T>(),
            crate::tensors::has_shape(prediction, B as nat, N as nat),
            forall|b: int|
                0 <= b < B ==> crate::activation::softmax::above_neginf(#[trigger] prediction[b]),
            forall|b: int|
                0 <= b < B ==> crate::activation::softmax::above_neginf(
                    crate::activation::softmax::shifted(#[trigger] prediction[b], c),
                ),
        ensures
            <Self as Loss<B, T, N>>::loss(
                crate::activation::softmax::shifted_rows(prediction, c),
                labels,
            ) == <Self as Loss<B, T, N>>::loss(prediction, labels),
            <Self as Loss<B, T, N>>::forward_state(
                crate::activation::softmax::shifted_rows(prediction, c),
                labels,
            ) == <Self as Loss<B, T, N>>::forward_state(prediction, labels),
            <Self as Loss<B, T, N>>::gradient(
                <Self as Loss<B, T, N>>::forward_state(
                    crate::activation::softmax::shifted_rows(prediction, c),
                    labels,
                ),
            ) == <Self as Loss<B, T, N>>::gradient(
                <Self as Loss<B, T, N>>::forward_state(prediction, labels),
            ),
    {
        let moved = crate::activation::softmax::shifted_rows(prediction, c);
        assert forall|b: int| 0 <= b < B implies crate::activation::softmax::softmax_row(moved[b])
            == crate::activation::softmax::softmax_row(prediction[b]) by {
            crate::activation::softmax::lemma_softmax_ignores_shift(prediction[b], c);
        }
        assert(crate::activation::softmax::softmax_rows(moved)
            =~= crate::activation::softmax::softmax_rows(prediction));
        assert forall|acc: T, b: int, i: int| 0 <= b < B && 0 <= i < N implies #[trigger] cross_entropy_step(
            moved,
            labels,
        )(acc, b, i) == cross_entropy_step(prediction, labels)(acc, b, i) by {
            crate::activation::softmax::lemma_softmax_ignores_shift(prediction[b], c);
            assert(moved[b][i] == crate::activation::softmax::shifted(prediction[b], c)[i]);
        }
        crate::numeric::exact::lemma_fold2_congruent(
            cross_entropy_step(moved, labels),
            cross_entropy_step(prediction, labels),
            T::zero_spec(),
            B as nat,
            N as nat,
        );
    }
}

impl<const B: usize, T: Numeric, const N: usize> Loss<B, T, N> for CrossEntropyLoss<B, T, N> {
    /// A new loss remembers zeros.
    open spec fn initial() -> CrossEntropyView<T> {
        CrossEntropyView {
            probabilities: crate::tensors::zero_rows::<T>(B as nat, N as nat),
            labels: crate::tensors::zero_rows::<T>(B as nat, N as nat),
        }
    }

    /// Minus the mean over the batch of the sum over `i` of
    /// `labels[b][i] * log(softmax(prediction[b])[i])`, with the logarithm
    /// of the softmax computed as `prediction[b][i] - max - log(denominator)`.
    open spec fn loss(prediction: Seq<Seq<T>>, labels: Seq<Seq<T>>) -> T {
        cross_entropy_sum(prediction, labels, N as nat).div_spec(
            crate::numeric::count::<T>(B as nat),
        )
    }

    /// The forward pass remembers the softmax of the scores, and the labels.
    open spec fn forward_state(prediction: Seq<Seq<T>>, labels: Seq<Seq<T>>) -> CrossEntropyView<
        T,
    > {
        CrossEntropyView {
            probabilities: crate::activation::softmax::softmax_rows(prediction),
            labels,
        }
    }

    open spec fn gradient(v: CrossEntropyView<T>) -> Seq<Seq<T>> {
        cross_entropy_gradient(v)
    }

    /// A loss that remembers zeros.
    fn new() -> (r: Self) {
        Self { prediction: Batch::zero(), labels: Batch::zero() }
    }

    /// Takes raw scores: computes their stable softmax, remembers it with
    /// the labels, and returns minus the mean over the batch of the sum of
    /// `labels[b][i] * (prediction[b][i] - max_b - log(denominator_b))`.
    fn forward(&mut self, prediction: &Batch<B, T, N>, labels: &Batch<B, T, N>) -> (r: T)
        ensures
            r == cross_entropy_sum(prediction@, labels@, N as nat).div_spec(
                crate::numeric::count::<T>(B as nat),
            ),
            forall|b: int, i: int|
                0 <= b < B && 0 <= i < N ==> final(self)@.probabilities[b][i]
                    == crate::activation::softmax::softmax_at(prediction@[b], i),
            final(self)@.labels == labels@,
    {
        self.labels = *labels;
        self.prediction = softmax(prediction);
        let ghost step = cross_entropy_step(prediction@, labels@);
        let mut loss = T::zero();
        let mut b: usize = 0;
        while b < B
            invariant
                b <= B,
                step == cross_entropy_step(prediction@, labels@),
                loss == crate::numeric::fold2(step, T::zero_spec(), b as nat, N as nat),
                self@ == Self::forward_state(prediction@, labels@),
            decreases B - b,
        {
            let max = max_of_row(prediction, b);
            let denom = exp_sum_of_row(prediction, b, max);
            let ghost start = loss;
            let mut i: usize = 0;
            while i < N
                invariant
                    b < B,
                    i <= N,
                    max == crate::activation::softmax::row_max(prediction@[b as int]),
                    denom == crate::activation::softmax::row_exp_sum(prediction@[b as int]),
                    step == cross_entropy_step(prediction@, labels@),
                    loss == crate::numeric::fold(
                        crate::numeric::inner_step(step, b as int),
                        start,
                        i as nat,
                    ),
                decreases N - i,
            {
                loss = loss.sub(
                    labels.get(b, i).mul(prediction.get(b, i).sub(max).sub(denom.log())),
                );
                i += 1;
            }
            proof {
                crate::numeric::lemma_fold2_row(step, T::zero_spec(), b as nat, N as nat);
            }
            b += 1;
        }
        loss.div(count_as::<T>(B))
    }

    /// Returns the remembered probabilities less the remembered labels.
    /// Before any forward pass both are zero.
    fn backward(&self) -> (r: Batch<B, T, N>)
        ensures
            forall|b: int, i: int|
                0 <= b < B && 0 <= i < N ==> r@[b][i] == self@.probabilities[b][i].sub_spec(
                    self@.labels[b][i],
                ),
    {
        let mut result = Batch::<B, T, N>::zero();
        let mut b: usize = 0;
        while b < B
            invariant
                b <= B,
                forall|p: int, q: int|
                    0 <= p < b && 0 <= q < N ==> result@[p][q] == self@.probabilities[p][q].sub_spec(
                        self@.labels[p][q],
                    ),
            decreases B - b,
        {
            let mut i: usize = 0;
            while i < N
                invariant
                    b < B,
                    i <= N,
                    forall|p: int, q: int|
                        0 <= p < b && 0 <= q < N ==> result@[p][q]
                            == self@.probabilities[p][q].sub_spec(self@.labels[p][q]),
                    forall|q: int|
                        0 <= q < i ==> result@[b as int][q]
                            == self@.probabilities[b as int][q].sub_spec(self@.labels[b as int][q]),
                decreases N - i,
            {
                let value = self.prediction.get(b, i).sub(self.labels.get(b, i));
                result.set(b, i, value);
                i += 1;
            }
            b += 1;
        }
        assert(result@ =~~= cross_entropy_gradient(self@));
        result
    }
}

} // verus!
