//! Linear network layer.

use crate::layer::Layer;
use crate::numeric::{count_as, Numeric};
use crate::tensors::{dot, Batch};
use vstd::prelude::*;

verus! {

/// The mathematical state of a [`Linear`] layer.
#[verifier::ext_equal]
pub struct LinearView<T> {
    /// The input of the last forward pass, one row per sample.
    pub input: Seq<Seq<T>>,
    /// The weight matrix: `M` rows of `N` entries.
    pub weights: Seq<Seq<T>>,
    /// The bias vector: `M` entries.
    pub bias: Seq<T>,
}

/// Linear network layer.
///
/// A linear layer `Linear<B, T, N, M>` maps `Tensor`s of size `N` and type `T`
/// to `Tensor`s of size `M` and identical type.  `Tensor`s are evaluated in
/// `Batch`es.
pub struct Linear<const B: usize, T: Numeric, const N: usize, const M: usize> {
    /// Last network layer input, kept off the stack.
    input: Box<Batch<B, T, N>>,
    /// Layer weights.
    weights: [[T; N]; M],
    /// Layer bias.
    bias: [T; M],
}

/// Whether `v` is the state of a new linear layer from `n` to `m` entries
/// over batches of `b` samples: zeros are remembered, and every weight and
/// every bias is a value that `random` may return.
pub open spec fn is_new_linear<T: Numeric>(v: LinearView<T>, b: nat, n: nat, m: nat) -> bool {
    &&& v.input == crate::tensors::zero_rows::<T>(b, n)
    &&& crate::tensors::has_shape(v.weights, m, n)
    &&& v.bias.len() == m
    &&& forall|i: int, j: int|
        0 <= i < m && 0 <= j < n ==> (#[trigger] v.weights[i][j]).random_spec()
    &&& forall|i: int| 0 <= i < m ==> (#[trigger] v.bias[i]).random_spec()
}

/// Column `j` of the matrix `rows`.
pub open spec fn column<T>(rows: Seq<Seq<T>>, j: int) -> Seq<T> {
    Seq::new(rows.len(), |i: int| rows[i][j])
}

/// Entry `i` of the output for the sample `x`:
/// `bias[i] + sum over j of weights[i][j] * x[j]`.
pub open spec fn linear_output_at<T: Numeric>(v: LinearView<T>, x: Seq<T>, i: int) -> T {
    dot(v.weights[i], x, x.len()).add_spec(v.bias[i])
}

/// Entry `j` of the input gradient for the output gradient `g`:
/// `sum over i of g[i] * weights[i][j]`, the product of `g` with the
/// transposed weight matrix.
pub open spec fn linear_input_gradient_at<T: Numeric>(v: LinearView<T>, g: Seq<T>, j: int) -> T {
    dot(g, column(v.weights, j), g.len())
}

/// The unit tensor of `n` entries along `j`: one at `j`, and zero
/// elsewhere.
pub open spec fn unit<T: Numeric>(n: nat, j: int) -> Seq<T> {
    Seq::new(
        n,
        |k: int|
            if k == j {
                T::one_spec()
            } else {
                T::zero_spec()
            },
    )
}

/// By how much every output grows when entry `j` of an input of `n` zeros
/// is raised to one: the output for the unit tensor along `j` less the
/// output for zero.
pub open spec fn output_differences<T: Numeric>(v: LinearView<T>, n: nat, j: int) -> Seq<T> {
    Seq::new(
        v.weights.len(),
        |i: int|
            linear_output_at(v, unit::<T>(n, j), i).sub_spec(
                linear_output_at(v, crate::tensors::zeros::<T>(n), i),
            ),
    )
}

/// The step of the weight update for sample `b`:
/// `acc - gradients[b][i] * input[b][j] * lr * one / count`.
pub open spec fn weight_step<T: Numeric>(
    v: LinearView<T>,
    gradients: Seq<Seq<T>>,
    lr: T,
    i: int,
    j: int,
) -> spec_fn(T, int) -> T {
    |acc: T, b: int|
        acc.sub_spec(
            gradients[b][i].mul_spec(v.input[b][j]).mul_spec(lr).mul_spec(T::one_spec()).div_spec(
                crate::numeric::count::<T>(gradients.len()),
            ),
        )
}

/// The weight `[i][j]` after a backward pass: the old weight less `lr`
/// times the mean over the batch of `gradients[b][i] * input[b][j]`.
pub open spec fn linear_weight_after<T: Numeric>(
    v: LinearView<T>,
    gradients: Seq<Seq<T>>,
    lr: T,
    i: int,
    j: int,
) -> T {
    crate::numeric::fold(weight_step(v, gradients, lr, i, j), v.weights[i][j], gradients.len())
}

/// The step of the bias update for sample `b`:
/// `acc - gradients[b][i] * lr * one / count`.
pub open spec fn bias_step<T: Numeric>(gradients: Seq<Seq<T>>, lr: T, i: int) -> spec_fn(
    T,
    int,
) -> T {
    |acc: T, b: int|
        acc.sub_spec(
            gradients[b][i].mul_spec(lr).mul_spec(T::one_spec()).div_spec(
                crate::numeric::count::<T>(gradients.len()),
            ),
        )
}

/// The bias `[i]` after a backward pass: the old bias less `lr` times the
/// mean over the batch of `gradients[b][i]`.
pub open spec fn linear_bias_after<T: Numeric>(
    v: LinearView<T>,
    gradients: Seq<Seq<T>>,
    lr: T,
    i: int,
) -> T {
    crate::numeric::fold(bias_step(gradients, lr, i), v.bias[i], gradients.len())
}

impl<const B: usize, T: Numeric, const N: usize, const M: usize> View for Linear<B, T, N, M> {
    type V = LinearView<T>;

    closed spec fn view(&self) -> LinearView<T> {
        LinearView {
            input: self.input@,
            weights: crate::tensors::rows_view(self.weights),
            bias: self.bias@,
        }
    }
}

impl<const B: usize, T: Numeric, const N: usize, const M: usize> Linear<B, T, N, M> {
    /// The view of a linear layer has `B` remembered rows of `N` entries,
    /// `M` weight rows of `N` entries and `M` biases.
    pub proof fn lemma_view_shape(&self)
        ensures
            crate::tensors::has_shape(self@.input, B as nat, N as nat),
            crate::tensors::has_shape(self@.weights, M as nat, N as nat),
            self@.bias.len() == M,
    {
    }

    /// The gradient that a backward pass hands back is the product of the
    /// gradient it was given with the transposed weight matrix, the
    /// weights taken as they were before the pass updated them: entry `j`
    /// of sample `b` is the sum over `i` of
    /// `gradients[b][i] * weights[i][j]`.
    pub proof fn lemma_input_gradient_is_transposed_product(
        v: LinearView<T>,
        gradients: Seq<Seq<T>>,
        b: int,
        j: int,
    )
        requires
            0 <= b < gradients.len(),
            0 <= j < v.input[b].len(),
        ensures
            <Self as Layer<B, T, N, M>>::backward_output(v, gradients)[b][j] == dot(
                gradients[b],
                column(v.weights, j),
                gradients[b].len(),
            ),
            forall|i: int| 0 <= i < v.weights.len() ==> column(v.weights, j)[i] == v.weights[i][j],
    {
    }

    /// In exact arithmetic the gradient that a backward pass hands back is
    /// the finite difference of the forward pass: entry `j` is the sum over
    /// the outputs `i` of `g[i]` times the growth of output `i` when input
    /// `j` goes from zero to one. Neither the learning rate nor the
    /// remembered input enters it.
    pub proof fn lemma_input_gradient_is_finite_difference(v: LinearView<T>, g: Seq<T>, j: int)
        requires
            crate::numeric::exact::is_exact::<T>(),
            crate::numeric::exact::subtracts_exactly::<T>(),
            crate::tensors::has_shape(v.weights, M as nat, N as nat),
            g.len() == M,
            0 <= j < N,
        ensures
            linear_input_gradient_at(v, g, j) == dot(
                g,
                output_differences(v, N as nat, j),
                M as nat,
            ),
    {
        let e = unit::<T>(N as nat, j);
        let o = crate::tensors::zeros::<T>(N as nat);
        assert forall|i: int| 0 <= i < M implies #[trigger] output_differences(v, N as nat, j)[i]
            == column(v.weights, j)[i] by {
            let w = v.weights[i];
            let along = crate::numeric::exact::products(w, e);
            let none = crate::numeric::exact::products(w, o);
            crate::numeric::exact::lemma_dot_is_sum(w, e, N as nat);
            crate::numeric::exact::lemma_dot_is_sum(w, o, N as nat);
            assert forall|k: int| 0 <= k < N && k != j implies #[trigger] along(k)
                == T::zero_spec() by {
                crate::numeric::exact::lemma_mul_zero(w[k]);
            }
            crate::numeric::exact::lemma_sum_of_one_term(along, N as nat, j);
            assert forall|k: int| 0 <= k < N implies #[trigger] none(k) == T::zero_spec() by {
                crate::numeric::exact::lemma_mul_zero(w[k]);
            }
            crate::numeric::exact::lemma_sum_of_zeros(none, N as nat);
            crate::numeric::exact::lemma_sub_undoes_add(w[j], v.bias[i]);
            crate::numeric::exact::lemma_add_zero(v.bias[i]);
        }
        assert(output_differences(v, N as nat, j) =~= column(v.weights, j));
    }

    /// A layer with the given parameters and a zero input remembered.
    pub fn with_parameters(weights: [[T; N]; M], bias: [T; M]) -> (r: Self)
        ensures
            r@.input == crate::tensors::zero_rows::<T>(B as nat, N as nat),
            r@.weights == crate::tensors::rows_view(weights),
            r@.bias == bias@,
    {
        Self { input: Box::new(Batch::<B, T, N>::zero()), weights, bias }
    }

    /// The weight matrix, row by row.
    pub fn weights(&self) -> (r: [[T; N]; M])
        ensures
            self@.weights == crate::tensors::rows_view(r),
    {
        self.weights
    }

    /// The bias vector.
    pub fn bias(&self) -> (r: [T; M])
        ensures
            self@.bias == r@,
    {
        self.bias
    }

    /// One entry of the forward output.
    fn output_at(&self, batch: &Batch<B, T, N>, b: usize, i: usize) -> (r: T)
        requires
            b < B,
            i < M,
        ensures
            r == linear_output_at(self@, batch@[b as int], i as int),
    {
        let mut acc = T::zero();
        let mut j: usize = 0;
        while j < N
            invariant
                b < B,
                i < M,
                j <= N,
                acc == dot(self@.weights[i as int], batch@[b as int], j as nat),
            decreases N - j,
        {
            acc = acc.add(self.weights[i][j].mul(batch.get(b, j)));
            j += 1;
        }
        acc.add(self.bias[i])
    }

    /// One entry of the input gradient.
    fn input_gradient_at(&self, gradients: &Batch<B, T, M>, b: usize, j: usize) -> (r: T)
        requires
            b < B,
            j < N,
        ensures
            r == linear_input_gradient_at(self@, gradients@[b as int], j as int),
    {
        let mut acc = T::zero();
        let mut i: usize = 0;
        while i < M
            invariant
                b < B,
                j < N,
                i <= M,
                acc == dot(gradients@[b as int], column(self@.weights, j as int), i as nat),
            decreases M - i,
        {
            acc = acc.add(gradients.get(b, i).mul(self.weights[i][j]));
            i += 1;
        }
        acc
    }

    /// One weight after the update.
    fn weight_after(&self, gradients: &Batch<B, T, M>, lr: T, batches: T, i: usize, j: usize) -> (r: T)
        requires
            i < M,
            j < N,
            batches == crate::numeric::count::<T>(B as nat),
        ensures
            r == linear_weight_after(self@, gradients@, lr, i as int, j as int),
    {
        let mut acc = self.weights[i][j];
        let mut b: usize = 0;
        while b < B
            invariant
                i < M,
                j < N,
                b <= B,
                batches == crate::numeric::count::<T>(B as nat),
                acc == crate::numeric::fold(
                    weight_step(self@, gradients@, lr, i as int, j as int),
                    self@.weights[i as int][j as int],
                    b as nat,
                ),
            decreases B - b,
        {
            acc = acc.sub(
                gradients.get(b, i).mul(self.input.get(b, j)).mul(lr).mul(T::one()).div(batches),
            );
            b += 1;
        }
        acc
    }

    /// One bias after the update.
    fn bias_after(&self, gradients: &Batch<B, T, M>, lr: T, batches: T, i: usize) -> (r: T)
        requires
            i < M,
            batches == crate::numeric::count::<T>(B as nat),
        ensures
            r == linear_bias_after(self@, gradients@, lr, i as int),
    {
        let mut acc = self.bias[i];
        let mut b: usize = 0;
        while b < B
            invariant
                i < M,
                b <= B,
                batches == crate::numeric::count::<T>(B as nat),
                acc == crate::numeric::fold(
                    bias_step(gradients@, lr, i as int),
                    self@.bias[i as int],
                    b as nat,
                ),
            decreases B - b,
        {
            acc = acc.sub(gradients.get(b, i).mul(lr).mul(T::one()).div(batches));
            b += 1;
        }
        acc
    }
}

impl<const B: usize, T: Numeric, const N: usize, const M: usize> Layer<B, T, N, M> for Linear<
    B,
    T,
    N,
    M,
> {
    /// Every choice of `B`, `N` and `M` is a valid shape.
    open spec fn valid_shape() -> bool {
        true
    }

    open spec fn wf(&self) -> bool {
        true
    }

    /// `output[b][i] = bias[i] + sum over j of weights[i][j] * batch[b][j]`.
    open spec fn forward_output(v: LinearView<T>, batch: Seq<Seq<T>>) -> Seq<Seq<T>> {
        Seq::new(
            batch.len(),
            |b: int| Seq::new(v.bias.len(), |i: int| linear_output_at(v, batch[b], i)),
        )
    }

    /// The forward pass remembers its input and leaves the parameters alone.
    open spec fn forward_state(v: LinearView<T>, batch: Seq<Seq<T>>) -> LinearView<T> {
        LinearView { input: batch, weights: v.weights, bias: v.bias }
    }

    /// `gradient[b][j] = sum over i of gradients[b][i] * weights[i][j]`,
    /// over the weights as they are before the update.
    open spec fn backward_output(v: LinearView<T>, gradients: Seq<Seq<T>>) -> Seq<Seq<T>> {
        Seq::new(
            gradients.len(),
            |b: int|
                Seq::new(
                    v.input[b].len(),
                    |j: int| linear_input_gradient_at(v, gradients[b], j),
                ),
        )
    }

    /// Batch gradient descent: each weight and bias moves against the mean
    /// of its gradient over the batch, scaled by `lr`.
    open spec fn backward_state(v: LinearView<T>, gradients: Seq<Seq<T>>, lr: T) -> LinearView<T> {
        LinearView {
            input: v.input,
            weights: Seq::new(
                v.weights.len(),
                |i: int|
                    Seq::new(
                        v.weights[i].len(),
                        |j: int| linear_weight_after(v, gradients, lr, i, j),
                    ),
            ),
            bias: Seq::new(v.bias.len(), |i: int| linear_bias_after(v, gradients, lr, i)),
        }
    }

    /// Construct a new layer, setting all parameters randomly: every weight
    /// and every bias is a value of its own that `random` has returned.
    fn new() -> (r: Self)
        ensures
            r@.input == crate::tensors::zero_rows::<T>(B as nat, N as nat),
            forall|i: int, j: int|
                0 <= i < M && 0 <= j < N ==> (#[trigger] r@.weights[i][j]).random_spec(),
            forall|i: int| 0 <= i < M ==> (#[trigger] r@.bias[i]).random_spec(),
    {
        let mut weights = [[T::zero(); N]; M];
        let mut bias = [T::zero(); M];
        let mut i: usize = 0;
        while i < M
            invariant
                i <= M,
                forall|p: int, q: int|
                    0 <= p < i && 0 <= q < N ==> (#[trigger] weights[p][q]).random_spec(),
                forall|p: int| 0 <= p < i ==> (#[trigger] bias[p]).random_spec(),
            decreases M - i,
        {
            let mut row = [T::zero(); N];
            let mut j: usize = 0;
            while j < N
                invariant
                    j <= N,
                    forall|q: int| 0 <= q < j ==> (#[trigger] row[q]).random_spec(),
                decreases N - j,
            {
                row[j] = T::random();
                j += 1;
            }
            weights[i] = row;
            bias[i] = T::random();
            i += 1;
        }
        Self::with_parameters(weights, bias)
    }

    /// Computes, for every sample,
    /// `output[i] = bias[i] + sum over j of weights[i][j] * input[j]`, and
    /// remembers the input.
    fn forward(&mut self, batch: &Batch<B, T, N>) -> (r: Batch<B, T, M>)
        ensures
            forall|b: int, i: int|
                0 <= b < B && 0 <= i < M ==> r@[b][i] == linear_output_at(
                    old(self)@,
                    batch@[b],
                    i,
                ),
            final(self)@.input == batch@,
            final(self)@.weights == old(self)@.weights,
            final(self)@.bias == old(self)@.bias,
    {
        proof {
            old(self).lemma_view_shape();
        }
        self.input = Box::new(*batch);
        let mut result = Batch::<B, T, M>::zero();
        let mut b: usize = 0;
        while b < B
            invariant
                b <= B,
                self@ == Self::forward_state(old(self)@, batch@),
                forall|p: int, q: int|
                    0 <= p < b && 0 <= q < M ==> result@[p][q] == linear_output_at(
                        self@,
                        batch@[p],
                        q,
                    ),
            decreases B - b,
        {
            let mut i: usize = 0;
            while i < M
                invariant
                    b < B,
                    i <= M,
                    self@ == Self::forward_state(old(self)@, batch@),
                    forall|p: int, q: int|
                        0 <= p < b && 0 <= q < M ==> result@[p][q] == linear_output_at(
                            self@,
                            batch@[p],
                            q,
                        ),
                    forall|q: int|
                        0 <= q < i ==> result@[b as int][q] == linear_output_at(
                            self@,
                            batch@[b as int],
                            q,
                        ),
                decreases M - i,
            {
                let value = self.output_at(batch, b, i);
                result.set(b, i, value);
                i += 1;
            }
            b += 1;
        }
        assert(result@ =~~= Self::forward_output(old(self)@, batch@));
        result
    }

    /// Returns the gradient with respect to the remembered input, computed
    /// from the weights as they are on entry, and then moves every weight
    /// and bias against the mean of its gradient over the batch.
    fn backward(&mut self, gradients: &Batch<B, T, M>, lr: T) -> (r: Batch<B, T, N>)
        ensures
            forall|b: int, j: int|
                0 <= b < B && 0 <= j < N ==> r@[b][j] == linear_input_gradient_at(
                    old(self)@,
                    gradients@[b],
                    j,
                ),
            forall|i: int, j: int|
                0 <= i < M && 0 <= j < N ==> final(self)@.weights[i][j] == linear_weight_after(
                    old(self)@,
                    gradients@,
                    lr,
                    i,
                    j,
                ),
            forall|i: int|
                0 <= i < M ==> final(self)@.bias[i] == linear_bias_after(
                    old(self)@,
                    gradients@,
                    lr,
                    i,
                ),
            final(self)@.input == old(self)@.input,
    {
        proof {
            old(self).lemma_view_shape();
        }
        let batches = count_as::<T>(B);
        let mut result = Batch::<B, T, N>::zero();
        let mut b: usize = 0;
        while b < B
            invariant
                b <= B,
                self@ == old(self)@,
                forall|p: int, q: int|
                    0 <= p < b && 0 <= q < N ==> result@[p][q] == linear_input_gradient_at(
                        self@,
                        gradients@[p],
                        q,
                    ),
            decreases B - b,
        {
            let mut j: usize = 0;
            while j < N
                invariant
                    b < B,
                    j <= N,
                    self@ == old(self)@,
                    forall|p: int, q: int|
                        0 <= p < b && 0 <= q < N ==> result@[p][q] == linear_input_gradient_at(
                            self@,
                            gradients@[p],
                            q,
                        ),
                    forall|q: int|
                        0 <= q < j ==> result@[b as int][q] == linear_input_gradient_at(
                            self@,
                            gradients@[b as int],
                            q,
                        ),
                decreases N - j,
            {
                let value = self.input_gradient_at(gradients, b, j);
                result.set(b, j, value);
                j += 1;
            }
            b += 1;
        }
        let mut weights = self.weights;
        let mut bias = self.bias;
        let mut i: usize = 0;
        while i < M
            invariant
                i <= M,
                self@ == old(self)@,
                batches == crate::numeric::count::<T>(B as nat),
                forall|p: int, q: int|
                    0 <= p < i && 0 <= q < N ==> weights[p][q] == linear_weight_after(
                        self@,
                        gradients@,
                        lr,
                        p,
                        q,
                    ),
                forall|p: int| 0 <= p < i ==> bias[p] == linear_bias_after(self@, gradients@, lr, p),
            decreases M - i,
        {
            let mut j: usize = 0;
            while j < N
                invariant
                    i < M,
                    j <= N,
                    self@ == old(self)@,
                    batches == crate::numeric::count::<T>(B as nat),
                    forall|p: int, q: int|
                        0 <= p < i && 0 <= q < N ==> weights[p][q] == linear_weight_after(
                            self@,
                            gradients@,
                            lr,
                            p,
                            q,
                        ),
                    forall|q: int|
                        0 <= q < j ==> weights[i as int][q] == linear_weight_after(
                            self@,
                            gradients@,
                            lr,
                            i as int,
                            q,
                        ),
                    forall|p: int|
                        0 <= p < i ==> bias[p] == linear_bias_after(self@, gradients@, lr, p),
                decreases N - j,
            {
                let value = self.weight_after(gradients, lr, batches, i, j);
                weights[i][j] = value;
                j += 1;
            }
            let value = self.bias_after(gradients, lr, batches, i);
            bias[i] = value;
            i += 1;
        }
        self.weights = weights;
        self.bias = bias;
        assert(self@.weights =~~= Self::backward_state(old(self)@, gradients@, lr).weights);
        assert(self@.bias =~~= Self::backward_state(old(self)@, gradients@, lr).bias);
        assert(result@ =~~= Self::backward_output(old(self)@, gradients@));
        result
    }
}

} // verus!
