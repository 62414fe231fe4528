//! Softmax activation function.

use crate::activation::Activation;
use crate::numeric::fixed16::{exp_raw, saturated, x16, SCALE};
use crate::numeric::Numeric;
use crate::tensors::Batch;
use vstd::prelude::*;

verus! {

/// The softmax activation, which remembers its last output.
pub struct Softmax<const B: usize, T: Numeric, const N: usize> {
    output: Batch<B, T, N>,
}

/// The step of a running maximum: the larger of `acc` and `x[i]`.
pub open spec fn max_step<T: Numeric>(x: Seq<T>) -> spec_fn(T, int) -> T {
    |acc: T, i: int|
        if acc.lt_spec(x[i]) {
            x[i]
        } else {
            acc
        }
}

/// The largest entry of `x`, found from the left, starting from `neginf`.
pub open spec fn row_max<T: Numeric>(x: Seq<T>) -> T {
    crate::numeric::fold(max_step(x), T::neginf_spec(), x.len())
}

/// The step of the softmax denominator: `acc + exp(x[i] - max)`.
pub open spec fn exp_sum_step<T: Numeric>(x: Seq<T>, max: T) -> spec_fn(T, int) -> T {
    |acc: T, i: int| acc.add_spec(x[i].sub_spec(max).exp_spec())
}

/// The softmax denominator of `x`: the sum over `i` of
/// `exp(x[i] - row_max(x))`.
pub open spec fn row_exp_sum<T: Numeric>(x: Seq<T>) -> T {
    crate::numeric::fold(exp_sum_step(x, row_max(x)), T::zero_spec(), x.len())
}

/// Entry `i` of the softmax of `x`, computed stably:
/// `exp(x[i] - row_max(x)) / row_exp_sum(x)`.
pub open spec fn softmax_at<T: Numeric>(x: Seq<T>, i: int) -> T {
    x[i].sub_spec(row_max(x)).exp_spec().div_spec(row_exp_sum(x))
}

/// The softmax of `x`.
pub open spec fn softmax_row<T: Numeric>(x: Seq<T>) -> Seq<T> {
    Seq::new(x.len(), |i: int| softmax_at(x, i))
}

/// The softmax of every row of `batch`.
pub open spec fn softmax_rows<T: Numeric>(batch: Seq<Seq<T>>) -> Seq<Seq<T>> {
    Seq::new(batch.len(), |b: int| softmax_row(batch[b]))
}

/// The step of a sum: `acc + p[i]`.
pub open spec fn sum_step<T: Numeric>(p: Seq<T>) -> spec_fn(T, int) -> T {
    |acc: T, i: int| acc.add_spec(p[i])
}

/// The sum of the entries of `p`, from the left, starting from zero.
pub open spec fn row_sum<T: Numeric>(p: Seq<T>) -> T {
    crate::numeric::fold(sum_step(p), T::zero_spec(), p.len())
}

/// The step of the softmax Jacobian's contraction with the gradient `g`,
/// for the output `y` and the input position `j`:
/// `acc + g[i] * y[i] * (delta(i, j) - y[j])`.
pub open spec fn jacobian_step<T: Numeric>(y: Seq<T>, g: Seq<T>, j: int) -> spec_fn(T, int) -> T {
    |acc: T, i: int|
        acc.add_spec(
            g[i].mul_spec(y[i]).mul_spec(
                (if i == j {
                    T::one_spec()
                } else {
                    T::zero_spec()
                }).sub_spec(y[j]),
            ),
        )
}

/// Entry `j` of the gradient with respect to the softmax's input:
/// the sum over `i` of `g[i] * y[i] * (delta(i, j) - y[j])`.
pub open spec fn softmax_gradient_at<T: Numeric>(y: Seq<T>, g: Seq<T>, j: int) -> T {
    crate::numeric::fold(jacobian_step(y, g, j), T::zero_spec(), y.len())
}

/// The largest entry of sample `b`.
pub fn max_of_row<const B: usize, T: Numeric, const N: usize>(
    batch: &Batch<B, T, N>,
    b: usize,
) -> (r: T)
    requires
        b < B,
    ensures
        r == row_max(batch@[b as int]),
{
    let mut acc = T::neginf();
    let mut i: usize = 0;
    while i < N
        invariant
            b < B,
            i <= N,
            acc == crate::numeric::fold(max_step(batch@[b as int]), T::neginf_spec(), i as nat),
        decreases N - i,
    {
        let x = batch.get(b, i);
        if acc.lt(x) {
            acc = x;
        }
        i += 1;
    }
    acc
}

/// The softmax denominator of sample `b`, given the sample's largest entry.
pub fn exp_sum_of_row<const B: usize, T: Numeric, const N: usize>(
    batch: &Batch<B, T, N>,
    b: usize,
    max: T,
) -> (r: T)
    requires
        b < B,
        max == row_max(batch@[b as int]),
    ensures
        r == row_exp_sum(batch@[b as int]),
{
    let mut acc = T::zero();
    let mut i: usize = 0;
    while i < N
        invariant
            b < B,
            i <= N,
            acc == crate::numeric::fold(
                exp_sum_step(batch@[b as int], max),
                T::zero_spec(),
                i as nat,
            ),
        decreases N - i,
    {
        acc = acc.add(batch.get(b, i).sub(max).exp());
        i += 1;
    }
    acc
}

/// The softmax of every sample of `batch`, computed stably: the largest
/// entry of a sample is taken off before anything is exponentiated.
pub fn softmax<const B: usize, T: Numeric, const N: usize>(batch: &Batch<B, T, N>) -> (r: Batch<
    B,
    T,
    N,
>)
    ensures
        r@ == softmax_rows(batch@),
{
    let mut result = Batch::<B, T, N>::zero();
    let mut b: usize = 0;
    while b < B
        invariant
            b <= B,
            forall|p: int, q: int|
                0 <= p < b && 0 <= q < N ==> result@[p][q] == softmax_at(batch@[p], q),
        decreases B - b,
    {
        let max = max_of_row(batch, b);
        let denom = exp_sum_of_row(batch, b, max);
        let mut i: usize = 0;
        while i < N
            invariant
                b < B,
                i <= N,
                max == row_max(batch@[b as int]),
                denom == row_exp_sum(batch@[b as int]),
                forall|p: int, q: int|
                    0 <= p < b && 0 <= q < N ==> result@[p][q] == softmax_at(batch@[p], q),
                forall|q: int|
                    0 <= q < i ==> result@[b as int][q] == softmax_at(batch@[b as int], q),
            decreases N - i,
        {
            let y = batch.get(b, i).sub(max).exp().div(denom);
            result.set(b, i, y);
            i += 1;
        }
        b += 1;
    }
    assert(result@ =~~= softmax_rows(batch@));
    result
}

impl<const B: usize, T: Numeric, const N: usize> View for Softmax<B, T, N> {
    type V = Seq<Seq<T>>;

    /// The output of the last forward pass.
    closed spec fn view(&self) -> Seq<Seq<T>> {
        self.output@
    }
}

impl<const B: usize, T: Numeric, const N: usize> Softmax<B, T, N> {
    /// The remembered output has `B` rows of `N` entries.
    pub proof fn lemma_view_shape(&self)
        ensures
            crate::tensors::has_shape(self@, B as nat, N as nat),
    {
    }

    /// One entry of the backward output.
    fn gradient_at(&self, batch: &Batch<B, T, N>, b: usize, j: usize) -> (r: T)
        requires
            b < B,
            j < N,
        ensures
            r == softmax_gradient_at(self@[b as int], batch@[b as int], j as int),
    {
        let mut acc = T::zero();
        let mut i: usize = 0;
        while i < N
            invariant
                b < B,
                j < N,
                i <= N,
                acc == crate::numeric::fold(
                    jacobian_step(self@[b as int], batch@[b as int], j as int),
                    T::zero_spec(),
                    i as nat,
                ),
            decreases N - i,
        {
            let delta = if i == j {
                T::one()
            } else {
                T::zero()
            };
            acc = acc.add(
                batch.get(b, i).mul(self.output.get(b, i)).mul(delta.sub(self.output.get(b, j))),
            );
            i += 1;
        }
        acc
    }
}

impl<const B: usize, T: Numeric, const N: usize> Activation<B, T, N> for Softmax<B, T, N> {
    /// A new softmax remembers zeros.
    open spec fn initial() -> Seq<Seq<T>> {
        crate::tensors::zero_rows::<T>(B as nat, N as nat)
    }

    open spec fn forward_output(v: Seq<Seq<T>>, batch: Seq<Seq<T>>) -> Seq<Seq<T>> {
        softmax_rows(batch)
    }

    /// The forward pass remembers its output.
    open spec fn forward_state(v: Seq<Seq<T>>, batch: Seq<Seq<T>>) -> Seq<Seq<T>> {
        softmax_rows(batch)
    }

    /// The gradient `batch` contracted with the Jacobian of the softmax at
    /// the remembered output `v`.
    open spec fn backward_output(v: Seq<Seq<T>>, batch: Seq<Seq<T>>) -> Seq<Seq<T>> {
        Seq::new(
            batch.len(),
            |b: int| Seq::new(batch[b].len(), |j: int| softmax_gradient_at(v[b], batch[b], j)),
        )
    }

    fn new() -> (r: Self) {
        Self { output: Batch::zero() }
    }

    /// Computes the stable softmax of every sample and remembers it.
    fn forward(&mut self, batch: &Batch<B, T, N>) -> (r: Batch<B, T, N>)
        ensures
            forall|b: int, i: int|
                0 <= b < B && 0 <= i < N ==> r@[b][i] == softmax_at(batch@[b], i),
            final(self)@ == r@,
    {
        let result = softmax(batch);
        self.output = result;
        result
    }

    /// Contracts the gradient `batch` with the Jacobian of the softmax at
    /// the remembered output `y`:
    /// `r[b][j] = sum over i of batch[b][i] * y[b][i] * (delta(i, j) - y[b][j])`.
    /// Before any forward pass the remembered output is zero.
    fn backward(&self, batch: &Batch<B, T, N>) -> (r: Batch<B, T, N>)
        ensures
            forall|b: int, j: int|
                0 <= b < B && 0 <= j < N ==> r@[b][j] == softmax_gradient_at(
                    self@[b],
                    batch@[b],
                    j,
                ),
    {
        let mut result = Batch::<B, T, N>::zero();
        let mut b: usize = 0;
        while b < B
            invariant
                b <= B,
                forall|p: int, q: int|
                    0 <= p < b && 0 <= q < N ==> result@[p][q] == softmax_gradient_at(
                        self@[p],
                        batch@[p],
                        q,
                    ),
            decreases B - b,
        {
            let mut j: usize = 0;
            while j < N
                invariant
                    b < B,
                    j <= N,
                    forall|p: int, q: int|
                        0 <= p < b && 0 <= q < N ==> result@[p][q] == softmax_gradient_at(
                            self@[p],
                            batch@[p],
                            q,
                        ),
                    forall|q: int|
                        0 <= q < j ==> result@[b as int][q] == softmax_gradient_at(
                            self@[b as int],
                            batch@[b as int],
                            q,
                        ),
                decreases N - j,
            {
                let value = self.gradient_at(batch, b, j);
                result.set(b, j, value);
                j += 1;
            }
            b += 1;
        }
        assert(result@ =~~= Self::backward_output(self@, batch@));
        result
    }
}

/// In a scalar whose division distributes over addition, the first `n`
/// outputs of the softmax sum to the sum of the first `n` exponentials
/// divided by the denominator.
pub proof fn lemma_softmax_partial_sum<T: Numeric>(x: Seq<T>, n: nat)
    requires
        crate::numeric::exact::divides_exactly::<T>(),
        n <= x.len(),
    ensures
        crate::numeric::fold(sum_step(softmax_row(x)), T::zero_spec(), n) == crate::numeric::fold(
            exp_sum_step(x, row_max(x)),
            T::zero_spec(),
            n,
        ).div_spec(row_exp_sum(x)),
    decreases n,
{
    let d = row_exp_sum(x);
    if n == 0 {
        crate::numeric::exact::lemma_div_distributes(T::zero_spec(), T::zero_spec(), d);
    } else {
        let k = (n - 1) as nat;
        lemma_softmax_partial_sum(x, k);
        crate::numeric::lemma_fold_step(sum_step(softmax_row(x)), T::zero_spec(), k);
        crate::numeric::lemma_fold_step(exp_sum_step(x, row_max(x)), T::zero_spec(), k);
        crate::numeric::exact::lemma_div_distributes(
            crate::numeric::fold(exp_sum_step(x, row_max(x)), T::zero_spec(), k),
            x[k as int].sub_spec(row_max(x)).exp_spec(),
            d,
        );
    }
}

/// In a scalar whose division distributes over addition, the outputs of
/// the softmax sum to the denominator divided by itself, whatever the
/// inputs are and however large: to one, wherever a value divided by
/// itself is one.
pub proof fn lemma_softmax_sums_to_one<T: Numeric>(x: Seq<T>)
    requires
        crate::numeric::exact::divides_exactly::<T>(),
    ensures
        row_sum(softmax_row(x)) == row_exp_sum(x).div_spec(row_exp_sum(x)),
        row_exp_sum(x).div_spec(row_exp_sum(x)) == T::one_spec() ==> row_sum(softmax_row(x))
            == T::one_spec(),
{
    lemma_softmax_partial_sum(x, x.len());
}

/// `x` with `c` added to every entry.
pub open spec fn shifted<T: Numeric>(x: Seq<T>, c: T) -> Seq<T> {
    Seq::new(x.len(), |i: int| x[i].add_spec(c))
}

/// `batch` with `c` added to every entry.
pub open spec fn shifted_rows<T: Numeric>(batch: Seq<Seq<T>>, c: T) -> Seq<Seq<T>> {
    Seq::new(batch.len(), |b: int| shifted(batch[b], c))
}

/// Whether every entry of `x` lies above `neginf`, so that the running
/// maximum of `x` is an entry of `x`.
pub open spec fn above_neginf<T: Numeric>(x: Seq<T>) -> bool {
    forall|i: int| 0 <= i < x.len() ==> T::neginf_spec().lt_spec(#[trigger] x[i])
}

/// Where a shift is exact, the running maximum of a shifted row is the
/// shifted running maximum of the row.
pub proof fn lemma_max_of_shifted<T: Numeric>(x: Seq<T>, c: T, n: nat)
    requires
        crate::numeric::exact::shifts_exactly::<T>(),
        above_neginf(x),
        above_neginf(shifted(x, c)),
        1 <= n <= x.len(),
    ensures
        crate::numeric::fold(max_step(shifted(x, c)), T::neginf_spec(), n) == crate::numeric::fold(
            max_step(x),
            T::neginf_spec(),
            n,
        ).add_spec(c),
    decreases n,
{
    let k = (n - 1) as nat;
    crate::numeric::lemma_fold_step(max_step(shifted(x, c)), T::neginf_spec(), k);
    crate::numeric::lemma_fold_step(max_step(x), T::neginf_spec(), k);
    assert(shifted(x, c)[k as int] == x[k as int].add_spec(c));
    if n > 1 {
        lemma_max_of_shifted(x, c, k);
        crate::numeric::exact::lemma_shift_cancels(
            crate::numeric::fold(max_step(x), T::neginf_spec(), k),
            x[k as int],
            c,
        );
    }
}

/// The softmax does not depend on a constant added to every score: where
/// a shift is exact, the largest score that the stable softmax takes off
/// moves with the scores, so that every exponent, the denominator and
/// every output stay what they were.
pub proof fn lemma_softmax_ignores_shift<T: Numeric>(x: Seq<T>, c: T)
    requires
        crate::numeric::exact::shifts_exactly::<T>(),
        above_neginf(x),
        above_neginf(shifted(x, c)),
    ensures
        x.len() > 0 ==> row_max(shifted(x, c)) == row_max(x).add_spec(c),
        forall|i: int|
            0 <= i < x.len() ==> (#[trigger] shifted(x, c)[i]).sub_spec(row_max(shifted(x, c)))
                == x[i].sub_spec(row_max(x)),
        row_exp_sum(shifted(x, c)) == row_exp_sum(x),
        softmax_row(shifted(x, c)) == softmax_row(x),
{
    let y = shifted(x, c);
    if x.len() > 0 {
        lemma_max_of_shifted(x, c, x.len());
        assert forall|i: int| 0 <= i < x.len() implies (#[trigger] y[i]).sub_spec(row_max(y))
            == x[i].sub_spec(row_max(x)) by {
            crate::numeric::exact::lemma_shift_cancels(x[i], row_max(x), c);
        }
        assert forall|acc: T, i: int| 0 <= i < x.len() implies #[trigger] exp_sum_step(
            y,
            row_max(y),
        )(acc, i) == exp_sum_step(x, row_max(x))(acc, i) by {
            assert(y[i].sub_spec(row_max(y)) == x[i].sub_spec(row_max(x)));
        }
        crate::numeric::exact::lemma_fold_congruent(
            exp_sum_step(y, row_max(y)),
            exp_sum_step(x, row_max(x)),
            T::zero_spec(),
            x.len(),
        );
        assert forall|i: int| 0 <= i < x.len() implies softmax_row(y)[i] == softmax_row(x)[i] by {
            assert(y[i].sub_spec(row_max(y)) == x[i].sub_spec(row_max(x)));
        }
    }
    assert(softmax_row(y) =~= softmax_row(x));
}

/// The largest raw integer among the first `n` entries of `x`, and the
/// smallest raw integer of all if `n` is zero.
pub open spec fn raw_max(x: Seq<x16>, n: nat) -> int
    decreases n,
{
    if n == 0 {
        i16::MIN as int
    } else if raw_max(x, (n - 1) as nat) < x[n - 1].0 {
        x[n - 1].0 as int
    } else {
        raw_max(x, (n - 1) as nat)
    }
}

/// The raw integer of `exp(x[i] - max)`, for the largest raw integer `m`.
pub open spec fn raw_exp(x: Seq<x16>, m: int, i: int) -> int {
    exp_raw(saturated(x[i].0 - m))
}

/// The sum of `raw_exp` over the first `n` entries of `x`, as an integer.
pub open spec fn raw_exp_sum(x: Seq<x16>, m: int, n: nat) -> int
    decreases n,
{
    if n == 0 {
        0
    } else {
        raw_exp_sum(x, m, (n - 1) as nat) + raw_exp(x, m, n - 1)
    }
}

/// The running maximum of fixed-point values is their largest raw integer.
pub proof fn lemma_fixed_point_max(x: Seq<x16>, n: nat)
    requires
        n <= x.len(),
    ensures
        crate::numeric::fold(max_step(x), x16::neginf_spec(), n).0 == raw_max(x, n),
        forall|i: int| 0 <= i < n ==> x[i].0 <= raw_max(x, n),
        n > 0 ==> exists|j: int| 0 <= j < n && x[j].0 == raw_max(x, n),
    decreases n,
{
    if n > 0 {
        lemma_fixed_point_max(x, (n - 1) as nat);
        crate::numeric::lemma_fold_step(max_step(x), x16::neginf_spec(), (n - 1) as nat);
        if raw_max(x, (n - 1) as nat) < x[n - 1].0 || n == 1 {
            assert(x[n - 1].0 == raw_max(x, n));
        } else {
            let j = choose|j: int| 0 <= j < n - 1 && x[j].0 == raw_max(x, (n - 1) as nat);
            assert(0 <= j < n && x[j].0 == raw_max(x, n));
        }
    }
}

/// The exponentials of fixed-point values less their maximum lie between
/// zero and one, and their sum over the first `n` entries is at most `n`.
pub proof fn lemma_fixed_point_exp_sum(x: Seq<x16>, m: int, n: nat)
    requires
        n <= x.len(),
        i16::MIN <= m <= i16::MAX,
        forall|i: int| 0 <= i < x.len() ==> x[i].0 <= m,
    ensures
        0 <= raw_exp_sum(x, m, n) <= n * SCALE,
        forall|i: int| 0 <= i < n ==> 0 <= #[trigger] raw_exp(x, m, i) <= raw_exp_sum(x, m, n),
        forall|i: int| 0 <= i < x.len() ==> 0 <= #[trigger] raw_exp(x, m, i) <= SCALE,
    decreases n,
{
    assert forall|i: int| 0 <= i < x.len() implies 0 <= #[trigger] raw_exp(x, m, i) <= SCALE by {
        crate::numeric::fixed16::lemma_exp_range(saturated(x[i].0 - m));
    }
    if n > 0 {
        lemma_fixed_point_exp_sum(x, m, (n - 1) as nat);
        assert(raw_exp(x, m, n - 1) <= SCALE);
        assert((n - 1) * SCALE + SCALE == n * SCALE) by (nonlinear_arith);
    } else {
        assert(0 * SCALE == 0);
    }
}

/// Where the sum stays within range, the softmax denominator of
/// fixed-point values is the sum of their exponentials.
pub proof fn lemma_fixed_point_denominator(x: Seq<x16>, n: nat)
    requires
        n <= x.len() <= 32,
    ensures
        crate::numeric::fold(exp_sum_step(x, row_max(x)), x16::zero_spec(), n).0 == raw_exp_sum(
            x,
            raw_max(x, x.len()),
            n,
        ),
    decreases n,
{
    let m = raw_max(x, x.len());
    lemma_fixed_point_max(x, x.len());
    lemma_fixed_point_exp_sum(x, m, n);
    if n > 0 {
        lemma_fixed_point_denominator(x, (n - 1) as nat);
        lemma_fixed_point_exp_sum(x, m, (n - 1) as nat);
        crate::numeric::lemma_fold_step(
            exp_sum_step(x, row_max(x)),
            x16::zero_spec(),
            (n - 1) as nat,
        );
        assert((n - 1) * SCALE <= 31 * SCALE) by (nonlinear_arith)
            requires
                n <= 32,
        ;
    }
}

/// The sum of the first `n` entries of a fixed-point softmax, times the
/// denominator `d`, falls short of `SCALE` times the sum of the first `n`
/// exponentials by at most `n * (d - 1)`: every entry is rounded down.
pub proof fn lemma_fixed_point_partial_sum(x: Seq<x16>, n: nat)
    requires
        1 <= x.len() <= 32,
        n <= x.len(),
    ensures
        ({
            let m = raw_max(x, x.len());
            let d = raw_exp_sum(x, m, x.len());
            let t = crate::numeric::fold(sum_step(softmax_row(x)), x16::zero_spec(), n).0;
            &&& SCALE <= d
            &&& row_exp_sum(x).0 == d
            &&& 0 <= t <= SCALE
            &&& SCALE * raw_exp_sum(x, m, n) - n * (d - 1) <= d * t <= SCALE * raw_exp_sum(x, m, n)
        }),
    decreases n,
{
    let m = raw_max(x, x.len());
    let d = raw_exp_sum(x, m, x.len());
    lemma_fixed_point_max(x, x.len());
    lemma_fixed_point_exp_sum(x, m, x.len());
    lemma_fixed_point_exp_sum(x, m, n);
    lemma_fixed_point_denominator(x, x.len());
    let j = choose|j: int| 0 <= j < x.len() && x[j].0 == m;
    crate::numeric::fixed16::lemma_exp_zero();
    assert(raw_exp(x, m, j) == SCALE);
    assert(32 * SCALE <= i16::MAX) by (nonlinear_arith)
        requires
            SCALE == 1000,
    ;
    assert(x.len() * SCALE <= 32 * SCALE) by (nonlinear_arith)
        requires
            x.len() <= 32,
            SCALE == 1000,
    ;
    if n > 0 {
        lemma_fixed_point_partial_sum(x, (n - 1) as nat);
        lemma_fixed_point_exp_sum(x, m, (n - 1) as nat);
        crate::numeric::lemma_fold_step(
            sum_step(softmax_row(x)),
            x16::zero_spec(),
            (n - 1) as nat,
        );
        let e = raw_exp(x, m, n - 1);
        let before = crate::numeric::fold(
            sum_step(softmax_row(x)),
            x16::zero_spec(),
            (n - 1) as nat,
        ).0 as int;
        let sum = raw_exp_sum(x, m, (n - 1) as nat);
        let p = softmax_at(x, n - 1).0 as int;
        assert(raw_exp_sum(x, m, n) <= d) by {
            lemma_fixed_point_exp_sum_ordered(x, m, n, x.len());
        }
        assert(x[n - 1].sub_spec(row_max(x)).exp_spec().0 == e);
        assert(0 <= e * SCALE) by (nonlinear_arith)
            requires
                0 <= e,
                SCALE == 1000,
        ;
        let q = (e * SCALE) / d;
        vstd::arithmetic::div_mod::lemma_fundamental_div_mod(e * SCALE, d);
        vstd::arithmetic::div_mod::lemma_mod_bound(e * SCALE, d);
        vstd::arithmetic::div_mod::lemma_div_pos_is_pos(e * SCALE, d);
        assert(q <= SCALE) by (nonlinear_arith)
            requires
                0 <= e <= d,
                0 < d,
                e * SCALE == d * q + (e * SCALE) % d,
                0 <= (e * SCALE) % d,
                SCALE == 1000,
        ;
        assert(p == q);
        assert(SCALE * (sum + e) - n * (d - 1) <= d * (before + q) <= SCALE * (sum + e))
            by (nonlinear_arith)
            requires
                SCALE * sum - (n - 1) * (d - 1) <= d * before <= SCALE * sum,
                e * SCALE == d * q + (e * SCALE) % d,
                0 <= (e * SCALE) % d < d,
        ;
        assert(before + q <= SCALE) by (nonlinear_arith)
            requires
                d * (before + q) <= SCALE * (sum + e),
                sum + e <= d,
                0 < d,
                SCALE == 1000,
        ;
        let t = crate::numeric::fold(sum_step(softmax_row(x)), x16::zero_spec(), n).0;
        assert(softmax_row(x)[n - 1] == softmax_at(x, n - 1));
        assert(0 <= before);
        assert(0 <= q);
        assert(t == before + q);
        assert(raw_exp_sum(x, m, n) == sum + e);
    } else {
        assert(0 * (d - 1) == 0 && d * 0 == 0 && SCALE * 0 == 0) by (nonlinear_arith);
    }
}

/// The sums of exponentials grow with the number of entries.
pub proof fn lemma_fixed_point_exp_sum_ordered(x: Seq<x16>, m: int, k: nat, n: nat)
    requires
        k <= n <= x.len(),
        i16::MIN <= m <= i16::MAX,
        forall|i: int| 0 <= i < x.len() ==> x[i].0 <= m,
    ensures
        raw_exp_sum(x, m, k) <= raw_exp_sum(x, m, n),
    decreases n,
{
    if k < n {
        lemma_fixed_point_exp_sum_ordered(x, m, k, (n - 1) as nat);
        lemma_fixed_point_exp_sum(x, m, n);
    }
}

/// The fixed-point softmax is stable and sums to one within rounding: for
/// a row of up to thirty-two values, however large, the denominator is at
/// least one, every output lies between zero and one, and the outputs sum
/// to at most one and to more than one less one `tiny` per entry.
pub proof fn lemma_fixed_point_softmax_sums_to_one(x: Seq<x16>)
    requires
        1 <= x.len() <= 32,
    ensures
        SCALE <= row_exp_sum(x).0,
        forall|i: int| 0 <= i < x.len() ==> 0 <= (#[trigger] softmax_row(x)[i]).0 <= SCALE,
        SCALE - x.len() < row_sum(softmax_row(x)).0 <= SCALE,
{
    let m = raw_max(x, x.len());
    let d = raw_exp_sum(x, m, x.len());
    lemma_fixed_point_partial_sum(x, x.len());
    lemma_fixed_point_max(x, x.len());
    lemma_fixed_point_exp_sum(x, m, x.len());
    lemma_fixed_point_denominator(x, x.len());
    let t = row_sum(softmax_row(x)).0 as int;
    let n = x.len() as int;
    assert(SCALE - n < t <= SCALE) by (nonlinear_arith)
        requires
            SCALE * d - n * (d - 1) <= d * t <= SCALE * d,
            0 < d,
            1 <= n,
    ;
    assert forall|i: int| 0 <= i < x.len() implies 0 <= (#[trigger] softmax_row(x)[i]).0
        <= SCALE by {
        let e = raw_exp(x, m, i);
        assert(x[i].sub_spec(row_max(x)).exp_spec().0 == e);
        assert(0 <= e * SCALE) by (nonlinear_arith)
            requires
                0 <= e,
                SCALE == 1000,
        ;
        let q = (e * SCALE) / d;
        vstd::arithmetic::div_mod::lemma_fundamental_div_mod(e * SCALE, d);
        vstd::arithmetic::div_mod::lemma_mod_bound(e * SCALE, d);
        vstd::arithmetic::div_mod::lemma_div_pos_is_pos(e * SCALE, d);
        assert(q <= SCALE) by (nonlinear_arith)
            requires
                0 <= e <= d,
                0 < d,
                e * SCALE == d * q + (e * SCALE) % d,
                0 <= (e * SCALE) % d,
                SCALE == 1000,
        ;
    }
}

} // verus!
