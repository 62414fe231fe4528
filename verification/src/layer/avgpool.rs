//! Average pooling network layer.

use crate::layer::Layer;
use crate::numeric::{count_grid, Numeric};
use crate::tensors::Batch;
use vstd::prelude::*;

verus! {

/// The mathematical state of an [`AvgPool`] layer.
#[verifier::ext_equal]
pub struct AvgPoolView<T> {
    /// The input of the last forward pass, one row per sample.
    pub input: Seq<Seq<T>>,
    /// The averaging kernel: `K` rows of `K` entries.
    pub kernel: Seq<Seq<T>>,
}

/// Average pooling network layer.
///
/// An average pooling layer `AvgPool<B, T, W, H, N, X, Y, M, K>` maps
/// `Tensor`s of size `N = W * H` and type `T` to `Tensor`s of size
/// `M = X * Y` and identical type, averaging over blocks of `K` by `K`
/// entries that do not overlap. Images are stored row by row.
pub struct AvgPool<
    const B: usize,
    T: Numeric,
    const W: usize,
    const H: usize,
    const N: usize,
    const X: usize,
    const Y: usize,
    const M: usize,
    const K: usize,
> {
    /// Last network layer input, kept off the stack.
    input: Box<Batch<B, T, N>>,
    /// Layer kernel.
    pub kernel: [[T; K]; K],
}

/// The contribution of block cell `(ky, kx)` to the output at column `i`,
/// row `j`, for an input image `x` of width `w` and blocks of size `k`:
/// `acc + kernel[ky][kx] * x[j * k + ky][i * k + kx]`.
pub open spec fn pool_output_step<T: Numeric>(
    v: AvgPoolView<T>,
    x: Seq<T>,
    w: int,
    i: int,
    j: int,
) -> spec_fn(T, int, int) -> T {
    |acc: T, kx: int, ky: int|
        acc.add_spec(
            v.kernel[ky][kx].mul_spec(x[(j * v.kernel.len() + ky) * w + (i * v.kernel.len() + kx)]),
        )
}

/// Entry `m` of the output for the input image `x` of width `w`, where the
/// output has width `ow`: the kernel-weighted sum over the block at column
/// `m % ow`, row `m / ow`. With every kernel cell at `1 / K²` this is the
/// block's mean.
pub open spec fn pool_output_at<T: Numeric>(
    v: AvgPoolView<T>,
    x: Seq<T>,
    w: int,
    ow: int,
    m: int,
) -> T {
    crate::numeric::fold2(
        pool_output_step(v, x, w, m % ow, m / ow),
        T::zero_spec(),
        v.kernel.len(),
        v.kernel.len(),
    )
}

/// The output gradient that reaches an input position through the block
/// cell at offset `(dx, dy)` from it, for blocks of size `k`: the gradient
/// of the block whose upper left corner is `(dx, dy)`, if there is such a
/// block in the output of width `ow` and height `oh`, and zero otherwise.
pub open spec fn block_gradient_or_zero<T: Numeric>(
    g: Seq<T>,
    ow: int,
    oh: int,
    k: int,
    dx: int,
    dy: int,
) -> T {
    if 0 <= dx && dx % k == 0 && dx / k < ow && 0 <= dy && dy % k == 0 && dy / k < oh {
        g[(dy / k) * ow + dx / k]
    } else {
        T::zero_spec()
    }
}

/// The contribution of block cell `(ky, kx)` to the input gradient at
/// column `i`, row `j`: `acc + kernel[ky][kx] * g`, where `g` is the
/// gradient of the block in which `(i, j)` is cell `(kx, ky)`, or zero.
pub open spec fn pool_gradient_step<T: Numeric>(
    v: AvgPoolView<T>,
    g: Seq<T>,
    ow: int,
    oh: int,
    i: int,
    j: int,
) -> spec_fn(T, int, int) -> T {
    |acc: T, kx: int, ky: int|
        acc.add_spec(
            v.kernel[ky][kx].mul_spec(
                block_gradient_or_zero(g, ow, oh, v.kernel.len() as int, i - kx, j - ky),
            ),
        )
}

/// Entry `n` of the input gradient for the output gradient `g`: each
/// output gradient goes, weighted by the kernel, to the `K²` input
/// positions of its block; positions outside every block get zero.
pub open spec fn pool_input_gradient_at<T: Numeric>(
    v: AvgPoolView<T>,
    g: Seq<T>,
    w: int,
    ow: int,
    oh: int,
    n: int,
) -> T {
    crate::numeric::fold2(
        pool_gradient_step(v, g, ow, oh, n % w, n / w),
        T::zero_spec(),
        v.kernel.len(),
        v.kernel.len(),
    )
}

/// Whether `v` is the state of a new pooling layer with blocks of size
/// `k` over batches of `b` samples of `n` entries: zeros are remembered,
/// and every kernel cell holds `one / k²`.
pub open spec fn is_new_pool<T: Numeric>(v: AvgPoolView<T>, b: nat, n: nat, k: nat) -> bool {
    &&& v.input == crate::tensors::zero_rows::<T>(b, n)
    &&& v.kernel == averaging_kernel::<T>(k)
}

/// The kernel's weights by tap: tap `t` is the block cell in column
/// `t / K`, row `t % K`.
pub open spec fn pool_weights<T>(v: AvgPoolView<T>) -> spec_fn(int) -> T {
    |t: int| v.kernel[t % (v.kernel.len() as int)][t / (v.kernel.len() as int)]
}

/// The place in an input of width `w` that tap `t` reads for output `m`,
/// where the output has width `ow` and the blocks have size `k`.
pub open spec fn pool_reads(w: int, ow: int, k: int) -> spec_fn(int, int) -> int {
    |m: int, t: int| ((m / ow) * k + t % k) * w + ((m % ow) * k + t / k)
}

/// The output gradient that reaches input `n` through tap `t`, or zero.
pub open spec fn pool_hands_back<T: Numeric>(g: Seq<T>, w: int, ow: int, oh: int, k: int) -> spec_fn(
    int,
    int,
) -> T {
    |n: int, t: int| block_gradient_or_zero(g, ow, oh, k, n % w - t / k, n / w - t % k)
}

/// The place that tap `t` reads for output `m` lies in the input, in the
/// block of `m`, at the cell of the tap.
pub proof fn lemma_pool_reads(w: int, h: int, ow: int, oh: int, k: int, m: int, t: int)
    requires
        0 <= w,
        0 <= h,
        0 <= ow,
        0 <= oh,
        0 <= k,
        ow * k <= w,
        oh * k <= h,
        0 <= m < ow * oh,
        0 <= t < k * k,
    ensures
        ({
            let n = pool_reads(w, ow, k)(m, t);
            &&& 0 <= n < w * h
            &&& 0 < k
            &&& 0 < ow
            &&& 0 < w
            &&& 0 <= m % ow < ow
            &&& 0 <= m / ow < oh
            &&& (m / ow) * ow + m % ow == m
            &&& n % w - t / k == (m % ow) * k
            &&& n / w - t % k == (m / ow) * k
            &&& 0 <= (m % ow) * k
            &&& 0 <= (m / ow) * k
            &&& ((m % ow) * k) % k == 0
            &&& ((m % ow) * k) / k == m % ow
            &&& ((m / ow) * k) % k == 0
            &&& ((m / ow) * k) / k == m / ow
        }),
{
    assert(ow * oh == oh * ow) by (nonlinear_arith);
    crate::tensors::lemma_grid_cell(m, oh, ow);
    crate::tensors::lemma_grid_cell(t, k, k);
    let i = m % ow;
    let j = m / ow;
    let kx = t / k;
    let ky = t % k;
    crate::tensors::lemma_flat_index(i, kx, ow, k);
    crate::tensors::lemma_flat_index(j, ky, oh, k);
    crate::tensors::lemma_flat_index(j * k + ky, i * k + kx, h, w);
    crate::tensors::lemma_flat_index(i, 0, ow, k);
    crate::tensors::lemma_flat_index(j, 0, oh, k);
    assert(h * w == w * h) by (nonlinear_arith);
}

/// Where an output gradient reaches input `n` through tap `t`, the tap
/// reads `n` for the output that the gradient belongs to.
pub proof fn lemma_pool_source(w: int, h: int, ow: int, oh: int, k: int, n: int, t: int)
    requires
        0 <= w,
        0 <= h,
        0 <= ow,
        0 <= oh,
        0 <= k,
        ow * k <= w,
        oh * k <= h,
        0 <= n < w * h,
        0 <= t < k * k,
        0 <= n % w - t / k,
        (n % w - t / k) % k == 0,
        (n % w - t / k) / k < ow,
        0 <= n / w - t % k,
        (n / w - t % k) % k == 0,
        (n / w - t % k) / k < oh,
    ensures
        ({
            let m = ((n / w - t % k) / k) * ow + (n % w - t / k) / k;
            &&& 0 <= m < ow * oh
            &&& pool_reads(w, ow, k)(m, t) == n
        }),
{
    assert(w * h == h * w) by (nonlinear_arith);
    crate::tensors::lemma_grid_cell(n, h, w);
    crate::tensors::lemma_grid_cell(t, k, k);
    let dx = n % w - t / k;
    let dy = n / w - t % k;
    let i = dx / k;
    let j = dy / k;
    vstd::arithmetic::div_mod::lemma_div_pos_is_pos(dx, k);
    vstd::arithmetic::div_mod::lemma_div_pos_is_pos(dy, k);
    vstd::arithmetic::div_mod::lemma_fundamental_div_mod(dx, k);
    vstd::arithmetic::div_mod::lemma_fundamental_div_mod(dy, k);
    crate::tensors::lemma_flat_index(j, i, oh, ow);
    assert(oh * ow == ow * oh) by (nonlinear_arith);
    assert(i * k == k * i && j * k == k * j) by (nonlinear_arith);
}

/// The kernel whose `k` by `k` cells all hold `one / k²`.
pub open spec fn averaging_kernel<T: Numeric>(k: nat) -> Seq<Seq<T>> {
    Seq::new(
        k,
        |ky: int|
            Seq::new(k, |kx: int| T::one_spec().div_spec(crate::numeric::count::<T>(k * k))),
    )
}

impl<
    const B: usize,
    T: Numeric,
    const W: usize,
    const H: usize,
    const N: usize,
    const X: usize,
    const Y: usize,
    const M: usize,
    const K: usize,
> View for AvgPool<B, T, W, H, N, X, Y, M, K> {
    type V = AvgPoolView<T>;

    closed spec fn view(&self) -> AvgPoolView<T> {
        AvgPoolView { input: self.input@, kernel: crate::tensors::rows_view(self.kernel) }
    }
}

impl<
    const B: usize,
    T: Numeric,
    const W: usize,
    const H: usize,
    const N: usize,
    const X: usize,
    const Y: usize,
    const M: usize,
    const K: usize,
> AvgPool<B, T, W, H, N, X, Y, M, K> {
    /// The view has `B` remembered rows of `N` entries and `K` kernel rows
    /// of `K` entries.
    pub proof fn lemma_view_shape(&self)
        ensures
            crate::tensors::has_shape(self@.input, B as nat, N as nat),
            crate::tensors::has_shape(self@.kernel, K as nat, K as nat),
    {
    }

    /// In exact arithmetic the backward pass is the adjoint of the forward
    /// pass: for an input `x` and an output gradient `g`, the sum over the
    /// output of the gradient times the forward output is the sum over the
    /// input of the input gradient times the input.
    pub proof fn lemma_backward_is_adjoint(v: AvgPoolView<T>, x: Seq<T>, g: Seq<T>)
        requires
            crate::numeric::exact::is_exact::<T>(),
            <Self as Layer<B, T, N, M>>::valid_shape(),
            v.kernel.len() == K,
            x.len() == N,
            g.len() == M,
        ensures
            crate::tensors::dot(
                g,
                <Self as Layer<B, T, N, M>>::forward_output(v, seq![x])[0],
                M as nat,
            ) == crate::tensors::dot(
                <Self as Layer<B, T, N, M>>::backward_output(v, seq![g])[0],
                x,
                N as nat,
            ),
    {
        let out = <Self as Layer<B, T, N, M>>::forward_output(v, seq![x])[0];
        let gin = <Self as Layer<B, T, N, M>>::backward_output(v, seq![g])[0];
        let ker = pool_weights(v);
        let idx = pool_reads(W as int, X as int, K as int);
        let back = pool_hands_back(g, W as int, X as int, Y as int, K as int);
        let taps = (K * K) as nat;
        assert forall|m: int| 0 <= m < M implies #[trigger] out[m] == crate::numeric::exact::sum(
            crate::numeric::exact::row_of(crate::numeric::exact::gathered(ker, x, idx), m),
            taps,
        ) by {
            let step = pool_output_step(v, x, W as int, m % (X as int), m / (X as int));
            let term = crate::numeric::exact::row_of(
                crate::numeric::exact::gathered(ker, x, idx),
                m,
            );
            crate::numeric::lemma_fold2_flat(step, T::zero_spec(), K as nat, K as nat);
            crate::numeric::exact::lemma_fold_is_sum(
                crate::numeric::flattened(step, K as nat),
                term,
                T::zero_spec(),
                taps,
            );
            crate::numeric::exact::lemma_add_zero(crate::numeric::exact::sum(term, taps));
        }
        assert forall|n: int| 0 <= n < N implies #[trigger] gin[n] == crate::numeric::exact::sum(
            crate::numeric::exact::row_of(crate::numeric::exact::scattered(ker, back), n),
            taps,
        ) by {
            let step = pool_gradient_step(
                v,
                g,
                X as int,
                Y as int,
                n % (W as int),
                n / (W as int),
            );
            let term = crate::numeric::exact::row_of(
                crate::numeric::exact::scattered(ker, back),
                n,
            );
            crate::numeric::lemma_fold2_flat(step, T::zero_spec(), K as nat, K as nat);
            crate::numeric::exact::lemma_fold_is_sum(
                crate::numeric::flattened(step, K as nat),
                term,
                T::zero_spec(),
                taps,
            );
            crate::numeric::exact::lemma_add_zero(crate::numeric::exact::sum(term, taps));
        }
        assert forall|t: int| 0 <= t < taps implies #[trigger] crate::numeric::exact::tap_scatters_back(
            g,
            idx,
            back,
            M as nat,
            N as nat,
            t,
        ) by {
            let at = crate::numeric::exact::at_tap(idx, t);
            assert forall|i: int| 0 <= i < M implies 0 <= #[trigger] at(i) < N && back(
                idx(i, t),
                t,
            ) == g[i] by {
                lemma_pool_reads(W as int, H as int, X as int, Y as int, K as int, i, t);
            }
            assert forall|i: int, j: int|
                0 <= i < M && 0 <= j < M && #[trigger] at(i) == #[trigger] at(j) implies i
                == j by {
                lemma_pool_reads(W as int, H as int, X as int, Y as int, K as int, i, t);
                lemma_pool_reads(W as int, H as int, X as int, Y as int, K as int, j, t);
            }
            assert forall|k: int|
                0 <= k < N && (forall|i: int| 0 <= i < M ==> #[trigger] at(i) != k) implies #[trigger] back(
                k,
                t,
            ) == T::zero_spec() by {
                let dx = k % (W as int) - t / (K as int);
                let dy = k / (W as int) - t % (K as int);
                if 0 <= dx && dx % (K as int) == 0 && dx / (K as int) < X && 0 <= dy && dy % (
                K as int) == 0 && dy / (K as int) < Y {
                    lemma_pool_source(W as int, H as int, X as int, Y as int, K as int, k, t);
                    let m = (dy / (K as int)) * X + dx / (K as int);
                    assert(at(m) == k);
                }
            }
        }
        crate::numeric::exact::lemma_gather_adjoint(ker, x, g, idx, back, out, gin, taps);
    }

    /// Whether the shape parameters of this type agree with each other, as
    /// `new` demands.
    pub fn shape_agrees() -> (r: bool)
        ensures
            r == <Self as Layer<B, T, N, M>>::valid_shape(),
    {
        assert(W * H <= 0xffff_ffff_ffff_ffff * 0xffff_ffff_ffff_ffff) by (nonlinear_arith)
            requires
                0 <= W <= 0xffff_ffff_ffff_ffff,
                0 <= H <= 0xffff_ffff_ffff_ffff,
        ;
        assert(X * Y <= 0xffff_ffff_ffff_ffff * 0xffff_ffff_ffff_ffff) by (nonlinear_arith)
            requires
                0 <= X <= 0xffff_ffff_ffff_ffff,
                0 <= Y <= 0xffff_ffff_ffff_ffff,
        ;
        assert(X * K <= 0xffff_ffff_ffff_ffff * 0xffff_ffff_ffff_ffff) by (nonlinear_arith)
            requires
                0 <= X <= 0xffff_ffff_ffff_ffff,
                0 <= K <= 0xffff_ffff_ffff_ffff,
        ;
        assert(Y * K <= 0xffff_ffff_ffff_ffff * 0xffff_ffff_ffff_ffff) by (nonlinear_arith)
            requires
                0 <= Y <= 0xffff_ffff_ffff_ffff,
                0 <= K <= 0xffff_ffff_ffff_ffff,
        ;
        (N as u128) == (W as u128) * (H as u128) && (M as u128) == (X as u128) * (Y as u128) && (
        X as u128) * (K as u128) <= (W as u128) && (Y as u128) * (K as u128) <= (H as u128)
    }

    /// The kernel, row by row.
    pub fn kernel(&self) -> (r: [[T; K]; K])
        ensures
            self@.kernel == crate::tensors::rows_view(r),
    {
        self.kernel
    }

    /// One entry of the forward output.
    fn output_at(&self, batch: &Batch<B, T, N>, b: usize, m: usize) -> (r: T)
        requires
            self.wf(),
            b < B,
            m < M,
        ensures
            r == pool_output_at(self@, batch@[b as int], W as int, X as int, m as int),
    {
        proof {
            crate::tensors::lemma_grid_cell(m as int, Y as int, X as int);
        }
        let i = m % X;
        let j = m / X;
        let ghost step = pool_output_step(self@, batch@[b as int], W as int, i as int, j as int);
        let mut acc = T::zero();
        let mut kx: usize = 0;
        while kx < K
            invariant
                self.wf(),
                b < B,
                i < X,
                j < Y,
                kx <= K,
                step == pool_output_step(self@, batch@[b as int], W as int, i as int, j as int),
                acc == crate::numeric::fold2(step, T::zero_spec(), kx as nat, K as nat),
            decreases K - kx,
        {
            let ghost start = acc;
            let mut ky: usize = 0;
            while ky < K
                invariant
                    self.wf(),
                    b < B,
                    i < X,
                    j < Y,
                    kx < K,
                    ky <= K,
                    step == pool_output_step(
                        self@,
                        batch@[b as int],
                        W as int,
                        i as int,
                        j as int,
                    ),
                    acc == crate::numeric::fold(
                        crate::numeric::inner_step(step, kx as int),
                        start,
                        ky as nat,
                    ),
                decreases K - ky,
            {
                proof {
                    crate::tensors::lemma_flat_index(j as int, ky as int, Y as int, K as int);
                    crate::tensors::lemma_flat_index(i as int, kx as int, X as int, K as int);
                    crate::tensors::lemma_flat_index(
                        j * K + ky,
                        i * K + kx,
                        H as int,
                        W as int,
                    );
                }
                let x = batch.get(b, (j * K + ky) * W + (i * K + kx));
                acc = acc.add(self.kernel[ky][kx].mul(x));
                ky += 1;
            }
            proof {
                crate::numeric::lemma_fold2_row(step, T::zero_spec(), kx as nat, K as nat);
            }
            kx += 1;
        }
        acc
    }

    /// One entry of the input gradient.
    fn input_gradient_at(&self, gradients: &Batch<B, T, M>, b: usize, n: usize) -> (r: T)
        requires
            self.wf(),
            b < B,
            n < N,
        ensures
            r == pool_input_gradient_at(
                self@,
                gradients@[b as int],
                W as int,
                X as int,
                Y as int,
                n as int,
            ),
    {
        proof {
            crate::tensors::lemma_grid_cell(n as int, H as int, W as int);
        }
        let i = n % W;
        let j = n / W;
        let ghost step = pool_gradient_step(
            self@,
            gradients@[b as int],
            X as int,
            Y as int,
            i as int,
            j as int,
        );
        let mut acc = T::zero();
        let mut kx: usize = 0;
        while kx < K
            invariant
                self.wf(),
                b < B,
                i < W,
                j < H,
                kx <= K,
                step == pool_gradient_step(
                    self@,
                    gradients@[b as int],
                    X as int,
                    Y as int,
                    i as int,
                    j as int,
                ),
                acc == crate::numeric::fold2(step, T::zero_spec(), kx as nat, K as nat),
            decreases K - kx,
        {
            let ghost start = acc;
            let mut ky: usize = 0;
            while ky < K
                invariant
                    self.wf(),
                    b < B,
                    i < W,
                    j < H,
                    kx < K,
                    ky <= K,
                    step == pool_gradient_step(
                        self@,
                        gradients@[b as int],
                        X as int,
                        Y as int,
                        i as int,
                        j as int,
                    ),
                    acc == crate::numeric::fold(
                        crate::numeric::inner_step(step, kx as int),
                        start,
                        ky as nat,
                    ),
                decreases K - ky,
            {
                // The block's corner is `(i - kx, j - ky)`, if that is a
                // multiple of `K` below `(X * K, Y * K)`. Comparing before
                // subtracting keeps the unsigned indices from wrapping.
                let g = if kx <= i && (i - kx) % K == 0 && (i - kx) / K < X && ky <= j && (j - ky)
                    % K == 0 && (j - ky) / K < Y {
                    proof {
                        crate::tensors::lemma_flat_index(
                            ((j - ky) / K as int) as int,
                            ((i - kx) / K as int) as int,
                            Y as int,
                            X as int,
                        );
                    }
                    gradients.get(b, ((j - ky) / K) * X + (i - kx) / K)
                } else {
                    T::zero()
                };
                acc = acc.add(self.kernel[ky][kx].mul(g));
                ky += 1;
            }
            proof {
                crate::numeric::lemma_fold2_row(step, T::zero_spec(), kx as nat, K as nat);
            }
            kx += 1;
        }
        acc
    }
}

impl<
    const B: usize,
    T: Numeric,
    const W: usize,
    const H: usize,
    const N: usize,
    const X: usize,
    const Y: usize,
    const M: usize,
    const K: usize,
> Layer<B, T, N, M> for AvgPool<B, T, W, H, N, X, Y, M, K> {
    /// The input is `W` by `H`, the output `X` by `Y`, and `X` by `Y` blocks
    /// of size `K` fit into the input.
    open spec fn valid_shape() -> bool {
        &&& N == W * H
        &&& M == X * Y
        &&& X * K <= W
        &&& Y * K <= H
    }

    open spec fn wf(&self) -> bool {
        Self::valid_shape()
    }

    open spec fn forward_output(v: AvgPoolView<T>, batch: Seq<Seq<T>>) -> Seq<Seq<T>> {
        Seq::new(
            batch.len(),
            |b: int|
                Seq::new(M as nat, |m: int| pool_output_at(v, batch[b], W as int, X as int, m)),
        )
    }

    /// The forward pass remembers its input and leaves the kernel alone.
    open spec fn forward_state(v: AvgPoolView<T>, batch: Seq<Seq<T>>) -> AvgPoolView<T> {
        AvgPoolView { input: batch, kernel: v.kernel }
    }

    open spec fn backward_output(v: AvgPoolView<T>, gradients: Seq<Seq<T>>) -> Seq<Seq<T>> {
        Seq::new(
            gradients.len(),
            |b: int|
                Seq::new(
                    N as nat,
                    |n: int|
                        pool_input_gradient_at(v, gradients[b], W as int, X as int, Y as int, n),
                ),
        )
    }

    /// Nothing is learnt: the backward pass changes no state.
    open spec fn backward_state(v: AvgPoolView<T>, gradients: Seq<Seq<T>>, lr: T) -> AvgPoolView<T> {
        v
    }

    /// Construct a new layer, whose kernel cells all hold `one / K²`.
    fn new() -> (r: Self)
        ensures
            r@.input == crate::tensors::zero_rows::<T>(B as nat, N as nat),
            r@.kernel == averaging_kernel::<T>(K as nat),
    {
        let cells = count_grid::<T>(K, K);
        let cell = T::one().div(cells);
        let row = [cell; K];
        let kernel = [row; K];
        let r = Self { input: Box::new(Batch::<B, T, N>::zero()), kernel };
        assert forall|ky: int| 0 <= ky < K implies (#[trigger] r@.kernel[ky])
            == averaging_kernel::<T>(K as nat)[ky] by {
            assert(row == vstd::array::spec_array_fill_for_copy_type::<T, K>(cell));
            assert(kernel == vstd::array::spec_array_fill_for_copy_type::<[T; K], K>(row));
            assert(kernel@[ky] == row);
            assert(r@.kernel[ky] =~= averaging_kernel::<T>(K as nat)[ky]);
        }
        assert(r@.kernel =~= averaging_kernel::<T>(K as nat));
        r
    }

    /// Computes, for every sample and every output position, the
    /// kernel-weighted sum over the block of the input at that position,
    /// and remembers the input.
    fn forward(&mut self, batch: &Batch<B, T, N>) -> (r: Batch<B, T, M>)
        ensures
            forall|b: int, m: int|
                0 <= b < B && 0 <= m < M ==> r@[b][m] == pool_output_at(
                    old(self)@,
                    batch@[b],
                    W as int,
                    X as int,
                    m,
                ),
            final(self)@.input == batch@,
            final(self)@.kernel == old(self)@.kernel,
    {
        self.input = Box::new(*batch);
        let mut result = Batch::<B, T, M>::zero();
        let mut b: usize = 0;
        while b < B
            invariant
                b <= B,
                self.wf(),
                self@ == Self::forward_state(old(self)@, batch@),
                forall|p: int, q: int|
                    0 <= p < b && 0 <= q < M ==> result@[p][q] == pool_output_at(
                        self@,
                        batch@[p],
                        W as int,
                        X as int,
                        q,
                    ),
            decreases B - b,
        {
            let mut m: usize = 0;
            while m < M
                invariant
                    b < B,
                    m <= M,
                    self.wf(),
                    self@ == Self::forward_state(old(self)@, batch@),
                    forall|p: int, q: int|
                        0 <= p < b && 0 <= q < M ==> result@[p][q] == pool_output_at(
                            self@,
                            batch@[p],
                            W as int,
                            X as int,
                            q,
                        ),
                    forall|q: int|
                        0 <= q < m ==> result@[b as int][q] == pool_output_at(
                            self@,
                            batch@[b as int],
                            W as int,
                            X as int,
                            q,
                        ),
                decreases M - m,
            {
                let value = self.output_at(batch, b, m);
                result.set(b, m, value);
                m += 1;
            }
            b += 1;
        }
        assert(result@ =~~= Self::forward_output(old(self)@, batch@));
        result
    }

    /// Returns the gradient with respect to the input: every output
    /// gradient goes, weighted by the kernel, to the positions of its
    /// block, and positions that no block covers get zero. Nothing is
    /// learnt.
    fn backward(&mut self, gradients: &Batch<B, T, M>, lr: T) -> (r: Batch<B, T, N>)
        ensures
            forall|b: int, n: int|
                0 <= b < B && 0 <= n < N ==> r@[b][n] == pool_input_gradient_at(
                    old(self)@,
                    gradients@[b],
                    W as int,
                    X as int,
                    Y as int,
                    n,
                ),
            final(self)@ == old(self)@,
    {
        let mut result = Batch::<B, T, N>::zero();
        let mut b: usize = 0;
        while b < B
            invariant
                b <= B,
                self.wf(),
                self@ == old(self)@,
                forall|p: int, q: int|
                    0 <= p < b && 0 <= q < N ==> result@[p][q] == pool_input_gradient_at(
                        self@,
                        gradients@[p],
                        W as int,
                        X as int,
                        Y as int,
                        q,
                    ),
            decreases B - b,
        {
            let mut n: usize = 0;
            while n < N
                invariant
                    b < B,
                    n <= N,
                    self.wf(),
                    self@ == old(self)@,
                    forall|p: int, q: int|
                        0 <= p < b && 0 <= q < N ==> result@[p][q] == pool_input_gradient_at(
                            self@,
                            gradients@[p],
                            W as int,
                            X as int,
                            Y as int,
                            q,
                        ),
                    forall|q: int|
                        0 <= q < n ==> result@[b as int][q] == pool_input_gradient_at(
                            self@,
                            gradients@[b as int],
                            W as int,
                            X as int,
                            Y as int,
                            q,
                        ),
                decreases N - n,
            {
                let value = self.input_gradient_at(gradients, b, n);
                result.set(b, n, value);
                n += 1;
            }
            b += 1;
        }
        assert(result@ =~~= Self::backward_output(old(self)@, gradients@));
        result
    }
}

} // verus!
