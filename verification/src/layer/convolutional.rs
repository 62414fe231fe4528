//! Convolutional network layer.

use crate::layer::Layer;
use crate::numeric::{count_grid, Numeric};
use crate::tensors::Batch;
use vstd::prelude::*;

verus! {

/// The mathematical state of a [`Convolution`] layer.
#[verifier::ext_equal]
pub struct ConvolutionView<T> {
    /// The input of the last forward pass, one row per sample.
    pub input: Seq<Seq<T>>,
    /// The kernel: `K` rows of `K` entries, addressed as `kernel[ky][kx]`.
    pub kernel: Seq<Seq<T>>,
    /// The bias: `K` rows of `K` entries, addressed as `bias[ky][kx]`.
    pub bias: Seq<Seq<T>>,
    /// The number of kernel cells, `K * K`, as a scalar.
    pub cells: T,
}

/// Convolutional network layer.
///
/// A convolutional layer `Convolution<B, T, W, H, N, X, Y, M, K>` maps
/// `Tensor`s of size `N = W * H` and type `T` to `Tensor`s of size
/// `M = X * Y` and identical type using a square kernel of size `K`, without
/// padding and with stride one, so that `X = W - K + 1` and `Y = H - K + 1`.
/// Images are stored row by row.
pub struct Convolution<
    const B: usize,
    T: Numeric,
    const W: usize,
    const H: usize,
    const N: usize,
    const X: usize,
    const Y: usize,
    const M: usize,
    const K: usize,
> {
    /// Last network layer input, kept off the stack.
    input: Box<Batch<B, T, N>>,
    /// Layer kernel.
    pub kernel: [[T; K]; K],
    /// Layer bias.
    pub bias: [[T; K]; K],
    /// Size of the kernel, as `T`.
    cells: T,
}

/// The contribution of kernel cell `(ky, kx)` to the output at column `i`,
/// row `j`, for an input image `x` of width `w`:
/// `acc + kernel[ky][kx] * x[j + ky][i + kx] + bias[ky][kx] * one / cells`.
pub open spec fn conv_output_step<T: Numeric>(
    v: ConvolutionView<T>,
    x: Seq<T>,
    w: int,
    i: int,
    j: int,
) -> spec_fn(T, int, int) -> T {
    |acc: T, kx: int, ky: int|
        acc.add_spec(v.kernel[ky][kx].mul_spec(x[(j + ky) * w + (i + kx)])).add_spec(
            v.bias[ky][kx].mul_spec(T::one_spec()).div_spec(v.cells),
        )
}

/// Entry `m` of the output for the input image `x` of width `w`, where the
/// output has width `ow`: the correlation of the kernel with the window of
/// `x` whose upper left corner is at column `m % ow`, row `m / ow`, plus
/// the mean of the bias. The kernel is walked column by column.
pub open spec fn conv_output_at<T: Numeric>(
    v: ConvolutionView<T>,
    x: Seq<T>,
    w: int,
    ow: int,
    m: int,
) -> T {
    crate::numeric::fold2(
        conv_output_step(v, x, w, m % ow, m / ow),
        T::zero_spec(),
        v.kernel.len(),
        v.kernel.len(),
    )
}

/// The output gradient `g`, of width `ow` and height `oh`, at column `x`,
/// row `y`; zero where `(x, y)` lies outside the output.
pub open spec fn gradient_or_zero<T: Numeric>(g: Seq<T>, ow: int, oh: int, x: int, y: int) -> T {
    if 0 <= x < ow && 0 <= y < oh {
        g[y * ow + x]
    } else {
        T::zero_spec()
    }
}

/// The contribution of kernel cell `(ky, kx)` to the input gradient at
/// column `i`, row `j`: `acc + kernel[ky][kx] * g[j - ky][i - kx]`, with
/// zero in place of the gradient where that position lies outside the
/// output.
pub open spec fn conv_gradient_step<T: Numeric>(
    v: ConvolutionView<T>,
    g: Seq<T>,
    ow: int,
    oh: int,
    i: int,
    j: int,
) -> spec_fn(T, int, int) -> T {
    |acc: T, kx: int, ky: int|
        acc.add_spec(v.kernel[ky][kx].mul_spec(gradient_or_zero(g, ow, oh, i - kx, j - ky)))
}

/// Entry `n` of the input gradient for the output gradient `g`: the full
/// correlation of `g` with the flipped kernel at column `n % w`, row
/// `n / w` of the input.
pub open spec fn conv_input_gradient_at<T: Numeric>(
    v: ConvolutionView<T>,
    g: Seq<T>,
    w: int,
    ow: int,
    oh: int,
    n: int,
) -> T {
    crate::numeric::fold2(
        conv_gradient_step(v, g, ow, oh, n % w, n / w),
        T::zero_spec(),
        v.kernel.len(),
        v.kernel.len(),
    )
}

/// The update of kernel cell `(ky, kx)` by the output position at column
/// `i`, row `j` of one sample:
/// `acc - lr * x[j + ky][i + kx] * g[j][i]`.
pub open spec fn kernel_step<T: Numeric>(
    x: Seq<T>,
    g: Seq<T>,
    lr: T,
    w: int,
    ow: int,
    kx: int,
    ky: int,
) -> spec_fn(T, int, int) -> T {
    |acc: T, i: int, j: int|
        acc.sub_spec(lr.mul_spec(x[(j + ky) * w + (i + kx)]).mul_spec(g[j * ow + i]))
}

/// The update of kernel cell `(ky, kx)` by sample `b`, over all output
/// positions, column by column.
pub open spec fn kernel_sample_step<T: Numeric>(
    v: ConvolutionView<T>,
    gradients: Seq<Seq<T>>,
    lr: T,
    w: int,
    ow: int,
    oh: int,
    kx: int,
    ky: int,
) -> spec_fn(T, int) -> T {
    |acc: T, b: int|
        crate::numeric::fold2(
            kernel_step(v.input[b], gradients[b], lr, w, ow, kx, ky),
            acc,
            ow as nat,
            oh as nat,
        )
}

/// Kernel cell `(ky, kx)` after a backward pass: the old cell less `lr`
/// times the sum, over all samples and output positions, of the remembered
/// input under the cell times the output gradient. The sum is not divided
/// by the batch size.
pub open spec fn conv_kernel_after<T: Numeric>(
    v: ConvolutionView<T>,
    gradients: Seq<Seq<T>>,
    lr: T,
    w: int,
    ow: int,
    oh: int,
    kx: int,
    ky: int,
) -> T {
    crate::numeric::fold(
        kernel_sample_step(v, gradients, lr, w, ow, oh, kx, ky),
        v.kernel[ky][kx],
        gradients.len(),
    )
}

/// The update of a bias cell by the output position at column `i`, row `j`
/// of one sample: `acc - lr * g[j][i]`.
pub open spec fn bias_step<T: Numeric>(g: Seq<T>, lr: T, ow: int) -> spec_fn(T, int, int) -> T {
    |acc: T, i: int, j: int| acc.sub_spec(lr.mul_spec(g[j * ow + i]))
}

/// The update of a bias cell by sample `b`, over all output positions.
pub open spec fn bias_sample_step<T: Numeric>(
    gradients: Seq<Seq<T>>,
    lr: T,
    ow: int,
    oh: int,
) -> spec_fn(T, int) -> T {
    |acc: T, b: int|
        crate::numeric::fold2(bias_step(gradients[b], lr, ow), acc, ow as nat, oh as nat)
}

/// Bias cell `(ky, kx)` after a backward pass: the old cell less `lr` times
/// the sum of the output gradient over all samples and positions. The sum
/// is not divided by the batch size.
pub open spec fn conv_bias_after<T: Numeric>(
    v: ConvolutionView<T>,
    gradients: Seq<Seq<T>>,
    lr: T,
    ow: int,
    oh: int,
    kx: int,
    ky: int,
) -> T {
    crate::numeric::fold(
        bias_sample_step(gradients, lr, ow, oh),
        v.bias[ky][kx],
        gradients.len(),
    )
}

/// Whether `v` is the state of a new convolution of kernel size `k` over
/// batches of `b` samples of `n` entries: zeros are remembered, every cell
/// of the kernel and of the bias is a value that `random` may return, and
/// the cell count is `k * k` as a scalar.
pub open spec fn is_new_convolution<T: Numeric>(v: ConvolutionView<T>, b: nat, n: nat, k: nat) -> bool {
    &&& v.input == crate::tensors::zero_rows::<T>(b, n)
    &&& crate::tensors::has_shape(v.kernel, k, k)
    &&& crate::tensors::has_shape(v.bias, k, k)
    &&& forall|ky: int, kx: int|
        0 <= ky < k && 0 <= kx < k ==> (#[trigger] v.kernel[ky][kx]).random_spec()
    &&& forall|ky: int, kx: int|
        0 <= ky < k && 0 <= kx < k ==> (#[trigger] v.bias[ky][kx]).random_spec()
    &&& v.cells == crate::numeric::count::<T>(k * k)
}

/// The kernel's weights by tap: tap `t` is the kernel cell in column
/// `t / K`, row `t % K`.
pub open spec fn conv_weights<T>(v: ConvolutionView<T>) -> spec_fn(int) -> T {
    |t: int| v.kernel[t % (v.kernel.len() as int)][t / (v.kernel.len() as int)]
}

/// The place in an input of width `w` that tap `t` reads for output `m`,
/// where the output has width `ow` and the kernel has size `k`.
pub open spec fn conv_reads(w: int, ow: int, k: int) -> spec_fn(int, int) -> int {
    |m: int, t: int| (m / ow + t % k) * w + (m % ow + t / k)
}

/// The output gradient that reaches input `n` through tap `t`, or zero.
pub open spec fn conv_hands_back<T: Numeric>(g: Seq<T>, w: int, ow: int, oh: int, k: int) -> spec_fn(
    int,
    int,
) -> T {
    |n: int, t: int| gradient_or_zero(g, ow, oh, n % w - t / k, n / w - t % k)
}

/// Whether the bias adds nothing to the output: every cell's share,
/// `bias[ky][kx] * one / cells`, is zero.
pub open spec fn bias_vanishes<T: Numeric>(v: ConvolutionView<T>) -> bool {
    forall|kx: int, ky: int|
        0 <= kx < v.kernel.len() && 0 <= ky < v.kernel.len() ==> (#[trigger] v.bias[ky][kx]).mul_spec(
            T::one_spec(),
        ).div_spec(v.cells) == T::zero_spec()
}

/// The place that tap `t` reads for output `m` lies in the input, in the
/// window of `m`, at the cell of the tap.
pub proof fn lemma_conv_reads(w: int, h: int, ow: int, oh: int, k: int, m: int, t: int)
    requires
        0 <= w,
        0 <= h,
        0 <= ow,
        0 <= oh,
        0 <= k,
        ow + k == w + 1,
        oh + k == h + 1,
        0 <= m < ow * oh,
        0 <= t < k * k,
    ensures
        ({
            let n = conv_reads(w, ow, k)(m, t);
            &&& 0 <= n < w * h
            &&& 0 < k
            &&& 0 < ow
            &&& 0 <= m % ow < ow
            &&& 0 <= m / ow < oh
            &&& (m / ow) * ow + m % ow == m
            &&& n % w - t / k == m % ow
            &&& n / w - t % k == m / ow
        }),
{
    assert(ow * oh == oh * ow) by (nonlinear_arith);
    crate::tensors::lemma_grid_cell(m, oh, ow);
    crate::tensors::lemma_grid_cell(t, k, k);
    crate::tensors::lemma_flat_index(m / ow + t % k, m % ow + t / k, h, w);
    assert(h * w == w * h) by (nonlinear_arith);
}

/// Where an output gradient reaches input `n` through tap `t`, the tap
/// reads `n` for the output that the gradient belongs to.
pub proof fn lemma_conv_source(w: int, h: int, ow: int, oh: int, k: int, n: int, t: int)
    requires
        0 <= w,
        0 <= h,
        0 <= ow,
        0 <= oh,
        0 <= k,
        ow + k == w + 1,
        oh + k == h + 1,
        0 <= n < w * h,
        0 <= t < k * k,
        0 <= n % w - t / k < ow,
        0 <= n / w - t % k < oh,
    ensures
        ({
            let m = (n / w - t % k) * ow + (n % w - t / k);
            &&& 0 <= m < ow * oh
            &&& conv_reads(w, ow, k)(m, t) == n
        }),
{
    assert(w * h == h * w) by (nonlinear_arith);
    crate::tensors::lemma_grid_cell(n, h, w);
    crate::tensors::lemma_grid_cell(t, k, k);
    crate::tensors::lemma_flat_index(n / w - t % k, n % w - t / k, oh, ow);
    assert(oh * ow == ow * oh) by (nonlinear_arith);
}

impl<
    const B: usize,
    T: Numeric,
    const W: usize,
    const H: usize,
    const N: usize,
    const X: usize,
    const Y: usize,
    const M: usize,
    const K: usize,
> View for Convolution<B, T, W, H, N, X, Y, M, K> {
    type V = ConvolutionView<T>;

    closed spec fn view(&self) -> ConvolutionView<T> {
        ConvolutionView {
            input: self.input@,
            kernel: crate::tensors::rows_view(self.kernel),
            bias: crate::tensors::rows_view(self.bias),
            cells: self.cells,
        }
    }
}

impl<
    const B: usize,
    T: Numeric,
    const W: usize,
    const H: usize,
    const N: usize,
    const X: usize,
    const Y: usize,
    const M: usize,
    const K: usize,
> Convolution<B, T, W, H, N, X, Y, M, K> {
    /// In a well-formed layer the shape parameters agree, and the number
    /// of kernel cells that the bias is divided by is `K * K` as a scalar:
    /// every bias cell enters an output as `bias[ky][kx] * one / K²`.
    pub proof fn lemma_wf(&self)
        requires
            self.wf(),
        ensures
            <Self as Layer<B, T, N, M>>::valid_shape(),
            self@.cells == crate::numeric::count::<T>((K * K) as nat),
    {
    }

    /// The view has `B` remembered rows of `N` entries, and `K` rows of `K`
    /// entries for the kernel and for the bias.
    pub proof fn lemma_view_shape(&self)
        ensures
            crate::tensors::has_shape(self@.input, B as nat, N as nat),
            crate::tensors::has_shape(self@.kernel, K as nat, K as nat),
            crate::tensors::has_shape(self@.bias, K as nat, K as nat),
    {
    }

    /// In exact arithmetic, and where the bias adds nothing, the backward
    /// pass is the adjoint of the forward pass: for an input `x` and an
    /// output gradient `g`, the sum over the output of the gradient times
    /// the forward output is the sum over the input of the input gradient
    /// times the input.
    pub proof fn lemma_backward_is_adjoint(v: ConvolutionView<T>, x: Seq<T>, g: Seq<T>)
        requires
            crate::numeric::exact::is_exact::<T>(),
            <Self as Layer<B, T, N, M>>::valid_shape(),
            bias_vanishes(v),
            v.kernel.len() == K,
            x.len() == N,
            g.len() == M,
        ensures
            crate::tensors::dot(
                g,
                <Self as Layer<B, T, N, M>>::forward_output(v, seq![x])[0],
                M as nat,
            ) == crate::tensors::dot(
                <Self as Layer<B, T, N, M>>::backward_output(v, seq![g])[0],
                x,
                N as nat,
            ),
    {
        let out = <Self as Layer<B, T, N, M>>::forward_output(v, seq![x])[0];
        let gin = <Self as Layer<B, T, N, M>>::backward_output(v, seq![g])[0];
        let ker = conv_weights(v);
        let idx = conv_reads(W as int, X as int, K as int);
        let back = conv_hands_back(g, W as int, X as int, Y as int, K as int);
        let taps = (K * K) as nat;
        assert forall|m: int| 0 <= m < M implies #[trigger] out[m] == crate::numeric::exact::sum(
            crate::numeric::exact::row_of(crate::numeric::exact::gathered(ker, x, idx), m),
            taps,
        ) by {
            let step = conv_output_step(v, x, W as int, m % (X as int), m / (X as int));
            let term = crate::numeric::exact::row_of(
                crate::numeric::exact::gathered(ker, x, idx),
                m,
            );
            let flat = crate::numeric::flattened(step, K as nat);
            assert forall|acc: T, t: int| 0 <= t < taps implies #[trigger] flat(acc, t)
                == acc.add_spec(term(t)) by {
                crate::tensors::lemma_grid_cell(t, K as int, K as int);
                assert(v.bias[t % (K as int)][t / (K as int)].mul_spec(T::one_spec()).div_spec(
                    v.cells,
                ) == T::zero_spec());
                crate::numeric::exact::lemma_add_zero(acc.add_spec(term(t)));
            }
            crate::numeric::lemma_fold2_flat(step, T::zero_spec(), K as nat, K as nat);
            crate::numeric::exact::lemma_fold_is_sum(flat, term, T::zero_spec(), taps);
            crate::numeric::exact::lemma_add_zero(crate::numeric::exact::sum(term, taps));
        }
        assert forall|n: int| 0 <= n < N implies #[trigger] gin[n] == crate::numeric::exact::sum(
            crate::numeric::exact::row_of(crate::numeric::exact::scattered(ker, back), n),
            taps,
        ) by {
            let step = conv_gradient_step(
                v,
                g,
                X as int,
                Y as int,
                n % (W as int),
                n / (W as int),
            );
            let term = crate::numeric::exact::row_of(
                crate::numeric::exact::scattered(ker, back),
                n,
            );
            crate::numeric::lemma_fold2_flat(step, T::zero_spec(), K as nat, K as nat);
            crate::numeric::exact::lemma_fold_is_sum(
                crate::numeric::flattened(step, K as nat),
                term,
                T::zero_spec(),
                taps,
            );
            crate::numeric::exact::lemma_add_zero(crate::numeric::exact::sum(term, taps));
        }
        assert forall|t: int| 0 <= t < taps implies #[trigger] crate::numeric::exact::tap_scatters_back(
            g,
            idx,
            back,
            M as nat,
            N as nat,
            t,
        ) by {
            let at = crate::numeric::exact::at_tap(idx, t);
            assert forall|i: int| 0 <= i < M implies 0 <= #[trigger] at(i) < N && back(
                idx(i, t),
                t,
            ) == g[i] by {
                lemma_conv_reads(W as int, H as int, X as int, Y as int, K as int, i, t);
            }
            assert forall|i: int, j: int|
                0 <= i < M && 0 <= j < M && #[trigger] at(i) == #[trigger] at(j) implies i
                == j by {
                lemma_conv_reads(W as int, H as int, X as int, Y as int, K as int, i, t);
                lemma_conv_reads(W as int, H as int, X as int, Y as int, K as int, j, t);
            }
            assert forall|k: int|
                0 <= k < N && (forall|i: int| 0 <= i < M ==> #[trigger] at(i) != k) implies #[trigger] back(
                k,
                t,
            ) == T::zero_spec() by {
                let dx = k % (W as int) - t / (K as int);
                let dy = k / (W as int) - t % (K as int);
                if 0 <= dx < X && 0 <= dy < Y {
                    lemma_conv_source(W as int, H as int, X as int, Y as int, K as int, k, t);
                    let m = dy * X + dx;
                    assert(at(m) == k);
                }
            }
        }
        crate::numeric::exact::lemma_gather_adjoint(ker, x, g, idx, back, out, gin, taps);
    }

    /// Whether the shape parameters of this type agree with each other, as
    /// `new` and `with_parameters` demand.
    pub fn shape_agrees() -> (r: bool)
        ensures
            r == <Self as Layer<B, T, N, M>>::valid_shape(),
    {
        assert(W * H <= 0xffff_ffff_ffff_ffff * 0xffff_ffff_ffff_ffff) by (nonlinear_arith)
            requires
                0 <= W <= 0xffff_ffff_ffff_ffff,
                0 <= H <= 0xffff_ffff_ffff_ffff,
        ;
        assert(X * Y <= 0xffff_ffff_ffff_ffff * 0xffff_ffff_ffff_ffff) by (nonlinear_arith)
            requires
                0 <= X <= 0xffff_ffff_ffff_ffff,
                0 <= Y <= 0xffff_ffff_ffff_ffff,
        ;
        (N as u128) == (W as u128) * (H as u128) && (M as u128) == (X as u128) * (Y as u128) && (
        X as u128) + (K as u128) == (W as u128) + 1 && (Y as u128) + (K as u128) == (H as u128)
            + 1
    }

    /// The kernel, row by row.
    pub fn kernel(&self) -> (r: [[T; K]; K])
        ensures
            self@.kernel == crate::tensors::rows_view(r),
    {
        self.kernel
    }

    /// The bias, row by row.
    pub fn bias(&self) -> (r: [[T; K]; K])
        ensures
            self@.bias == crate::tensors::rows_view(r),
    {
        self.bias
    }

    /// A layer with the given kernel and bias and a zero input remembered.
    pub fn with_parameters(kernel: [[T; K]; K], bias: [[T; K]; K]) -> (r: Self)
        requires
            <Self as Layer<B, T, N, M>>::valid_shape(),
        ensures
            r.wf(),
            r@.input == crate::tensors::zero_rows::<T>(B as nat, N as nat),
            r@.kernel == crate::tensors::rows_view(kernel),
            r@.bias == crate::tensors::rows_view(bias),
            r@.cells == crate::numeric::count::<T>((K * K) as nat),
    {
        Self { input: Box::new(Batch::<B, T, N>::zero()), kernel, bias, cells: count_grid::<T>(K, K) }
    }
}

impl<
    const B: usize,
    T: Numeric,
    const W: usize,
    const H: usize,
    const N: usize,
    const X: usize,
    const Y: usize,
    const M: usize,
    const K: usize,
> Layer<B, T, N, M> for Convolution<B, T, W, H, N, X, Y, M, K> {
    /// The input is `W` by `H`, the output `X` by `Y`, and a kernel of size
    /// `K` slides over the input without padding.
    open spec fn valid_shape() -> bool {
        &&& N == W * H
        &&& M == X * Y
        &&& X + K == W + 1
        &&& Y + K == H + 1
    }

    closed spec fn wf(&self) -> bool {
        &&& Self::valid_shape()
        &&& self.cells == crate::numeric::count::<T>((K * K) as nat)
    }

    open spec fn forward_output(v: ConvolutionView<T>, batch: Seq<Seq<T>>) -> Seq<Seq<T>> {
        Seq::new(
            batch.len(),
            |b: int|
                Seq::new(M as nat, |m: int| conv_output_at(v, batch[b], W as int, X as int, m)),
        )
    }

    /// The forward pass remembers its input and leaves the parameters alone.
    open spec fn forward_state(v: ConvolutionView<T>, batch: Seq<Seq<T>>) -> ConvolutionView<T> {
        ConvolutionView { input: batch, kernel: v.kernel, bias: v.bias, cells: v.cells }
    }

    /// The input gradient, over the kernel as it is before the update.
    open spec fn backward_output(v: ConvolutionView<T>, gradients: Seq<Seq<T>>) -> Seq<Seq<T>> {
        Seq::new(
            gradients.len(),
            |b: int|
                Seq::new(
                    N as nat,
                    |n: int|
                        conv_input_gradient_at(v, gradients[b], W as int, X as int, Y as int, n),
                ),
        )
    }

    open spec fn backward_state(v: ConvolutionView<T>, gradients: Seq<Seq<T>>, lr: T) -> ConvolutionView<T> {
        ConvolutionView {
            input: v.input,
            kernel: Seq::new(
                K as nat,
                |ky: int|
                    Seq::new(
                        K as nat,
                        |kx: int|
                            conv_kernel_after(v, gradients, lr, W as int, X as int, Y as int, kx, ky),
                    ),
            ),
            bias: Seq::new(
                K as nat,
                |ky: int|
                    Seq::new(
                        K as nat,
                        |kx: int| conv_bias_after(v, gradients, lr, X as int, Y as int, kx, ky),
                    ),
            ),
            cells: v.cells,
        }
    }

    /// Construct a new layer, setting all parameters randomly: every cell
    /// of the kernel and of the bias is a value of its own that `random`
    /// has returned.
    fn new() -> (r: Self)
        ensures
            r@.input == crate::tensors::zero_rows::<T>(B as nat, N as nat),
            forall|ky: int, kx: int|
                0 <= ky < K && 0 <= kx < K ==> (#[trigger] r@.kernel[ky][kx]).random_spec(),
            forall|ky: int, kx: int|
                0 <= ky < K && 0 <= kx < K ==> (#[trigger] r@.bias[ky][kx]).random_spec(),
            r@.cells == crate::numeric::count::<T>((K * K) as nat),
    {
        let mut kernel = [[T::zero(); K]; K];
        let mut bias = [[T::zero(); K]; K];
        let mut i: usize = 0;
        while i < K
            invariant
                i <= K,
                forall|p: int, q: int|
                    0 <= p < i && 0 <= q < K ==> (#[trigger] kernel[p][q]).random_spec(),
                forall|p: int, q: int|
                    0 <= p < i && 0 <= q < K ==> (#[trigger] bias[p][q]).random_spec(),
            decreases K - i,
        {
            let mut kernel_row = [T::zero(); K];
            let mut bias_row = [T::zero(); K];
            let mut j: usize = 0;
            while j < K
                invariant
                    j <= K,
                    forall|q: int| 0 <= q < j ==> (#[trigger] kernel_row[q]).random_spec(),
                    forall|q: int| 0 <= q < j ==> (#[trigger] bias_row[q]).random_spec(),
                decreases K - j,
            {
                kernel_row[j] = T::random();
                bias_row[j] = T::random();
                j += 1;
            }
            kernel[i] = kernel_row;
            bias[i] = bias_row;
            i += 1;
        }
        Self::with_parameters(kernel, bias)
    }

    /// Computes, for every sample and every output position, the
    /// correlation of the kernel with the window of the input at that
    /// position, plus the mean of the bias; and remembers the input.
    fn forward(&mut self, batch: &Batch<B, T, N>) -> (r: Batch<B, T, M>)
        ensures
            forall|b: int, m: int|
                0 <= b < B && 0 <= m < M ==> r@[b][m] == conv_output_at(
                    old(self)@,
                    batch@[b],
                    W as int,
                    X as int,
                    m,
                ),
            final(self)@.input == batch@,
            final(self)@.kernel == old(self)@.kernel,
            final(self)@.bias == old(self)@.bias,
    {
        self.input = Box::new(*batch);
        let mut result = Batch::<B, T, M>::zero();
        let mut b: usize = 0;
        while b < B
            invariant
                b <= B,
                self.wf(),
                self@ == Self::forward_state(old(self)@, batch@),
                forall|p: int, q: int|
                    0 <= p < b && 0 <= q < M ==> result@[p][q] == conv_output_at(
                        self@,
                        batch@[p],
                        W as int,
                        X as int,
                        q,
                    ),
            decreases B - b,
        {
            let mut m: usize = 0;
            while m < M
                invariant
                    b < B,
                    m <= M,
                    self.wf(),
                    self@ == Self::forward_state(old(self)@, batch@),
                    forall|p: int, q: int|
                        0 <= p < b && 0 <= q < M ==> result@[p][q] == conv_output_at(
                            self@,
                            batch@[p],
                            W as int,
                            X as int,
                            q,
                        ),
                    forall|q: int|
                        0 <= q < m ==> result@[b as int][q] == conv_output_at(
                            self@,
                            batch@[b as int],
                            W as int,
                            X as int,
                            q,
                        ),
                decreases M - m,
            {
                let value = self.output_at(batch, b, m);
                result.set(b, m, value);
                m += 1;
            }
            b += 1;
        }
        assert(result@ =~~= Self::forward_output(old(self)@, batch@));
        result
    }

    /// Returns the gradient with respect to the remembered input: the full
    /// correlation of the output gradient with the flipped kernel, with
    /// zero wherever the kernel reaches beyond the output. It is computed
    /// from the kernel as it is on entry. Then every cell of the kernel and
    /// of the bias moves against its gradient, summed over the batch and
    /// over all output positions.
    fn backward(&mut self, gradients: &Batch<B, T, M>, lr: T) -> (r: Batch<B, T, N>)
        ensures
            forall|b: int, n: int|
                0 <= b < B && 0 <= n < N ==> r@[b][n] == conv_input_gradient_at(
                    old(self)@,
                    gradients@[b],
                    W as int,
                    X as int,
                    Y as int,
                    n,
                ),
            forall|ky: int, kx: int|
                0 <= ky < K && 0 <= kx < K ==> final(self)@.kernel[ky][kx] == conv_kernel_after(
                    old(self)@,
                    gradients@,
                    lr,
                    W as int,
                    X as int,
                    Y as int,
                    kx,
                    ky,
                ),
            forall|ky: int, kx: int|
                0 <= ky < K && 0 <= kx < K ==> final(self)@.bias[ky][kx] == conv_bias_after(
                    old(self)@,
                    gradients@,
                    lr,
                    X as int,
                    Y as int,
                    kx,
                    ky,
                ),
            final(self)@.input == old(self)@.input,
    {
        let mut result = Batch::<B, T, N>::zero();
        let mut b: usize = 0;
        while b < B
            invariant
                b <= B,
                self.wf(),
                self@ == old(self)@,
                forall|p: int, q: int|
                    0 <= p < b && 0 <= q < N ==> result@[p][q] == conv_input_gradient_at(
                        self@,
                        gradients@[p],
                        W as int,
                        X as int,
                        Y as int,
                        q,
                    ),
            decreases B - b,
        {
            let mut n: usize = 0;
            while n < N
                invariant
                    b < B,
                    n <= N,
                    self.wf(),
                    self@ == old(self)@,
                    forall|p: int, q: int|
                        0 <= p < b && 0 <= q < N ==> result@[p][q] == conv_input_gradient_at(
                            self@,
                            gradients@[p],
                            W as int,
                            X as int,
                            Y as int,
                            q,
                        ),
                    forall|q: int|
                        0 <= q < n ==> result@[b as int][q] == conv_input_gradient_at(
                            self@,
                            gradients@[b as int],
                            W as int,
                            X as int,
                            Y as int,
                            q,
                        ),
                decreases N - n,
            {
                let value = self.input_gradient_at(gradients, b, n);
                result.set(b, n, value);
                n += 1;
            }
            b += 1;
        }
        self.learn(gradients, lr);
        assert(result@ =~~= Self::backward_output(old(self)@, gradients@));
        result
    }
}

impl<
    const B: usize,
    T: Numeric,
    const W: usize,
    const H: usize,
    const N: usize,
    const X: usize,
    const Y: usize,
    const M: usize,
    const K: usize,
> Convolution<B, T, W, H, N, X, Y, M, K> {
    /// Moves every cell of the kernel and of the bias against its gradient,
    /// as a backward pass does, without working out the gradient with
    /// respect to the input.
    pub fn learn(&mut self, gradients: &Batch<B, T, M>, lr: T)
        requires
            old(self).wf(),
        ensures
            final(self).wf(),
            final(self)@ == <Self as Layer<B, T, N, M>>::backward_state(
                old(self)@,
                gradients@,
                lr,
            ),
    {
        let mut kernel = self.kernel;
        let mut bias = self.bias;
        let mut ky: usize = 0;
        while ky < K
            invariant
                ky <= K,
                self.wf(),
                self@ == old(self)@,
                forall|p: int, q: int|
                    0 <= p < ky && 0 <= q < K ==> kernel[p][q] == conv_kernel_after(
                        self@,
                        gradients@,
                        lr,
                        W as int,
                        X as int,
                        Y as int,
                        q,
                        p,
                    ),
                forall|p: int, q: int|
                    0 <= p < ky && 0 <= q < K ==> bias[p][q] == conv_bias_after(
                        self@,
                        gradients@,
                        lr,
                        X as int,
                        Y as int,
                        q,
                        p,
                    ),
            decreases K - ky,
        {
            let mut kx: usize = 0;
            while kx < K
                invariant
                    ky < K,
                    kx <= K,
                    self.wf(),
                    self@ == old(self)@,
                    forall|p: int, q: int|
                        0 <= p < ky && 0 <= q < K ==> kernel[p][q] == conv_kernel_after(
                            self@,
                            gradients@,
                            lr,
                            W as int,
                            X as int,
                            Y as int,
                            q,
                            p,
                        ),
                    forall|p: int, q: int|
                        0 <= p < ky && 0 <= q < K ==> bias[p][q] == conv_bias_after(
                            self@,
                            gradients@,
                            lr,
                            X as int,
                            Y as int,
                            q,
                            p,
                        ),
                    forall|q: int|
                        0 <= q < kx ==> kernel[ky as int][q] == conv_kernel_after(
                            self@,
                            gradients@,
                            lr,
                            W as int,
                            X as int,
                            Y as int,
                            q,
                            ky as int,
                        ),
                    forall|q: int|
                        0 <= q < kx ==> bias[ky as int][q] == conv_bias_after(
                            self@,
                            gradients@,
                            lr,
                            X as int,
                            Y as int,
                            q,
                            ky as int,
                        ),
                decreases K - kx,
            {
                let cell = self.kernel_after(gradients, lr, kx, ky);
                kernel[ky][kx] = cell;
                let cell = self.bias_after(gradients, lr, kx, ky);
                bias[ky][kx] = cell;
                kx += 1;
            }
            ky += 1;
        }
        self.kernel = kernel;
        self.bias = bias;
        assert(self@.kernel =~~= <Self as Layer<B, T, N, M>>::backward_state(
            old(self)@,
            gradients@,
            lr,
        ).kernel);
        assert(self@.bias =~~= <Self as Layer<B, T, N, M>>::backward_state(
            old(self)@,
            gradients@,
            lr,
        ).bias);
    }

    /// One entry of the forward output.
    fn output_at(&self, batch: &Batch<B, T, N>, b: usize, m: usize) -> (r: T)
        requires
            self.wf(),
            b < B,
            m < M,
        ensures
            r == conv_output_at(self@, batch@[b as int], W as int, X as int, m as int),
    {
        proof {
            crate::tensors::lemma_grid_cell(m as int, Y as int, X as int);
        }
        let i = m % X;
        let j = m / X;
        let ghost step = conv_output_step(self@, batch@[b as int], W as int, i as int, j as int);
        let mut acc = T::zero();
        let mut kx: usize = 0;
        while kx < K
            invariant
                self.wf(),
                b < B,
                i < X,
                j < Y,
                kx <= K,
                step == conv_output_step(self@, batch@[b as int], W as int, i as int, j as int),
                acc == crate::numeric::fold2(step, T::zero_spec(), kx as nat, K as nat),
            decreases K - kx,
        {
            let ghost start = acc;
            let mut ky: usize = 0;
            while ky < K
                invariant
                    self.wf(),
                    b < B,
                    i < X,
                    j < Y,
                    kx < K,
                    ky <= K,
                    step == conv_output_step(
                        self@,
                        batch@[b as int],
                        W as int,
                        i as int,
                        j as int,
                    ),
                    acc == crate::numeric::fold(
                        crate::numeric::inner_step(step, kx as int),
                        start,
                        ky as nat,
                    ),
                decreases K - ky,
            {
                proof {
                    crate::tensors::lemma_flat_index(
                        (j + ky) as int,
                        (i + kx) as int,
                        H as int,
                        W as int,
                    );
                }
                let x = batch.get(b, (j + ky) * W + (i + kx));
                acc = acc.add(self.kernel[ky][kx].mul(x)).add(
                    self.bias[ky][kx].mul(T::one()).div(self.cells),
                );
                ky += 1;
            }
            proof {
                crate::numeric::lemma_fold2_row(step, T::zero_spec(), kx as nat, K as nat);
            }
            kx += 1;
        }
        acc
    }

    /// One entry of the input gradient.
    fn input_gradient_at(&self, gradients: &Batch<B, T, M>, b: usize, n: usize) -> (r: T)
        requires
            self.wf(),
            b < B,
            n < N,
        ensures
            r == conv_input_gradient_at(
                self@,
                gradients@[b as int],
                W as int,
                X as int,
                Y as int,
                n as int,
            ),
    {
        proof {
            crate::tensors::lemma_grid_cell(n as int, H as int, W as int);
        }
        let i = n % W;
        let j = n / W;
        let ghost step = conv_gradient_step(
            self@,
            gradients@[b as int],
            X as int,
            Y as int,
            i as int,
            j as int,
        );
        let mut acc = T::zero();
        let mut kx: usize = 0;
        while kx < K
            invariant
                self.wf(),
                b < B,
                i < W,
                j < H,
                kx <= K,
                step == conv_gradient_step(
                    self@,
                    gradients@[b as int],
                    X as int,
                    Y as int,
                    i as int,
                    j as int,
                ),
                acc == crate::numeric::fold2(step, T::zero_spec(), kx as nat, K as nat),
            decreases K - kx,
        {
            let ghost start = acc;
            let mut ky: usize = 0;
            while ky < K
                invariant
                    self.wf(),
                    b < B,
                    i < W,
                    j < H,
                    kx < K,
                    ky <= K,
                    step == conv_gradient_step(
                        self@,
                        gradients@[b as int],
                        X as int,
                        Y as int,
                        i as int,
                        j as int,
                    ),
                    acc == crate::numeric::fold(
                        crate::numeric::inner_step(step, kx as int),
                        start,
                        ky as nat,
                    ),
                decreases K - ky,
            {
                // The output position is `(i - kx, j - ky)`. Comparing before
                // subtracting keeps the unsigned indices from wrapping, as
                // shifting both sides of the range by `K` would.
                let g = if kx <= i && i - kx < X && ky <= j && j - ky < Y {
                    proof {
                        crate::tensors::lemma_flat_index(
                            (j - ky) as int,
                            (i - kx) as int,
                            Y as int,
                            X as int,
                        );
                    }
                    gradients.get(b, (j - ky) * X + (i - kx))
                } else {
                    T::zero()
                };
                acc = acc.add(self.kernel[ky][kx].mul(g));
                ky += 1;
            }
            proof {
                crate::numeric::lemma_fold2_row(step, T::zero_spec(), kx as nat, K as nat);
            }
            kx += 1;
        }
        acc
    }

    /// One kernel cell after the update.
    fn kernel_after(&self, gradients: &Batch<B, T, M>, lr: T, kx: usize, ky: usize) -> (r: T)
        requires
            self.wf(),
            kx < K,
            ky < K,
        ensures
            r == conv_kernel_after(
                self@,
                gradients@,
                lr,
                W as int,
                X as int,
                Y as int,
                kx as int,
                ky as int,
            ),
    {
        let ghost sample = kernel_sample_step(
            self@,
            gradients@,
            lr,
            W as int,
            X as int,
            Y as int,
            kx as int,
            ky as int,
        );
        let mut acc = self.kernel[ky][kx];
        let mut b: usize = 0;
        while b < B
            invariant
                self.wf(),
                kx < K,
                ky < K,
                b <= B,
                sample == kernel_sample_step(
                    self@,
                    gradients@,
                    lr,
                    W as int,
                    X as int,
                    Y as int,
                    kx as int,
                    ky as int,
                ),
                acc == crate::numeric::fold(sample, self@.kernel[ky as int][kx as int], b as nat),
            decreases B - b,
        {
            let ghost step = kernel_step(
                self@.input[b as int],
                gradients@[b as int],
                lr,
                W as int,
                X as int,
                kx as int,
                ky as int,
            );
            let ghost first = acc;
            let mut i: usize = 0;
            while i < X
                invariant
                    self.wf(),
                    kx < K,
                    ky < K,
                    b < B,
                    i <= X,
                    step == kernel_step(
                        self@.input[b as int],
                        gradients@[b as int],
                        lr,
                        W as int,
                        X as int,
                        kx as int,
                        ky as int,
                    ),
                    acc == crate::numeric::fold2(step, first, i as nat, Y as nat),
                decreases X - i,
            {
                let ghost start = acc;
                let mut j: usize = 0;
                while j < Y
                    invariant
                        self.wf(),
                        kx < K,
                        ky < K,
                        b < B,
                        i < X,
                        j <= Y,
                        step == kernel_step(
                            self@.input[b as int],
                            gradients@[b as int],
                            lr,
                            W as int,
                            X as int,
                            kx as int,
                            ky as int,
                        ),
                        acc == crate::numeric::fold(
                            crate::numeric::inner_step(step, i as int),
                            start,
                            j as nat,
                        ),
                    decreases Y - j,
                {
                    proof {
                        crate::tensors::lemma_flat_index(
                            (j + ky) as int,
                            (i + kx) as int,
                            H as int,
                            W as int,
                        );
                        crate::tensors::lemma_flat_index(j as int, i as int, Y as int, X as int);
                    }
                    let x = self.input.get(b, (j + ky) * W + (i + kx));
                    let g = gradients.get(b, j * X + i);
                    acc = acc.sub(lr.mul(x).mul(g));
                    j += 1;
                }
                proof {
                    crate::numeric::lemma_fold2_row(step, first, i as nat, Y as nat);
                }
                i += 1;
            }
            b += 1;
        }
        acc
    }

    /// One bias cell after the update.
    fn bias_after(&self, gradients: &Batch<B, T, M>, lr: T, kx: usize, ky: usize) -> (r: T)
        requires
            self.wf(),
            kx < K,
            ky < K,
        ensures
            r == conv_bias_after(self@, gradients@, lr, X as int, Y as int, kx as int, ky as int),
    {
        let ghost sample = bias_sample_step(gradients@, lr, X as int, Y as int);
        let mut acc = self.bias[ky][kx];
        let mut b: usize = 0;
        while b < B
            invariant
                self.wf(),
                kx < K,
                ky < K,
                b <= B,
                sample == bias_sample_step(gradients@, lr, X as int, Y as int),
                acc == crate::numeric::fold(sample, self@.bias[ky as int][kx as int], b as nat),
            decreases B - b,
        {
            let ghost step = bias_step(gradients@[b as int], lr, X as int);
            let ghost first = acc;
            let mut i: usize = 0;
            while i < X
                invariant
                    self.wf(),
                    b < B,
                    i <= X,
                    step == bias_step(gradients@[b as int], lr, X as int),
                    acc == crate::numeric::fold2(step, first, i as nat, Y as nat),
                decreases X - i,
            {
                let ghost start = acc;
                let mut j: usize = 0;
                while j < Y
                    invariant
                        self.wf(),
                        b < B,
                        i < X,
                        j <= Y,
                        step == bias_step(gradients@[b as int], lr, X as int),
                        acc == crate::numeric::fold(
                            crate::numeric::inner_step(step, i as int),
                            start,
                            j as nat,
                        ),
                    decreases Y - j,
                {
                    proof {
                        crate::tensors::lemma_flat_index(j as int, i as int, Y as int, X as int);
                    }
                    let g = gradients.get(b, j * X + i);
                    acc = acc.sub(lr.mul(g));
                    j += 1;
                }
                proof {
                    crate::numeric::lemma_fold2_row(step, first, i as nat, Y as nat);
                }
                i += 1;
            }
            b += 1;
        }
        acc
    }
}

} // verus!
