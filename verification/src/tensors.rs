//! Tensor implementation.

use crate::numeric::Numeric;
use vstd::prelude::*;

verus! {

/// A fixed-length sequence of `N` scalars: one flattened sample.
#[derive(Clone, Copy, Debug, PartialEq)]
pub struct Tensor<T: Numeric, const N: usize>(pub [T; N]);

impl<T: Numeric, const N: usize> View for Tensor<T, N> {
    type V = Seq<T>;

    open spec fn view(&self) -> Seq<T> {
        self.0@
    }
}

impl<T: Numeric, const N: usize> Tensor<T, N> {
    /// The tensor whose `N` entries are all zero.
    pub fn zero() -> (r: Self)
        ensures
            r@ == zeros::<T>(N as nat),
    {
        let r = Self([T::zero(); N]);
        assert(r@ =~= zeros::<T>(N as nat));
        r
    }

    /// Entry `i` of this tensor.
    pub fn get(&self, i: usize) -> (r: T)
        requires
            i < N,
        ensures
            r == self@[i as int],
    {
        self.0[i]
    }

    /// Replaces entry `i` of this tensor by `value`.
    pub fn set(&mut self, i: usize, value: T)
        requires
            i < N,
        ensures
            final(self)@ == old(self)@.update(i as int, value),
    {
        self.0[i] = value;
        assert(self@ =~= old(self)@.update(i as int, value));
    }
}

impl<T: Numeric, const N: usize> core::ops::Index<usize> for Tensor<T, N> {
    type Output = T;

    /// Entry `index` of this tensor.
    fn index(&self, index: usize) -> (r: &T)
        ensures
            *r == self@[index as int],
    {
        &self.0[index]
    }
}

impl<T: Numeric, const N: usize> vstd::std_specs::core::IndexSpecImpl<usize> for Tensor<T, N> {
    /// An entry can be read where there is one.
    open spec fn index_req(&self, index: &usize) -> bool {
        *index < N
    }
}

/// The step of a dot product: `acc + a[j] * b[j]`.
pub open spec fn dot_step<T: Numeric>(a: Seq<T>, b: Seq<T>) -> spec_fn(T, int) -> T {
    |acc: T, j: int| acc.add_spec(a[j].mul_spec(b[j]))
}

/// `a[0] * b[0] + .. + a[n - 1] * b[n - 1]`, summed from the left,
/// starting from zero.
pub open spec fn dot<T: Numeric>(a: Seq<T>, b: Seq<T>, n: nat) -> T {
    crate::numeric::fold(dot_step(a, b), T::zero_spec(), n)
}

/// The sequence of `n` zeros.
pub open spec fn zeros<T: Numeric>(n: nat) -> Seq<T> {
    Seq::new(n, |i: int| T::zero_spec())
}

/// `b` rows of `n` zeros each.
pub open spec fn zero_rows<T: Numeric>(b: nat, n: nat) -> Seq<Seq<T>> {
    Seq::new(b, |k: int| zeros::<T>(n))
}

/// Whether `rows` holds `b` rows of `n` entries each.
pub open spec fn has_shape<T>(rows: Seq<Seq<T>>, b: nat, n: nat) -> bool {
    &&& rows.len() == b
    &&& forall|k: int| 0 <= k < b ==> (#[trigger] rows[k]).len() == n
}

/// The rows of a matrix, as sequences.
pub open spec fn rows_view<T, const C: usize, const R: usize>(m: [[T; C]; R]) -> Seq<Seq<T>> {
    Seq::new(R as nat, |i: int| m[i]@)
}

/// In a grid of `rows` by `cols` stored row by row, the cell `(r, c)` has a
/// place.
pub proof fn lemma_flat_index(r: int, c: int, rows: int, cols: int)
    requires
        0 <= r < rows,
        0 <= c < cols,
    ensures
        0 <= r * cols <= r * cols + c < rows * cols,
        (r * cols + c) % cols == c,
        (r * cols + c) / cols == r,
{
    assert(0 <= r * cols <= r * cols + c < rows * cols) by (nonlinear_arith)
        requires
            0 <= r < rows,
            0 <= c < cols,
    ;
    vstd::arithmetic::div_mod::lemma_fundamental_div_mod_converse(r * cols + c, cols, r, c);
}

/// In a grid of `rows` by `cols` stored row by row, the place `m` is the
/// cell `(m / cols, m % cols)`.
pub proof fn lemma_grid_cell(m: int, rows: int, cols: int)
    requires
        0 <= m < rows * cols,
        0 <= rows,
        0 <= cols,
    ensures
        0 < cols,
        0 <= m % cols < cols,
        0 <= m / cols < rows,
        (m / cols) * cols + m % cols == m,
{
    assert(0 < cols) by (nonlinear_arith)
        requires
            0 <= m < rows * cols,
            0 <= rows,
            0 <= cols,
    ;
    vstd::arithmetic::div_mod::lemma_fundamental_div_mod(m, cols);
    vstd::arithmetic::div_mod::lemma_mod_bound(m, cols);
    let q = m / cols;
    assert(0 <= q < rows) by (nonlinear_arith)
        requires
            0 <= m < rows * cols,
            0 < cols,
            m == cols * q + m % cols,
            0 <= m % cols < cols,
    ;
    assert(cols * q == q * cols) by (nonlinear_arith);
}

/// A fixed-length sequence of `B` tensors: the unit every kernel works on.
#[derive(Clone, Copy, Debug, PartialEq)]
pub struct Batch<const B: usize, T: Numeric, const N: usize>(pub [Tensor<T, N>; B]);

impl<const B: usize, T: Numeric, const N: usize> View for Batch<B, T, N> {
    type V = Seq<Seq<T>>;

    open spec fn view(&self) -> Seq<Seq<T>> {
        Seq::new(B as nat, |b: int| self.0[b]@)
    }
}

impl<const B: usize, T: Numeric, const N: usize> Batch<B, T, N> {
    /// The batch whose `B` tensors are all zero.
    pub fn zero() -> (r: Self)
        ensures
            r@ == zero_rows::<T>(B as nat, N as nat),
    {
        let t = Tensor::<T, N>::zero();
        let r = Self([t; B]);
        assert forall|b: int| 0 <= b < B implies r@[b] == zeros::<T>(N as nat) by {
            assert(r.0 == vstd::array::spec_array_fill_for_copy_type::<Tensor<T, N>, B>(t));
            assert(r.0@[b] == t);
        }
        assert(r@ =~= zero_rows::<T>(B as nat, N as nat));
        r
    }

    /// Entry `i` of sample `b`.
    pub fn get(&self, b: usize, i: usize) -> (r: T)
        requires
            b < B,
            i < N,
        ensures
            r == self@[b as int][i as int],
    {
        self.0[b].0[i]
    }

    /// Replaces entry `i` of sample `b` by `value`.
    pub fn set(&mut self, b: usize, i: usize, value: T)
        requires
            b < B,
            i < N,
        ensures
            final(self)@ == old(self)@.update(
                b as int,
                old(self)@[b as int].update(i as int, value),
            ),
    {
        self.0[b].0[i] = value;
        assert(self.0[b as int]@ =~= old(self).0[b as int]@.update(i as int, value));
        assert forall|k: int| 0 <= k < B implies self@[k] == old(self)@.update(
            b as int,
            old(self)@[b as int].update(i as int, value),
        )[k] by {
            if k != b {
                assert(self.0[k] == old(self).0[k]);
            }
        }
        assert(self@ =~= old(self)@.update(
            b as int,
            old(self)@[b as int].update(i as int, value),
        ));
    }

    /// Every view of a batch has `B` rows of `N` entries.
    pub proof fn lemma_shape(&self)
        ensures
            has_shape(self@, B as nat, N as nat),
    {
    }
}

impl<const B: usize, T: Numeric, const N: usize> core::ops::Index<usize> for Batch<B, T, N> {
    type Output = Tensor<T, N>;

    /// Sample `index` of this batch.
    fn index(&self, index: usize) -> (r: &Tensor<T, N>)
        ensures
            r@ == self@[index as int],
    {
        &self.0[index]
    }
}

impl<const B: usize, T: Numeric, const N: usize> vstd::std_specs::core::IndexSpecImpl<usize> for Batch<B, T, N> {
    /// A sample can be read where there is one.
    open spec fn index_req(&self, index: &usize) -> bool {
        *index < B
    }
}

} // verus!
