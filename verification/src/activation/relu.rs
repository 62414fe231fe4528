//! ReLU activation function.

use crate::activation::Activation;
use crate::numeric::Numeric;
use crate::tensors::Batch;
use vstd::prelude::*;

verus! {

/// The rectified linear unit.
pub struct ReLU<const N: usize>;

/// `max(0, x)`: `x` where `0 <= x`, and zero elsewhere.
pub open spec fn rectified<T: Numeric>(x: T) -> T {
    if T::zero_spec().le_spec(x) {
        x
    } else {
        T::zero_spec()
    }
}

/// The derivative of the rectifier, read off its output `y`: one where
/// `y` is not zero, and zero elsewhere.
pub open spec fn rectified_slope<T: Numeric>(y: T) -> T {
    if y.eq_spec(T::zero_spec()) {
        T::zero_spec()
    } else {
        T::one_spec()
    }
}

/// `rectified` applied to every entry.
pub open spec fn rectified_rows<T: Numeric>(batch: Seq<Seq<T>>) -> Seq<Seq<T>> {
    Seq::new(batch.len(), |b: int| Seq::new(batch[b].len(), |i: int| rectified(batch[b][i])))
}

/// `rectified_slope` applied to every entry.
pub open spec fn rectified_slope_rows<T: Numeric>(batch: Seq<Seq<T>>) -> Seq<Seq<T>> {
    Seq::new(
        batch.len(),
        |b: int| Seq::new(batch[b].len(), |i: int| rectified_slope(batch[b][i])),
    )
}

/// Applies the rectifier to every entry of `batch`.
pub fn rectify<const B: usize, T: Numeric, const N: usize>(batch: &Batch<B, T, N>) -> (r: Batch<
    B,
    T,
    N,
>)
    ensures
        r@ == rectified_rows(batch@),
{
    let mut result = Batch::<B, T, N>::zero();
    let mut b: usize = 0;
    while b < B
        invariant
            b <= B,
            forall|p: int, q: int|
                0 <= p < b && 0 <= q < N ==> result@[p][q] == rectified(batch@[p][q]),
        decreases B - b,
    {
        let mut i: usize = 0;
        while i < N
            invariant
                b < B,
                i <= N,
                forall|p: int, q: int|
                    0 <= p < b && 0 <= q < N ==> result@[p][q] == rectified(batch@[p][q]),
                forall|q: int| 0 <= q < i ==> result@[b as int][q] == rectified(batch@[b as int][q]),
            decreases N - i,
        {
            let x = batch.get(b, i);
            let y = if T::zero().le(x) {
                x
            } else {
                T::zero()
            };
            result.set(b, i, y);
            i += 1;
        }
        b += 1;
    }
    assert(result@ =~~= rectified_rows(batch@));
    result
}

/// Applies the rectifier's slope to every entry of `batch`.
pub fn rectify_slope<const B: usize, T: Numeric, const N: usize>(batch: &Batch<B, T, N>) -> (r:
    Batch<B, T, N>)
    ensures
        r@ == rectified_slope_rows(batch@),
{
    let mut result = Batch::<B, T, N>::zero();
    let mut b: usize = 0;
    while b < B
        invariant
            b <= B,
            forall|p: int, q: int|
                0 <= p < b && 0 <= q < N ==> result@[p][q] == rectified_slope(batch@[p][q]),
        decreases B - b,
    {
        let mut i: usize = 0;
        while i < N
            invariant
                b < B,
                i <= N,
                forall|p: int, q: int|
                    0 <= p < b && 0 <= q < N ==> result@[p][q] == rectified_slope(batch@[p][q]),
                forall|q: int|
                    0 <= q < i ==> result@[b as int][q] == rectified_slope(batch@[b as int][q]),
            decreases N - i,
        {
            let y = if batch.get(b, i).eq(T::zero()) {
                T::zero()
            } else {
                T::one()
            };
            result.set(b, i, y);
            i += 1;
        }
        b += 1;
    }
    assert(result@ =~~= rectified_slope_rows(batch@));
    result
}

impl<const N: usize> View for ReLU<N> {
    type V = ();

    open spec fn view(&self) -> () {
        ()
    }
}

impl<const B: usize, T: Numeric, const N: usize> Activation<B, T, N> for ReLU<N> {
    open spec fn initial() -> () {
        ()
    }

    /// Entry by entry, `max(0, x)`.
    open spec fn forward_output(v: (), batch: Seq<Seq<T>>) -> Seq<Seq<T>> {
        rectified_rows(batch)
    }

    open spec fn forward_state(v: (), batch: Seq<Seq<T>>) -> () {
        ()
    }

    /// Entry by entry, one where the value handed in is not zero. The
    /// value handed in is meant to be the forward pass's output.
    open spec fn backward_output(v: (), batch: Seq<Seq<T>>) -> Seq<Seq<T>> {
        rectified_slope_rows(batch)
    }

    fn new() -> (r: Self) {
        Self
    }

    /// Entry by entry, `max(0, x)`.
    fn forward(&mut self, batch: &Batch<B, T, N>) -> (r: Batch<B, T, N>)
        ensures
            forall|b: int, i: int|
                0 <= b < B && 0 <= i < N ==> r@[b][i] == rectified(batch@[b][i]),
    {
        proof {
            batch.lemma_shape();
        }
        rectify(batch)
    }

    /// Entry by entry, one where `batch` is not zero, and zero elsewhere.
    fn backward(&self, batch: &Batch<B, T, N>) -> (r: Batch<B, T, N>)
        ensures
            forall|b: int, i: int|
                0 <= b < B && 0 <= i < N ==> r@[b][i] == rectified_slope(batch@[b][i]),
    {
        proof {
            batch.lemma_shape();
        }
        rectify_slope(batch)
    }
}

} // verus!
