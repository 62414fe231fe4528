//! Dataset abstraction.

use crate::numeric::Numeric;
use crate::tensors::{Batch, Tensor};
use rand::seq::SliceRandom;
use vstd::prelude::*;

verus! {

/// The mathematical state of a [`Dataset`].
#[verifier::ext_equal]
pub struct DatasetView<T> {
    /// The samples, in the order in which they were given.
    pub data: Seq<Seq<T>>,
    /// The labels, `labels[i]` belonging to `data[i]`.
    pub labels: Seq<Seq<T>>,
    /// The order in which the samples are handed out in this pass.
    pub order: Seq<usize>,
    /// The number of batches handed out in this pass.
    pub cursor: nat,
}

/// Whether `order` lists each of `0, .., n - 1` exactly once.
pub open spec fn is_permutation(order: Seq<usize>, n: nat) -> bool {
    &&& order.len() == n
    &&& forall|i: int| 0 <= i < n ==> (#[trigger] order[i]) < n
    &&& order.no_duplicates()
}

/// The number of batches of `b` samples in one pass over `v`.
pub open spec fn batch_count<T>(v: DatasetView<T>, b: nat) -> nat {
    v.data.len() / b
}

/// Whether `v` is the state of a dataset with batches of `b` samples:
/// labels and samples pair up, they fill a whole number of batches, the
/// order is a permutation of the samples, and the cursor lies within the
/// pass.
pub open spec fn valid_view<T>(v: DatasetView<T>, b: nat) -> bool {
    &&& b > 0
    &&& v.labels.len() == v.data.len()
    &&& v.data.len() % b == 0
    &&& is_permutation(v.order, v.data.len())
    &&& v.cursor <= batch_count(v, b)
}

/// Batch `k` of the samples: those at the places `k * b, .., k * b + b - 1`
/// of the order.
pub open spec fn data_batch<T>(v: DatasetView<T>, b: nat, k: int) -> Seq<Seq<T>> {
    Seq::new(b, |e: int| v.data[v.order[k * b + e] as int])
}

/// Batch `k` of the labels, which belong to the samples of `data_batch`.
pub open spec fn label_batch<T>(v: DatasetView<T>, b: nat, k: int) -> Seq<Seq<T>> {
    Seq::new(b, |e: int| v.labels[v.order[k * b + e] as int])
}

/// The state `v` after `k` more batches have been handed out.
pub open spec fn advanced<T>(v: DatasetView<T>, k: nat) -> DatasetView<T> {
    DatasetView { data: v.data, labels: v.labels, order: v.order, cursor: v.cursor + k }
}

/// Handing out batches changes neither the batches nor their number.
pub proof fn lemma_advanced_batches<T>(v: DatasetView<T>, b: nat, k: nat, c: int)
    ensures
        data_batch(advanced(v, k), b, c) == data_batch(v, b, c),
        label_batch(advanced(v, k), b, c) == label_batch(v, b, c),
        batch_count(advanced(v, k), b) == batch_count(v, b),
{
    assert(data_batch(advanced(v, k), b, c) =~= data_batch(v, b, c));
    assert(label_batch(advanced(v, k), b, c) =~= label_batch(v, b, c));
}

/// The state `v` at the start of a pass in the given order.
pub open spec fn restarted<T>(v: DatasetView<T>, order: Seq<usize>) -> DatasetView<T> {
    DatasetView { data: v.data, labels: v.labels, order, cursor: 0 }
}

/// The views of a vector of tensors.
pub open spec fn tensor_views<T: Numeric, const N: usize>(v: Seq<Tensor<T, N>>) -> Seq<Seq<T>> {
    Seq::new(v.len(), |i: int| v[i]@)
}

/// Dataset for training or testing.
///
/// A dataset owns samples and their labels and hands them out in batches
/// of `B`, in a shuffled order, one pass at a time.
#[derive(Clone, Debug)]
pub struct Dataset<const B: usize, T: Numeric, const N: usize, const M: usize> {
    /// Data.
    data: Vec<Tensor<T, N>>,
    /// Labels.
    labels: Vec<Tensor<T, M>>,
    /// Indices from which to yield.
    shuffle: Vec<usize>,
    /// Number of batches yielded so far.
    batch: usize,
}

/// Shuffles `order` in place by `rand::seq::SliceRandom::shuffle`, driven
/// by the thread-local generator that `rand::rng` hands out.
///
/// The shuffle only swaps entries of the slice. So the entries after the
/// call are the entries before it, each as often as before. Nothing is
/// claimed of the order in which they stand.
#[verifier::external_body]
fn shuffle_in_place(order: &mut Vec<usize>)
    ensures
        final(order)@.to_multiset() == old(order)@.to_multiset(),
{
    let mut rng = rand::rng();
    order.shuffle(&mut rng);
}

/// The indices `0, .., n - 1` in ascending order.
pub fn ascending(n: usize) -> (r: Vec<usize>)
    ensures
        r@.len() == n,
        forall|i: int| 0 <= i < n ==> r@[i] == i,
        is_permutation(r@, n as nat),
{
    let mut order: Vec<usize> = Vec::new();
    let mut i: usize = 0;
    while i < n
        invariant
            i <= n,
            order@.len() == i,
            forall|k: int| 0 <= k < i ==> order@[k] == k,
        decreases n - i,
    {
        order.push(i);
        i += 1;
    }
    order
}

/// The indices `0, .., n - 1` in a random order.
pub fn shuffled(n: usize) -> (r: Vec<usize>)
    ensures
        is_permutation(r@, n as nat),
{
    let mut order = ascending(n);
    let ghost before = order@;
    shuffle_in_place(&mut order);
    proof {
        broadcast use vstd::seq_lib::group_to_multiset_ensures;

        before.to_multiset_ensures();
        order@.to_multiset_ensures();
        before.lemma_multiset_has_no_duplicates();
        order@.lemma_multiset_has_no_duplicates_conv();
        assert forall|i: int| 0 <= i < n implies (#[trigger] order@[i]) < n by {
            let x = order@[i];
            assert(order@.contains(x));
            assert(order@.to_multiset().count(x) > 0);
            assert(before.to_multiset().count(x) > 0);
            assert(before.contains(x));
            let k = choose|k: int| 0 <= k < before.len() && before[k] == x;
            assert(before[k] == k);
        }
    }
    order
}

/// Whether `order` lists each of `0, .., n - 1` exactly once.
pub fn check_permutation(order: &Vec<usize>, n: usize) -> (r: bool)
    ensures
        r == is_permutation(order@, n as nat),
{
    if order.len() != n {
        return false;
    }
    let mut seen: Vec<bool> = Vec::new();
    let mut i: usize = 0;
    while i < n
        invariant
            i <= n,
            seen@.len() == i,
            forall|k: int| 0 <= k < i ==> !seen@[k],
        decreases n - i,
    {
        seen.push(false);
        i += 1;
    }
    let mut i: usize = 0;
    while i < n
        invariant
            i <= n,
            order@.len() == n,
            seen@.len() == n,
            forall|k: int| 0 <= k < i ==> (#[trigger] order@[k]) < n,
            forall|k: int, l: int| 0 <= k < l < i ==> order@[k] != order@[l],
            forall|x: int|
                0 <= x < n ==> (#[trigger] seen@[x] <==> exists|k: int|
                    0 <= k < i && order@[k] == x),
        decreases n - i,
    {
        let x = order[i];
        if x >= n {
            assert(!is_permutation(order@, n as nat));
            return false;
        }
        if seen[x] {
            proof {
                let k = choose|k: int| 0 <= k < i && order@[k] == x;
                assert(order@[k] == order@[i as int]);
            }
            return false;
        }
        let ghost earlier = seen@;
        seen.set(x, true);
        proof {
            assert forall|y: int| 0 <= y < n implies (#[trigger] seen@[y] <==> exists|k: int|
                0 <= k < i + 1 && order@[k] == y) by {
                if y == x {
                    assert(order@[i as int] == x);
                } else if earlier[y] {
                    let k = choose|k: int| 0 <= k < i && order@[k] == y;
                    assert(0 <= k < i + 1 && order@[k] == y);
                }
            }
        }
        i += 1;
    }
    true
}

impl<const B: usize, T: Numeric, const N: usize, const M: usize> View for Dataset<B, T, N, M> {
    type V = DatasetView<T>;

    closed spec fn view(&self) -> DatasetView<T> {
        DatasetView {
            data: tensor_views(self.data@),
            labels: tensor_views(self.labels@),
            order: self.shuffle@,
            cursor: self.batch as nat,
        }
    }
}

impl<const B: usize, T: Numeric, const N: usize, const M: usize> Dataset<B, T, N, M> {
    /// Whether this dataset is well formed.
    pub open spec fn wf(&self) -> bool {
        valid_view(self@, B as nat)
    }

    /// Construct a new dataset from a given list of data and their labels,
    /// to be handed out in a random order.
    ///
    /// Construction fails if `data` and `labels` differ in length, or if
    /// their length is not a multiple of the batch size `B`, or if `B` is
    /// zero.
    pub fn new(data: Vec<Tensor<T, N>>, labels: Vec<Tensor<T, M>>) -> (r: Option<Self>)
        ensures
            r.is_some() <==> B > 0 && data@.len() == labels@.len() && data@.len() % (B as nat)
                == 0,
            r.is_some() ==> {
                &&& r.unwrap().wf()
                &&& r.unwrap()@.data == tensor_views(data@)
                &&& r.unwrap()@.labels == tensor_views(labels@)
                &&& r.unwrap()@.cursor == 0
            },
    {
        if B == 0 || data.len() != labels.len() || data.len() % B != 0 {
            None
        } else {
            let shuffle = shuffled(data.len());
            Some(Self { data, labels, shuffle, batch: 0 })
        }
    }

    /// Construct a new dataset whose first pass hands the samples out in
    /// the given order.
    ///
    /// Construction fails where `new` fails, and if `order` does not list
    /// each index of `data` exactly once.
    pub fn with_order(
        data: Vec<Tensor<T, N>>,
        labels: Vec<Tensor<T, M>>,
        order: Vec<usize>,
    ) -> (r: Option<Self>)
        ensures
            r.is_some() <==> B > 0 && data@.len() == labels@.len() && data@.len() % (B as nat)
                == 0 && is_permutation(order@, data@.len()),
            r.is_some() ==> {
                &&& r.unwrap().wf()
                &&& r.unwrap()@.data == tensor_views(data@)
                &&& r.unwrap()@.labels == tensor_views(labels@)
                &&& r.unwrap()@.order == order@
                &&& r.unwrap()@.cursor == 0
            },
    {
        if B == 0 || data.len() != labels.len() || data.len() % B != 0 {
            None
        } else if !check_permutation(&order, data.len()) {
            None
        } else {
            Some(Self { data, labels, shuffle: order, batch: 0 })
        }
    }

    /// The number of samples.
    pub fn len(&self) -> (r: usize)
        ensures
            r == self@.data.len(),
    {
        self.data.len()
    }

    /// The order in which this pass hands the samples out.
    pub fn order(&self) -> (r: Vec<usize>)
        ensures
            r@ == self@.order,
    {
        self.shuffle.clone()
    }

    /// Yield the next batch from this dataset, if it is available.
    ///
    /// A batch is available as long as `B` samples of this pass are left.
    pub fn next(&mut self) -> (r: Option<(Batch<B, T, N>, Batch<B, T, M>)>)
        requires
            old(self).wf(),
        ensures
            final(self).wf(),
            r.is_some() <==> old(self)@.cursor < batch_count(old(self)@, B as nat),
            r.is_none() ==> final(self)@ == old(self)@,
            r.is_some() ==> {
                &&& final(self)@ == advanced(old(self)@, 1)
                &&& r.unwrap().0@ == data_batch(old(self)@, B as nat, old(self)@.cursor as int)
                &&& r.unwrap().1@ == label_batch(old(self)@, B as nat, old(self)@.cursor as int)
            },
    {
        if self.batch >= self.data.len() / B {
            None
        } else {
            let ghost v = self@;
            let ghost k = self.batch as int;
            proof {
                lemma_batch_in_range(self.data@.len() as int, B as int, k, 0);
            }
            let n = self.data.len();
            let base = B * self.batch;
            let mut thisdata = [Tensor::<T, N>::zero(); B];
            let mut thislabel = [Tensor::<T, M>::zero(); B];
            let mut e: usize = 0;
            while e < B
                invariant
                    e <= B,
                    self@ == v,
                    self.wf(),
                    k == self.batch,
                    k < batch_count(v, B as nat),
                    base == k * B,
                    n == v.data.len(),
                    forall|p: int|
                        0 <= p < e ==> thisdata[p]@ == v.data[v.order[k * B + p] as int],
                    forall|p: int|
                        0 <= p < e ==> thislabel[p]@ == v.labels[v.order[k * B + p] as int],
                decreases B - e,
            {
                proof {
                    lemma_batch_in_range(n as int, B as int, k, e as int);
                }
                let idx = self.shuffle[base + e];
                thisdata[e] = self.data[idx];
                thislabel[e] = self.labels[idx];
                e += 1;
            }
            self.batch += 1;
            let d = Batch(thisdata);
            let l = Batch(thislabel);
            assert(d@ =~= data_batch(v, B as nat, k));
            assert(l@ =~= label_batch(v, B as nat, k));
            Some((d, l))
        }
    }

    /// Refresh this dataset: the samples are shuffled anew and the next
    /// pass starts.
    pub fn refresh(&mut self)
        requires
            old(self).wf(),
        ensures
            final(self).wf(),
            final(self)@ == restarted(old(self)@, final(self)@.order),
    {
        self.shuffle = shuffled(self.data.len());
        self.batch = 0;
    }
}

/// In `n` samples that fill whole batches of `b`, entry `e` of batch `k`
/// has a place, as long as `k` is less than the number of batches.
pub proof fn lemma_batch_in_range(n: int, b: int, k: int, e: int)
    requires
        0 < b,
        0 <= n,
        0 <= k < n / b,
        0 <= e < b,
    ensures
        0 <= k * b <= k * b + e < n,
        b * k == k * b,
{
    vstd::arithmetic::div_mod::lemma_fundamental_div_mod(n, b);
    vstd::arithmetic::div_mod::lemma_mod_bound(n, b);
    let q = n / b;
    assert(0 <= k * b <= k * b + e < n && b * k == k * b) by (nonlinear_arith)
        requires
            0 < b,
            0 <= k < q,
            0 <= e < b,
            n == b * q + n % b,
            0 <= n % b,
    ;
}

} // verus!
