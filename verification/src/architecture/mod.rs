//! Network architecture abstraction.

pub mod classifiers;
pub mod regressors;

use crate::activation::Activation;
use crate::dataset::{batch_count, data_batch, label_batch, Dataset, DatasetView};
use crate::hyperparameters::Hyperparameters;
use crate::loss::Loss;
use crate::numeric::Numeric;
use crate::tensors::Batch;
use vstd::prelude::*;

verus! {

/// Network architecture abstraction.
///
/// An architecture chains layers into a model from batches of `N`-entry
/// tensors to batches of `M`-entry tensors, and names the loss function it
/// is trained with and the activation that `eval` applies to its raw
/// output. Its view is the state of all its layers.
///
/// What can be done with any architecture (`eval`, `train`, `test`) is in
/// the trait [`Training`], which every architecture has.
pub trait Architecture<const B: usize, T: Numeric, const N: usize, const M: usize>: Sized + View {
    /// Loss function for this architecture.
    type LossFunction: Loss<B, T, M>;

    /// Activation function for the output of this model.
    type Activation: Activation<B, T, M>;

    /// Whether this architecture is well formed.
    spec fn wf(&self) -> bool;

    /// What a forward pass over `batch` returns in state `v`.
    spec fn forward_output(v: Self::V, batch: Seq<Seq<T>>) -> Seq<Seq<T>>;

    /// The state that a forward pass over `batch` leaves behind.
    spec fn forward_state(v: Self::V, batch: Seq<Seq<T>>) -> Self::V;

    /// The state that a backward pass over `gradients` with learning rate
    /// `lr` leaves behind.
    spec fn backward_state(v: Self::V, gradients: Seq<Seq<T>>, lr: T) -> Self::V;

    /// Initialize this architecture.
    fn new() -> (r: Self)
        ensures
            r.wf(),
    ;

    /// Compute the forward pass of this model, returning an inference result.
    fn forward(&mut self, batch: &Batch<B, T, N>) -> (r: Batch<B, T, M>)
        requires
            old(self).wf(),
        ensures
            final(self).wf(),
            final(self)@ == Self::forward_state(old(self)@, batch@),
            r@ == Self::forward_output(old(self)@, batch@),
    ;

    /// Compute the backward pass of this model, updating all parameters.
    fn backward(&mut self, gradients: &Batch<B, T, M>, lr: T)
        requires
            old(self).wf(),
        ensures
            final(self).wf(),
            final(self)@ == Self::backward_state(old(self)@, gradients@, lr),
    ;
}

/// The number of batches that a pass over `ds` has left.
pub open spec fn batches_left<T>(ds: DatasetView<T>, b: nat) -> nat {
    (batch_count(ds, b) - ds.cursor) as nat
}

/// One step of training, on the batch `k` places after the dataset's
/// cursor: a forward pass, the loss and its gradient, and a backward pass.
/// The state is the model's state and the loss summed so far.
pub open spec fn train_step<
    const B: usize,
    T: Numeric,
    const N: usize,
    const M: usize,
    A: Architecture<B, T, N, M>,
>(ds: DatasetView<T>, lr: T) -> spec_fn((A::V, T), int) -> (A::V, T) {
    |s: (A::V, T), k: int|
        {
            let data = data_batch(ds, B as nat, ds.cursor + k);
            let labels = label_batch(ds, B as nat, ds.cursor + k);
            let output = A::forward_output(s.0, data);
            let gradients = A::LossFunction::gradient(
                A::LossFunction::forward_state(output, labels),
            );
            (
                A::backward_state(A::forward_state(s.0, data), gradients, lr),
                s.1.add_spec(A::LossFunction::loss(output, labels)),
            )
        }
}

/// The model's state and the summed loss after training on every batch
/// that `ds` has left, from the state `v`.
pub open spec fn train_pass<
    const B: usize,
    T: Numeric,
    const N: usize,
    const M: usize,
    A: Architecture<B, T, N, M>,
>(v: A::V, ds: DatasetView<T>, lr: T) -> (A::V, T) {
    crate::numeric::fold(
        train_step::<B, T, N, M, A>(ds, lr),
        (v, T::zero_spec()),
        batches_left(ds, B as nat),
    )
}

/// The dataset as epoch `e` of a training run finds it: as it was given,
/// for the first epoch, and restarted in the order `orders[e]` for every
/// later one.
pub open spec fn epoch_dataset<T>(ds: DatasetView<T>, orders: Seq<Seq<usize>>, e: int) -> DatasetView<
    T,
> {
    if e == 0 {
        ds
    } else {
        crate::dataset::restarted(ds, orders[e])
    }
}

/// The model's state and the losses of the epochs after `epochs` epochs of
/// training from the state `v`, where epoch `e` runs over
/// `epoch_dataset(ds, orders, e)`.
pub open spec fn train_run<
    const B: usize,
    T: Numeric,
    const N: usize,
    const M: usize,
    A: Architecture<B, T, N, M>,
>(v: A::V, ds: DatasetView<T>, orders: Seq<Seq<usize>>, lr: T, epochs: nat) -> (A::V, Seq<T>)
    decreases epochs,
{
    if epochs == 0 {
        (v, Seq::empty())
    } else {
        let before = train_run::<B, T, N, M, A>(v, ds, orders, lr, (epochs - 1) as nat);
        let pass = train_pass::<B, T, N, M, A>(
            before.0,
            epoch_dataset(ds, orders, epochs - 1),
            lr,
        );
        (pass.0, before.1.push(pass.1))
    }
}

/// Whether `epochs` epochs of training lead from the model state `v` and
/// the dataset `ds` to the model state `trained`, the dataset `left` and
/// the `losses`, the refreshes having drawn the orders
/// `orders[1], .., orders[epochs]`; `orders[0]` is the order that `ds`
/// came with.
pub open spec fn is_training_run<
    const B: usize,
    T: Numeric,
    const N: usize,
    const M: usize,
    A: Architecture<B, T, N, M>,
>(
    v: A::V,
    ds: DatasetView<T>,
    orders: Seq<Seq<usize>>,
    lr: T,
    epochs: nat,
    trained: A::V,
    left: DatasetView<T>,
    losses: Seq<T>,
) -> bool {
    &&& orders.len() == epochs + 1
    &&& orders[0] == ds.order
    &&& forall|e: int|
        0 <= e <= epochs ==> crate::dataset::is_permutation(#[trigger] orders[e], ds.data.len())
    &&& left == epoch_dataset(ds, orders, epochs as int)
    &&& (trained, losses) == train_run::<B, T, N, M, A>(v, ds, orders, lr, epochs)
}

/// A training run of `epochs` epochs reads no order after
/// `orders[epochs - 1]`.
pub proof fn lemma_training_run_prefix<
    const B: usize,
    T: Numeric,
    const N: usize,
    const M: usize,
    A: Architecture<B, T, N, M>,
>(v: A::V, ds: DatasetView<T>, orders: Seq<Seq<usize>>, longer: Seq<Seq<usize>>, lr: T, epochs: nat)
    requires
        epochs <= orders.len() <= longer.len(),
        forall|e: int| 0 <= e < orders.len() ==> orders[e] == longer[e],
    ensures
        train_run::<B, T, N, M, A>(v, ds, orders, lr, epochs) == train_run::<B, T, N, M, A>(
            v,
            ds,
            longer,
            lr,
            epochs,
        ),
    decreases epochs,
{
    if epochs > 0 {
        lemma_training_run_prefix::<B, T, N, M, A>(v, ds, orders, longer, lr, (epochs - 1) as nat);
    }
}

/// One step of testing, on the batch `k` places after the dataset's
/// cursor: a forward pass and the loss. The state is the model's state
/// and the loss summed so far.
pub open spec fn test_step<
    const B: usize,
    T: Numeric,
    const N: usize,
    const M: usize,
    A: Architecture<B, T, N, M>,
>(ds: DatasetView<T>) -> spec_fn((A::V, T), int) -> (A::V, T) {
    |s: (A::V, T), k: int|
        {
            let data = data_batch(ds, B as nat, ds.cursor + k);
            let labels = label_batch(ds, B as nat, ds.cursor + k);
            (
                A::forward_state(s.0, data),
                s.1.add_spec(A::LossFunction::loss(A::forward_output(s.0, data), labels)),
            )
        }
}

/// The model's state and the summed loss after a forward pass over every
/// batch that `ds` has left, from the state `v`.
pub open spec fn test_pass<
    const B: usize,
    T: Numeric,
    const N: usize,
    const M: usize,
    A: Architecture<B, T, N, M>,
>(v: A::V, ds: DatasetView<T>) -> (A::V, T) {
    crate::numeric::fold(
        test_step::<B, T, N, M, A>(ds),
        (v, T::zero_spec()),
        batches_left(ds, B as nat),
    )
}

/// Trains `model` on every batch that `dataset` has left, in the
/// dataset's order, and returns the sum of the batches' losses.
pub fn train_batches<
    const B: usize,
    T: Numeric,
    const N: usize,
    const M: usize,
    A: Architecture<B, T, N, M>,
>(
    model: &mut A,
    dataset: &mut Dataset<B, T, N, M>,
    loss_function: &mut A::LossFunction,
    lr: T,
) -> (r: T)
    requires
        old(model).wf(),
        old(dataset).wf(),
    ensures
        final(model).wf(),
        final(dataset).wf(),
        final(dataset)@ == crate::dataset::advanced(
            old(dataset)@,
            batches_left(old(dataset)@, B as nat),
        ),
        (final(model)@, r) == train_pass::<B, T, N, M, A>(old(model)@, old(dataset)@, lr),
{
    let ghost v0 = model@;
    let ghost ds = dataset@;
    let ghost step = train_step::<B, T, N, M, A>(ds, lr);
    let ghost mut k: nat = 0;
    let mut total_loss = T::zero();
    loop
        invariant
            model.wf(),
            dataset.wf(),
            step == train_step::<B, T, N, M, A>(ds, lr),
            k <= batches_left(ds, B as nat),
            ds.cursor <= batch_count(ds, B as nat),
            dataset@ == crate::dataset::advanced(ds, k),
            (model@, total_loss) == crate::numeric::fold(step, (v0, T::zero_spec()), k),
        ensures
            k == batches_left(ds, B as nat),
        decreases batches_left(ds, B as nat) - k,
    {
        proof {
            crate::dataset::lemma_advanced_batches(ds, B as nat, k, (ds.cursor + k) as int);
            crate::numeric::lemma_fold_step(step, (v0, T::zero_spec()), k);
        }
        match dataset.next() {
            None => {
                break ;
            },
            Some(pair) => {
                let result = model.forward(&pair.0);
                let loss = loss_function.forward(&result, &pair.1);
                total_loss = total_loss.add(loss);
                let gradients = loss_function.backward();
                model.backward(&gradients, lr);
                proof {
                    k = k + 1;
                }
            },
        }
    }
    total_loss
}

/// Runs `model` forward on every batch that `dataset` has left, in the
/// dataset's order, and returns the sum of the batches' losses and the
/// number of batches as a scalar.
pub fn test_batches<
    const B: usize,
    T: Numeric,
    const N: usize,
    const M: usize,
    A: Architecture<B, T, N, M>,
>(model: &mut A, dataset: &mut Dataset<B, T, N, M>, loss_function: &mut A::LossFunction) -> (r: (
    T,
    T,
))
    requires
        old(model).wf(),
        old(dataset).wf(),
    ensures
        final(model).wf(),
        final(dataset).wf(),
        final(dataset)@ == crate::dataset::advanced(
            old(dataset)@,
            batches_left(old(dataset)@, B as nat),
        ),
        (final(model)@, r.0) == test_pass::<B, T, N, M, A>(old(model)@, old(dataset)@),
        r.1 == crate::numeric::count::<T>(batches_left(old(dataset)@, B as nat)),
{
    let ghost v0 = model@;
    let ghost ds = dataset@;
    let ghost step = test_step::<B, T, N, M, A>(ds);
    let ghost mut k: nat = 0;
    let mut total_loss = T::zero();
    let mut batches = T::zero();
    loop
        invariant
            model.wf(),
            dataset.wf(),
            step == test_step::<B, T, N, M, A>(ds),
            k <= batches_left(ds, B as nat),
            ds.cursor <= batch_count(ds, B as nat),
            dataset@ == crate::dataset::advanced(ds, k),
            (model@, total_loss) == crate::numeric::fold(step, (v0, T::zero_spec()), k),
            batches == crate::numeric::count::<T>(k),
        ensures
            k == batches_left(ds, B as nat),
        decreases batches_left(ds, B as nat) - k,
    {
        proof {
            crate::dataset::lemma_advanced_batches(ds, B as nat, k, (ds.cursor + k) as int);
            crate::numeric::lemma_fold_step(step, (v0, T::zero_spec()), k);
        }
        match dataset.next() {
            None => {
                break ;
            },
            Some(pair) => {
                let prediction = model.forward(&pair.0);
                total_loss = total_loss.add(loss_function.forward(&prediction, &pair.1));
                batches = batches.add(T::one());
                proof {
                    k = k + 1;
                }
            },
        }
    }
    (total_loss, batches)
}

/// What every architecture can do: evaluate, train and test.
pub trait Training<const B: usize, T: Numeric, const N: usize, const M: usize>: Architecture<
    B,
    T,
    N,
    M,
> {
    /// Evaluate this model, applying the architecture's activation to the
    /// raw output of a forward pass.
    fn eval(&mut self, batch: &Batch<B, T, N>) -> (r: Batch<B, T, M>)
        requires
            old(self).wf(),
        ensures
            final(self).wf(),
            final(self)@ == Self::forward_state(old(self)@, batch@),
            r@ == Self::Activation::forward_output(
                Self::Activation::initial(),
                Self::forward_output(old(self)@, batch@),
            ),
    {
        let mut activation = Self::Activation::new();
        let raw = self.forward(batch);
        activation.forward(&raw)
    }

    /// Train this network on a given training set using the provided
    /// hyperparameters, and return the loss from each epoch.
    ///
    /// An epoch trains on every batch that the dataset has left, and then
    /// refreshes the dataset. The first epoch runs in the order the
    /// dataset has on entry; every later one in the order that the refresh
    /// before it has drawn.
    fn train(&mut self, dataset: &mut Dataset<B, T, N, M>, hyperparameters: Hyperparameters<T>) -> (r:
        Vec<T>)
        requires
            old(self).wf(),
            old(dataset).wf(),
        ensures
            final(self).wf(),
            final(dataset).wf(),
            r@.len() == hyperparameters.epochs,
            exists|orders: Seq<Seq<usize>>|
                #[trigger] is_training_run::<B, T, N, M, Self>(
                    old(self)@,
                    old(dataset)@,
                    orders,
                    hyperparameters.lr,
                    hyperparameters.epochs as nat,
                    final(self)@,
                    final(dataset)@,
                    r@,
                ),
    {
        let mut loss_function = Self::LossFunction::new();
        let mut losses: Vec<T> = Vec::new();
        let ghost v0 = self@;
        let ghost ds0 = dataset@;
        let ghost mut orders: Seq<Seq<usize>> = seq![dataset@.order];
        let mut epoch: usize = 0;
        while epoch < hyperparameters.epochs
            invariant
                epoch <= hyperparameters.epochs,
                self.wf(),
                dataset.wf(),
                losses@.len() == epoch,
                is_training_run::<B, T, N, M, Self>(
                    v0,
                    ds0,
                    orders,
                    hyperparameters.lr,
                    epoch as nat,
                    self@,
                    dataset@,
                    losses@,
                ),
            decreases hyperparameters.epochs - epoch,
        {
            let ghost ds = dataset@;
            let total_loss = train_batches(self, dataset, &mut loss_function, hyperparameters.lr);
            losses.push(total_loss);
            dataset.refresh();
            proof {
                let longer = orders.push(dataset@.order);
                lemma_training_run_prefix::<B, T, N, M, Self>(
                    v0,
                    ds0,
                    orders,
                    longer,
                    hyperparameters.lr,
                    epoch as nat,
                );
                assert(epoch_dataset(ds0, longer, epoch as int) == ds);
                assert(dataset@ == epoch_dataset(ds0, longer, epoch + 1));
                orders = longer;
            }
            epoch += 1;
        }
        losses
    }

    /// Compute the loss over a test dataset: the mean, over the batches that
    /// the dataset has left, of the loss of each batch. The dataset is
    /// refreshed afterwards.
    fn test(&mut self, dataset: &mut Dataset<B, T, N, M>) -> (r: T)
        requires
            old(self).wf(),
            old(dataset).wf(),
        ensures
            final(self).wf(),
            final(dataset).wf(),
            final(dataset)@ == crate::dataset::restarted(old(dataset)@, final(dataset)@.order),
            final(self)@ == test_pass::<B, T, N, M, Self>(old(self)@, old(dataset)@).0,
            r == test_pass::<B, T, N, M, Self>(old(self)@, old(dataset)@).1.div_spec(
                crate::numeric::count::<T>(batches_left(old(dataset)@, B as nat)),
            ),
    {
        let mut loss_function = Self::LossFunction::new();
        let (total_loss, batches) = test_batches(self, dataset, &mut loss_function);
        dataset.refresh();
        total_loss.div(batches)
    }
}

impl<
    const B: usize,
    T: Numeric,
    const N: usize,
    const M: usize,
    A: Architecture<B, T, N, M>,
> Training<B, T, N, M> for A {

}

} // verus!
