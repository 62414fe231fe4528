use alan::models::regressors::LinearRegressor;
use alan::models::{Architecture, Training};
use alan::network::activation::{Identity, ReLU, Softmax};
use alan::network::Activation;
use alan::optim::loss::{CrossEntropyLoss, MSELoss, SSELoss};
use alan::optim::{Hyperparameters, Loss};
use alan::tensor::{Batch, Dataset, Tensor};
use alan::Numeric;

/// Double-precision scalar.
#[derive(Clone, Copy, Debug, PartialEq, PartialOrd)]
struct Real(f64);

impl Numeric for Real {
    fn zero() -> Self {
        Real(0.0)
    }
    fn one() -> Self {
        Real(1.0)
    }
    fn tiny() -> Self {
        Real(1e-4)
    }
    fn neginf() -> Self {
        Real(f64::NEG_INFINITY)
    }
    fn exp(self) -> Self {
        Real(self.0.exp())
    }
    fn log(self) -> Self {
        Real(self.0.ln())
    }
    fn random() -> Self {
        Real(rand::random())
    }
    fn add(self, rhs: Self) -> Self {
        Real(self.0 + rhs.0)
    }
    fn sub(self, rhs: Self) -> Self {
        Real(self.0 - rhs.0)
    }
    fn mul(self, rhs: Self) -> Self {
        Real(self.0 * rhs.0)
    }
    fn div(self, rhs: Self) -> Self {
        Real(self.0 / rhs.0)
    }
    fn neg(self) -> Self {
        Real(-self.0)
    }
    fn lt(self, rhs: Self) -> bool {
        self.0 < rhs.0
    }
    fn le(self, rhs: Self) -> bool {
        self.0 <= rhs.0
    }
    fn eq(self, rhs: Self) -> bool {
        self.0 == rhs.0
    }
    fn zero_spec() -> Self {
        Self::zero()
    }
    fn one_spec() -> Self {
        Self::one()
    }
    fn tiny_spec() -> Self {
        Self::tiny()
    }
    fn neginf_spec() -> Self {
        Self::neginf()
    }
    fn exp_spec(self) -> Self {
        self.exp()
    }
    fn log_spec(self) -> Self {
        self.log()
    }
    fn random_spec(self) -> bool {
        0.0 <= self.0 && self.0 < 1.0
    }
    fn add_spec(self, rhs: Self) -> Self {
        self.add(rhs)
    }
    fn sub_spec(self, rhs: Self) -> Self {
        self.sub(rhs)
    }
    fn mul_spec(self, rhs: Self) -> Self {
        self.mul(rhs)
    }
    fn div_spec(self, rhs: Self) -> Self {
        self.div(rhs)
    }
    fn neg_spec(self) -> Self {
        self.neg()
    }
    fn lt_spec(self, rhs: Self) -> bool {
        self.lt(rhs)
    }
    fn le_spec(self, rhs: Self) -> bool {
        self.le(rhs)
    }
    fn eq_spec(self, rhs: Self) -> bool {
        self.eq(rhs)
    }
}

fn tensor<const N: usize>(values: [f64; N]) -> Tensor<Real, N> {
    Tensor(values.map(Real))
}

fn close(a: Real, b: f64) -> bool {
    (a.0 - b).abs() <= 1e-9 * (1.0 + b.abs())
}

#[test]
fn identity_hands_its_input_through() {
    let mut identity = <Identity<3> as Activation<1, Real, 3>>::new();
    let batch = Batch([tensor([-1.0, 0.0, 2.0])]);
    assert_eq!(Activation::<1, Real, 3>::forward(&mut identity, &batch), batch);
    assert_eq!(Activation::<1, Real, 3>::backward(&identity, &batch), batch);
}

#[test]
fn relu_keeps_what_is_not_negative() {
    let mut relu = <ReLU<4> as Activation<1, Real, 4>>::new();
    let batch = Batch([tensor([-1.0, 0.0, 2.0, f64::NAN])]);
    let output = Activation::<1, Real, 4>::forward(&mut relu, &batch);
    assert_eq!(output, Batch([tensor([0.0, 0.0, 2.0, 0.0])]));
}

#[test]
fn relu_backward_marks_what_is_not_zero() {
    let relu = <ReLU<4> as Activation<1, Real, 4>>::new();
    let batch = Batch([tensor([0.0, 2.0, -3.0, -0.0])]);
    let slope = Activation::<1, Real, 4>::backward(&relu, &batch);
    assert_eq!(slope, Batch([tensor([0.0, 1.0, 1.0, 0.0])]));
}

#[test]
fn softmax_outputs_sum_to_one() {
    let mut softmax = Softmax::<4, Real, 3>::new();
    let batch = Batch([
        tensor([1.0, 2.0, 3.0]),
        tensor([1e4, -1e4, 0.0]),
        tensor([-1e4, -1e4, -1e4]),
        tensor([1e4, 1e4, 1e4 - 1.0]),
    ]);
    let output = softmax.forward(&batch);
    for b in 0..4 {
        let mut sum = 0.0;
        for i in 0..3 {
            let p = output.get(b, i).0;
            assert!(p.is_finite());
            assert!(0.0 <= p && p <= 1.0);
            sum += p;
        }
        assert!((sum - 1.0).abs() < 1e-12);
    }
    assert!(close(output.get(0, 0), 0.09003057317038046));
    assert!(close(output.get(0, 1), 0.24472847105479764));
    assert!(close(output.get(0, 2), 0.6652409557748218));
    assert_eq!(output.0[1], tensor([1.0, 0.0, 0.0]));
    assert!(close(output.get(2, 0), 1.0 / 3.0));
    assert!(close(output.get(2, 1), 1.0 / 3.0));
    assert!(close(output.get(3, 2), 0.15536240349696362));
}

#[test]
fn softmax_backward_contracts_with_the_jacobian_at_the_last_output() {
    let mut softmax = Softmax::<1, Real, 2>::new();
    let gradient = Batch([tensor([1.0, 0.0])]);
    // before any forward pass the remembered output is zero
    assert_eq!(softmax.backward(&gradient), Batch([tensor([0.0, 0.0])]));
    softmax.forward(&Batch([tensor([0.0, 0.0])]));
    assert_eq!(softmax.backward(&gradient), Batch([tensor([0.25, -0.25])]));
    softmax.forward(&Batch([tensor([3.0, 3.0])]));
    assert_eq!(softmax.backward(&Batch([tensor([0.0, 2.0])])), Batch([tensor([-0.5, 0.5])]));
}

#[test]
fn mean_squared_error_is_the_mean_over_samples_and_entries() {
    let mut loss = MSELoss::<2, Real, 2>::new();
    let prediction = Batch([tensor([1.0, 2.0]), tensor([3.0, 5.0])]);
    let labels = Batch([tensor([0.0, 2.0]), tensor([1.0, 1.0])]);
    assert_eq!(loss.forward(&prediction, &labels), Real(5.25));
    assert_eq!(loss.backward(), Batch([tensor([2.0, 0.0]), tensor([4.0, 8.0])]));
}

#[test]
fn mean_squared_error_of_one_sample_with_two_entries() {
    let mut loss = MSELoss::<1, Real, 2>::new();
    let value = loss.forward(&Batch([tensor([1.0, 1.0])]), &Batch([tensor([0.0, 0.0])]));
    assert_eq!(value, Real(1.0));
    assert_eq!(loss.backward(), Batch([tensor([2.0, 2.0])]));
}

#[test]
fn sum_of_squared_errors_does_not_divide() {
    let mut loss = SSELoss::<2, Real, 2>::new();
    let prediction = Batch([tensor([1.0, 2.0]), tensor([3.0, 5.0])]);
    let labels = Batch([tensor([0.0, 2.0]), tensor([1.0, 1.0])]);
    assert_eq!(loss.forward(&prediction, &labels), Real(21.0));
    assert_eq!(loss.backward(), Batch([tensor([2.0, 0.0]), tensor([4.0, 8.0])]));
}

#[test]
fn losses_remember_zeros_before_any_forward_pass() {
    assert_eq!(MSELoss::<1, Real, 2>::new().backward(), Batch([tensor([0.0, 0.0])]));
    assert_eq!(SSELoss::<1, Real, 2>::new().backward(), Batch([tensor([0.0, 0.0])]));
    assert_eq!(CrossEntropyLoss::<1, Real, 2>::new().backward(), Batch([tensor([0.0, 0.0])]));
}

#[test]
fn cross_entropy_takes_raw_scores() {
    let mut loss = CrossEntropyLoss::<1, Real, 2>::new();
    let value = loss.forward(&Batch([tensor([0.0, 0.0])]), &Batch([tensor([1.0, 0.0])]));
    assert!(close(value, std::f64::consts::LN_2));
    assert_eq!(loss.backward(), Batch([tensor([-0.5, 0.5])]));
}

#[test]
fn cross_entropy_is_the_mean_over_the_batch() {
    let mut loss = CrossEntropyLoss::<2, Real, 3>::new();
    let scores = Batch([tensor([1.0, 2.0, 3.0]), tensor([0.0, 0.0, 0.0])]);
    let labels = Batch([tensor([0.0, 0.0, 1.0]), tensor([0.0, 1.0, 0.0])]);
    let value = loss.forward(&scores, &labels);
    let expected = (-(0.6652409557748218f64.ln()) + 3.0f64.ln()) / 2.0;
    assert!(close(value, expected));
}

#[test]
fn cross_entropy_stays_finite_on_large_scores() {
    let mut loss = CrossEntropyLoss::<1, Real, 2>::new();
    let value = loss.forward(&Batch([tensor([1e4, 0.0])]), &Batch([tensor([0.0, 1.0])]));
    assert_eq!(value, Real(1e4));
    assert_eq!(loss.backward(), Batch([tensor([1.0, -1.0])]));
}

#[test]
fn cross_entropy_gradient_is_probability_minus_label() {
    let scores = Batch([tensor([0.3, -1.2, 2.5]), tensor([100.3, 98.8, 102.5])]);
    let labels = Batch([tensor([0.0, 1.0, 0.0]), tensor([0.2, 0.3, 0.5])]);
    let mut loss = CrossEntropyLoss::<2, Real, 3>::new();
    loss.forward(&scores, &labels);
    let gradient = loss.backward();
    let mut softmax = Softmax::<2, Real, 3>::new();
    let probabilities = softmax.forward(&scores);
    for b in 0..2 {
        for i in 0..3 {
            assert_eq!(gradient.get(b, i).0, probabilities.get(b, i).0 - labels.get(b, i).0);
        }
    }
    // the scores of the two samples differ by a constant only
    for i in 0..3 {
        assert!((probabilities.get(0, i).0 - probabilities.get(1, i).0).abs() < 1e-12);
    }
}

fn line(xs: [f64; 4]) -> (Vec<Tensor<Real, 1>>, Vec<Tensor<Real, 1>>) {
    (
        xs.iter().map(|x| tensor([*x])).collect(),
        xs.iter().map(|x| tensor([2.0 * *x])).collect(),
    )
}

#[test]
fn one_epoch_is_one_step_of_gradient_descent_per_batch() {
    let (data, labels) = line([0.0, 1.0, 2.0, 3.0]);
    let mut dataset = Dataset::<4, Real, 1, 1>::with_order(data, labels, vec![0, 1, 2, 3]).unwrap();
    let mut model = LinearRegressor::<4, Real>::with_parameters(Real(0.0), Real(0.0));
    let losses = model.train(&mut dataset, Hyperparameters { epochs: 1, lr: Real(0.05) });
    assert_eq!(losses, vec![Real(14.0)]);
    assert!(close(model.weight(), 0.7));
    assert!(close(model.bias(), 0.3));
    // the dataset has been refreshed
    assert!(dataset.next().is_some());
    assert!(dataset.next().is_none());
}

#[test]
fn an_epoch_sums_the_losses_of_its_batches() {
    let (data, labels) = line([0.0, 1.0, 2.0, 3.0]);
    let mut dataset = Dataset::<2, Real, 1, 1>::with_order(data, labels, vec![0, 1, 2, 3]).unwrap();
    let mut model = LinearRegressor::<2, Real>::with_parameters(Real(0.0), Real(0.0));
    let losses = model.train(&mut dataset, Hyperparameters { epochs: 1, lr: Real(0.0) });
    // (0 + 4) / 2 + (16 + 36) / 2
    assert_eq!(losses, vec![Real(28.0)]);
    assert_eq!(model.weight(), Real(0.0));
    assert_eq!(model.bias(), Real(0.0));
}

#[test]
fn training_for_no_epoch_changes_nothing() {
    let (data, labels) = line([0.0, 1.0, 2.0, 3.0]);
    let mut dataset = Dataset::<2, Real, 1, 1>::with_order(data, labels, vec![3, 2, 1, 0]).unwrap();
    let mut model = LinearRegressor::<2, Real>::with_parameters(Real(0.25), Real(-0.5));
    let losses = model.train(&mut dataset, Hyperparameters { epochs: 0, lr: Real(0.05) });
    assert!(losses.is_empty());
    assert_eq!(model.weight(), Real(0.25));
    assert_eq!(model.bias(), Real(-0.5));
    assert_eq!(dataset.order(), vec![3, 2, 1, 0]);
}

#[test]
fn test_is_the_mean_loss_over_the_batches() {
    let (data, labels) = line([0.0, 1.0, 2.0, 3.0]);
    let mut dataset = Dataset::<2, Real, 1, 1>::with_order(data, labels, vec![0, 1, 2, 3]).unwrap();
    let mut model = LinearRegressor::<2, Real>::with_parameters(Real(0.0), Real(0.0));
    assert_eq!(model.test(&mut dataset), Real(14.0));
    assert_eq!(model.weight(), Real(0.0));
    assert_eq!(model.bias(), Real(0.0));
    // the dataset has been refreshed
    assert_eq!(model.test(&mut dataset), Real(14.0));
}

#[test]
fn eval_applies_the_activation_of_the_architecture() {
    let mut model = LinearRegressor::<2, Real>::with_parameters(Real(3.0), Real(-1.0));
    let batch = Batch([tensor([2.0]), tensor([-4.0])]);
    assert_eq!(model.forward(&batch), Batch([tensor([5.0]), tensor([-13.0])]));
    assert_eq!(model.eval(&batch), Batch([tensor([5.0]), tensor([-13.0])]));
}

#[test]
fn backward_of_the_regressor_updates_its_layer() {
    let mut model = LinearRegressor::<1, Real>::with_parameters(Real(3.0), Real(-1.0));
    model.forward(&Batch([tensor([2.0])]));
    model.backward(&Batch([tensor([4.0])]), Real(0.5));
    assert_eq!(model.weight(), Real(-1.0));
    assert_eq!(model.bias(), Real(-3.0));
}

#[test]
fn the_loss_falls_from_epoch_to_epoch() {
    let (data, labels) = line([0.0, 1.0, 2.0, 3.0]);
    let mut dataset = Dataset::<4, Real, 1, 1>::new(data, labels).unwrap();
    let mut model = LinearRegressor::<4, Real>::new();
    let losses = model.train(&mut dataset, Hyperparameters { epochs: 25, lr: Real(0.05) });
    assert_eq!(losses.len(), 25);
    for e in 1..25 {
        assert!(losses[e].0 < losses[e - 1].0);
    }
}

#[test]
fn linear_regressor_learns_the_line() {
    let (data, labels) = line([0.0, 1.0, 2.0, 3.0]);
    let mut dataset = Dataset::<4, Real, 1, 1>::new(data, labels).unwrap();
    let mut model = LinearRegressor::<4, Real>::new();
    model.train(&mut dataset, Hyperparameters { epochs: 2000, lr: Real(0.05) });
    let (data, labels) = line([4.0, 5.0, 6.0, 7.0]);
    let mut dataset = Dataset::<4, Real, 1, 1>::new(data, labels).unwrap();
    let loss = model.test(&mut dataset);
    assert!(loss.0 < 1e-3);
    assert!((model.weight().0 - 2.0).abs() < 1e-6);
    assert!(model.bias().0.abs() < 1e-6);
}
