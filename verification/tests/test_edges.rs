use alan::models::regressors::LinearRegressor;
use alan::models::Architecture;
use alan::network::layer::Linear;
use alan::network::Layer;
use alan::optim::loss::MSELoss;
use alan::optim::Loss;
use alan::tensor::{Batch, Tensor};
use alan::x16;

#[test]
fn linear_layer_in_fixed_point() {
    let mut linear = Linear::<1, x16, 1, 1>::with_parameters([[x16(2000)]], [x16(500)]);
    let out = linear.forward(&Batch([Tensor([x16(3000)])]));
    // 2 * 3 + 0.5
    assert_eq!(out, Batch([Tensor([x16(6500)])]));
    let back = linear.backward(&Batch([Tensor([x16(1000)])]), x16(100));
    // the gradient times the weight as it was
    assert_eq!(back, Batch([Tensor([x16(2000)])]));
    // 2 - 0.1 * 1 * 3 and 0.5 - 0.1 * 1
    assert_eq!(linear.weights(), [[x16(1700)]]);
    assert_eq!(linear.bias(), [x16(400)]);
}

#[test]
fn new_fixed_point_layer_draws_parameters_between_zero_and_one() {
    let linear = Linear::<1, x16, 8, 8>::new();
    for row in linear.weights() {
        for weight in row {
            assert!(0 <= weight.0 && weight.0 < 1000);
        }
    }
    for bias in linear.bias() {
        assert!(0 <= bias.0 && bias.0 < 1000);
    }
}

#[test]
fn mean_squared_error_in_fixed_point() {
    let mut loss = MSELoss::<1, x16, 1>::new();
    let value = loss.forward(&Batch([Tensor([x16(3000)])]), &Batch([Tensor([x16(1000)])]));
    assert_eq!(value, x16(4000));
    assert_eq!(loss.backward(), Batch([Tensor([x16(4000)])]));
}

#[test]
fn an_empty_batch_passes_through_a_layer() {
    let mut linear = Linear::<0, x16, 2, 1>::with_parameters([[x16(1000), x16(2000)]], [x16(3000)]);
    let out = linear.forward(&Batch([]));
    assert_eq!(out, Batch([]));
    let back = linear.backward(&Batch([]), x16(100));
    assert_eq!(back, Batch([]));
    assert_eq!(linear.weights(), [[x16(1000), x16(2000)]]);
    assert_eq!(linear.bias(), [x16(3000)]);
}

#[test]
fn the_mean_over_an_empty_batch_is_zero_by_zero() {
    let mut loss = MSELoss::<0, x16, 2>::new();
    assert_eq!(loss.forward(&Batch([]), &Batch([])), x16(0));
}

#[test]
fn new_regressor_draws_its_weight_and_bias_between_zero_and_one() {
    let mut distinct = false;
    for _ in 0..100 {
        let model = LinearRegressor::<2, x16>::new();
        assert!(0 <= model.weight().0 && model.weight().0 < 1000);
        assert!(0 <= model.bias().0 && model.bias().0 < 1000);
        if model.weight() != model.bias() {
            distinct = true;
        }
    }
    assert!(distinct);
}
