use alan::layer::relu::ReLU;
use alan::network::layer::{AvgPool, Convolution, Linear};
use alan::network::Layer;
use alan::tensor::{Batch, Tensor};
use alan::Numeric;

/// Double-precision scalar.
#[derive(Clone, Copy, Debug, PartialEq, PartialOrd)]
struct Real(f64);

impl Numeric for Real {
    fn zero() -> Self {
        Real(0.0)
    }
    fn one() -> Self {
        Real(1.0)
    }
    fn tiny() -> Self {
        Real(1e-4)
    }
    fn neginf() -> Self {
        Real(f64::NEG_INFINITY)
    }
    fn exp(self) -> Self {
        Real(self.0.exp())
    }
    fn log(self) -> Self {
        Real(self.0.ln())
    }
    fn random() -> Self {
        Real(rand::random())
    }
    fn add(self, rhs: Self) -> Self {
        Real(self.0 + rhs.0)
    }
    fn sub(self, rhs: Self) -> Self {
        Real(self.0 - rhs.0)
    }
    fn mul(self, rhs: Self) -> Self {
        Real(self.0 * rhs.0)
    }
    fn div(self, rhs: Self) -> Self {
        Real(self.0 / rhs.0)
    }
    fn neg(self) -> Self {
        Real(-self.0)
    }
    fn lt(self, rhs: Self) -> bool {
        self.0 < rhs.0
    }
    fn le(self, rhs: Self) -> bool {
        self.0 <= rhs.0
    }
    fn eq(self, rhs: Self) -> bool {
        self.0 == rhs.0
    }
    fn zero_spec() -> Self {
        Self::zero()
    }
    fn one_spec() -> Self {
        Self::one()
    }
    fn tiny_spec() -> Self {
        Self::tiny()
    }
    fn neginf_spec() -> Self {
        Self::neginf()
    }
    fn exp_spec(self) -> Self {
        self.exp()
    }
    fn log_spec(self) -> Self {
        self.log()
    }
    fn random_spec(self) -> bool {
        0.0 <= self.0 && self.0 < 1.0
    }
    fn add_spec(self, rhs: Self) -> Self {
        self.add(rhs)
    }
    fn sub_spec(self, rhs: Self) -> Self {
        self.sub(rhs)
    }
    fn mul_spec(self, rhs: Self) -> Self {
        self.mul(rhs)
    }
    fn div_spec(self, rhs: Self) -> Self {
        self.div(rhs)
    }
    fn neg_spec(self) -> Self {
        self.neg()
    }
    fn lt_spec(self, rhs: Self) -> bool {
        self.lt(rhs)
    }
    fn le_spec(self, rhs: Self) -> bool {
        self.le(rhs)
    }
    fn eq_spec(self, rhs: Self) -> bool {
        self.eq(rhs)
    }
}

fn tensor<const N: usize>(values: [f64; N]) -> Tensor<Real, N> {
    Tensor(values.map(Real))
}

fn grid<const K: usize>(values: [[f64; K]; K]) -> [[Real; K]; K] {
    values.map(|row| row.map(Real))
}

#[test]
fn test_avgpool_layer() {
    let mut avgpool = AvgPool::<1, Real, 4, 4, 16, 2, 2, 4, 2>::new();

    // Input image
    let image = Batch::<1, Real, 16>([tensor([
        1.0, 2.0, 3.0, 4.0,
        5.0, 6.0, 7.0, 8.0,
        5.0, 6.0, 7.0, 8.0,
        1.0, 2.0, 3.0, 4.0,
    ])]);

    // Compute result and expected result
    let result = avgpool.forward(&image);
    let expected = Batch::<1, Real, 4>([tensor([
        3.50, 5.50,
        3.50, 5.50,
    ])]);
    assert_eq!(result, expected);

    // Compute input gradients and expected result
    let gradients = Batch::<1, Real, 4>([tensor([
        1.0, 1.0,
        1.0, 1.0,
    ])]);
    let input_gradients = avgpool.backward(&gradients, Real(1.0));
    let expected = Batch::<1, Real, 16>([tensor([
        0.25, 0.25, 0.25, 0.25,
        0.25, 0.25, 0.25, 0.25,
        0.25, 0.25, 0.25, 0.25,
        0.25, 0.25, 0.25, 0.25,
    ])]);
    assert_eq!(expected, input_gradients);
}

#[test]
fn test_convolution_layer() {
    let mut conv = Convolution::<1, Real, 5, 5, 25, 3, 3, 9, 3>::new();
    conv.kernel = grid([
        [-1.0,  0.0,  1.0],
        [-2.0,  0.0,  2.0],
        [-1.0,  0.0,  1.0],
    ]);
    conv.bias = grid([
        [ 0.0,  0.0,  0.0],
        [ 0.0,  0.0,  0.0],
        [ 0.0,  0.0,  0.0],
    ]);

    // Input image
    let image = Batch::<1, Real, 25>([tensor([
        0.0, 0.0, 1.0, 0.0, 0.0,
        0.0, 0.0, 1.0, 0.0, 0.0,
        0.0, 0.0, 1.0, 0.0, 0.0,
        0.0, 0.0, 1.0, 0.0, 0.0,
        0.0, 0.0, 1.0, 0.0, 0.0,
    ])]);

    // Compute result and expected result
    let result = conv.forward(&image);
    let expected = Batch::<1, Real, 9>([tensor([
        4.0, 0.0, -4.0,
        4.0, 0.0, -4.0,
        4.0, 0.0, -4.0,
    ])]);
    assert_eq!(result, expected);

    // Compute input gradients and expected result
    let gradients = Batch::<1, Real, 9>([tensor([
        1.0, 1.0, 1.0,
        1.0, 1.0, 1.0,
        1.0, 1.0, 1.0,
    ])]);
    let input_gradients = conv.backward(&gradients, Real(1.0));
    let expected = Batch::<1, Real, 25>([tensor([
        -1.0, -1.0,  0.0,  1.0,  1.0,
        -3.0, -3.0,  0.0,  3.0,  3.0,
        -4.0, -4.0,  0.0,  4.0,  4.0,
        -3.0, -3.0,  0.0,  3.0,  3.0,
        -1.0, -1.0,  0.0,  1.0,  1.0,
    ])]);
    assert_eq!(expected, input_gradients);

    // Check kernel
    let expected_kernel = grid([
        [-4.0, -3.0, -2.0],
        [-5.0, -3.0, -1.0],
        [-4.0, -3.0, -2.0],
    ]);
    assert_eq!(conv.kernel, expected_kernel);

    // Check bias
    let expected_bias = grid([
        [-9.0, -9.0, -9.0],
        [-9.0, -9.0, -9.0],
        [-9.0, -9.0, -9.0],
    ]);
    assert_eq!(conv.bias, expected_bias);
}

fn close(a: Real, b: f64) -> bool {
    (a.0 - b).abs() <= 1e-9 * (1.0 + b.abs())
}

fn dot<const N: usize>(a: &Tensor<Real, N>, b: &Tensor<Real, N>) -> f64 {
    let mut sum = 0.0;
    for i in 0..N {
        sum += a.0[i].0 * b.0[i].0;
    }
    sum
}

fn linear_example() -> Linear<2, Real, 2, 3> {
    Linear::with_parameters(
        [[Real(1.0), Real(2.0)], [Real(3.0), Real(4.0)], [Real(5.0), Real(6.0)]],
        [Real(0.5), Real(-1.0), Real(2.0)],
    )
}

#[test]
fn linear_forward_is_weights_times_input_plus_bias() {
    let mut linear = linear_example();
    let input = Batch([tensor([1.0, -1.0]), tensor([2.0, 3.0])]);
    let output = linear.forward(&input);
    assert_eq!(output, Batch([tensor([-0.5, -2.0, 1.0]), tensor([8.5, 17.0, 30.0])]));
    assert_eq!(linear.weights(), linear_example().weights());
    assert_eq!(linear.bias(), linear_example().bias());
}

#[test]
fn linear_backward_returns_the_gradient_times_the_old_weights() {
    let mut linear = linear_example();
    let input = Batch([tensor([1.0, -1.0]), tensor([2.0, 3.0])]);
    linear.forward(&input);
    let gradients = Batch([tensor([1.0, 0.0, -1.0]), tensor([2.0, 1.0, 0.0])]);
    let back = linear.backward(&gradients, Real(0.5));
    assert_eq!(back, Batch([tensor([-4.0, -4.0]), tensor([5.0, 8.0])]));
}

#[test]
fn linear_backward_moves_parameters_against_the_mean_gradient() {
    let mut linear = linear_example();
    let input = Batch([tensor([1.0, -1.0]), tensor([2.0, 3.0])]);
    linear.forward(&input);
    let gradients = Batch([tensor([1.0, 0.0, -1.0]), tensor([2.0, 1.0, 0.0])]);
    linear.backward(&gradients, Real(0.5));
    assert_eq!(
        linear.weights(),
        [[Real(-0.25), Real(0.75)], [Real(2.5), Real(3.25)], [Real(5.25), Real(5.75)]]
    );
    assert_eq!(linear.bias(), [Real(-0.25), Real(-1.25), Real(2.25)]);
}

#[test]
fn linear_backward_before_forward_learns_from_a_zero_input() {
    let mut linear = linear_example();
    let gradients = Batch([tensor([1.0, 0.0, -1.0]), tensor([2.0, 1.0, 0.0])]);
    linear.backward(&gradients, Real(0.5));
    assert_eq!(linear.weights(), linear_example().weights());
    assert_eq!(linear.bias(), [Real(-0.25), Real(-1.25), Real(2.25)]);
}

#[test]
fn linear_input_gradient_agrees_with_finite_differences() {
    let weights = [
        [Real::random(), Real::random(), Real::random()],
        [Real::random(), Real::random(), Real::random()],
    ];
    let bias = [Real::random(), Real::random()];
    let x = [Real::random().0, Real::random().0, Real::random().0];
    let g = tensor([0.75, -1.5]);
    let mut linear = Linear::<1, Real, 3, 2>::with_parameters(weights, bias);
    let base = linear.forward(&Batch([tensor(x)]));
    let gradient = linear.backward(&Batch([g]), Real(0.0));
    let h = 1e-6;
    for j in 0..3 {
        let mut moved = x;
        moved[j] += h;
        let mut fresh = Linear::<1, Real, 3, 2>::with_parameters(weights, bias);
        let out = fresh.forward(&Batch([tensor(moved)]));
        let slope = (dot(&g, &out.0[0]) - dot(&g, &base.0[0])) / h;
        assert!((slope - gradient.get(0, j).0).abs() < 1e-6);
    }
}

#[test]
fn new_linear_layer_has_random_parameters() {
    let linear = Linear::<1, Real, 4, 4>::new();
    let weights = linear.weights();
    let mut distinct = false;
    for i in 0..4 {
        for j in 0..4 {
            assert!(0.0 <= weights[i][j].0 && weights[i][j].0 < 1.0);
            if weights[i][j] != weights[0][0] {
                distinct = true;
            }
        }
    }
    assert!(distinct);
}

#[test]
fn convolution_adds_the_mean_of_the_bias() {
    let mut conv = Convolution::<1, Real, 3, 3, 9, 2, 2, 4, 2>::with_parameters(
        grid([[0.0, 0.0], [0.0, 0.0]]),
        grid([[1.0, 2.0], [3.0, 6.0]]),
    );
    let image = Batch([tensor([1.0, 2.0, 3.0, 4.0, 5.0, 6.0, 7.0, 8.0, 9.0])]);
    let result = conv.forward(&image);
    // (1 + 3 + 2 + 6) / 4, summed cell by cell, columns first
    assert_eq!(result, Batch([tensor([3.0, 3.0, 3.0, 3.0])]));
}

#[test]
fn every_bias_cell_enters_an_output_once_divided_by_the_cell_count() {
    let mut conv = Convolution::<1, Real, 2, 2, 4, 1, 1, 1, 2>::with_parameters(
        grid([[0.0, 0.0], [0.0, 0.0]]),
        grid([[4.0, 8.0], [12.0, 16.0]]),
    );
    let result = conv.forward(&Batch([tensor([1.0, 2.0, 3.0, 4.0])]));
    assert_eq!(result, Batch([tensor([10.0])]));
}

#[test]
fn learning_is_the_backward_pass_without_the_input_gradient() {
    let kernel = grid([[-1.0, 0.0, 1.0], [-2.0, 0.0, 2.0], [-1.0, 0.0, 1.0]]);
    let bias = grid([[0.5, 0.0, 0.0], [0.0, 0.25, 0.0], [0.0, 0.0, 0.125]]);
    let image = Batch([tensor([
        0.0, 0.0, 1.0, 0.0, 0.0,
        0.0, 0.5, 1.0, 0.0, 0.0,
        0.0, 0.0, 1.0, 0.0, 2.0,
        0.0, 0.0, 1.0, 0.0, 0.0,
        3.0, 0.0, 1.0, 0.0, 0.0,
    ])]);
    let gradients = Batch([tensor([1.0, -1.0, 0.5, 2.0, 0.0, 1.0, -3.0, 1.0, 1.0])]);
    let mut whole = Convolution::<1, Real, 5, 5, 25, 3, 3, 9, 3>::with_parameters(kernel, bias);
    let mut part = Convolution::<1, Real, 5, 5, 25, 3, 3, 9, 3>::with_parameters(kernel, bias);
    whole.forward(&image);
    part.forward(&image);
    whole.backward(&gradients, Real(0.5));
    part.learn(&gradients, Real(0.5));
    assert_eq!(whole.kernel, part.kernel);
    assert_eq!(whole.bias, part.bias);
    assert_ne!(part.kernel, kernel);
    assert_ne!(part.bias, bias);
}

#[test]
fn convolution_walks_the_window_row_by_row_of_the_image() {
    let mut conv = Convolution::<1, Real, 3, 3, 9, 2, 2, 4, 2>::with_parameters(
        grid([[1.0, 10.0], [100.0, 1000.0]]),
        grid([[0.0, 0.0], [0.0, 0.0]]),
    );
    let image = Batch([tensor([1.0, 2.0, 3.0, 4.0, 5.0, 6.0, 7.0, 8.0, 9.0])]);
    let result = conv.forward(&image);
    assert_eq!(result, Batch([tensor([5421.0, 6532.0, 8754.0, 9865.0])]));
    assert_eq!(conv.kernel(), grid([[1.0, 10.0], [100.0, 1000.0]]));
    assert_eq!(conv.bias(), grid([[0.0, 0.0], [0.0, 0.0]]));
}

#[test]
fn convolution_update_is_not_divided_by_the_batch_size() {
    let mut conv = Convolution::<2, Real, 5, 5, 25, 3, 3, 9, 3>::with_parameters(
        grid([[-1.0, 0.0, 1.0], [-2.0, 0.0, 2.0], [-1.0, 0.0, 1.0]]),
        grid([[0.0, 0.0, 0.0], [0.0, 0.0, 0.0], [0.0, 0.0, 0.0]]),
    );
    let stripe = tensor([
        0.0, 0.0, 1.0, 0.0, 0.0,
        0.0, 0.0, 1.0, 0.0, 0.0,
        0.0, 0.0, 1.0, 0.0, 0.0,
        0.0, 0.0, 1.0, 0.0, 0.0,
        0.0, 0.0, 1.0, 0.0, 0.0,
    ]);
    conv.forward(&Batch([stripe, stripe]));
    let ones = tensor([1.0; 9]);
    conv.backward(&Batch([ones, ones]), Real(1.0));
    assert_eq!(conv.kernel, grid([[-7.0, -6.0, -5.0], [-8.0, -6.0, -4.0], [-7.0, -6.0, -5.0]]));
    assert_eq!(conv.bias, grid([[-18.0, -18.0, -18.0], [-18.0, -18.0, -18.0], [-18.0, -18.0, -18.0]]));
}

#[test]
fn convolution_backward_is_the_adjoint_of_forward() {
    let mut kernel = [[Real(0.0); 3]; 3];
    for row in kernel.iter_mut() {
        for cell in row.iter_mut() {
            *cell = Real::random();
        }
    }
    let mut conv = Convolution::<1, Real, 6, 5, 30, 4, 3, 12, 3>::with_parameters(
        kernel,
        grid([[0.0; 3]; 3]),
    );
    let mut x = [0.0; 30];
    for v in x.iter_mut() {
        *v = Real::random().0 - 0.5;
    }
    let mut g = [0.0; 12];
    for v in g.iter_mut() {
        *v = Real::random().0 - 0.5;
    }
    let out = conv.forward(&Batch([tensor(x)]));
    let back = conv.backward(&Batch([tensor(g)]), Real(0.0));
    assert!(close(Real(dot(&tensor(g), &out.0[0])), dot(&back.0[0], &tensor(x))));
}

#[test]
fn new_average_pool_has_the_averaging_kernel() {
    let avgpool = AvgPool::<1, Real, 4, 4, 16, 2, 2, 4, 2>::new();
    assert_eq!(avgpool.kernel, grid([[0.25, 0.25], [0.25, 0.25]]));
    assert_eq!(avgpool.kernel(), grid([[0.25, 0.25], [0.25, 0.25]]));
}

#[test]
fn average_pool_hands_each_gradient_to_its_own_block() {
    let mut avgpool = AvgPool::<1, Real, 4, 4, 16, 2, 2, 4, 2>::new();
    let gradients = Batch([tensor([1.0, 2.0, 3.0, 4.0])]);
    let back = avgpool.backward(&gradients, Real(1.0));
    assert_eq!(
        back,
        Batch([tensor([
            0.25, 0.25, 0.5, 0.5,
            0.25, 0.25, 0.5, 0.5,
            0.75, 0.75, 1.0, 1.0,
            0.75, 0.75, 1.0, 1.0,
        ])])
    );
}

#[test]
fn average_pool_leaves_out_what_no_block_covers() {
    let mut avgpool = AvgPool::<1, Real, 5, 5, 25, 2, 2, 4, 2>::new();
    let image = Batch([tensor([
        1.0, 2.0, 3.0, 4.0, 100.0,
        5.0, 6.0, 7.0, 8.0, 100.0,
        5.0, 6.0, 7.0, 8.0, 100.0,
        1.0, 2.0, 3.0, 4.0, 100.0,
        100.0, 100.0, 100.0, 100.0, 100.0,
    ])]);
    let result = avgpool.forward(&image);
    assert_eq!(result, Batch([tensor([3.5, 5.5, 3.5, 5.5])]));
    let back = avgpool.backward(&Batch([tensor([4.0, 8.0, 12.0, 16.0])]), Real(1.0));
    assert_eq!(
        back,
        Batch([tensor([
            1.0, 1.0, 2.0, 2.0, 0.0,
            1.0, 1.0, 2.0, 2.0, 0.0,
            3.0, 3.0, 4.0, 4.0, 0.0,
            3.0, 3.0, 4.0, 4.0, 0.0,
            0.0, 0.0, 0.0, 0.0, 0.0,
        ])])
    );
}

#[test]
fn average_pool_backward_is_the_adjoint_of_forward() {
    let mut avgpool = AvgPool::<1, Real, 6, 4, 24, 3, 2, 6, 2>::new();
    let mut x = [0.0; 24];
    for v in x.iter_mut() {
        *v = Real::random().0 - 0.5;
    }
    let mut g = [0.0; 6];
    for v in g.iter_mut() {
        *v = Real::random().0 - 0.5;
    }
    let out = avgpool.forward(&Batch([tensor(x)]));
    let back = avgpool.backward(&Batch([tensor(g)]), Real(0.0));
    assert!(close(Real(dot(&tensor(g), &out.0[0])), dot(&back.0[0], &tensor(x))));
}

#[test]
fn relu_layer_rectifies() {
    let mut relu = <ReLU<3> as Layer<2, Real, 3, 3>>::new();
    let input = Batch([tensor([-1.0, 0.0, 2.0]), tensor([3.0, -0.5, f64::NAN])]);
    let output = Layer::<2, Real, 3, 3>::forward(&mut relu, &input);
    assert_eq!(output, Batch([tensor([0.0, 0.0, 2.0]), tensor([3.0, 0.0, 0.0])]));
    let slope = Layer::<2, Real, 3, 3>::backward(&mut relu, &output, Real(1.0));
    assert_eq!(slope, Batch([tensor([0.0, 0.0, 1.0]), tensor([1.0, 0.0, 0.0])]));
}

#[test]
fn convolution_shapes_agree_when_the_kernel_fits_without_padding() {
    assert!(Convolution::<1, Real, 5, 5, 25, 3, 3, 9, 3>::shape_agrees());
    assert!(Convolution::<7, Real, 256, 256, 65536, 250, 250, 62500, 7>::shape_agrees());
    assert!(Convolution::<1, Real, 6, 5, 30, 4, 3, 12, 3>::shape_agrees());
    assert!(!Convolution::<1, Real, 5, 5, 25, 3, 3, 9, 2>::shape_agrees());
    assert!(!Convolution::<1, Real, 5, 5, 24, 3, 3, 9, 3>::shape_agrees());
    assert!(!Convolution::<1, Real, 5, 5, 25, 3, 3, 8, 3>::shape_agrees());
    assert!(!Convolution::<1, Real, 5, 5, 25, 3, 2, 6, 3>::shape_agrees());
    assert!(!Convolution::<1, Real, 5, 5, 25, 2, 2, 4, 3>::shape_agrees());
}

#[test]
fn average_pool_shapes_agree_when_the_blocks_fit() {
    assert!(AvgPool::<1, Real, 4, 4, 16, 2, 2, 4, 2>::shape_agrees());
    assert!(AvgPool::<1, Real, 5, 5, 25, 2, 2, 4, 2>::shape_agrees());
    assert!(AvgPool::<3, Real, 250, 250, 62500, 50, 50, 2500, 5>::shape_agrees());
    assert!(!AvgPool::<1, Real, 4, 4, 16, 3, 2, 6, 2>::shape_agrees());
    assert!(!AvgPool::<1, Real, 4, 4, 16, 2, 3, 6, 2>::shape_agrees());
    assert!(!AvgPool::<1, Real, 4, 4, 15, 2, 2, 4, 2>::shape_agrees());
    assert!(!AvgPool::<1, Real, 4, 4, 16, 2, 2, 5, 2>::shape_agrees());
}
