use alan::models::classifiers::ImageClassifier;
use alan::models::{Architecture, Training};
use alan::optim::Hyperparameters;
use alan::tensor::{Batch, Dataset, Tensor};
use alan::Numeric;

/// Single-precision scalar.
#[derive(Clone, Copy, Debug, PartialEq, PartialOrd)]
struct Real(f32);

impl Numeric for Real {
    fn zero() -> Self {
        Real(0.0)
    }
    fn one() -> Self {
        Real(1.0)
    }
    fn tiny() -> Self {
        Real(1e-4)
    }
    fn neginf() -> Self {
        Real(f32::NEG_INFINITY)
    }
    fn exp(self) -> Self {
        Real(self.0.exp())
    }
    fn log(self) -> Self {
        Real(self.0.ln())
    }
    fn random() -> Self {
        // every parameter starts at one half, so that the two classes start level
        Real(0.5)
    }
    fn add(self, rhs: Self) -> Self {
        Real(self.0 + rhs.0)
    }
    fn sub(self, rhs: Self) -> Self {
        Real(self.0 - rhs.0)
    }
    fn mul(self, rhs: Self) -> Self {
        Real(self.0 * rhs.0)
    }
    fn div(self, rhs: Self) -> Self {
        Real(self.0 / rhs.0)
    }
    fn neg(self) -> Self {
        Real(-self.0)
    }
    fn lt(self, rhs: Self) -> bool {
        self.0 < rhs.0
    }
    fn le(self, rhs: Self) -> bool {
        self.0 <= rhs.0
    }
    fn eq(self, rhs: Self) -> bool {
        self.0 == rhs.0
    }
    fn zero_spec() -> Self {
        Self::zero()
    }
    fn one_spec() -> Self {
        Self::one()
    }
    fn tiny_spec() -> Self {
        Self::tiny()
    }
    fn neginf_spec() -> Self {
        Self::neginf()
    }
    fn exp_spec(self) -> Self {
        self.exp()
    }
    fn log_spec(self) -> Self {
        self.log()
    }
    fn random_spec(self) -> bool {
        0.0 <= self.0 && self.0 < 1.0
    }
    fn add_spec(self, rhs: Self) -> Self {
        self.add(rhs)
    }
    fn sub_spec(self, rhs: Self) -> Self {
        self.sub(rhs)
    }
    fn mul_spec(self, rhs: Self) -> Self {
        self.mul(rhs)
    }
    fn div_spec(self, rhs: Self) -> Self {
        self.div(rhs)
    }
    fn neg_spec(self) -> Self {
        self.neg()
    }
    fn lt_spec(self, rhs: Self) -> bool {
        self.lt(rhs)
    }
    fn le_spec(self, rhs: Self) -> bool {
        self.le(rhs)
    }
    fn eq_spec(self, rhs: Self) -> bool {
        self.eq(rhs)
    }
}

fn image(stripe: usize) -> Tensor<Real, 65536> {
    let mut pixels = [Real(0.0); 65536];
    for row in 0..256 {
        pixels[row * 256 + stripe] = Real(1.0);
    }
    Tensor(pixels)
}

#[test]
fn image_classifier_yields_class_probabilities() {
    let mut classifier: ImageClassifier<1, Real, 2> = ImageClassifier::new();
    let batch = Batch([image(100)]);
    let scores = classifier.forward(&batch);
    assert!(scores.get(0, 0).0.is_finite());
    assert!(scores.get(0, 1).0.is_finite());
    let inference = classifier.eval(&batch);
    assert_eq!(inference, Batch([Tensor([Real(0.5), Real(0.5)])]));
}

#[test]
fn image_classifier_learns_from_a_gradient() {
    let mut classifier: ImageClassifier<1, Real, 2> = ImageClassifier::new();
    let batch = Batch([image(100)]);
    let before = classifier.forward(&batch);
    classifier.backward(&Batch([Tensor([Real(1.0), Real(-1.0)])]), Real(1e-6));
    let after = classifier.forward(&batch);
    assert_eq!(before.get(0, 0), before.get(0, 1));
    assert!(after.get(0, 0).0 < before.get(0, 0).0);
    assert!(after.get(0, 1).0 > before.get(0, 1).0);
}

/// Two images, built where they are kept: a bright band on the left, and
/// one on the right.
fn bands() -> Box<Batch<2, Real, 65536>> {
    let mut images = Box::new(Batch([Tensor([Real(0.0); 65536]); 2]));
    for row in 0..256 {
        for column in 0..10 {
            images.0[0].0[row * 256 + 40 + column] = Real(1.0);
            images.0[1].0[row * 256 + 180 + column] = Real(1.0);
        }
    }
    images
}

#[test]
fn train_image_classifier() {
    let images = bands();
    let mut dataset: Dataset<2, Real, 65536, 2> = Dataset::new(
        images.0.to_vec(),
        vec![Tensor([Real(1.0), Real(0.0)]), Tensor([Real(0.0), Real(1.0)])],
    )
    .unwrap();

    // Initialize classifier
    let mut classifier: ImageClassifier<2, Real, 2> = ImageClassifier::new();

    // Train classifier
    let h = Hyperparameters { epochs: 50, lr: Real(1e-4) };
    let losses = classifier.train(&mut dataset, h);

    // Compute class probabilities
    let inference = classifier.eval(&images);

    assert!(1.0 - inference[0][0].0 < 1e-3);
    assert!(1.0 - inference[1][1].0 < 1e-3);
    assert_eq!(losses.len(), 50);
    assert_eq!(losses[0], Real(std::f32::consts::LN_2));
    for epoch in 1..50 {
        assert!(losses[epoch].0 < losses[epoch - 1].0);
    }
}
