//! Image classifier.

use crate::activation::Softmax;
use crate::architecture::Architecture;
use crate::layer::avgpool::AvgPoolView;
use crate::layer::convolutional::ConvolutionView;
use crate::layer::linear::LinearView;
use crate::layer::{AvgPool, Convolution, Layer, Linear};
use crate::loss::CrossEntropyLoss;
use crate::numeric::Numeric;
use crate::tensors::Batch;
use vstd::prelude::*;

verus! {

/// The mathematical state of an [`ImageClassifier`]: the states of its
/// five layers.
pub struct ImageClassifierView<T> {
    pub conv1: ConvolutionView<T>,
    pub avgpool1: AvgPoolView<T>,
    pub conv2: ConvolutionView<T>,
    pub avgpool2: AvgPoolView<T>,
    pub fc1: LinearView<T>,
}

/// Multi-class image classifier.
///
/// This image classifier accepts 256x256 grayscale images
/// and classifies them into `C` classes.
pub struct ImageClassifier<const B: usize, T: Numeric, const C: usize> {
    /// Convolution layer 1
    conv1: Convolution<B, T, 256, 256, 65536, 250, 250, 62500, 7>,
    /// Average pooling 1
    avgpool1: AvgPool<B, T, 250, 250, 62500, 50, 50, 2500, 5>,
    /// Convolution layer 2
    conv2: Convolution<B, T, 50, 50, 2500, 48, 48, 2304, 3>,
    /// Average pooling 2
    avgpool2: AvgPool<B, T, 48, 48, 2304, 24, 24, 576, 2>,
    /// Fully connected layer
    fc1: Linear<B, T, 576, C>,
}

impl<const B: usize, T: Numeric, const C: usize> ImageClassifier<B, T, C> {
    /// In a well-formed classifier the number of kernel cells that each
    /// convolution divides its bias by is the square of its kernel size,
    /// as a scalar.
    pub proof fn lemma_wf(&self)
        requires
            self.wf(),
        ensures
            self@.conv1.cells == crate::numeric::count::<T>(49),
            self@.conv2.cells == crate::numeric::count::<T>(9),
    {
        self.conv1.lemma_wf();
        self.conv2.lemma_wf();
    }
}

impl<const B: usize, T: Numeric, const C: usize> View for ImageClassifier<B, T, C> {
    type V = ImageClassifierView<T>;

    closed spec fn view(&self) -> ImageClassifierView<T> {
        ImageClassifierView {
            conv1: self.conv1@,
            avgpool1: self.avgpool1@,
            conv2: self.conv2@,
            avgpool2: self.avgpool2@,
            fc1: self.fc1@,
        }
    }
}

/// The feature map after the first convolution and pooling.
pub open spec fn feature_map1<const B: usize, T: Numeric>(
    v: ImageClassifierView<T>,
    batch: Seq<Seq<T>>,
) -> Seq<Seq<T>> {
    <AvgPool<B, T, 250, 250, 62500, 50, 50, 2500, 5> as Layer<B, T, 62500, 2500>>::forward_output(
        v.avgpool1,
        <Convolution<B, T, 256, 256, 65536, 250, 250, 62500, 7> as Layer<
            B,
            T,
            65536,
            62500,
        >>::forward_output(v.conv1, batch),
    )
}

/// The feature map after the second convolution and pooling.
pub open spec fn feature_map2<const B: usize, T: Numeric>(
    v: ImageClassifierView<T>,
    batch: Seq<Seq<T>>,
) -> Seq<Seq<T>> {
    <AvgPool<B, T, 48, 48, 2304, 24, 24, 576, 2> as Layer<B, T, 2304, 576>>::forward_output(
        v.avgpool2,
        <Convolution<B, T, 50, 50, 2500, 48, 48, 2304, 3> as Layer<
            B,
            T,
            2500,
            2304,
        >>::forward_output(v.conv2, feature_map1::<B, T>(v, batch)),
    )
}

/// The gradient that the fully connected layer hands back.
pub open spec fn gradient_map2<const B: usize, T: Numeric, const C: usize>(
    v: ImageClassifierView<T>,
    gradients: Seq<Seq<T>>,
) -> Seq<Seq<T>> {
    <Linear<B, T, 576, C> as Layer<B, T, 576, C>>::backward_output(v.fc1, gradients)
}

/// The gradient that the second pooling layer hands back.
pub open spec fn pooled_gradient_map2<const B: usize, T: Numeric, const C: usize>(
    v: ImageClassifierView<T>,
    gradients: Seq<Seq<T>>,
) -> Seq<Seq<T>> {
    <AvgPool<B, T, 48, 48, 2304, 24, 24, 576, 2> as Layer<B, T, 2304, 576>>::backward_output(
        v.avgpool2,
        gradient_map2::<B, T, C>(v, gradients),
    )
}

/// The gradient that the second convolution hands back.
pub open spec fn gradient_map1<const B: usize, T: Numeric, const C: usize>(
    v: ImageClassifierView<T>,
    gradients: Seq<Seq<T>>,
) -> Seq<Seq<T>> {
    <Convolution<B, T, 50, 50, 2500, 48, 48, 2304, 3> as Layer<B, T, 2500, 2304>>::backward_output(
        v.conv2,
        pooled_gradient_map2::<B, T, C>(v, gradients),
    )
}

/// The gradient that the first pooling layer hands back.
pub open spec fn pooled_gradient_map1<const B: usize, T: Numeric, const C: usize>(
    v: ImageClassifierView<T>,
    gradients: Seq<Seq<T>>,
) -> Seq<Seq<T>> {
    <AvgPool<B, T, 250, 250, 62500, 50, 50, 2500, 5> as Layer<B, T, 62500, 2500>>::backward_output(
        v.avgpool1,
        gradient_map1::<B, T, C>(v, gradients),
    )
}

/// Training and inference implementation for this image classifier.
impl<const B: usize, T: Numeric, const C: usize> Architecture<B, T, 65536, C> for ImageClassifier<
    B,
    T,
    C,
> {
    /// Cross-entropy loss over raw scores.
    type LossFunction = CrossEntropyLoss<B, T, C>;

    /// Softmax activation head.
    type Activation = Softmax<B, T, C>;

    closed spec fn wf(&self) -> bool {
        &&& self.conv1.wf()
        &&& self.avgpool1.wf()
        &&& self.conv2.wf()
        &&& self.avgpool2.wf()
        &&& self.fc1.wf()
    }

    /// The fully connected layer applied to the second feature map.
    open spec fn forward_output(v: ImageClassifierView<T>, batch: Seq<Seq<T>>) -> Seq<Seq<T>> {
        <Linear<B, T, 576, C> as Layer<B, T, 576, C>>::forward_output(
            v.fc1,
            feature_map2::<B, T>(v, batch),
        )
    }

    /// Every layer remembers what it was fed.
    open spec fn forward_state(v: ImageClassifierView<T>, batch: Seq<Seq<T>>) -> ImageClassifierView<
        T,
    > {
        ImageClassifierView {
            conv1: <Convolution<B, T, 256, 256, 65536, 250, 250, 62500, 7> as Layer<
                B,
                T,
                65536,
                62500,
            >>::forward_state(v.conv1, batch),
            avgpool1: <AvgPool<B, T, 250, 250, 62500, 50, 50, 2500, 5> as Layer<
                B,
                T,
                62500,
                2500,
            >>::forward_state(
                v.avgpool1,
                <Convolution<B, T, 256, 256, 65536, 250, 250, 62500, 7> as Layer<
                    B,
                    T,
                    65536,
                    62500,
                >>::forward_output(v.conv1, batch),
            ),
            conv2: <Convolution<B, T, 50, 50, 2500, 48, 48, 2304, 3> as Layer<
                B,
                T,
                2500,
                2304,
            >>::forward_state(v.conv2, feature_map1::<B, T>(v, batch)),
            avgpool2: <AvgPool<B, T, 48, 48, 2304, 24, 24, 576, 2> as Layer<
                B,
                T,
                2304,
                576,
            >>::forward_state(
                v.avgpool2,
                <Convolution<B, T, 50, 50, 2500, 48, 48, 2304, 3> as Layer<
                    B,
                    T,
                    2500,
                    2304,
                >>::forward_output(v.conv2, feature_map1::<B, T>(v, batch)),
            ),
            fc1: <Linear<B, T, 576, C> as Layer<B, T, 576, C>>::forward_state(
                v.fc1,
                feature_map2::<B, T>(v, batch),
            ),
        }
    }

    /// The gradient runs back through the layers, last layer first, and
    /// every layer learns from the gradient that reaches it.
    open spec fn backward_state(
        v: ImageClassifierView<T>,
        gradients: Seq<Seq<T>>,
        lr: T,
    ) -> ImageClassifierView<T> {
        ImageClassifierView {
            conv1: <Convolution<B, T, 256, 256, 65536, 250, 250, 62500, 7> as Layer<
                B,
                T,
                65536,
                62500,
            >>::backward_state(v.conv1, pooled_gradient_map1::<B, T, C>(v, gradients), lr),
            avgpool1: <AvgPool<B, T, 250, 250, 62500, 50, 50, 2500, 5> as Layer<
                B,
                T,
                62500,
                2500,
            >>::backward_state(v.avgpool1, gradient_map1::<B, T, C>(v, gradients), lr),
            conv2: <Convolution<B, T, 50, 50, 2500, 48, 48, 2304, 3> as Layer<
                B,
                T,
                2500,
                2304,
            >>::backward_state(v.conv2, pooled_gradient_map2::<B, T, C>(v, gradients), lr),
            avgpool2: <AvgPool<B, T, 48, 48, 2304, 24, 24, 576, 2> as Layer<
                B,
                T,
                2304,
                576,
            >>::backward_state(v.avgpool2, gradient_map2::<B, T, C>(v, gradients), lr),
            fc1: <Linear<B, T, 576, C> as Layer<B, T, 576, C>>::backward_state(
                v.fc1,
                gradients,
                lr,
            ),
        }
    }

    /// Construct this classifier: each of its five layers is new. The
    /// convolutions and the fully connected layer hold parameters that
    /// `random` has returned, the pooling layers their averaging kernels,
    /// and every layer remembers zeros.
    fn new() -> (r: Self)
        ensures
            crate::layer::convolutional::is_new_convolution(r@.conv1, B as nat, 65536, 7),
            crate::layer::avgpool::is_new_pool(r@.avgpool1, B as nat, 62500, 5),
            crate::layer::convolutional::is_new_convolution(r@.conv2, B as nat, 2500, 3),
            crate::layer::avgpool::is_new_pool(r@.avgpool2, B as nat, 2304, 2),
            crate::layer::linear::is_new_linear(r@.fc1, B as nat, 576, C as nat),
    {
        let conv1 = Convolution::<B, T, 256, 256, 65536, 250, 250, 62500, 7>::new();
        let avgpool1 = AvgPool::<B, T, 250, 250, 62500, 50, 50, 2500, 5>::new();
        let conv2 = Convolution::<B, T, 50, 50, 2500, 48, 48, 2304, 3>::new();
        let avgpool2 = AvgPool::<B, T, 48, 48, 2304, 24, 24, 576, 2>::new();
        let fc1 = Linear::<B, T, 576, C>::new();
        proof {
            conv1.lemma_view_shape();
            conv2.lemma_view_shape();
            fc1.lemma_view_shape();
        }
        Self { conv1, avgpool1, conv2, avgpool2, fc1 }
    }

    /// Compute the forward pass of this classifier.
    fn forward(&mut self, batch: &Batch<B, T, 65536>) -> (r: Batch<B, T, C>) {
        let conv1 = self.conv1.forward(batch);
        let fmap1 = self.avgpool1.forward(&conv1);
        let conv2 = self.conv2.forward(&fmap1);
        let fmap2 = self.avgpool2.forward(&conv2);
        self.fc1.forward(&fmap2)
    }

    /// Compute the backward pass of this classifier.
    fn backward(&mut self, gradients: &Batch<B, T, C>, lr: T) {
        let gmap2 = self.fc1.backward(gradients, lr);
        let pooled2 = self.avgpool2.backward(&gmap2, lr);
        let gmap1 = self.conv2.backward(&pooled2, lr);
        let pooled1 = self.avgpool1.backward(&gmap1, lr);
        // nothing lies before the first layer to hand a gradient to
        self.conv1.learn(&pooled1, lr);
    }
}

} // verus!
