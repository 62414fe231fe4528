//! Tensors, batches and datasets.

pub use crate::dataset::Dataset;
pub use crate::tensors::Batch;
pub use crate::tensors::Tensor;
