//! Architectures: the abstraction and the predefined models.

pub use crate::architecture::Architecture;
pub use crate::architecture::Training;

// Predefined classifiers
pub use crate::architecture::classifiers;

// Predefined regressors
pub use crate::architecture::regressors;
