//! Loss functions.

pub use crate::loss::CrossEntropyLoss;
pub use crate::loss::MSELoss;
pub use crate::loss::SSELoss;
