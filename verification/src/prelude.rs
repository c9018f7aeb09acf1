//! The most commonly used items.
pub use crate::errors::{NeuroxError, NeuroxResult};
pub use crate::layers::{Activation, Dense};
pub use crate::model::Model;
pub use crate::optimizer::{Adam, SGD};
pub use crate::scalar::Scalar;
pub use crate::tensor::Tensor;
