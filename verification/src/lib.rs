//! Neurox: a minimal feed-forward neural network toolkit.
//!
//! This crate provides:
//! - a `Tensor` type for numeric data in row-major order,
//! - core tensor operations (matrix multiplication, element-wise add and
//!   mul, broadcasting),
//! - activation functions (ReLU, sigmoid, tanh, softmax),
//! - a `Dense` layer with backpropagation and cached activations,
//! - a sequential `Model` with a forward pass and training by gradient
//!   descent or Adam,
//! - losses (mean squared error, cross-entropy), tables of numbers as text,
//!   and error types.
//!
//! The toolkit is generic over the scalar it computes with (see
//! [`scalar::Scalar`]). Every function states, over the mathematical value
//! of its arguments, which scalar operations make up its result and in
//! which order they are applied.
pub mod activations;
pub mod data;
pub mod errors;
pub mod layers;
pub mod loss;
pub mod model;
pub mod ops;
pub mod optimizer;
pub mod prelude;
pub mod scalar;
pub mod tensor;
pub mod text;
pub mod training;

pub use crate::errors::{NeuroxError, NeuroxResult};
pub use crate::layers::{Activation, Dense};
pub use crate::model::Model;
pub use crate::optimizer::{Adam, SGD};
pub use crate::scalar::Scalar;
pub use crate::tensor::Tensor;
