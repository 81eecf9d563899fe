//! Fitting a line to paired observations by batch gradient descent.
//!
//! The library holds what the fitting does apart from the arithmetic on the
//! samples: a dataset of aligned `(x, y)` pairs that is never empty and never
//! ragged, a fold over its pairs in index order (the shape of the loss and of
//! the gradient), and a training loop that applies a step a fixed number of
//! times from a given start and reports each epoch when asked. The sample type
//! and the per-pair and per-epoch work are the caller's.

pub mod dataset;
pub mod training;

pub use dataset::{Dataset, DatasetError};
