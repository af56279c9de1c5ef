//! Tensors: their storage, their layout and what is done to it.

pub mod array;
pub mod dtypes;
pub mod grid;
pub mod laws;
pub mod ops;
pub mod order;
pub mod tensor;

pub use ops::{repeat_kv, CachedAttention, Q8LinearWeight};
pub use tensor::Tensor;
