//! A small inference engine for Qwen3-style language models.
//!
//! The library holds the parts of the engine that move, plan and check data:
//! tensors and their layout, weight formats, the key/value cache, token
//! selection, the generation loop, the device plan and the command lists that a
//! GPU back end executes.  Numbers in floating point are carried as their bit
//! patterns; the arithmetic on them belongs to the program around the library.

pub mod chat;
pub mod engine;
pub mod error;
pub mod gpu;
pub mod model;
pub mod plan_laws;
pub mod runtime;
pub mod tensor;
pub mod text;
pub mod text_laws;
