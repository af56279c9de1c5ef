//! Work for a GPU: what is allocated, bound, dispatched, copied and read back.
//!
//! Nothing here touches a device.  Every operation appends to the list that a context keeps,
//! and a driver carries the list out in order.  What the device hands back comes in again
//! as plain words.

pub mod admission;
pub mod attention;
pub mod chain;
pub mod context;
pub mod gates;
pub mod laws;
pub mod matvec;
pub mod norm;
pub mod outcomes;
pub mod pack;
pub mod q8;
pub mod q8_batch;
pub mod q8_outputs;
pub mod q8_swiglu;
pub mod resident;
pub mod rows;
pub mod swiglu;

pub use attention::{
    GpuDecodeGqaAttention, GpuDecodeGqaAttentionConfig, GpuDecodeGqaAttentionResidentCache, GpuKvAppend,
    GpuKvAppendResidentCache,
};
pub use context::{
    GpuBindGroup, GpuBinding, GpuBufferInfo, GpuCommand, GpuContext, GpuDispatch, GpuEncoder, GpuOp,
    GpuPipeline, GpuSyncStats, GpuUsage, GpuWrite,
};
pub use matvec::{GpuMatVec, GpuMatVecChunk};
pub use norm::{
    GpuQkRmsNormRope, GpuQkRmsNormRopeConfig, GpuQkRmsNormRopeResidentCache, GpuRmsNorm,
    GpuRmsNormResidentCache,
};
pub use q8::{GpuQ8MatVec, GpuQ8MatVecChunk, GpuQ8MatVecResidentCache};
pub use q8_batch::{GpuQ8SameInputBatch, GpuQ8SameInputBatchResidentCache};
pub use q8_swiglu::{GpuQ8SwiGluDown, GpuQ8SwiGluDownResidentCache};
pub use resident::{
    GpuPositionUniform, GpuResidentBuffer, GpuResidualAdd, GpuResidualAddResidentCache,
};
pub use rows::GpuRows;
pub use swiglu::{GpuSwiGluDown, GpuSwiGluGroup};
