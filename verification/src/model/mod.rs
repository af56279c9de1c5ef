//! The model: its configuration, its weights and its layers.

pub mod attach_laws;
pub mod attention;
pub mod attention_decode;
pub mod attention_once;
pub mod attention_state;
pub mod attention_sync;
pub mod block;
pub mod block_build;
pub mod block_decode;
pub mod block_once;
pub mod block_state;
pub mod config;
pub mod device_laws;
pub mod flow_laws;
pub mod group;
pub mod heads;
pub mod laws;
pub mod linear;
pub mod loading;
pub mod mlp;
pub mod outcome_laws;
pub mod profile;
pub mod q8_load;
pub mod q8_sidecar;
pub mod qwen3;
pub mod qwen3_decode;
pub mod run_laws;
pub mod sidecar_laws;
pub mod step_laws;
pub mod weights;

pub use attention::{Attention, RmsNorm};
pub use block::TransformerBlock;
pub use block_build::{build_transformer_block, build_transformer_block_with_q8_sidecar, BlockQ8Weights};
pub use config::{LlamaConfig, Qwen3Config};
pub use linear::Linear;
pub use mlp::Mlp;
pub use profile::TransformerBlockProfile;
pub use q8_sidecar::{Q8SidecarCache, Q8SidecarEntry, Q8SidecarManifest, Q8SidecarReport};
pub use qwen3::Qwen3Model;
pub use weights::{get_linear_weight_f16, get_weight, LoadedTensor, WeightMap};
