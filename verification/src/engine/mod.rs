//! Generation: the key/value cache, the choice of tokens and the loop around them.

pub mod cache;
pub mod generator;
pub mod laws;
pub mod sampler;
pub mod stamp;
pub mod tokenizer;
pub mod tokenizer_parts;
pub mod traces;

pub use cache::{CachedKV, KVCache, KVCacheSnapshot};
pub use generator::{
    FinalLayerTokenProfile, Generation, GenerationAction, GenerationConfig, GenerationProfile, NextToken,
};
pub use stamp::CacheStamp;
pub use sampler::{CombinedSampler, GreedySampler, Sampler, Selection};
