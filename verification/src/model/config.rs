//! The configuration of a model.

use vstd::prelude::*;

verus! {

/// What `config.json` says of a model.  The two numbers in floating point are
/// single-precision bit patterns.
#[derive(Debug, Clone)]
pub struct LlamaConfig {
    /// The width of the hidden state.
    pub hidden_size: usize,
    /// The width inside the feed-forward part.
    pub intermediate_size: usize,
    /// The number of transformer layers.
    pub num_hidden_layers: usize,
    /// The number of query heads.
    pub num_attention_heads: usize,
    /// The number of key and value heads; zero where the file names none.
    pub num_key_value_heads: usize,
    /// The width of a head, where the file names it.
    pub explicit_head_dim: Option<usize>,
    /// The number of tokens.
    pub vocab_size: usize,
    /// The greatest number of positions.
    pub max_position_embeddings: usize,
    /// The small number added in the root mean square.
    pub rms_norm_eps: u32,
    /// The base of the rotary frequencies.
    pub rope_theta: u32,
    pub model_type: String,
    pub torch_dtype: String,
    /// Whether the output layer shares its weights with the embedding.
    pub tie_word_embeddings: bool,
    /// The token that ends a text.
    pub eos_token_id: u32,
    /// The token that starts a text.
    pub bos_token_id: Option<u32>,
}

pub type Qwen3Config = LlamaConfig;

/// The number of positions of a model that names none.
pub fn default_max_position() -> (r: usize)
    ensures
        r == 2048,
{
    2048
}

/// The small number of a model that names none, 1e-5.
pub fn default_rms_norm_eps() -> (r: u32)
    ensures
        r == 0x3727_C5AC,
{
    0x3727_C5AC
}

/// The rotary base of a model that names none, 10000.
pub fn default_rope_theta() -> (r: u32)
    ensures
        r == 0x461C_4000,
{
    0x461C_4000
}

/// The end token of a model that names none.
pub fn default_eos_token_id() -> (r: u32)
    ensures
        r == 2,
{
    2
}

impl LlamaConfig {
    /// The width of a head: the one that the file names, or an equal share of the hidden state.
    pub open spec fn head_width(&self) -> nat {
        match self.explicit_head_dim {
            Some(d) => d as nat,
            None => (self.hidden_size / self.num_attention_heads) as nat,
        }
    }

    /// Whether the width of a head is named, or there are heads to share the hidden state.
    pub open spec fn has_head_width(&self) -> bool {
        self.explicit_head_dim is Some || self.num_attention_heads > 0
    }

    /// The width of a head.
    pub fn head_dim(&self) -> (r: usize)
        requires
            self.has_head_width(),
        ensures
            r == self.head_width(),
    {
        match self.explicit_head_dim {
            Some(d) => d,
            None => self.hidden_size / self.num_attention_heads,
        }
    }

    /// The number of query heads that share one key and value head.
    pub fn kv_group_size(&self) -> (r: usize)
        requires
            self.num_key_value_heads > 0,
        ensures
            r == self.num_attention_heads as nat / self.num_key_value_heads as nat,
    {
        self.num_attention_heads / self.num_key_value_heads
    }

    /// Gives a model that names no key and value heads as many as it has query heads.
    pub fn fill_kv_heads(&mut self)
        ensures
            *final(self) == (LlamaConfig {
                num_key_value_heads: if old(self).num_key_value_heads == 0 {
                    old(self).num_attention_heads
                } else {
                    old(self).num_key_value_heads
                },
                ..*old(self)
            }),
    {
        if self.num_key_value_heads == 0 {
            self.num_key_value_heads = self.num_attention_heads;
        }
    }
}

} // verus!
