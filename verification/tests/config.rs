//! The configuration of a model.

use rsinfer::model::config::{default_eos_token_id, default_rope_theta};
use rsinfer::model::LlamaConfig;
use serde_json::Value;

/// A configuration with the sizes that a file names.
fn config_of(json: &str) -> LlamaConfig {
    let file: Value = serde_json::from_str(json).unwrap();
    let size = |name: &str| file[name].as_u64().unwrap_or(0) as usize;
    LlamaConfig {
        hidden_size: size("hidden_size"),
        intermediate_size: size("intermediate_size"),
        num_hidden_layers: size("num_hidden_layers"),
        num_attention_heads: size("num_attention_heads"),
        num_key_value_heads: size("num_key_value_heads"),
        explicit_head_dim: file["head_dim"].as_u64().map(|d| d as usize),
        vocab_size: size("vocab_size"),
        max_position_embeddings: size("max_position_embeddings"),
        rms_norm_eps: 1e-6f32.to_bits(),
        rope_theta: default_rope_theta(),
        model_type: file["model_type"].as_str().unwrap_or("").to_string(),
        torch_dtype: String::new(),
        tie_word_embeddings: false,
        eos_token_id: default_eos_token_id(),
        bos_token_id: None,
    }
}

#[test]
fn test_config_parse() {
    let json = r#"{
            "hidden_size": 4096,
            "intermediate_size": 11008,
            "num_hidden_layers": 32,
            "num_attention_heads": 32,
            "num_key_value_heads": 32,
            "vocab_size": 32000,
            "max_position_embeddings": 4096,
            "rms_norm_eps": 1e-6,
            "rope_theta": 10000.0,
            "model_type": "llama"
        }"#;

    let config = config_of(json);
    assert_eq!(config.hidden_size, 4096);
    assert_eq!(config.num_hidden_layers, 32);
    assert_eq!(config.head_dim(), 128);
    assert_eq!(config.rope_theta, 10000.0f32.to_bits());
}

#[test]
fn a_head_width_that_is_named_is_used_as_it_is() {
    let config = config_of(r#"{"hidden_size": 4096, "num_attention_heads": 0, "head_dim": 96}"#);
    assert_eq!(config.head_dim(), 96);
    let config = config_of(r#"{"hidden_size": 4096, "num_attention_heads": 32, "head_dim": 96}"#);
    assert_eq!(config.head_dim(), 96);
}

#[test]
fn key_heads_that_are_not_named_are_as_many_as_query_heads() {
    let mut config = config_of(r#"{"hidden_size": 64, "num_attention_heads": 8}"#);
    config.fill_kv_heads();
    assert_eq!(config.num_key_value_heads, 8);
    assert_eq!(config.kv_group_size(), 1);
    config.num_key_value_heads = 2;
    config.fill_kv_heads();
    assert_eq!(config.kv_group_size(), 4);
}
