//! Choosing tokens.

use rsinfer::engine::sampler::{argmax, default_sampler, top_k_indices};
use rsinfer::engine::{CombinedSampler, GreedySampler, Sampler, Selection};
use rsinfer::tensor::Tensor;

fn bits(values: &[f32]) -> Vec<u32> {
    values.iter().map(|v| v.to_bits()).collect()
}

fn logits(values: &[f32]) -> Tensor {
    Tensor::from_f32_slice(&[values.len()], &bits(values)).unwrap()
}

fn sampler(temperature: f32, top_k: usize, top_p: f32) -> CombinedSampler {
    CombinedSampler::new(temperature.to_bits(), top_k, top_p.to_bits())
}

#[test]
fn greedy_picks_max() {
    let logits = logits(&[1.0, 2.0, 5.0, 3.0, 4.0]);
    assert_eq!(GreedySampler.sample(&logits), 2);
}

#[test]
fn zero_temperature_is_greedy() {
    let logits = logits(&[1.0, 2.0, 5.0, 3.0, 4.0]);
    assert!(matches!(sampler(0.0, 0, 1.0).select(&logits), Selection::Token(2)));
}

#[test]
fn top_k_indices_keep_only_highest_logits_in_order() {
    let logits = bits(&[0.1, 3.0, -1.0, 2.5, 5.0, 4.0]);

    let indices = top_k_indices(&logits, 3);

    assert_eq!(indices, vec![4, 5, 1]);
}

#[test]
fn top_k_indices_handle_zero_and_full_vocab() {
    let logits = bits(&[0.1, 3.0, -1.0, 2.5]);

    assert!(top_k_indices(&logits, 0).is_empty());
    assert_eq!(top_k_indices(&logits, 4), vec![1, 3, 0, 2]);
}

#[test]
fn top_k_indices_large_k_uses_heap_path() {
    let logits: Vec<f32> = (0..128).map(|i| ((i * 37) % 128) as f32).collect();

    let indices = top_k_indices(&bits(&logits), 80);

    assert_eq!(indices.len(), 80);
    assert_eq!(indices[0], 83);
    assert_eq!(logits[indices[79]], 48.0);
    for pair in indices.windows(2) {
        assert!(logits[pair[0]] >= logits[pair[1]]);
    }
}

#[test]
fn only_the_greatest_logits_are_candidates() {
    let logits = logits(&[100.0, 90.0, 80.0, -1000.0, -1000.0]);
    match sampler(0.6, 2, 1.0).select(&logits) {
        Selection::Ordered(list) => assert_eq!(list, vec![0, 1]),
        _ => panic!("two candidates were asked for"),
    }
    assert!(matches!(sampler(0.6, 0, 1.0).select(&logits), Selection::All));
}

#[test]
fn of_equal_logits_the_last_is_greedy() {
    assert_eq!(argmax(&bits(&[1.0, 3.0, 3.0, 2.0])), 2);
    assert_eq!(argmax(&bits(&[-0.0, 0.0])), 1);
    assert_eq!(argmax(&bits(&[-2.0, -1.0, -3.0])), 1);
}

#[test]
fn an_infinite_logit_is_the_greatest() {
    let data = bits(&[f32::NEG_INFINITY, 1e30, f32::INFINITY, -1e30]);
    assert_eq!(argmax(&data), 2);
    assert_eq!(top_k_indices(&data, 2), vec![2, 1]);
}

#[test]
fn a_sampler_of_no_temperature_is_greedy() {
    assert!(sampler(0.0, 5, 0.9).is_greedy());
    assert!(sampler(-1.0, 5, 0.9).is_greedy());
    assert!(!sampler(0.7, 5, 0.9).is_greedy());
    assert!(GreedySampler.is_greedy());
    assert!(!default_sampler().is_greedy());
}
