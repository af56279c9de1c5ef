//! Generating text, and what is measured meanwhile.

use rsinfer::engine::generator::{
    fast_token, flush, logits_of, sampled_token, settle_fast_path, token_path, TokenPath,
};
use rsinfer::engine::{
    Generation, GenerationAction, GenerationConfig, GenerationProfile, KVCache, NextToken,
};
use rsinfer::error::RsinferError;
use rsinfer::gpu::GpuSyncStats;
use rsinfer::model::profile::{
    diff_transformer_block_profile, ensure_layer_profiles, final_layer_profile_delta,
};
use rsinfer::model::TransformerBlockProfile;
use rsinfer::tensor::Tensor;

fn ms(value: u128) -> u128 {
    value * 1_000_000
}

fn micros(value: u128) -> u128 {
    value * 1_000
}

fn in_ms(ns: u128) -> f64 {
    ns as f64 / 1e6
}

#[test]
fn transformer_block_profile_delta_is_fieldwise() {
    let before = TransformerBlockProfile {
        attention: ms(11),
        mlp: ms(13),
        mlp_gate_up: ms(17),
        mlp_down_proj: ms(19),
        mlp_q8_gate_up_dot: ms(23),
        mlp_q8_down_proj_dot: ms(29),
        total: ms(31),
        ..Default::default()
    };
    let after = TransformerBlockProfile {
        attention: ms(41),
        mlp: ms(53),
        mlp_gate_up: ms(67),
        mlp_down_proj: ms(79),
        mlp_q8_gate_up_dot: ms(83),
        mlp_q8_down_proj_dot: ms(97),
        total: ms(101),
        ..Default::default()
    };

    let delta = diff_transformer_block_profile(&before, &after);

    assert_eq!(delta.attention, ms(30));
    assert_eq!(delta.mlp, ms(40));
    assert_eq!(delta.mlp_gate_up, ms(50));
    assert_eq!(delta.mlp_down_proj, ms(60));
    assert_eq!(delta.mlp_q8_gate_up_dot, ms(60));
    assert_eq!(delta.mlp_q8_down_proj_dot, ms(68));
    assert_eq!(delta.total, ms(70));
}

#[test]
fn generation_profile_records_final_layer_trace_in_ms() {
    let mut profile = GenerationProfile::new(0);
    let delta = TransformerBlockProfile {
        attention: micros(500),
        mlp: micros(1_500),
        mlp_gate_up: micros(250),
        mlp_down_proj: micros(750),
        mlp_q8_gate_up_dot: micros(1_000),
        mlp_q8_down_proj_dot: micros(1_250),
        total: micros(2_500),
        ..Default::default()
    };

    profile.record_final_layer_decode_trace(35, &delta);

    assert_eq!(profile.final_layer_index, Some(35));
    assert_eq!(profile.final_layer_decode_trace.len(), 1);
    let trace = &profile.final_layer_decode_trace[0];
    assert!((in_ms(trace.total_ns) - 2.5).abs() < 1e-9);
    assert!((in_ms(trace.attention_ns) - 0.5).abs() < 1e-9);
    assert!((in_ms(trace.mlp_ns) - 1.5).abs() < 1e-9);
    assert!((in_ms(trace.mlp_gate_up_ns) - 0.25).abs() < 1e-9);
    assert!((in_ms(trace.mlp_down_proj_ns) - 0.75).abs() < 1e-9);
    assert!((in_ms(trace.mlp_q8_gate_up_dot_ns) - 1.0).abs() < 1e-9);
    assert!((in_ms(trace.mlp_q8_down_proj_dot_ns) - 1.25).abs() < 1e-9);
}

#[test]
fn a_delta_undoes_a_sum() {
    let mut sum = TransformerBlockProfile { attention: 5, residual: 7, total: 12, ..Default::default() };
    let first = TransformerBlockProfile { attention: 5, residual: 7, total: 12, ..Default::default() };
    let more = TransformerBlockProfile { attention: 1, mlp: 2, total: 3, ..Default::default() };
    sum.add_times(&more);
    assert_eq!(sum.attention, 6);
    let delta = diff_transformer_block_profile(&first, &sum);
    assert_eq!(delta.attention, 1);
    assert_eq!(delta.mlp, 2);
    assert_eq!(delta.residual, 0);
    assert_eq!(delta.total, 3);
}

#[test]
fn the_last_layer_is_compared_with_what_it_was() {
    let mut layers: Vec<TransformerBlockProfile> = Vec::new();
    assert!(final_layer_profile_delta(None, &layers).is_none());
    ensure_layer_profiles(&mut layers, 2);
    assert_eq!(layers.len(), 2);
    layers[1].total = 9;
    let d = final_layer_profile_delta(None, &layers).unwrap();
    assert_eq!(d.total, 9);
    let before = TransformerBlockProfile { total: 4, ..Default::default() };
    let d = final_layer_profile_delta(Some(&before), &layers).unwrap();
    assert_eq!(d.total, 5);
}

fn next(token: u32, time: u128) -> NextToken {
    NextToken {
        token,
        forward_time: time,
        sample_time: 1,
        gpu_sync: GpuSyncStats { submits: 2, poll_waits: 1, map_reads: 1, host_write_buffers: 3, position_write_buffers: 1 },
        fast_path: false,
        final_layer_delta: None,
    }
}

fn position_of(a: &GenerationAction) -> Option<(Vec<u32>, usize)> {
    match a {
        GenerationAction::Forward { input_ids, position_offset } => {
            Some((input_ids.clone(), *position_offset))
        }
        _ => None,
    }
}

#[test]
fn a_stream_is_the_text_of_its_tokens() {
    let config = GenerationConfig { max_tokens: 8, stop_tokens: vec![99] };
    let (mut run, first) = Generation::start(config, &[1, 2, 3]);
    assert_eq!(position_of(&first), Some((vec![1, 2, 3], 0)));
    let mut out = String::new();

    let a = run.on_token(&next(10, 100));
    assert!(matches!(a, GenerationAction::Decode));
    let (piece, a) = run.on_text("He", 5);
    out.push_str(&piece.unwrap());
    assert_eq!(position_of(&a), Some((vec![10], 3)));

    let a = run.on_token(&next(11, 40));
    assert!(matches!(a, GenerationAction::Decode));
    // A character that is not whole yet is held back.
    let (piece, a) = run.on_text("He\u{FFFD}", 5);
    assert!(piece.is_none());
    assert_eq!(position_of(&a), Some((vec![11], 4)));

    run.on_token(&next(12, 40));
    let (piece, a) = run.on_text("He\u{597D}", 5);
    out.push_str(&piece.unwrap());
    assert_eq!(position_of(&a), Some((vec![12], 5)));

    let a = run.on_token(&next(99, 40));
    assert!(matches!(a, GenerationAction::Decode));
    let (piece, a) = run.on_text("He\u{597D}", 5);
    assert!(piece.is_none());
    assert!(matches!(a, GenerationAction::Finish));
    assert_eq!(out, "He\u{597D}");
    assert_eq!(run.tokens(), &[10, 11, 12]);
    let profile = run.into_profile();
    assert_eq!(profile.prompt_tokens, 3);
    assert_eq!(profile.generated_tokens, 3);
    assert_eq!(profile.prefill_forward, 100);
    assert_eq!(profile.decode_forward, 120);
    assert_eq!(profile.decode_forward_token_ns, vec![40, 40, 40]);
    assert_eq!(profile.decode_gpu_sync.submits, 6);
    assert_eq!(profile.text_decode, 20);
}

#[test]
fn what_is_left_is_flushed_at_the_end() {
    assert_eq!(flush("abc", 1, true), (Some("bc".to_string()), 3));
    assert_eq!(flush("abc", 3, true), (None, 3));
    assert_eq!(flush("ab\u{FFFD}", 1, true), (None, 1));
    let (last, _) = flush("ab\u{FFFD}", 1, false);
    assert_eq!(last, Some("b\u{FFFD}".to_string()));
}

#[test]
fn only_tokens_of_the_device_count_as_fast() {
    let sync = GpuSyncStats { submits: 2, ..Default::default() };
    let layers = [TransformerBlockProfile { total: 9, ..Default::default() }];
    let before = TransformerBlockProfile { total: 4, ..Default::default() };
    assert!(fast_token(None, 7, sync, None, &layers).is_none());
    let fast = fast_token(Some(5), 7, sync, Some(&before), &layers).unwrap();
    assert_eq!((fast.token, fast.forward_time, fast.sample_time), (5, 7, 0));
    assert!(fast.fast_path);
    assert_eq!(fast.gpu_sync.submits, 2);
    assert_eq!(fast.final_layer_delta.unwrap().total, 5);
    let slow = sampled_token(6, 8, 3, sync, None, &[]);
    assert_eq!((slow.token, slow.forward_time, slow.sample_time), (6, 8, 3));
    assert!(!slow.fast_path && slow.final_layer_delta.is_none());

    let config = GenerationConfig { max_tokens: 4, stop_tokens: Vec::new() };
    let (mut run, _) = Generation::start(config, &[7]);
    for token in [fast, slow, fast] {
        run.on_token(&token);
        run.on_text("", 0);
    }
    let profile = run.into_profile();
    assert_eq!(profile.fast_path_tokens, 2);
    assert_eq!((profile.prefill_sample, profile.decode_sample), (0, 3));
}

#[test]
fn a_run_stops_at_its_limit() {
    let config = GenerationConfig { max_tokens: 1, stop_tokens: Vec::new() };
    let (mut run, _) = Generation::start(config, &[7]);
    run.on_token(&next(5, 1));
    let (piece, a) = run.on_text("x", 0);
    assert_eq!(piece, Some("x".to_string()));
    assert!(matches!(a, GenerationAction::Decode));
    let (piece, a) = run.on_text("x", 0);
    assert!(piece.is_none());
    assert!(matches!(a, GenerationAction::Finish));
    assert_eq!(run.tokens(), &[5]);
}

#[test]
fn traces_hold_one_entry_for_each_run_behind_the_prompt() {
    let config = GenerationConfig { max_tokens: 3, stop_tokens: vec![99] };
    let (mut run, _) = Generation::start(config, &[1, 2]);
    for (token, time) in [(10, 100), (11, 40), (12, 30)] {
        let delta = TransformerBlockProfile { total: time, ..Default::default() };
        *run.layer_profiles_mut() = vec![delta];
        run.on_token(&NextToken { final_layer_delta: Some(delta), ..next(token, time) });
        run.on_text("", 0);
    }
    run.on_text("", 0);
    assert_eq!(run.tokens(), &[10, 11, 12]);
    let profile = run.into_profile();
    assert_eq!(profile.prefill_forward, 100);
    assert_eq!(profile.decode_forward_token_ns, [40, 30]);
    assert_eq!(profile.decode_forward, 70);
    assert_eq!(profile.decode_gpu_sync_trace.len(), 2);
    assert_eq!(profile.decode_gpu_sync.host_write_buffers, 6);
    assert_eq!(profile.final_layer_index, Some(0));
    let trace: Vec<u128> = profile.final_layer_decode_trace.iter().map(|t| t.total_ns).collect();
    assert_eq!(trace, [40, 30]);
}

#[test]
fn averages_leave_the_first_token_out() {
    let mut profile = GenerationProfile::new(1);
    assert_eq!(profile.averaged_tokens(), 0);
    profile.generated_tokens = 1;
    assert_eq!(profile.averaged_tokens(), 0);
    profile.generated_tokens = 5;
    assert_eq!(profile.averaged_tokens(), 4);
}

#[test]
fn the_fast_path_needs_a_greedy_sampler() {
    assert!(matches!(token_path(true, true), TokenPath::Fast));
    assert!(matches!(token_path(false, true), TokenPath::Full));
    assert!(matches!(token_path(true, false), TokenPath::Full));
}

#[test]
fn a_failed_fast_path_restores_the_cache() {
    let mut cache = KVCache::new(1, 8);
    let t = Tensor::from_f32_slice(&[1, 1, 1], &[0]).unwrap();
    cache.append(0, &t, &t).unwrap();
    let snapshot = cache.snapshot();
    cache.append(0, &t, &t).unwrap();
    let r = settle_fast_path(
        Err(RsinferError::Unsupported("no device".to_string())),
        &mut cache,
        snapshot,
    );
    assert!(matches!(r, Ok(None)));
    assert_eq!(cache.current_len(), 1);
    let snapshot = cache.snapshot();
    let r = settle_fast_path(Ok(4), &mut cache, snapshot);
    assert!(matches!(r, Ok(Some(4))));
    assert_eq!(cache.current_len(), 1);
}

#[test]
fn logits_must_lie_in_one_piece() {
    let two = Tensor::from_f32_slice(&[2, 2], &[1, 2, 3, 4]).unwrap();
    assert_eq!(logits_of(&two).unwrap(), &[1, 2, 3, 4]);
    let turned = two.t().unwrap();
    match logits_of(&turned) {
        Err(e) => assert_eq!(
            e.message(),
            "Tensor dimension error: logits tensor is not contiguous"
        ),
        Ok(s) => assert_eq!(s, &[1, 3, 2, 4]),
    }
}
