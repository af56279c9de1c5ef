//! Work for a GPU, carried out by a device made of vectors.

use std::time::Instant;

use half::f16;
use rsinfer::gpu::attention::DECODE_GQA_ATTENTION_PARALLEL_MAX_SEQ_LEN;
use rsinfer::gpu::context::{reset_sync_stats, sync_stats, GpuUsage, GpuWrite};
use rsinfer::gpu::{
    GpuBindGroup, GpuCommand, GpuContext, GpuDecodeGqaAttention, GpuDecodeGqaAttentionConfig,
    GpuDispatch, GpuEncoder, GpuKvAppend, GpuMatVec, GpuOp, GpuPipeline, GpuPositionUniform, GpuQ8MatVec,
    GpuQ8SameInputBatch, GpuQ8SwiGluDown, GpuQkRmsNormRope, GpuQkRmsNormRopeConfig,
    GpuResidentBuffer, GpuResidualAdd, GpuRmsNorm, GpuSwiGluDown, GpuSyncStats,
};
use rsinfer::engine::KVCache;
use rsinfer::model::profile::{ensure_layer_profiles, record_total};
use rsinfer::model::{
    Attention, BlockQ8Weights, Linear, LoadedTensor, Mlp, Qwen3Config, Qwen3Model, RmsNorm,
    TransformerBlock, WeightMap,
};
use rsinfer::runtime::{DevicePreference, LayerDevice, RuntimePlan};
use rsinfer::tensor::{Q8LinearWeight, Tensor};

const EPS: f32 = 1e-5;

fn bits(values: &[f32]) -> Vec<u32> {
    values.iter().map(|v| v.to_bits()).collect()
}

fn floats(words: &[u32]) -> Vec<f32> {
    words.iter().map(|&w| f32::from_bits(w)).collect()
}

fn tensor(shape: &[usize], values: &[f32]) -> Tensor {
    Tensor::from_f32_slice(shape, &bits(values)).unwrap()
}

fn values_of(t: &Tensor) -> Vec<f32> {
    floats(t.as_slice())
}

fn halves(values: &[f32]) -> Vec<u16> {
    values.iter().map(|&v| f16::from_f32(v).to_bits()).collect()
}

fn max_abs(expected: &[f32], actual: &[f32]) -> f32 {
    assert_eq!(expected.len(), actual.len());
    expected.iter().zip(actual).map(|(a, b)| (a - b).abs()).fold(0.0, f32::max)
}

/// A device whose buffers are vectors of words.
struct Device {
    buffers: Vec<Vec<u32>>,
}

impl Device {
    fn new() -> Self {
        Device { buffers: Vec::new() }
    }

    fn at(&self, buffer: usize, i: usize) -> f32 {
        f32::from_bits(self.buffers[buffer][i])
    }

    fn word(&self, buffer: usize, i: usize) -> usize {
        self.buffers[buffer][i] as usize
    }

    fn put(&mut self, buffer: usize, i: usize, v: f32) {
        self.buffers[buffer][i] = v.to_bits();
    }

    /// Does what the context asks for.
    fn carry_out(&mut self, context: &mut GpuContext) {
        while self.buffers.len() < context.buffers.len() {
            self.buffers.push(vec![0; context.buffers[self.buffers.len()].words]);
        }
        for op in context.take_ops() {
            match op {
                GpuOp::Init { buffer, words } => self.buffers[buffer] = words,
                GpuOp::Write { buffer, words } => {
                    self.buffers[buffer][..words.len()].copy_from_slice(&words)
                }
                GpuOp::Submit(encoder) => self.submit(encoder),
                GpuOp::MapRead(_) | GpuOp::PollWait | GpuOp::Release(_) => {}
            }
        }
    }

    fn read(&self, buffers: &[usize]) -> Vec<Vec<u32>> {
        buffers.iter().map(|&b| self.buffers[b].clone()).collect()
    }

    fn submit(&mut self, encoder: GpuEncoder) {
        let mut in_pass = false;
        for command in encoder.commands {
            match command {
                GpuCommand::BeginPass => in_pass = true,
                GpuCommand::Dispatch(d) => {
                    assert!(in_pass);
                    self.dispatch(d);
                }
                GpuCommand::Copy { src, dst, dst_offset, words } => {
                    in_pass = false;
                    let part = self.buffers[src][..words].to_vec();
                    self.buffers[dst][dst_offset..dst_offset + words].copy_from_slice(&part);
                }
            }
        }
    }

    fn dispatch(&mut self, d: GpuDispatch) {
        let groups = d.workgroups as usize;
        match d.group {
            GpuBindGroup::MatVec { input, weight, output, params } => {
                let (n, out) = (self.word(params, 0), self.word(params, 1));
                for o in 0..out.min(groups * 64) {
                    let sum = (0..n).map(|i| self.at(input, i) * self.at(weight, o * n + i)).sum();
                    self.put(output, o, sum);
                }
            }
            GpuBindGroup::RmsNorm { input, weight, output, params } => {
                let (n, rows) = (self.word(params, 0), self.word(params, 1));
                let eps = self.at(params, 2);
                for r in 0..rows.min(groups) {
                    let scale = self.row_scale(input, r * n, n, eps);
                    for i in 0..n {
                        let v = self.at(input, r * n + i) * scale * self.at(weight, i);
                        self.put(output, r * n + i, v);
                    }
                }
            }
            GpuBindGroup::RmsNormRope { input, weight, inv_freq, output, params, position } => {
                let (n, rows, half) =
                    (self.word(params, 0), self.word(params, 1), self.word(params, 2));
                let eps = self.at(params, 3);
                let pos = self.word(position, 0) as f32;
                for r in 0..rows.min(groups) {
                    let base = r * n;
                    let scale = self.row_scale(input, base, n, eps);
                    for i in 0..half {
                        let (sin, cos) = (pos * self.at(inv_freq, i)).sin_cos();
                        let x1 = self.at(input, base + i) * scale * self.at(weight, i);
                        let x2 = self.at(input, base + i + half) * scale * self.at(weight, i + half);
                        self.put(output, base + i, x1 * cos - x2 * sin);
                        self.put(output, base + i + half, x1 * sin + x2 * cos);
                    }
                }
            }
            GpuBindGroup::KvAppend { input, cache, params, position } => {
                let (n, heads, max_len) =
                    (self.word(params, 0), self.word(params, 1), self.word(params, 2));
                let pos = self.word(position, 0);
                for h in 0..heads.min(groups) {
                    for i in 0..n {
                        let v = self.at(input, h * n + i);
                        self.put(cache, h * max_len * n + pos * n + i, v);
                    }
                }
            }
            GpuBindGroup::DecodeGqaAttention { q, key, value, output, params, position } => {
                let (heads, n, max_len, group) = (
                    self.word(params, 0),
                    self.word(params, 2),
                    self.word(params, 3),
                    self.word(params, 4),
                );
                let scale = self.at(params, 5);
                let len = self.word(position, 0) + 1;
                if d.pipeline == GpuPipeline::DecodeGqaAttention {
                    assert!(len <= 2048);
                }
                for h in 0..heads.min(groups) {
                    let base = (h / group) * max_len * n;
                    let scores: Vec<f32> = (0..len)
                        .map(|p| {
                            let dot: f32 = (0..n)
                                .map(|i| self.at(q, h * n + i) * self.at(key, base + p * n + i))
                                .sum();
                            dot * scale
                        })
                        .collect();
                    let most = scores.iter().cloned().fold(f32::MIN, f32::max);
                    let weights: Vec<f32> = scores.iter().map(|s| (s - most).exp()).collect();
                    let sum: f32 = weights.iter().sum();
                    for i in 0..n {
                        let acc: f32 =
                            (0..len).map(|p| weights[p] * self.at(value, base + p * n + i)).sum();
                        self.put(output, h * n + i, acc / sum);
                    }
                }
            }
            GpuBindGroup::ResidualAdd { lhs, rhs, output, params } => {
                for i in 0..self.word(params, 0).min(groups * 64) {
                    let v = self.at(lhs, i) + self.at(rhs, i);
                    self.put(output, i, v);
                }
            }
            GpuBindGroup::Q8MatVec { input, qweight, scales, output, params } => {
                let (n, out, width, offset) = (
                    self.word(params, 0),
                    self.word(params, 1),
                    self.word(params, 2),
                    self.word(params, 3),
                );
                if d.pipeline == GpuPipeline::Q8MatVecVec4 {
                    assert_eq!(n % 4, 0);
                }
                for o in 0..out.min(groups) {
                    let v = self.q8_row(input, qweight, o * width, n) * self.at(scales, o);
                    self.put(output, offset + o, v);
                }
            }
            GpuBindGroup::Argmax { input, qweight, scales, result, params } => {
                let (n, out, width, offset) = (
                    self.word(params, 0),
                    self.word(params, 1),
                    self.word(params, 2),
                    self.word(params, 3),
                );
                for g in 0..groups {
                    let mut best = (offset, f32::MIN);
                    for o in g * 64..out.min((g + 1) * 64) {
                        let v = self.q8_row(input, qweight, o * width, n) * self.at(scales, o);
                        if v > best.1 {
                            best = (offset + o, v);
                        }
                    }
                    self.buffers[result][2 * g] = best.0 as u32;
                    self.put(result, 2 * g + 1, best.1);
                }
            }
            GpuBindGroup::SwiGlu { gate, up, output, params } => {
                let (offset, count) = (self.word(params, 0), self.word(params, 1));
                for i in 0..count.min(groups * 64) {
                    let g = self.at(gate, i);
                    let v = g / (1.0 + (-g).exp()) * self.at(up, i);
                    self.put(output, offset + i, v);
                }
            }
        }
    }

    fn row_scale(&self, input: usize, base: usize, n: usize, eps: f32) -> f32 {
        let sum: f32 = (0..n).map(|i| self.at(input, base + i) * self.at(input, base + i)).sum();
        1.0 / (sum / n as f32 + eps).sqrt()
    }

    fn q8_row(&self, input: usize, qweight: usize, base: usize, n: usize) -> f32 {
        (0..n)
            .map(|i| {
                let byte = (self.word(qweight, base + i / 4) >> (8 * (i % 4))) as u8;
                self.at(input, i) * (byte as i8) as f32
            })
            .sum()
    }
}

fn device() -> (GpuContext, Device) {
    (GpuContext::new(1, 1 << 28, 1 << 27), Device::new())
}

fn rms_norm(x: &[f32], weight: &[f32]) -> Vec<f32> {
    x.chunks(weight.len())
        .flat_map(|row| {
            let mean = row.iter().map(|v| v * v).sum::<f32>() / row.len() as f32;
            let scale = 1.0 / (mean + EPS).sqrt();
            row.iter().zip(weight).map(move |(v, w)| v * scale * w).collect::<Vec<f32>>()
        })
        .collect()
}

fn rope(x: &mut [f32], head_dim: usize, pos: usize, inv_freq: &[f32]) {
    let half = head_dim / 2;
    for head in x.chunks_mut(head_dim) {
        for i in 0..half {
            let (sin, cos) = (pos as f32 * inv_freq[i]).sin_cos();
            let (a, b) = (head[i], head[i + half]);
            head[i] = a * cos - b * sin;
            head[i + half] = a * sin + b * cos;
        }
    }
}

fn attend(
    q: &[f32],
    key: &[f32],
    value: &[f32],
    heads: usize,
    kv_heads: usize,
    len: usize,
    max_len: usize,
    scale: f32,
) -> Vec<f32> {
    let n = q.len() / heads;
    let mut out = vec![0.0; q.len()];
    for h in 0..heads {
        let base = h / (heads / kv_heads) * max_len * n;
        let scores: Vec<f32> = (0..len)
            .map(|p| (0..n).map(|i| q[h * n + i] * key[base + p * n + i]).sum::<f32>() * scale)
            .collect();
        let most = scores.iter().cloned().fold(f32::NEG_INFINITY, f32::max);
        let sum: f32 = scores.iter().map(|s| (s - most).exp()).sum();
        for p in 0..len {
            let w = (scores[p] - most).exp() / sum;
            for i in 0..n {
                out[h * n + i] += w * value[base + p * n + i];
            }
        }
    }
    out
}

fn linear(x: &[f32], weight: &[u16], out: usize) -> Vec<f32> {
    let n = x.len();
    (0..out)
        .map(|o| (0..n).map(|i| x[i] * f16::from_bits(weight[o * n + i]).to_f32()).sum())
        .collect()
}

fn linear_q8(x: &[f32], w: &Q8LinearWeight) -> Vec<f32> {
    let n = w.in_features;
    (0..w.out_features)
        .map(|o| {
            let dot: f32 = (0..n).map(|i| x[i] * w.qweight[o * n + i] as f32).sum();
            dot * f32::from_bits(w.scales[o])
        })
        .collect()
}

fn quantized(weight: &[f32], out_features: usize, in_features: usize) -> Q8LinearWeight {
    let mut qweight = Vec::new();
    let mut scales = Vec::new();
    for row in weight.chunks(in_features) {
        let most = row.iter().fold(0.0f32, |m, v| m.max(v.abs()));
        let scale = if most == 0.0 { 1.0 } else { most / 127.0 };
        scales.push(scale.to_bits());
        qweight.extend(row.iter().map(|v| (v / scale).round().clamp(-127.0, 127.0) as i8));
    }
    Q8LinearWeight { qweight, scales, out_features, in_features }
}

fn silu_mul(gate: &[f32], up: &[f32]) -> Vec<f32> {
    gate.iter().zip(up).map(|(g, u)| g / (1.0 + (-g).exp()) * u).collect()
}

#[test]
fn gpu_rms_norm_matches_cpu_when_available() {
    let (mut context, mut device) = device();
    let x = tensor(&[2, 4], &[0.25, -0.5, 2.0, 1.5, -1.0, 0.75, 0.5, -0.25]);
    let weight = tensor(&[4], &[1.0, 0.5, -0.75, 1.25]);
    let cpu = rms_norm(&values_of(&x), &values_of(&weight));
    let gpu = GpuRmsNorm::with_context(&mut context, &weight, &[2, 4], EPS.to_bits()).unwrap();
    let readback = gpu.forward(&mut context, &x).unwrap();
    device.carry_out(&mut context);
    let got = gpu.forward_output(device.read(&[readback]).remove(0)).unwrap();
    assert!(max_abs(&cpu, &values_of(&got)) <= 1e-4);
}

#[test]
fn gpu_qk_rms_norm_rope_matches_cpu_when_available() {
    let (mut context, mut device) = device();
    let q = tensor(
        &[1, 3, 4],
        &[0.25, -0.5, 2.0, 1.5, -1.0, 0.75, 0.5, -0.25, 1.25, -1.5, 0.8, 0.1],
    );
    let k = tensor(&[1, 2, 4], &[0.6, -1.4, 1.0, 0.25, -0.5, 1.1, 0.3, -0.7]);
    let q_weight = tensor(&[4], &[1.0, 0.5, -0.75, 1.25]);
    let k_weight = tensor(&[4], &[0.75, -1.0, 1.2, 0.4]);
    let inv_freq = [1.0_f32, 0.1_f32];
    let pos = 5usize;

    let mut expected_q = rms_norm(&values_of(&q), &values_of(&q_weight));
    let mut expected_k = rms_norm(&values_of(&k), &values_of(&k_weight));
    rope(&mut expected_q, 4, pos, &inv_freq);
    rope(&mut expected_k, 4, pos, &inv_freq);

    let freqs = bits(&inv_freq);
    let gpu = GpuQkRmsNormRope::with_context(
        &mut context,
        GpuQkRmsNormRopeConfig {
            q_weight: &q_weight,
            k_weight: &k_weight,
            q_shape: &[1, 3, 4],
            k_shape: &[1, 2, 4],
            pos,
            inv_freq: &freqs,
            q_eps: EPS.to_bits(),
            k_eps: EPS.to_bits(),
        },
    )
    .unwrap();
    let (q_read, k_read) = gpu.forward(&mut context, &q, &k).unwrap();
    device.carry_out(&mut context);
    let mut parts = device.read(&[q_read, k_read]);
    let k_words = parts.remove(1);
    let (got_q, got_k) = gpu.forward_outputs(parts.remove(0), k_words).unwrap();

    assert!(max_abs(&expected_q, &values_of(&got_q)) <= 1e-4);
    assert!(max_abs(&expected_k, &values_of(&got_k)) <= 1e-4);
}

fn append(gpu: &mut GpuKvAppend, context: &mut GpuContext, position: usize, k: &[f32], v: &[f32]) {
    gpu.append_decode_one_raw(context, position, &bits(k), &bits(v)).unwrap();
}

fn compact(gpu: &GpuKvAppend, context: &mut GpuContext, device: &mut Device) -> (Tensor, Tensor) {
    let (k, v) = gpu.read_compact(context).unwrap();
    device.carry_out(context);
    let parts = device.read(&[k, v]);
    gpu.read_compact_outputs(&parts[0], &parts[1]).unwrap()
}

#[test]
fn gpu_kv_append_matches_cpu_layout_when_available() {
    let (mut context, mut device) = device();
    let mut gpu = GpuKvAppend::with_context(&mut context, 2, 2, 8).unwrap();
    append(&mut gpu, &mut context, 0, &[1.0, 2.0, 10.0, 20.0], &[3.0, 4.0, 30.0, 40.0]);
    append(&mut gpu, &mut context, 1, &[5.0, 6.0, 50.0, 60.0], &[7.0, 8.0, 70.0, 80.0]);

    let (key, value) = compact(&gpu, &mut context, &mut device);
    assert_eq!(gpu.current_len(), 2);
    assert_eq!(key.shape(), &[2, 2, 2]);
    assert_eq!(value.shape(), &[2, 2, 2]);
    assert_eq!(values_of(&key), &[1.0, 2.0, 5.0, 6.0, 10.0, 20.0, 50.0, 60.0]);
    assert_eq!(values_of(&value), &[3.0, 4.0, 7.0, 8.0, 30.0, 40.0, 70.0, 80.0]);
}

#[test]
fn gpu_kv_restore_len_truncates_without_losing_prior_cache_when_available() {
    let (mut context, mut device) = device();
    let mut gpu = GpuKvAppend::with_context(&mut context, 1, 2, 8).unwrap();
    append(&mut gpu, &mut context, 0, &[1.0, 2.0], &[3.0, 4.0]);
    append(&mut gpu, &mut context, 1, &[5.0, 6.0], &[7.0, 8.0]);
    let snapshot = gpu.snapshot_len();
    append(&mut gpu, &mut context, 2, &[9.0, 10.0], &[11.0, 12.0]);
    assert_eq!(gpu.current_len(), 3);

    gpu.restore_len(snapshot).unwrap();
    assert_eq!(gpu.current_len(), 2);
    append(&mut gpu, &mut context, 2, &[13.0, 14.0], &[15.0, 16.0]);

    let (key, value) = compact(&gpu, &mut context, &mut device);
    assert_eq!(key.shape(), &[1, 3, 2]);
    assert_eq!(value.shape(), &[1, 3, 2]);
    assert_eq!(values_of(&key), &[1.0, 2.0, 5.0, 6.0, 13.0, 14.0]);
    assert_eq!(values_of(&value), &[3.0, 4.0, 7.0, 8.0, 15.0, 16.0]);
}

#[test]
fn gpu_decode_gqa_attention_matches_cpu_when_available() {
    let (mut context, mut device) = device();
    let (num_heads, num_kv_heads, head_dim, max_len, seq_len_k) = (4, 2, 2, 5, 3);
    let q = [0.2f32, -0.4, 1.0, 0.5, -0.3, 0.7, 0.9, -0.2];
    let mut key = vec![0.0f32; num_kv_heads * max_len * head_dim];
    let mut value = vec![0.0f32; num_kv_heads * max_len * head_dim];
    key[0..6].copy_from_slice(&[1.0, 2.0, 3.0, 4.0, 5.0, 6.0]);
    key[10..16].copy_from_slice(&[10.0, 20.0, 30.0, 40.0, 50.0, 60.0]);
    value[0..6].copy_from_slice(&[0.5, 1.5, 2.5, 3.5, 4.5, 5.5]);
    value[10..16].copy_from_slice(&[6.0, 7.0, 8.0, 9.0, 10.0, 11.0]);
    let scale = 1.0 / (head_dim as f32).sqrt();
    let expected = attend(&q, &key, &value, num_heads, num_kv_heads, seq_len_k, max_len, scale);

    let gpu = GpuDecodeGqaAttention::with_context(
        &mut context,
        GpuDecodeGqaAttentionConfig {
            num_heads,
            num_kv_heads,
            head_dim,
            max_len,
            scale: scale.to_bits(),
        },
    )
    .unwrap();
    let read = gpu
        .forward_raw(&mut context, &bits(&q), &bits(&key), &bits(&value), seq_len_k)
        .unwrap();
    device.carry_out(&mut context);
    let got = floats(&device.read(&[read])[0]);
    assert!(max_abs(&expected, &got) <= 1e-4);
}

#[test]
fn gpu_decode_gqa_attention_long_context_uses_serial_fallback_when_available() {
    let (mut context, mut device) = device();
    let (num_heads, num_kv_heads, head_dim) = (2, 1, 2);
    let max_len = DECODE_GQA_ATTENTION_PARALLEL_MAX_SEQ_LEN + 2;
    let seq_len_k = DECODE_GQA_ATTENTION_PARALLEL_MAX_SEQ_LEN + 1;
    let q = [0.2f32, -0.4, 0.7, 0.1];
    let mut key = vec![0.0f32; num_kv_heads * max_len * head_dim];
    let mut value = vec![0.0f32; num_kv_heads * max_len * head_dim];
    for pos in 0..seq_len_k {
        let base = pos * head_dim;
        key[base] = ((pos % 17) as f32 - 8.0) * 0.01;
        key[base + 1] = ((pos % 23) as f32 - 11.0) * 0.01;
        value[base] = ((pos % 29) as f32 - 14.0) * 0.02;
        value[base + 1] = ((pos % 31) as f32 - 15.0) * 0.02;
    }
    let scale = 1.0 / (head_dim as f32).sqrt();
    let expected = attend(&q, &key, &value, num_heads, num_kv_heads, seq_len_k, max_len, scale);

    let gpu = GpuDecodeGqaAttention::with_context(
        &mut context,
        GpuDecodeGqaAttentionConfig {
            num_heads,
            num_kv_heads,
            head_dim,
            max_len,
            scale: scale.to_bits(),
        },
    )
    .unwrap();
    let read = gpu
        .forward_raw(&mut context, &bits(&q), &bits(&key), &bits(&value), seq_len_k)
        .unwrap();
    device.carry_out(&mut context);
    let got = floats(&device.read(&[read])[0]);
    assert!(max_abs(&expected, &got) <= 1e-4);
}

#[test]
fn gpu_residual_add_matches_cpu_when_available() {
    let (mut context, mut device) = device();
    let lhs = tensor(&[1, 4], &[0.25, -0.5, 2.0, 1.5]);
    let rhs = tensor(&[1, 4], &[1.0, 0.75, -0.5, 0.25]);
    let expected: Vec<f32> =
        values_of(&lhs).iter().zip(values_of(&rhs)).map(|(a, b)| a + b).collect();
    let gpu = GpuResidualAdd::with_context(&mut context, &[1, 4]).unwrap();
    let read = gpu.forward(&mut context, &lhs, &rhs).unwrap();
    device.carry_out(&mut context);
    let got = gpu.forward_output(device.read(&[read]).remove(0)).unwrap();
    assert!(max_abs(&expected, &values_of(&got)) <= 1e-6);
}

fn read_back(context: &mut GpuContext, device: &mut Device, b: &GpuResidentBuffer) -> Tensor {
    let read = b.read_back(context);
    device.carry_out(context);
    let words = device.read(&[read]).remove(0);
    b.read_back_output(context, read, words).unwrap()
}

fn assert_one_readback(stats: GpuSyncStats) {
    assert_eq!(stats.submits, 2, "expected one compute submit + one final readback submit");
    assert_eq!(stats.poll_waits, 1, "expected only final readback poll");
    assert_eq!(stats.map_reads, 1, "expected only final readback map");
}

#[test]
fn resident_rmsnorm_then_residual_add_avoids_mid_readback_when_available() {
    let (mut context, mut device) = device();
    let c = &mut context;
    let input = tensor(&[1, 4], &[0.25, -0.5, 2.0, 1.5]);
    let residual = tensor(&[1, 4], &[1.0, 0.75, -0.5, 0.25]);
    let weight = tensor(&[4], &[1.0, 0.5, -0.75, 1.25]);
    let expected: Vec<f32> = rms_norm(&values_of(&input), &values_of(&weight))
        .iter()
        .zip(values_of(&residual))
        .map(|(a, b)| a + b)
        .collect();

    let resident_input = GpuResidentBuffer::from_tensor(c, &input).unwrap();
    let resident_residual = GpuResidentBuffer::from_tensor(c, &residual).unwrap();
    let resident_norm = GpuResidentBuffer::with_context(c, &[1, 4]).unwrap();
    let resident_output = GpuResidentBuffer::with_context(c, &[1, 4]).unwrap();
    let gpu_norm = GpuRmsNorm::with_context(c, &weight, &[1, 4], EPS.to_bits()).unwrap();
    let gpu_add = GpuResidualAdd::with_context(c, &[1, 4]).unwrap();

    reset_sync_stats(c);
    let mut encoder = c.create_command_encoder();
    gpu_norm.encode_resident(&mut encoder, &resident_input, &resident_norm).unwrap();
    gpu_add
        .encode_resident(&mut encoder, &resident_norm, &resident_residual, &resident_output)
        .unwrap();
    c.submit(encoder);

    let got = read_back(c, &mut device, &resident_output);
    assert_one_readback(sync_stats(c));
    assert!(max_abs(&expected, &values_of(&got)) <= 1e-4);
}

#[test]
fn resident_qk_kv_attention_chain_avoids_mid_readback_when_available() {
    let (mut context, mut device) = device();
    let c = &mut context;
    let q = tensor(&[1, 2, 2], &[0.25, -0.5, 1.0, 0.75]);
    let k = tensor(&[1, 1, 2], &[0.6, -1.4]);
    let v = tensor(&[1, 2], &[1.5, -0.25]);
    let residual = tensor(&[1, 2, 2], &[0.1, 0.2, -0.3, 0.4]);
    let q_weight = tensor(&[2], &[1.0, 0.5]);
    let k_weight = tensor(&[2], &[0.75, -1.0]);
    let inv_freq = [1.0_f32];
    let pos = 1usize;
    let max_len = 4usize;

    let mut expected_q = rms_norm(&values_of(&q), &values_of(&q_weight));
    let mut expected_k = rms_norm(&values_of(&k), &values_of(&k_weight));
    rope(&mut expected_q, 2, pos, &inv_freq);
    rope(&mut expected_k, 2, pos, &inv_freq);

    let mut key_cache = vec![0.0f32; max_len * 2];
    let mut value_cache = vec![0.0f32; max_len * 2];
    key_cache[0..2].copy_from_slice(&[0.2, 0.4]);
    value_cache[0..2].copy_from_slice(&[0.3, 0.9]);
    let (first_keys, first_values) = (key_cache.clone(), value_cache.clone());
    key_cache[pos * 2..(pos + 1) * 2].copy_from_slice(&expected_k);
    value_cache[pos * 2..(pos + 1) * 2].copy_from_slice(&values_of(&v));
    let scale = 1.0 / (2.0f32).sqrt();
    let expected: Vec<f32> =
        attend(&expected_q, &key_cache, &value_cache, 2, 1, pos + 1, max_len, scale)
            .iter()
            .zip(values_of(&residual))
            .map(|(a, b)| a + b)
            .collect();

    let resident_q = GpuResidentBuffer::from_tensor(c, &q).unwrap();
    let resident_k = GpuResidentBuffer::from_tensor(c, &k).unwrap();
    let resident_v = GpuResidentBuffer::from_tensor(c, &v).unwrap();
    let resident_residual = GpuResidentBuffer::from_tensor(c, &residual).unwrap();
    let resident_q_out = GpuResidentBuffer::with_context(c, &[1, 2, 2]).unwrap();
    let resident_k_out = GpuResidentBuffer::with_context(c, &[1, 1, 2]).unwrap();
    let resident_key_cache =
        GpuResidentBuffer::from_tensor(c, &tensor(&[1, max_len, 2], &first_keys)).unwrap();
    let resident_value_cache =
        GpuResidentBuffer::from_tensor(c, &tensor(&[1, max_len, 2], &first_values)).unwrap();
    let resident_attention = GpuResidentBuffer::with_context(c, &[1, 2, 2]).unwrap();
    let resident_output = GpuResidentBuffer::with_context(c, &[1, 2, 2]).unwrap();

    let freqs = bits(&inv_freq);
    let qk_gpu = GpuQkRmsNormRope::with_context(
        c,
        GpuQkRmsNormRopeConfig {
            q_weight: &q_weight,
            k_weight: &k_weight,
            q_shape: &[1, 2, 2],
            k_shape: &[1, 1, 2],
            pos,
            inv_freq: &freqs,
            q_eps: EPS.to_bits(),
            k_eps: EPS.to_bits(),
        },
    )
    .unwrap();
    let mut kv_gpu = GpuKvAppend::with_context(c, 1, 2, max_len).unwrap();
    kv_gpu.restore_len(pos).unwrap();
    let attn_gpu = GpuDecodeGqaAttention::with_context(
        c,
        GpuDecodeGqaAttentionConfig {
            num_heads: 2,
            num_kv_heads: 1,
            head_dim: 2,
            max_len,
            scale: scale.to_bits(),
        },
    )
    .unwrap();
    let add_gpu = GpuResidualAdd::with_context(c, &[1, 2, 2]).unwrap();

    reset_sync_stats(c);
    let mut encoder = c.create_command_encoder();
    qk_gpu
        .encode_resident(&mut encoder, &resident_q, &resident_k, &resident_q_out, &resident_k_out)
        .unwrap();
    kv_gpu
        .encode_resident(
            c,
            &mut encoder,
            pos,
            &resident_k_out,
            &resident_v,
            &resident_key_cache,
            &resident_value_cache,
        )
        .unwrap();
    attn_gpu
        .encode_resident(
            c,
            &mut encoder,
            &resident_q_out,
            &resident_key_cache,
            &resident_value_cache,
            &resident_attention,
            pos,
        )
        .unwrap();
    add_gpu
        .encode_resident(&mut encoder, &resident_attention, &resident_residual, &resident_output)
        .unwrap();
    c.submit(encoder);

    let got = read_back(c, &mut device, &resident_output);
    assert_one_readback(sync_stats(c));
    assert!(max_abs(&expected, &values_of(&got)) <= 1e-4);
}

#[test]
fn resident_q8_matvec_then_residual_add_avoids_mid_readback_when_available() {
    let (mut context, mut device) = device();
    let c = &mut context;
    let q8 = quantized(&[0.5, -1.0, 1.5, 0.25, -0.75, 0.5], 3, 2);
    let x = tensor(&[1, 2], &[0.6, -1.4]);
    let residual = tensor(&[1, 3], &[0.1, 0.2, -0.3]);
    let expected: Vec<f32> = linear_q8(&values_of(&x), &q8)
        .iter()
        .zip(values_of(&residual))
        .map(|(a, b)| a + b)
        .collect();

    let resident_input = GpuResidentBuffer::from_tensor(c, &x).unwrap();
    let resident_residual = GpuResidentBuffer::from_tensor(c, &residual).unwrap();
    let resident_matvec = GpuResidentBuffer::with_context(c, &[1, 3]).unwrap();
    let resident_output = GpuResidentBuffer::with_context(c, &[1, 3]).unwrap();
    let gpu_matvec = GpuQ8MatVec::from_q8_weight_with_context(c, &q8).unwrap();
    let gpu_add = GpuResidualAdd::with_context(c, &[1, 3]).unwrap();

    reset_sync_stats(c);
    let mut encoder = c.create_command_encoder();
    gpu_matvec.encode_resident(&mut encoder, &resident_input, &resident_matvec).unwrap();
    gpu_add
        .encode_resident(&mut encoder, &resident_matvec, &resident_residual, &resident_output)
        .unwrap();
    c.submit(encoder);

    let got = read_back(c, &mut device, &resident_output);
    assert_one_readback(sync_stats(c));
    assert!(max_abs(&expected, &values_of(&got)) <= 1e-4);
}

fn run_half(context: &mut GpuContext, device: &mut Device, gpu: &GpuMatVec, x: &Tensor) -> Vec<f32> {
    let buffers = gpu.forward(context, x).unwrap();
    device.carry_out(context);
    values_of(&gpu.forward_output(&device.read(&buffers)).unwrap())
}

#[test]
fn gpu_matvec_matches_cpu_for_small_tensor_when_available() {
    let (mut context, mut device) = device();
    let weight = halves(&[1.0, 2.0, 3.0, 4.0, -1.0, 0.5]);
    let x = tensor(&[1, 3], &[0.25, -0.5, 2.0]);
    let cpu = linear(&values_of(&x), &weight, 2);
    let gpu = GpuMatVec::from_f16_weight_with_context(&mut context, &weight, 2, 3).unwrap();
    let got = run_half(&mut context, &mut device, &gpu, &x);
    assert!(max_abs(&cpu, &got) <= 1e-4);
}

#[test]
fn gpu_q8_matvec_matches_cpu_q8_when_available() {
    let (mut context, mut device) = device();
    let weight = [0.5, -1.0, 1.5, 0.25, -0.75, 0.5, 1.25, -0.125, 0.875, -1.5];
    let q8 = quantized(&weight, 2, 5);
    let x = tensor(&[1, 5], &[0.6, -1.4, 1.0, 0.25, -0.5]);
    let cpu = linear_q8(&values_of(&x), &q8);
    let gpu = GpuQ8MatVec::from_q8_weight_with_context(&mut context, &q8).unwrap();
    let buffers = gpu.forward(&mut context, &x).unwrap();
    device.carry_out(&mut context);
    let got = gpu.forward_output(&device.read(&buffers)).unwrap();
    assert!(max_abs(&cpu, &values_of(&got)) <= 1e-4);
}

#[test]
fn gpu_q8_argmax_matches_cpu_q8_when_available() {
    let (mut context, mut device) = device();
    let weight = [
        0.5, -1.0, 1.5, 0.25, -0.75, 0.5, 1.25, -0.125, 0.875, -1.5, 2.0, 0.25, -0.5, 1.0, 0.75,
    ];
    let q8 = quantized(&weight, 3, 5);
    let x = tensor(&[1, 5], &[0.6, -1.4, 1.0, 0.25, -0.5]);
    let cpu = linear_q8(&values_of(&x), &q8);
    let expected = cpu
        .iter()
        .enumerate()
        .max_by(|(_, a), (_, b)| a.partial_cmp(b).unwrap_or(std::cmp::Ordering::Equal))
        .map(|(idx, _)| idx as u32)
        .unwrap();
    let gpu = GpuQ8MatVec::from_q8_weight_with_context(&mut context, &q8).unwrap();
    let buffers = gpu.forward_argmax(&mut context, &x).unwrap();
    device.carry_out(&mut context);
    assert_eq!(gpu.forward_argmax_output(&device.read(&buffers)).unwrap(), expected);
}

#[test]
fn q8_batched_same_input_matvecs_match_cpu_when_available() {
    let (mut context, mut device) = device();
    let c = &mut context;
    let x = tensor(&[1, 2], &[0.75, -1.25]);
    let q8_a = quantized(&[1.0, 2.0, 3.0, 4.0], 2, 2);
    let q8_b = quantized(&[-1.0, 0.5, 2.0, -0.25], 2, 2);
    let cpu_a = linear_q8(&values_of(&x), &q8_a);
    let cpu_b = linear_q8(&values_of(&x), &q8_b);
    let gpu_a = GpuQ8MatVec::from_q8_weight_with_context(c, &q8_a).unwrap();
    let gpu_b = GpuQ8MatVec::from_q8_weight_with_context(c, &q8_b).unwrap();
    let list = [&gpu_a, &gpu_b];
    let buffers = GpuQ8MatVec::forward_many_same_input(c, &list, &x).unwrap();
    device.carry_out(c);
    let outputs = GpuQ8MatVec::forward_many_outputs(&list, &device.read(&buffers)).unwrap();

    assert_eq!(outputs.len(), 2);
    assert!(max_abs(&cpu_a, &values_of(&outputs[0])) <= 1e-4);
    assert!(max_abs(&cpu_b, &values_of(&outputs[1])) <= 1e-4);
}

#[test]
fn q8_shared_input_batch_matches_cpu_when_available() {
    let (mut context, mut device) = device();
    let c = &mut context;
    let x = tensor(&[1, 2], &[0.75, -1.25]);
    let q8_a = quantized(&[1.0, 2.0, 3.0, 4.0], 2, 2);
    let q8_b = quantized(&[-1.0, 0.5, 2.0, -0.25], 2, 2);
    let cpu_a = linear_q8(&values_of(&x), &q8_a);
    let cpu_b = linear_q8(&values_of(&x), &q8_b);
    let gpu_a = GpuQ8MatVec::from_q8_weight_with_context(c, &q8_a).unwrap();
    let gpu_b = GpuQ8MatVec::from_q8_weight_with_context(c, &q8_b).unwrap();
    let list = [&gpu_a, &gpu_b];
    let batch = GpuQ8SameInputBatch::new(c, &list).unwrap();
    let buffers = batch.forward(c, &list, &x).unwrap();
    device.carry_out(c);
    let outputs = GpuQ8MatVec::forward_many_outputs(&list, &device.read(&buffers)).unwrap();

    assert_eq!(outputs.len(), 2);
    assert!(max_abs(&cpu_a, &values_of(&outputs[0])) <= 1e-4);
    assert!(max_abs(&cpu_b, &values_of(&outputs[1])) <= 1e-4);
}

#[test]
fn q8_shared_input_batch_survives_released_standalone_resources_when_available() {
    let (mut context, mut device) = device();
    let c = &mut context;
    let x = tensor(&[1, 2], &[0.75, -1.25]);
    let q8_a = quantized(&[1.0, 2.0, 3.0, 4.0], 2, 2);
    let q8_b = quantized(&[-1.0, 0.5, 2.0, -0.25], 2, 2);
    let cpu_a = linear_q8(&values_of(&x), &q8_a);
    let cpu_b = linear_q8(&values_of(&x), &q8_b);
    let mut gpu_a =
        GpuQ8MatVec::from_q8_weight_with_context_and_argmax(c, &q8_a, false).unwrap();
    let mut gpu_b =
        GpuQ8MatVec::from_q8_weight_with_context_and_argmax(c, &q8_b, false).unwrap();
    let batch = GpuQ8SameInputBatch::new(c, &[&gpu_a, &gpu_b]).unwrap();
    gpu_a.release_standalone_forward_resources(true);
    gpu_b.release_standalone_forward_resources(true);

    assert!(GpuQ8MatVec::forward_many_same_input(c, &[&gpu_a], &x).is_err());
    let list = [&gpu_a, &gpu_b];
    let buffers = batch.forward(c, &list, &x).unwrap();
    device.carry_out(c);
    let outputs = GpuQ8MatVec::forward_many_outputs(&list, &device.read(&buffers)).unwrap();

    assert_eq!(outputs.len(), 2);
    assert!(max_abs(&cpu_a, &values_of(&outputs[0])) <= 1e-4);
    assert!(max_abs(&cpu_b, &values_of(&outputs[1])) <= 1e-4);
}

#[test]
fn shared_context_can_drive_multiple_matvecs_when_available() {
    let (mut context, mut device) = device();
    let weight_a = halves(&[1.0, 0.0, 0.5, -1.0]);
    let weight_b = halves(&[-0.25, 2.0, 1.5, 0.25]);
    let x = tensor(&[1, 2], &[2.0, -1.0]);
    let cpu_a = linear(&values_of(&x), &weight_a, 2);
    let cpu_b = linear(&values_of(&x), &weight_b, 2);
    let gpu_a = GpuMatVec::from_f16_weight_with_context(&mut context, &weight_a, 2, 2).unwrap();
    let got_a = run_half(&mut context, &mut device, &gpu_a, &x);
    let gpu_b = GpuMatVec::from_f16_weight_with_context(&mut context, &weight_b, 2, 2).unwrap();
    let got_b = run_half(&mut context, &mut device, &gpu_b, &x);

    assert!(max_abs(&cpu_a, &got_a) <= 1e-4);
    assert!(max_abs(&cpu_b, &got_b) <= 1e-4);
}

#[test]
fn batched_same_input_matvecs_match_cpu_when_available() {
    let (mut context, mut device) = device();
    let c = &mut context;
    let weight_a = halves(&[1.0, 2.0, 3.0, 4.0]);
    let weight_b = halves(&[-1.0, 0.5, 2.0, -0.25]);
    let x = tensor(&[1, 2], &[0.75, -1.25]);
    let cpu_a = linear(&values_of(&x), &weight_a, 2);
    let cpu_b = linear(&values_of(&x), &weight_b, 2);
    let gpu_a = GpuMatVec::from_f16_weight_with_context(c, &weight_a, 2, 2).unwrap();
    let gpu_b = GpuMatVec::from_f16_weight_with_context(c, &weight_b, 2, 2).unwrap();
    let list = [&gpu_a, &gpu_b];
    let buffers = GpuMatVec::forward_many_same_input(c, &list, &x).unwrap();
    device.carry_out(c);
    let outputs = GpuMatVec::forward_many_outputs(&list, &device.read(&buffers)).unwrap();

    assert_eq!(outputs.len(), 2);
    assert!(max_abs(&cpu_a, &values_of(&outputs[0])) <= 1e-4);
    assert!(max_abs(&cpu_b, &values_of(&outputs[1])) <= 1e-4);
}

const GATE: [f32; 6] = [0.5, -1.0, 1.5, 0.25, -0.75, 0.5];
const UP: [f32; 6] = [1.0, 0.25, -0.5, 0.75, 1.25, -1.0];
const DOWN: [f32; 6] = [0.5, -0.25, 1.0, -1.5, 0.75, 0.25];

#[test]
fn fused_swiglu_down_matches_cpu_when_available() {
    let (mut context, mut device) = device();
    let c = &mut context;
    let (gate_weight, up_weight, down_weight) = (halves(&GATE), halves(&UP), halves(&DOWN));
    let x = tensor(&[1, 2], &[0.6, -1.4]);
    let gate = linear(&values_of(&x), &gate_weight, 3);
    let up = linear(&values_of(&x), &up_weight, 3);
    let cpu = linear(&silu_mul(&gate, &up), &down_weight, 2);

    let gate_gpu = GpuMatVec::from_f16_weight_with_context(c, &gate_weight, 3, 2).unwrap();
    let up_gpu = GpuMatVec::from_f16_weight_with_context(c, &up_weight, 3, 2).unwrap();
    let down_gpu = GpuMatVec::from_f16_weight_with_context(c, &down_weight, 2, 3).unwrap();
    let fused = GpuSwiGluDown::new(c, &gate_gpu, &up_gpu, &down_gpu).unwrap();
    let buffers = fused.forward(c, &gate_gpu, &up_gpu, &down_gpu, &x).unwrap();
    device.carry_out(c);
    let got = down_gpu.forward_output(&device.read(&buffers)).unwrap();
    assert!(max_abs(&cpu, &values_of(&got)) <= 1e-4);

    let buffers =
        GpuMatVec::forward_swiglu_down_same_input(c, &gate_gpu, &up_gpu, &down_gpu, &x).unwrap();
    device.carry_out(c);
    let got = down_gpu.forward_output(&device.read(&buffers)).unwrap();
    assert!(max_abs(&cpu, &values_of(&got)) <= 1e-4);
}

fn q8_mlp(x: &Tensor, gate: &Q8LinearWeight, up: &Q8LinearWeight, down: &Q8LinearWeight) -> Vec<f32> {
    let gate = linear_q8(&values_of(x), gate);
    let up = linear_q8(&values_of(x), up);
    linear_q8(&silu_mul(&gate, &up), down)
}

#[test]
fn q8_fused_swiglu_down_matches_cpu_q8_when_available() {
    let (mut context, mut device) = device();
    let c = &mut context;
    let gate_q8 = quantized(&GATE, 3, 2);
    let up_q8 = quantized(&UP, 3, 2);
    let down_q8 = quantized(&DOWN, 2, 3);
    let x = tensor(&[1, 2], &[0.6, -1.4]);
    let cpu = q8_mlp(&x, &gate_q8, &up_q8, &down_q8);

    let gate_gpu = GpuQ8MatVec::from_q8_weight_with_context(c, &gate_q8).unwrap();
    let up_gpu = GpuQ8MatVec::from_q8_weight_with_context(c, &up_q8).unwrap();
    let down_gpu = GpuQ8MatVec::from_q8_weight_with_context(c, &down_q8).unwrap();
    let fused = GpuQ8SwiGluDown::new(c, &gate_gpu, &up_gpu, &down_gpu).unwrap();
    let buffers = fused.forward(c, &gate_gpu, &up_gpu, &down_gpu, &x).unwrap();
    device.carry_out(c);
    let got = down_gpu.forward_output(&device.read(&buffers)).unwrap();
    assert!(max_abs(&cpu, &values_of(&got)) <= 1e-4);
}

#[test]
fn q8_fused_swiglu_down_survives_released_gate_up_resources_when_available() {
    let (mut context, mut device) = device();
    let c = &mut context;
    let gate_q8 = quantized(&GATE, 3, 2);
    let up_q8 = quantized(&UP, 3, 2);
    let down_q8 = quantized(&DOWN, 2, 3);
    let x = tensor(&[1, 2], &[0.6, -1.4]);
    let cpu = q8_mlp(&x, &gate_q8, &up_q8, &down_q8);

    let mut gate_gpu =
        GpuQ8MatVec::from_q8_weight_with_context_and_argmax(c, &gate_q8, false).unwrap();
    let mut up_gpu =
        GpuQ8MatVec::from_q8_weight_with_context_and_argmax(c, &up_q8, false).unwrap();
    let down_gpu =
        GpuQ8MatVec::from_q8_weight_with_context_and_argmax(c, &down_q8, false).unwrap();
    let fused = GpuQ8SwiGluDown::new(c, &gate_gpu, &up_gpu, &down_gpu).unwrap();
    gate_gpu.release_standalone_forward_resources(false);
    up_gpu.release_standalone_forward_resources(false);

    assert!(gate_gpu.forward(c, &x).is_err());
    let buffers = fused.forward(c, &gate_gpu, &up_gpu, &down_gpu, &x).unwrap();
    device.carry_out(c);
    let got = down_gpu.forward_output(&device.read(&buffers)).unwrap();
    assert!(max_abs(&cpu, &values_of(&got)) <= 1e-4);
}

#[test]
fn a_matrix_beyond_the_limit_is_cut_into_chunks() {
    // Sixteen bytes hold one row of four products.
    let mut context = GpuContext::new(3, 16, 16);
    let mut device = Device::new();
    let weight: Vec<f32> = (0..20).map(|i| i as f32 * 0.25 - 2.0).collect();
    let weight = halves(&weight);
    let x = tensor(&[1, 4], &[1.0, -1.0, 0.5, 2.0]);
    let cpu = linear(&values_of(&x), &weight, 5);
    let gpu = GpuMatVec::from_f16_weight_with_context(&mut context, &weight, 5, 4).unwrap();
    assert_eq!(gpu.chunks.len(), 5);
    let got = run_half(&mut context, &mut device, &gpu, &x);
    assert!(max_abs(&cpu, &got) <= 1e-4);
}

fn spread(len: usize, step: usize) -> Vec<f32> {
    (0..len).map(|i| ((i * step) % 23) as f32 * 0.0625 - 0.6875).collect()
}

/// Runs a gated layer in eight bits on its own and on resident values, and gives the numbers of
/// chunks of its first and last matrices.
fn check_gated_layer(limit: u64, inner: usize, outputs: usize) -> (usize, usize) {
    let mut context = GpuContext::new(1, limit, limit);
    let mut device = Device::new();
    let c = &mut context;
    let gate_q8 = quantized(&spread(inner * 2, 5), inner, 2);
    let up_q8 = quantized(&spread(inner * 2, 7), inner, 2);
    let down_q8 = quantized(&spread(inner * outputs, 11), outputs, inner);
    let x = tensor(&[1, 2], &[0.6, -1.4]);
    let cpu = q8_mlp(&x, &gate_q8, &up_q8, &down_q8);

    let gate = GpuQ8MatVec::from_q8_weight_with_context(c, &gate_q8).unwrap();
    let up = GpuQ8MatVec::from_q8_weight_with_context(c, &up_q8).unwrap();
    let down = GpuQ8MatVec::from_q8_weight_with_context(c, &down_q8).unwrap();
    let fused = GpuQ8SwiGluDown::new(c, &gate, &up, &down).unwrap();
    assert_eq!(fused.groups.len(), gate.chunks.len());
    let buffers = fused.forward(c, &gate, &up, &down, &x).unwrap();
    device.carry_out(c);
    let got = down.forward_output(&device.read(&buffers)).unwrap();
    assert!(max_abs(&cpu, &values_of(&got)) <= 1e-4);

    let input = GpuResidentBuffer::from_tensor(c, &x).unwrap();
    let output = GpuResidentBuffer::with_context(c, &[1, outputs]).unwrap();
    let mut encoder = c.create_command_encoder();
    fused.encode_resident(c, &gate, &up, &down, &mut encoder, &input, &output).unwrap();
    c.submit(encoder);
    let got = read_back(c, &mut device, &output);
    assert!(max_abs(&cpu, &values_of(&got)) <= 1e-4);
    (gate.chunks.len(), down.chunks.len())
}

#[test]
fn a_gated_layer_may_be_wider_than_its_outputs() {
    assert_eq!(check_gated_layer(1 << 20, 130, 2), (1, 1));
    assert_eq!(check_gated_layer(1 << 20, 64, 65), (1, 1));
    assert_eq!(check_gated_layer(1 << 20, 65, 64), (1, 1));
}

#[test]
fn a_gated_layer_may_be_cut_into_chunks() {
    // A row of the last matrix takes 132 bytes, one of the others 4.
    assert_eq!(check_gated_layer(264, 130, 2), (2, 1));
    assert_eq!(check_gated_layer(264, 130, 5), (2, 3));
    assert_eq!(check_gated_layer(132, 130, 3), (4, 3));
}

#[test]
fn a_wide_gated_layer_in_half_precision_is_computed() {
    let mut context = GpuContext::new(1, 520, 520);
    let mut device = Device::new();
    let c = &mut context;
    let (inner, outputs) = (130, 2);
    let gate_weight = halves(&spread(inner * 2, 5));
    let up_weight = halves(&spread(inner * 2, 7));
    let down_weight = halves(&spread(inner * outputs, 11));
    let x = tensor(&[1, 2], &[0.6, -1.4]);
    let gate = linear(&values_of(&x), &gate_weight, inner);
    let up = linear(&values_of(&x), &up_weight, inner);
    let cpu = linear(&silu_mul(&gate, &up), &down_weight, outputs);

    let gate = GpuMatVec::from_f16_weight_with_context(c, &gate_weight, inner, 2).unwrap();
    let up = GpuMatVec::from_f16_weight_with_context(c, &up_weight, inner, 2).unwrap();
    let down = GpuMatVec::from_f16_weight_with_context(c, &down_weight, outputs, inner).unwrap();
    assert!(gate.chunks.len() > 1);
    let fused = GpuSwiGluDown::new(c, &gate, &up, &down).unwrap();
    let buffers = fused.forward(c, &gate, &up, &down, &x).unwrap();
    device.carry_out(c);
    let got = down.forward_output(&device.read(&buffers)).unwrap();
    assert!(max_abs(&cpu, &values_of(&got)) <= 1e-3);
}

#[test]
fn products_of_every_chunk_land_in_their_place() {
    // Eight bytes hold two rows of four eight-bit weights.
    let mut context = GpuContext::new(1, 8, 8);
    let mut device = Device::new();
    let c = &mut context;
    let x = tensor(&[1, 4], &[0.75, -1.25, 0.5, 1.0]);
    let q8_a = quantized(&spread(5 * 4, 5), 5, 4);
    let q8_b = quantized(&spread(3 * 4, 7), 3, 4);
    let gpu_a = GpuQ8MatVec::from_q8_weight_with_context(c, &q8_a).unwrap();
    let gpu_b = GpuQ8MatVec::from_q8_weight_with_context(c, &q8_b).unwrap();
    assert_eq!((gpu_a.chunks.len(), gpu_b.chunks.len()), (3, 2));
    let list = [&gpu_a, &gpu_b];
    let batch = GpuQ8SameInputBatch::new(c, &list).unwrap();
    let input = GpuResidentBuffer::from_tensor(c, &x).unwrap();
    let out_a = GpuResidentBuffer::with_context(c, &[1, 5]).unwrap();
    let out_b = GpuResidentBuffer::with_context(c, &[1, 3]).unwrap();
    let mut encoder = c.create_command_encoder();
    batch.encode_resident(c, &list, &mut encoder, &input, &[&out_a, &out_b]).unwrap();
    c.submit(encoder);
    let got = read_back(c, &mut device, &out_a);
    assert!(max_abs(&linear_q8(&values_of(&x), &q8_a), &values_of(&got)) <= 1e-4);
    let got = read_back(c, &mut device, &out_b);
    assert!(max_abs(&linear_q8(&values_of(&x), &q8_b), &values_of(&got)) <= 1e-4);
}

#[test]
fn work_that_does_not_fit_is_refused() {
    let (mut context, _) = device();
    let c = &mut context;
    let gpu = GpuMatVec::from_f16_weight_with_context(c, &halves(&[1.0, 2.0]), 1, 2).unwrap();
    let x = tensor(&[1, 3], &[0.0; 3]);
    assert!(gpu.forward(c, &x).is_err());
    assert!(GpuMatVec::from_f16_weight_with_context(c, &halves(&[1.0]), 1, 2).is_err());
    let mut kv = GpuKvAppend::with_context(c, 1, 1, 2).unwrap();
    assert!(kv.restore_len(3).is_err());
    assert!(kv.append_decode_one_raw(c, 2, &[0], &[0]).is_err());
    let norm = GpuRmsNorm::with_context(c, &tensor(&[2], &[1.0, 1.0]), &[1, 3], EPS.to_bits());
    assert!(norm.is_err());
    let a = GpuResidentBuffer::with_context(c, &[1, 2]).unwrap();
    let b = GpuResidentBuffer::with_context(c, &[1, 3]).unwrap();
    let mut encoder = c.create_command_encoder();
    assert!(a.encode_copy_to(&mut encoder, &b).is_err());
    assert!(encoder.commands.is_empty());
}

#[test]
fn each_call_is_counted_once() {
    let (mut context, _) = device();
    let c = &mut context;
    c.poll_wait();
    reset_sync_stats(c);
    assert_eq!(sync_stats(c), GpuSyncStats::default());
    let buffer = c.create_buffer(4, GpuUsage::Input);
    c.write_buffer(buffer, vec![1, 2], GpuWrite::Host);
    c.write_buffer(buffer, vec![3, 4], GpuWrite::Uncounted);
    c.write_position(buffer, 9);
    let encoder = c.create_command_encoder();
    c.submit(encoder);
    c.map_read(buffer);
    c.map_read(buffer);
    c.poll_wait();
    c.release_buffer(buffer);
    let expected = GpuSyncStats {
        submits: 1,
        poll_waits: 1,
        map_reads: 2,
        host_write_buffers: 2,
        position_write_buffers: 1,
    };
    assert_eq!(sync_stats(c), expected);
    assert_eq!(sync_stats(c), expected);
}

#[test]
fn counts_are_summed() {
    let mut sum = GpuSyncStats::default();
    let one = GpuSyncStats {
        submits: 1,
        poll_waits: 2,
        map_reads: 3,
        host_write_buffers: 4,
        position_write_buffers: 5,
    };
    sum.record(one);
    sum.record(one);
    assert_eq!(sum.submits, 2);
    assert_eq!(sum.position_write_buffers, 10);
}

fn test_config() -> Qwen3Config {
    Qwen3Config {
        hidden_size: 4,
        intermediate_size: 6,
        num_hidden_layers: 3,
        num_attention_heads: 2,
        num_key_value_heads: 1,
        explicit_head_dim: Some(2),
        vocab_size: 8,
        max_position_embeddings: 8,
        rms_norm_eps: EPS.to_bits(),
        rope_theta: 10000.0f32.to_bits(),
        model_type: "qwen3".to_string(),
        torch_dtype: "float16".to_string(),
        tie_word_embeddings: false,
        eos_token_id: 7,
        bos_token_id: Some(0),
    }
}

fn tensor_1d(values: &[f32]) -> LoadedTensor {
    LoadedTensor::Tensor(tensor(&[values.len()], values))
}

fn f16_2d(shape: &[usize], values: &[f32]) -> LoadedTensor {
    LoadedTensor::F16 { shape: shape.to_vec(), data: halves(values) }
}

fn layer_matrix_values(layer_idx: usize, rows: usize, cols: usize, scale: f32) -> Vec<f32> {
    (0..rows * cols)
        .map(|idx| {
            let row = idx / cols;
            let col = idx % cols;
            let sign = if (row + col + layer_idx) % 2 == 0 { 1.0 } else { -1.0 };
            sign * scale * (1.0 + layer_idx as f32 * 0.17 + row as f32 * 0.11 + col as f32 * 0.07)
        })
        .collect()
}

fn layer_vector_values(layer_idx: usize, len: usize, base: f32) -> Vec<f32> {
    (0..len)
        .map(|idx| {
            let sign = if (idx + layer_idx) % 2 == 0 { 1.0 } else { -1.0 };
            sign * (base + idx as f32 * 0.09 + layer_idx as f32 * 0.05)
        })
        .collect()
}

fn test_weights() -> WeightMap {
    let mut weights = WeightMap::new()
        .with(
            "model.embed_tokens.weight".to_string(),
            LoadedTensor::Tensor(tensor(
                &[8, 4],
                &[
                    0.05, -0.10, 0.15, -0.20, 0.25, 0.30, -0.35, 0.40, -0.45, 0.50, 0.55, -0.60,
                    0.65, -0.70, 0.75, 0.80, -0.85, 0.90, -0.95, 1.00, 1.05, -1.10, 1.15, -1.20,
                    1.25, 1.30, -1.35, 1.40, -1.45, 1.50, 1.55, -1.60,
                ],
            )),
        )
        .with("model.norm.weight".to_string(), tensor_1d(&[1.0, -0.8, 0.9, 1.1]))
        .with(
            "lm_head.weight".to_string(),
            f16_2d(
                &[8, 4],
                &[
                    0.30, -0.25, 0.20, -0.15, -0.10, 0.12, -0.14, 0.16, 0.18, 0.22, -0.26, 0.30,
                    -0.34, 0.38, 0.42, -0.46, 0.50, -0.54, 0.58, 0.62, -0.66, 0.70, -0.74, 0.78,
                    0.82, -0.86, 0.90, -0.94, 0.98, 1.02, -1.06, 1.10,
                ],
            ),
        );
    for i in 0..3 {
        let vectors = [
            ("input_layernorm", layer_vector_values(i, 4, 0.8)),
            ("post_attention_layernorm", layer_vector_values(i + 1, 4, 0.7)),
            ("self_attn.q_norm", layer_vector_values(i, 2, 0.9)),
            ("self_attn.k_norm", layer_vector_values(i + 1, 2, 0.75)),
        ];
        for (name, values) in vectors {
            weights = weights.with(format!("model.layers.{i}.{name}.weight"), tensor_1d(&values));
        }
        let matrices = [
            ("self_attn.q_proj", i, 4, 4, 0.12),
            ("self_attn.k_proj", i + 2, 2, 4, 0.10),
            ("self_attn.v_proj", i + 4, 2, 4, 0.11),
            ("self_attn.o_proj", i + 6, 4, 4, 0.09),
            ("mlp.gate_proj", i + 8, 6, 4, 0.08),
            ("mlp.up_proj", i + 10, 6, 4, 0.07),
            ("mlp.down_proj", i + 12, 4, 6, 0.06),
        ];
        for (name, seed, rows, cols, scale) in matrices {
            let values = layer_matrix_values(seed, rows, cols, scale);
            weights = weights
                .with(format!("model.layers.{i}.{name}.weight"), f16_2d(&[rows, cols], &values));
        }
    }
    weights
}

fn attach_q8(linear: &mut Linear) {
    let weight: Vec<f32> = linear.weight.iter().map(|&h| f16::from_bits(h).to_f32()).collect();
    let q8 = quantized(&weight, linear.out_features, linear.in_features);
    linear.attach_q8_weight(q8);
}

fn test_model() -> Qwen3Model {
    let plan = RuntimePlan::cpu_only(3, DevicePreference::Cpu, "cpu".to_string());
    let existing = (0..3).map(|_| BlockQ8Weights::none()).collect();
    let scale = 1.0 / 2.0f32.sqrt();
    let mut model = Qwen3Model::from_weights(
        test_config(),
        &test_weights(),
        plan,
        existing,
        None,
        None,
        &[1.0f32.to_bits()],
        scale.to_bits(),
        false,
    )
    .unwrap();
    for layer in &mut model.layers {
        attach_q8(&mut layer.attention.q_proj);
        attach_q8(&mut layer.attention.k_proj);
        attach_q8(&mut layer.attention.v_proj);
        attach_q8(&mut layer.attention.o_proj);
        attach_q8(&mut layer.mlp.gate_proj);
        attach_q8(&mut layer.mlp.up_proj);
        attach_q8(&mut layer.mlp.down_proj);
    }
    attach_q8(&mut model.lm_head);
    model
}

fn product(linear: &Linear, x: &[f32]) -> Vec<f32> {
    linear_q8(x, linear.q8_weight.as_ref().unwrap())
}

fn summed(a: &[f32], b: &[f32]) -> Vec<f32> {
    a.iter().zip(b).map(|(a, b)| a + b).collect()
}

/// One token through one attention, on the processor.
fn attention_on_cpu(
    a: &Attention,
    cache: &mut KVCache,
    layer: usize,
    pos: usize,
    x: &[f32],
) -> Vec<f32> {
    let mut q = rms_norm(&product(&a.q_proj, x), &values_of(&a.q_norm.weight));
    let mut k = rms_norm(&product(&a.k_proj, x), &values_of(&a.k_norm.weight));
    let v = product(&a.v_proj, x);
    rope(&mut q, 2, pos, &[1.0]);
    rope(&mut k, 2, pos, &[1.0]);
    cache.append(layer, &tensor(&[1, 1, 2], &k), &tensor(&[1, 1, 2], &v)).unwrap();
    let kept = cache.get_cached(layer).unwrap();
    let (keys, values) = (floats(kept.key), floats(kept.value));
    let scale = 1.0 / 2.0f32.sqrt();
    let seen = attend(&q, &keys, &values, 2, 1, kept.seq_len, kept.capacity_len, scale);
    product(&a.o_proj, &seen)
}

/// One token through one block, on the processor.
fn block_on_cpu(
    block: &TransformerBlock,
    cache: &mut KVCache,
    layer: usize,
    pos: usize,
    x: &[f32],
) -> Vec<f32> {
    let n1 = rms_norm(x, &values_of(&block.input_layernorm.weight));
    let h = summed(x, &attention_on_cpu(&block.attention, cache, layer, pos, &n1));
    let n2 = rms_norm(&h, &values_of(&block.post_attention_layernorm.weight));
    let gate = product(&block.mlp.gate_proj, &n2);
    let up = product(&block.mlp.up_proj, &n2);
    summed(&h, &product(&block.mlp.down_proj, &silu_mul(&gate, &up)))
}

fn logits_on_cpu(model: &Qwen3Model, x: &[f32]) -> Vec<f32> {
    product(&model.lm_head, &rms_norm(x, &values_of(&model.norm.weight)))
}

fn token_on_cpu(model: &Qwen3Model, cache: &mut KVCache, token: u32, pos: usize) -> Vec<f32> {
    let mut x = values_of(&model.embedding(&[token]).unwrap());
    for (i, layer) in model.layers.iter().enumerate() {
        x = block_on_cpu(layer, cache, i, pos, &x);
    }
    logits_on_cpu(model, &x)
}

fn token_on_device(
    model: &mut Qwen3Model,
    context: &mut GpuContext,
    device: &mut Device,
    cache: &mut KVCache,
    token: u32,
    pos: usize,
) -> Vec<f32> {
    let hidden = model.embedding(&[token]).unwrap();
    let n = model.resident_gpu_prefix_len(1);
    assert_eq!(n, 2);
    let read = model.start_prefix(context, &hidden, cache, 5, 1, pos).unwrap();
    device.carry_out(context);
    let words = device.read(&[read]).remove(0);
    let mut x = values_of(&model.finish_prefix(context, n, read, words).unwrap());
    for i in n..model.layers.len() {
        x = block_on_cpu(&model.layers[i], cache, i, pos, &x);
    }
    logits_on_cpu(model, &x)
}

#[test]
fn resident_model_decode_matches_current_path_across_layers_and_restore_when_available() {
    let (mut context, mut device) = device();
    let c = &mut context;
    let baseline = test_model();
    let mut resident = test_model();
    for layer in resident.layers.iter_mut().take(2) {
        let (attached, errors) = layer.try_enable_q8_gpu_matvecs(c);
        assert_eq!(attached, 7, "expected all seven Q8 GPU matvecs to attach");
        assert!(errors.is_empty(), "unexpected layer GPU attach errors: {errors:?}");
    }
    resident.runtime_plan.layer_devices =
        vec![LayerDevice::Gpu, LayerDevice::Gpu, LayerDevice::Cpu];
    resident.resident_decode_prototype = true;

    let prompt = [1_u32, 3_u32];
    let mut baseline_cache = baseline.create_kv_cache();
    let mut resident_cache = resident.create_kv_cache();
    for (pos, &token) in prompt.iter().enumerate() {
        let a = token_on_cpu(&baseline, &mut baseline_cache, token, pos);
        let b = token_on_cpu(&resident, &mut resident_cache, token, pos);
        assert!(max_abs(&a, &b) <= 0.08);
    }

    let expected = token_on_cpu(&baseline, &mut baseline_cache, 2, 2);
    reset_sync_stats(c);
    let got = token_on_device(&mut resident, c, &mut device, &mut resident_cache, 2, 2);
    assert_one_readback(sync_stats(c));
    assert!(max_abs(&expected, &got) <= 1e-3);

    let baseline_snapshot = baseline_cache.snapshot();
    let resident_snapshot = resident_cache.snapshot();
    let expected = token_on_cpu(&baseline, &mut baseline_cache, 4, 3);
    reset_sync_stats(c);
    let got = token_on_device(&mut resident, c, &mut device, &mut resident_cache, 4, 3);
    assert_one_readback(sync_stats(c));
    assert!(max_abs(&expected, &got) <= 1e-3);

    baseline_cache.restore(baseline_snapshot).unwrap();
    resident_cache.restore(resident_snapshot).unwrap();
    let expected = token_on_cpu(&baseline, &mut baseline_cache, 4, 3);
    reset_sync_stats(c);
    let got = token_on_device(&mut resident, c, &mut device, &mut resident_cache, 4, 3);
    assert_one_readback(sync_stats(c));
    assert!(max_abs(&expected, &got) <= 1e-3);
}

#[test]
fn resident_model_decode_profiled_uses_shared_gpu_prefix_sync_structure_when_available() {
    let (mut context, mut device) = device();
    let c = &mut context;
    let config = test_config();
    let mut resident = test_model();
    for layer in resident.layers.iter_mut().take(2) {
        let (attached, errors) = layer.try_enable_q8_gpu_matvecs(c);
        assert_eq!(attached, 7, "expected all seven Q8 GPU matvecs to attach");
        assert!(errors.is_empty(), "unexpected layer GPU attach errors: {errors:?}");
    }
    resident.runtime_plan.layer_devices =
        vec![LayerDevice::Gpu, LayerDevice::Gpu, LayerDevice::Cpu];
    resident.resident_decode_prototype = true;

    let prompt = [1_u32, 3_u32];
    let mut cache = resident.create_kv_cache();
    for (pos, &token) in prompt.iter().enumerate() {
        token_on_cpu(&resident, &mut cache, token, pos);
    }
    assert_eq!(resident.device_prefix_len(prompt.len(), true), 0);
    assert_eq!(resident.device_prefix_len(1, false), 0);

    let mut layer_profiles = Vec::new();
    reset_sync_stats(c);
    assert_eq!(sync_stats(c), GpuSyncStats::default());
    ensure_layer_profiles(&mut layer_profiles, resident.layers.len());
    let hidden = resident.embedding(&[2]).unwrap();
    let n = resident.device_prefix_len(1, true);
    assert_eq!(n, 2);
    let start = Instant::now();
    let read = resident.start_prefix(c, &hidden, &mut cache, 5, 1, prompt.len()).unwrap();
    device.carry_out(c);
    let words = device.read(&[read]).remove(0);
    let prefix = resident.finish_prefix(c, n, read, words).unwrap();
    record_total(&mut layer_profiles, n - 1, start.elapsed().as_nanos());
    let mut x = values_of(&prefix);
    for i in n..resident.layers.len() {
        let start = Instant::now();
        x = block_on_cpu(&resident.layers[i], &mut cache, i, prompt.len(), &x);
        record_total(&mut layer_profiles, i, start.elapsed().as_nanos());
    }
    let logits = logits_on_cpu(&resident, &x);
    let stats = sync_stats(c);

    assert_eq!(
        stats.submits, 2,
        "profiled resident GPU prefix should use one shared compute submit and one shared hidden readback submit"
    );
    assert_eq!(
        stats.poll_waits, 1,
        "profiled resident GPU prefix should only poll once for the shared hidden readback"
    );
    assert_eq!(
        stats.map_reads, 1,
        "profiled resident GPU prefix should only map once for the shared hidden readback"
    );
    assert_eq!(logits.len(), config.vocab_size);
    assert_eq!(layer_profiles.len(), config.num_hidden_layers);
    assert_eq!(layer_profiles[0].total, 0);
    assert!(
        layer_profiles[1].total > 0,
        "the last GPU layer profile slot should accumulate the shared GPU prefix duration"
    );
    assert!(
        layer_profiles[2].total > 0,
        "the CPU tail layer should still record profiled work"
    );
}

#[test]
fn a_model_is_attached_as_its_plan_says() {
    let (mut context, _) = device();
    let mut model = test_model();
    model.runtime_plan.layer_devices = vec![LayerDevice::Gpu, LayerDevice::Cpu, LayerDevice::Cpu];
    model.runtime_plan.requested_device = DevicePreference::Hybrid;
    assert!(!model.has_greedy_token_fast_path());
    model.attach_gpu(&mut context, true);
    assert!(model.layers[0].attention.q_proj.q8_gpu_matvec().is_some());
    assert!(model.layers[1].attention.q_proj.q8_gpu_matvec().is_none());
    assert_eq!(model.runtime_plan.transformer_decode_gpu_layers, 1);
    assert_eq!(model.create_kv_cache().max_len(), 8);
}

#[test]
fn a_model_without_layers_needs_no_heads() {
    let config = Qwen3Config {
        num_hidden_layers: 0,
        num_attention_heads: 0,
        explicit_head_dim: None,
        ..test_config()
    };
    let plan = RuntimePlan::cpu_only(0, DevicePreference::Cpu, "cpu".to_string());
    let weights = test_weights();
    let none = Vec::new();
    let model =
        Qwen3Model::from_weights(config, &weights, plan, none, None, None, &[], 0, false).unwrap();
    assert!(model.layers.is_empty());
    assert_eq!(model.create_kv_cache().max_len(), 8);
}

#[test]
fn embeddings_are_rows_of_the_table() {
    let model = test_model();
    let t = model.embedding(&[3, 0]).unwrap();
    assert_eq!(t.shape(), &[2, 4]);
    assert_eq!(values_of(&t), &[0.65, -0.70, 0.75, 0.80, 0.05, -0.10, 0.15, -0.20]);
    assert!(model.embedding(&[8]).is_err());
}

/// A layer in half precision with its copy in eight bits.
fn layer(rows: usize, cols: usize, values: &[f32]) -> Linear {
    let mut linear = Linear::from_f16_weight(&[rows, cols], halves(values), None).unwrap();
    attach_q8(&mut linear);
    linear
}

fn build_test_attention() -> Attention {
    let q_proj = layer(
        4,
        4,
        &[
            0.5, -1.0, 0.75, 0.25, -0.5, 0.4, 1.1, -0.3, 0.2, 0.8, -0.6, 1.0, -0.7, 0.1, 0.3,
            0.9,
        ],
    );
    let k_proj = layer(
        2,
        4,
        &[
            0.6, -0.2, 0.4, 0.9, -0.8, 0.5, 0.7, -0.1,
        ],
    );
    let v_proj = layer(
        2,
        4,
        &[
            0.3, 0.7, -0.5, 0.2, -0.4, 1.0, 0.6, -0.9,
        ],
    );
    let o_proj = layer(
        4,
        4,
        &[
            0.25, -0.6, 1.2, 0.1, -0.3, 0.5, 0.8, -0.7, 0.9, 0.4, -0.2, 0.6, -1.0, 0.3, 0.2,
            0.75,
        ],
    );
    Attention {
        q_proj,
        k_proj,
        v_proj,
        o_proj,
        q_norm: RmsNorm::new(tensor(&[2], &[1.0, 0.75]), EPS.to_bits()),
        k_norm: RmsNorm::new(tensor(&[2], &[0.8, -1.1]), EPS.to_bits()),
        num_heads: 2,
        num_kv_heads: 1,
        head_dim: 2,
        rope_theta: 10000.0f32.to_bits(),
        rope_inv_freq: bits(&[1.0]),
        scale: (1.0 / 2.0f32.sqrt()).to_bits(),
        q8_qkv_batch: None,
        resident_runtime_state: None,
    }
}

fn build_test_mlp() -> Mlp {
    let gate_proj = layer(
        6,
        4,
        &[
            0.5, -1.0, 0.75, 0.25, -0.5, 0.4, 1.1, -0.3, 0.2, 0.8, -0.6, 1.0, -0.7, 0.1, 0.3,
            0.9, -0.4, 0.6, -0.2, 0.7, 0.9, -0.5, 0.4, 0.2,
        ],
    );
    let up_proj = layer(
        6,
        4,
        &[
            -0.25, 0.75, 0.4, -1.25, 1.0, 0.5, -0.4, 0.2, 0.6, -0.7, 0.3, 1.1, -0.8, 0.9, 0.2,
            0.1, 0.45, -0.35, 0.85, 0.55, -0.15, 0.95, -0.65, 0.25,
        ],
    );
    let down_proj = layer(
        4,
        6,
        &[
            0.3, -0.8, 0.6, -0.4, 0.2, 1.2, -0.6, 0.5, 0.4, 0.7, -0.9, 0.1, 0.8, -0.2, 1.0,
            0.3, -0.5, 0.6, -1.1, 0.4, 0.2, 0.9, 0.5, -0.3,
        ],
    );
    Mlp::new(gate_proj, up_proj, down_proj)
}

fn build_test_transformer_block() -> TransformerBlock {
    TransformerBlock::new(
        RmsNorm::new(tensor(&[4], &[1.0, 0.8, -0.6, 1.2]), EPS.to_bits()),
        build_test_attention(),
        RmsNorm::new(tensor(&[4], &[0.7, -1.1, 0.9, 0.5]), EPS.to_bits()),
        build_test_mlp(),
    )
}

#[test]
fn resident_decode_one_attention_prototype_matches_current_path_when_available() {
    let (mut context, mut device) = device();
    let c = &mut context;
    let mut attention = build_test_attention();
    let (attached, errors) = attention.try_enable_q8_gpu_matvecs(c);
    assert_eq!(attached, 4, "expected all four attention Q8 GPU matvecs");
    assert!(errors.is_empty(), "unexpected Q8 GPU matvec attach errors: {errors:?}");

    let prefix_hidden = [0.3, -0.7, 1.1, 0.5];
    let current_hidden = [-0.2, 0.9, 0.4, -1.3];
    let mut prefix_cache = KVCache::new(1, 8);
    attention_on_cpu(&attention, &mut prefix_cache, 0, 0, &prefix_hidden);
    let mut expected_cache = KVCache::new(1, 8);
    attention_on_cpu(&attention, &mut expected_cache, 0, 0, &prefix_hidden);
    let expected = attention_on_cpu(&attention, &mut expected_cache, 0, 1, &current_hidden);

    let cached_prefix = prefix_cache.get_cached(0).unwrap();
    reset_sync_stats(c);
    let (output, read) = attention
        .forward_decode_one_resident_prototype(
            c,
            &tensor(&[1, 4], &current_hidden),
            Some(cached_prefix),
            1,
        )
        .unwrap();
    assert_one_readback(sync_stats(c));
    device.carry_out(c);
    let words = device.read(&[read]).remove(0);
    let got = output.read_back_output(c, read, words).unwrap();
    let max_abs = max_abs(&expected, &values_of(&got));
    assert!(max_abs <= 0.03, "max abs diff {max_abs} exceeded tolerance");
}

#[test]
fn a_token_that_does_not_follow_the_cache_is_refused() {
    let (mut context, _) = device();
    let c = &mut context;
    let mut attention = build_test_attention();
    let row = tensor(&[1, 4], &[0.1, 0.2, 0.3, 0.4]);
    let missing = attention.forward_decode_one_resident_prototype(c, &row, None, 0).unwrap_err();
    assert!(missing.message().contains("missing q_proj Q8 GPU matvec"));
    attention.try_enable_q8_gpu_matvecs(c);
    let wide = tensor(&[1, 2], &[0.1, 0.2]);
    let shape = attention.forward_decode_one_resident_prototype(c, &wide, None, 0).unwrap_err();
    assert!(shape.message().contains("prototype expects [1, 4], got [1, 2]"));
    let late = attention.forward_decode_one_resident_prototype(c, &row, None, 3).unwrap_err();
    assert!(late.message().contains("expects cached prefix len 0 to equal position_offset 3"));
    assert!(attention.forward_decode_one_resident_prototype(c, &row, None, 0).is_ok());
}

#[test]
fn resident_decode_one_transformer_block_prototype_matches_current_path_when_available() {
    let (mut context, mut device) = device();
    let c = &mut context;
    let mut block = build_test_transformer_block();
    let (attached, errors) = block.try_enable_q8_gpu_matvecs(c);
    assert_eq!(attached, 7, "expected all attention+mlp Q8 GPU matvecs");
    assert!(errors.is_empty(), "unexpected transformer block Q8 GPU attach errors: {errors:?}");

    let prefix_hidden = [0.3, -0.7, 1.1, 0.5];
    let current_hidden = [-0.2, 0.9, 0.4, -1.3];
    let mut prefix_cache = KVCache::new(1, 8);
    block_on_cpu(&block, &mut prefix_cache, 0, 0, &prefix_hidden);
    let mut expected_cache = KVCache::new(1, 8);
    block_on_cpu(&block, &mut expected_cache, 0, 0, &prefix_hidden);
    let expected = block_on_cpu(&block, &mut expected_cache, 0, 1, &current_hidden);

    let cached_prefix = prefix_cache.get_cached(0).unwrap();
    reset_sync_stats(c);
    let (output, read) = block
        .forward_decode_one_resident_prototype(
            c,
            &tensor(&[1, 4], &current_hidden),
            Some(cached_prefix),
            1,
        )
        .unwrap();
    assert_one_readback(sync_stats(c));
    device.carry_out(c);
    let words = device.read(&[read]).remove(0);
    let got = output.read_back_output(c, read, words).unwrap();
    let max_abs = max_abs(&expected, &values_of(&got));
    assert!(max_abs <= 0.05, "max abs diff {max_abs} exceeded tolerance");
}

/// One token through one block on the device, which keeps its keys and values there.
fn block_on_device(
    block: &mut TransformerBlock,
    context: &mut GpuContext,
    device: &mut Device,
    slots: &[GpuResidentBuffer; 2],
    position_buffer: usize,
    cache: &mut KVCache,
    revision: u64,
    pos: usize,
    x: &[f32],
) -> Vec<f32> {
    slots[0].upload(context, &tensor(&[1, 4], x)).unwrap();
    context.write_position(position_buffer, pos);
    let mut encoder = context.create_command_encoder();
    block
        .encode_decode_one_resident_runtime_with_slot_cache(
            context,
            &mut encoder,
            &slots[0],
            &slots[1],
            &slots[0],
            &slots[1],
            cache,
            9,
            revision,
            0,
            pos,
            position_buffer,
        )
        .unwrap();
    context.submit(encoder);
    cache.set_current_len(pos + 1).unwrap();
    values_of(&read_back(context, device, &slots[1]))
}

#[test]
fn resident_decode_one_transformer_block_runtime_keeps_gpu_kv_across_tokens_and_restore_when_available(
) {
    let (mut context, mut device) = device();
    let c = &mut context;
    let mut block = build_test_transformer_block();
    let (attached, errors) = block.try_enable_q8_gpu_matvecs(c);
    assert_eq!(attached, 7, "expected all attention+mlp Q8 GPU matvecs");
    assert!(errors.is_empty(), "unexpected transformer block Q8 GPU attach errors: {errors:?}");
    let slots = [
        GpuResidentBuffer::with_context(c, &[1, 4]).unwrap(),
        GpuResidentBuffer::with_context(c, &[1, 4]).unwrap(),
    ];
    let position = GpuPositionUniform::with_context(c, 0).buffer;

    let prefix_hidden = [0.3, -0.7, 1.1, 0.5];
    let token1_hidden = [-0.2, 0.9, 0.4, -1.3];
    let token2_hidden = [0.8, -0.1, -0.6, 1.4];
    let mut expected_cache = KVCache::new(1, 8);
    block_on_cpu(&block, &mut expected_cache, 0, 0, &prefix_hidden);
    let expected_token1 = block_on_cpu(&block, &mut expected_cache, 0, 1, &token1_hidden);
    let expected_snapshot = expected_cache.snapshot();
    let expected_token2 = block_on_cpu(&block, &mut expected_cache, 0, 2, &token2_hidden);

    let mut cache = KVCache::new(1, 8);
    block_on_cpu(&block, &mut cache, 0, 0, &prefix_hidden);
    reset_sync_stats(c);
    let got = block_on_device(
        &mut block, c, &mut device, &slots, position, &mut cache, 1, 1, &token1_hidden,
    );
    assert_one_readback(sync_stats(c));
    assert_eq!(cache.current_len(), 2);
    assert!(max_abs(&expected_token1, &got) <= 0.05);

    let snapshot = cache.snapshot();
    reset_sync_stats(c);
    let got = block_on_device(
        &mut block, c, &mut device, &slots, position, &mut cache, 1, 2, &token2_hidden,
    );
    assert_one_readback(sync_stats(c));
    assert_eq!(cache.current_len(), 3);
    assert!(max_abs(&expected_token2, &got) <= 0.05);

    cache.restore(snapshot).unwrap();
    expected_cache.restore(expected_snapshot).unwrap();
    reset_sync_stats(c);
    let replay = block_on_device(
        &mut block, c, &mut device, &slots, position, &mut cache, 1, 2, &token2_hidden,
    );
    assert_one_readback(sync_stats(c));
    let expected = block_on_cpu(&block, &mut expected_cache, 0, 2, &token2_hidden);
    assert!(max_abs(&expected, &replay) <= 0.05);
}
