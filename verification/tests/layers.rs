//! Layers: how they run, what stands on a device, and what is packed for it.

use half::f16;
use rsinfer::engine::KVCache;
use rsinfer::gpu::context::workgroups_for;
use rsinfer::gpu::pack::{pack_i8_row_to_u32, pack_rows, words_per_row};
use rsinfer::gpu::rows::{gather, plan_rows, rows_for_chunk};
use rsinfer::gpu::GpuContext;
use rsinfer::model::attention_sync::desired_max_len;
use rsinfer::model::linear::LinearStep;
use rsinfer::model::{Attention, Linear, RmsNorm};
use rsinfer::tensor::{Q8LinearWeight, Tensor};

fn bits(values: &[f32]) -> Vec<u32> {
    values.iter().map(|v| v.to_bits()).collect()
}

fn tensor(shape: &[usize], values: &[f32]) -> Tensor {
    Tensor::from_f32_slice(shape, &bits(values)).unwrap()
}

fn linear(rows: usize, cols: usize, bias: Option<Tensor>) -> Linear {
    let weight = (0..rows * cols).map(|i| f16::from_f32(i as f32 * 0.5).to_bits()).collect();
    Linear::from_f16_weight(&[rows, cols], weight, bias).unwrap()
}

fn q8(rows: usize, cols: usize) -> Q8LinearWeight {
    Q8LinearWeight {
        qweight: vec![1; rows * cols],
        scales: bits(&vec![0.5; rows]),
        out_features: rows,
        in_features: cols,
    }
}

fn attention() -> Attention {
    Attention {
        q_proj: linear(4, 4, None),
        k_proj: linear(2, 4, None),
        v_proj: linear(2, 4, None),
        o_proj: linear(4, 4, None),
        q_norm: RmsNorm::new(tensor(&[2], &[1.0, 1.0]), 0),
        k_norm: RmsNorm::new(tensor(&[2], &[1.0, 1.0]), 0),
        num_heads: 2,
        num_kv_heads: 1,
        head_dim: 2,
        rope_theta: 10000.0f32.to_bits(),
        rope_inv_freq: bits(&[1.0]),
        scale: 1.0f32.to_bits(),
        q8_qkv_batch: None,
        resident_runtime_state: None,
    }
}

#[test]
fn a_layer_with_a_bias_runs_in_half_precision() {
    let mut context = GpuContext::new(1, 1 << 20, 1 << 20);
    let x = tensor(&[1, 2], &[1.0, 2.0]);
    let mut layer = linear(3, 2, Some(tensor(&[3], &[0.1, 0.2, 0.3])));
    layer.attach_q8_weight(q8(3, 2));
    for from in 0..4 {
        let step = layer.forward_from(&mut context, &x, from).unwrap();
        assert!(matches!(step, LinearStep::Half));
    }
    assert!(context.buffers.is_empty());
}

#[test]
fn a_layer_in_half_precision_has_a_way_left() {
    let mut context = GpuContext::new(1, 1 << 20, 1 << 20);
    let x = tensor(&[1, 2], &[1.0, 2.0]);
    let mut layer = linear(3, 2, None);
    layer.attach_q8_weight(q8(3, 2));
    layer.try_enable_gpu_matvec_with_context(&mut context).unwrap();
    layer.try_enable_q8_gpu_matvec_with_context(&mut context).unwrap();
    let step = |context: &mut GpuContext, from| layer.forward_from(context, &x, from).unwrap();
    assert!(matches!(step(&mut context, 0), LinearStep::Q8Gpu(_)));
    assert!(matches!(step(&mut context, 1), LinearStep::Gpu(_)));
    assert!(matches!(step(&mut context, 2), LinearStep::Q8));
    assert!(matches!(step(&mut context, 3), LinearStep::Half));
    let bare = Linear::from_q8_weight("w", q8(3, 2), None);
    assert!(bare.forward_from(&mut context, &x, 2).is_ok());
    assert!(bare.forward_from(&mut context, &x, 3).is_err());
}

#[test]
fn each_layer_is_on_the_device_or_gives_a_message() {
    let mut context = GpuContext::new(1, 1 << 20, 1 << 20);
    let mut a = attention();
    a.q_proj.attach_q8_weight(q8(4, 4));
    a.o_proj.attach_q8_weight(q8(4, 4));
    let (attached, errors) = a.try_enable_q8_gpu_matvecs(&mut context);
    assert_eq!(attached, 2);
    assert_eq!(errors.len(), 2);
    assert!(errors[0].starts_with("attention.k_proj"));
    assert!(errors[1].starts_with("attention.v_proj"));
    let (attached, errors) = a.try_enable_gpu_matvecs(&mut context);
    assert_eq!((attached, errors.len()), (4, 0));
}

#[test]
fn the_room_on_a_device_follows_the_cache() {
    assert_eq!(desired_max_len(None, 0, 4096), 64);
    assert_eq!(desired_max_len(None, 99, 4096), 100);
    assert_eq!(desired_max_len(None, 99, 80), 80);
    assert_eq!(desired_max_len(Some(128), 99, 4096), 128);
    assert_eq!(desired_max_len(Some(32), 99, 4096), 100);
}

#[test]
fn cached_positions_stand_at_their_place_on_a_device() {
    let mut cache = KVCache::new(1, 8);
    for i in 0..2 {
        let v = i as f32;
        let key = tensor(&[1, 1, 2], &[v + 0.25, v + 0.5]);
        let value = tensor(&[1, 1, 2], &[-v - 0.25, -v - 0.5]);
        cache.append(0, &key, &value).unwrap();
    }
    let a = attention();
    let (key, value) =
        a.build_resident_cache_tensors(Some(cache.get_cached(0).unwrap()), 5).unwrap();
    assert_eq!(key.shape(), &[1, 5, 2]);
    assert_eq!(key.as_slice()[..6], bits(&[0.25, 0.5, 1.25, 1.5, 0.0, 0.0]));
    assert_eq!(value.as_slice()[..4], bits(&[-0.25, -0.5, -1.25, -1.5]));
    assert!(key.as_slice()[4..].iter().all(|&w| w == 0));
    let (key, _) = a.build_resident_cache_tensors(None, 3).unwrap();
    assert_eq!(key.as_slice(), &[0; 6]);
    let mut other = attention();
    other.head_dim = 4;
    assert!(other.build_resident_cache_tensors(Some(cache.get_cached(0).unwrap()), 5).is_err());
}

#[test]
fn bytes_come_back_out_of_their_words() {
    let row = [1i8, -1, 127, -128, 5];
    let mut words = Vec::new();
    pack_i8_row_to_u32(&row, 0, 5, &mut words);
    assert_eq!(words, vec![0x807f_ff01, 0x0000_0005]);
    assert_eq!(words.len(), words_per_row(5));
    for (i, &v) in row.iter().enumerate() {
        assert_eq!((words[i / 4] >> (8 * (i % 4))) as u8 as i8, v);
    }
    assert_eq!(pack_rows(&[1, 2, 3, 4, 5, 6], 2, 1, 2), vec![0x0403, 0x0605]);
}

#[test]
fn rows_are_cut_for_a_device() {
    assert_eq!(rows_for_chunk(100, 16), 6);
    assert_eq!(rows_for_chunk(8, 16), 0);
    let plan: Vec<(usize, usize)> =
        plan_rows(4, 10).iter().map(|p| (p.out_offset, p.out_features)).collect();
    assert_eq!(plan, vec![(0, 4), (4, 4), (8, 2)]);
    assert_eq!(gather(&[vec![1, 2], vec![3], vec![4]], 0, 2), vec![1, 2, 3]);
}

#[test]
fn workgroups_cover_all_items() {
    assert_eq!(workgroups_for(0), 0);
    assert_eq!(workgroups_for(1), 1);
    assert_eq!(workgroups_for(64), 1);
    assert_eq!(workgroups_for(65), 2);
}
