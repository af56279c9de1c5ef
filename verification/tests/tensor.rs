//! Tensors, their layout and their number formats.

use half::{bf16, f16};
use rsinfer::model::heads::{transpose_back, transpose_for_attention};
use rsinfer::tensor::dtypes::{
    bf16_bytes_to_f32, f16_bytes_to_f16, f16_bytes_to_f32, f16_slice_to_f32, f32_bytes_to_f32,
    f32_slice_to_f16, half_to_single, single_to_half, DType,
};
use rsinfer::tensor::ops::{
    check_cached, check_gqa, check_linear_input, check_matmul, check_rope, check_softmax,
    flip_outputs, rope_places,
};
use rsinfer::tensor::{repeat_kv, CachedAttention, Tensor};

fn bits(values: &[f32]) -> Vec<u32> {
    values.iter().map(|v| v.to_bits()).collect()
}

fn tensor(shape: &[usize], values: &[f32]) -> Tensor {
    Tensor::from_f32_slice(shape, &bits(values)).unwrap()
}

fn zeros(shape: &[usize]) -> Tensor {
    Tensor::zeros(shape)
}

#[test]
fn test_tensor_creation() {
    let t = tensor(&[2, 3], &[1.0, 2.0, 3.0, 4.0, 5.0, 6.0]);
    assert_eq!(t.shape(), &[2, 3]);
    assert_eq!(t.numel(), 6);
}

#[test]
fn test_matmul() {
    let a = tensor(&[2, 3], &[1.0, 2.0, 3.0, 4.0, 5.0, 6.0]);
    let b = tensor(&[3, 2], &[1.0, 2.0, 3.0, 4.0, 5.0, 6.0]);
    let (rows, columns) = check_matmul(&a, &b).unwrap();
    assert_eq!(&[rows, columns], &[2, 2]);
}

#[test]
fn test_zeros() {
    let t = Tensor::zeros(&[3, 4]);
    assert_eq!(t.shape(), &[3, 4]);
    assert!(t.as_slice().iter().all(|&x| f32::from_bits(x) == 0.0));
}

#[test]
fn transpose_for_attention_single_token_uses_same_element_order() {
    let x = tensor(&[1, 3, 2], &[0.1, 0.2, 1.1, 1.2, 2.1, 2.2]);

    let transposed = transpose_for_attention(&x, 3).unwrap();

    assert_eq!(transposed.shape(), &[3, 1, 2]);
    assert_eq!(transposed.as_slice(), x.as_slice());
}

#[test]
fn transpose_back_single_token_uses_same_element_order() {
    let x = tensor(&[3, 1, 2], &[0.1, 0.2, 1.1, 1.2, 2.1, 2.2]);

    let transposed = transpose_back(&x, 1, 3).unwrap();

    assert_eq!(transposed.shape(), &[1, 3, 2]);
    assert_eq!(transposed.as_slice(), x.as_slice());
}

#[test]
fn transpose_for_attention_multi_token_still_reorders_axes() {
    let x = tensor(&[2, 2, 2], &[0.0, 0.1, 1.0, 1.1, 10.0, 10.1, 11.0, 11.1]);

    let transposed = transpose_for_attention(&x, 2).unwrap();

    assert_eq!(transposed.shape(), &[2, 2, 2]);
    assert_eq!(
        transposed.as_slice(),
        &bits(&[0.0, 0.1, 10.0, 10.1, 1.0, 1.1, 11.0, 11.1])[..]
    );
}

#[test]
fn turning_back_gives_the_heads_back() {
    let values: Vec<f32> = (0..12).map(|i| i as f32).collect();
    let x = tensor(&[3, 2, 2], &values);
    let there = transpose_for_attention(&x, 2).unwrap();
    assert_eq!(there.shape(), &[2, 3, 2]);
    let back = transpose_back(&there, 3, 2).unwrap();
    assert_eq!(back.shape(), &[3, 2, 2]);
    assert_eq!(back.as_slice(), x.as_slice());
}

#[test]
fn a_shape_that_does_not_fit_is_refused() {
    let e = Tensor::from_f32_slice(&[2, 3], &[0; 5]).unwrap_err();
    assert!(e.message().starts_with("Tensor "));
    assert!(Tensor::from_f32_vec(&[4], vec![0; 4]).is_ok());
}

#[test]
fn a_reshaped_tensor_keeps_its_numbers() {
    let t = tensor(&[2, 3], &[1.0, 2.0, 3.0, 4.0, 5.0, 6.0]);
    let r = t.reshape(&[3, 2]).unwrap();
    assert_eq!(r.shape(), &[3, 2]);
    assert_eq!(r.as_slice(), t.as_slice());
    assert!(t.reshape(&[4, 2]).is_err());
    let flat = t.to_1d().unwrap();
    assert_eq!(flat.shape(), &[6]);
    assert_eq!(flat.as_slice(), t.as_slice());
}

#[test]
fn a_transposed_matrix_has_its_columns_as_rows() {
    let t = tensor(&[2, 3], &[1.0, 2.0, 3.0, 4.0, 5.0, 6.0]);
    let r = t.t().unwrap();
    assert_eq!(r.shape(), &[3, 2]);
    assert_eq!(r.standard_values(), bits(&[1.0, 4.0, 2.0, 5.0, 3.0, 6.0]));
    let again = r.t().unwrap();
    assert_eq!(again.standard_values(), t.standard_values());
    assert!(zeros(&[2, 2, 2]).t().is_err());
}

#[test]
fn rows_are_cut_out() {
    let t = tensor(&[3, 2], &[1.0, 2.0, 3.0, 4.0, 5.0, 6.0]);
    let r = t.slice_rows(1, 3).unwrap();
    assert_eq!(r.shape(), &[2, 2]);
    assert_eq!(r.standard_values(), bits(&[3.0, 4.0, 5.0, 6.0]));
    let last = t.last_row().unwrap();
    assert_eq!(last.standard_values(), bits(&[5.0, 6.0]));
}

#[test]
fn a_duplicate_is_the_same_tensor() {
    let t = tensor(&[2, 2], &[1.0, 2.0, 3.0, 4.0]);
    let d = t.clone();
    assert_eq!(d.shape(), t.shape());
    assert_eq!(d.as_slice(), t.as_slice());
    assert_eq!(d.ndim(), 2);
}

#[test]
fn halves_widen_as_the_format_says() {
    for h in 0u16..=u16::MAX {
        let wide = f32::from_bits(half_to_single(h));
        let known = f16::from_bits(h).to_f32();
        if known.is_nan() {
            assert!(wide.is_nan());
        } else {
            assert_eq!(wide.to_bits(), known.to_bits());
        }
    }
}

#[test]
fn singles_narrow_to_the_nearest_half() {
    let mut s: u32 = 0;
    for _ in 0..200_000 {
        let known = f16::from_f32(f32::from_bits(s));
        let ours = f16::from_bits(single_to_half(s));
        if known.is_nan() {
            assert!(ours.is_nan());
        } else {
            assert_eq!(ours.to_bits(), known.to_bits());
        }
        s = s.wrapping_add(21_475);
    }
    for v in [0.5f32, -1.0, 65504.0, 65520.0, 1e-8, 5.9604645e-8, f32::INFINITY] {
        assert_eq!(single_to_half(v.to_bits()), f16::from_f32(v).to_bits());
    }
}

#[test]
fn bytes_are_read_in_their_format() {
    let singles = [1.5f32, -2.0, 0.25];
    let bytes: Vec<u8> = singles.iter().flat_map(|v| v.to_le_bytes()).collect();
    assert_eq!(f32_bytes_to_f32(&bytes), bits(&singles));
    let bytes: Vec<u8> = singles.iter().flat_map(|&v| f16::from_f32(v).to_le_bytes()).collect();
    assert_eq!(f16_bytes_to_f32(&bytes), bits(&singles));
    let halves: Vec<u16> = singles.iter().map(|&v| f16::from_f32(v).to_bits()).collect();
    assert_eq!(f16_bytes_to_f16(&bytes), halves);
    assert_eq!(f16_slice_to_f32(&halves), bits(&singles));
    assert_eq!(f32_slice_to_f16(&bits(&singles)), halves);
    let bytes: Vec<u8> = singles.iter().flat_map(|&v| bf16::from_f32(v).to_le_bytes()).collect();
    assert_eq!(bf16_bytes_to_f32(&bytes), bits(&singles));
    let t = Tensor::from_bf16_bytes(&[3], &bytes).unwrap();
    assert_eq!(t.as_slice(), &bits(&singles)[..]);
    assert_eq!(DType::F32.size_in_bytes(), 4);
    assert_eq!(DType::F16.size_in_bytes(), 2);
    assert_eq!(DType::BF16.size_in_bytes(), 2);
}

#[test]
fn tensors_are_read_from_bytes() {
    let bytes: Vec<u8> = [1.0f32, 2.0].iter().flat_map(|v| v.to_le_bytes()).collect();
    let t = Tensor::from_f32_bytes(&[2], &bytes).unwrap();
    assert_eq!(t.as_slice(), &bits(&[1.0, 2.0])[..]);
    let bytes: Vec<u8> = [1.0f32, 2.0].iter().flat_map(|&v| f16::from_f32(v).to_le_bytes()).collect();
    let t = Tensor::from_f16_bytes(&[1, 2], &bytes).unwrap();
    assert_eq!(t.as_slice(), &bits(&[1.0, 2.0])[..]);
    assert!(Tensor::from_f16_bytes(&[3], &bytes).is_err());
}

#[test]
fn linear_layers_say_what_they_take() {
    assert_eq!(check_linear_input(&zeros(&[3, 4]), 4, false).unwrap(), 3);
    assert_eq!(
        check_linear_input(&zeros(&[4]), 4, false).unwrap_err().message(),
        "Tensor dimension error: linear_forward 需要 2D 输入, got 1D"
    );
    assert_eq!(
        check_linear_input(&zeros(&[4]), 4, true).unwrap_err().message(),
        "Tensor dimension error: linear_forward_q8 需要 2D 输入, got 1D"
    );
    assert_eq!(
        check_linear_input(&zeros(&[3, 5]), 4, false).unwrap_err().message(),
        "Tensor shape mismatch: expected [3, 4], got [3, 5]"
    );
}

#[test]
fn outputs_are_flipped() {
    let flipped = flip_outputs(&[1, 2, 3, 4, 5, 6], 2, 3);
    assert_eq!(flipped, vec![1, 4, 2, 5, 3, 6]);
    assert_eq!(flip_outputs(&flipped, 3, 2), vec![1, 2, 3, 4, 5, 6]);
}

#[test]
fn kernels_refuse_other_shapes() {
    assert!(check_softmax(&zeros(&[2, 2]), 1).is_ok());
    assert_eq!(
        check_softmax(&zeros(&[2, 2]), 2).unwrap_err().message(),
        "Tensor dimension error: softmax dim 2 out of range for 2D tensor"
    );
    assert_eq!(
        check_matmul(&zeros(&[2, 2]), &zeros(&[2])).unwrap_err().message(),
        "Tensor dimension error: matmul requires 2D tensors, got 2D and 1D"
    );
    assert_eq!(
        check_matmul(&zeros(&[2, 2]), &zeros(&[3, 2])).unwrap_err().message(),
        "Tensor shape mismatch: expected [2], got [3]"
    );
    assert_eq!(check_rope(&zeros(&[2, 1, 4]), &zeros(&[2, 1, 4]), Some(2)).unwrap(), (2, 2));
    assert_eq!(
        check_rope(&zeros(&[2, 4]), &zeros(&[2, 1, 4]), None).unwrap_err().message(),
        "Tensor dimension error: RoPE requires 3D tensors [seq_len, num_heads, head_dim]"
    );
    assert_eq!(
        check_rope(&zeros(&[2, 1, 4]), &zeros(&[2, 1, 4]), Some(3)).unwrap_err().message(),
        "Tensor shape mismatch: expected [2], got [3]"
    );
}

#[test]
fn a_frequency_turns_two_numbers_of_a_head() {
    assert_eq!(rope_places(2, 4, 0, 0, 0), (0, 2));
    assert_eq!(rope_places(2, 4, 1, 1, 1), (13, 15));
}

#[test]
fn attention_is_planned() {
    let plan = check_gqa(&zeros(&[4, 1, 2]), &zeros(&[2, 3, 2]), &zeros(&[2, 3, 2]), 2).unwrap();
    assert_eq!(plan.kv_head(0), 0);
    assert_eq!(plan.kv_head(3), 1);
    assert_eq!(plan.causal_limit(0), 2);
    assert_eq!(plan.q_row(3, 0), 6);
    assert_eq!(plan.k_row(1, 2), 10);
    assert_eq!(
        check_gqa(&zeros(&[4, 2]), &zeros(&[2, 3, 2]), &zeros(&[2, 3, 2]), 2)
            .unwrap_err()
            .message(),
        "Tensor dimension error: GQA attention expects q/k/v to be 3D tensors"
    );
    assert_eq!(
        check_gqa(&zeros(&[4, 1, 2]), &zeros(&[2, 3, 2]), &zeros(&[2, 3, 2]), 3)
            .unwrap_err()
            .message(),
        "Tensor shape mismatch: expected [4, 1, 2], got [2, 3, 2]"
    );
    assert_eq!(
        check_gqa(&zeros(&[4, 4, 2]), &zeros(&[2, 3, 2]), &zeros(&[2, 3, 2]), 2)
            .unwrap_err()
            .message(),
        "Tensor dimension error: GQA attention seq_len_q 4 exceeds seq_len_k 3"
    );
}

#[test]
fn cached_attention_needs_room_for_its_rows() {
    let kept = vec![0u32; 2 * 8 * 2];
    let mut cached = CachedAttention {
        key: &kept,
        value: &kept,
        num_kv_heads: 2,
        seq_len_k: 3,
        head_dim: 2,
        max_len: 8,
    };
    let plan = check_cached(&zeros(&[4, 1, 2]), &cached, 2).unwrap();
    assert_eq!(plan.k_row(1, 2), 20);
    assert_eq!(
        check_cached(&zeros(&[4, 2]), &cached, 2).unwrap_err().message(),
        "Tensor dimension error: cached GQA attention expects q to be 3D"
    );
    cached.max_len = 9;
    assert_eq!(
        check_cached(&zeros(&[4, 1, 2]), &cached, 2).unwrap_err().message(),
        "Tensor shape mismatch: expected [4, 1, 2], got [2, 3, 2]"
    );
}

#[test]
fn heads_are_repeated_one_behind_the_other() {
    let x = tensor(&[2, 1, 2], &[1.0, 2.0, 3.0, 4.0]);
    let same = repeat_kv(&x, 1).unwrap();
    assert_eq!(same.as_slice(), x.as_slice());
    let twice = repeat_kv(&x, 2).unwrap();
    assert_eq!(twice.shape(), &[4, 1, 2]);
    assert_eq!(twice.as_slice(), &bits(&[1.0, 2.0, 1.0, 2.0, 3.0, 4.0, 3.0, 4.0])[..]);
    assert_eq!(
        repeat_kv(&zeros(&[2, 2]), 2).unwrap_err().message(),
        "Tensor dimension error: repeat_kv expects 3D tensor [num_kv_heads, seq_len, head_dim]"
    );
}
