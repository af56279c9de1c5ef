//! Weight files, and the files beside them.

use half::f16;
use rsinfer::model::q8_sidecar::{
    decode_q8_weight, default_sidecar_name, encode_q8_weight, fingerprint, fingerprint_part,
    fnv1a64, is_model_file, sidecar_file,
};
use rsinfer::model::weights::{
    add_entry, convert_tensor, entry_span, group_shards, header_span, is_tensor_name,
    load_safetensors, parse_safetensors_dtype, select_entries, should_skip_warm_q8_linear_weight,
    SafetensorsHeaderEntry, StoredDtype,
};
use rsinfer::model::{
    get_linear_weight_f16, get_weight, LoadedTensor, Q8SidecarCache, Q8SidecarManifest, WeightMap,
};
use rsinfer::tensor::Q8LinearWeight;

fn bits(values: &[f32]) -> Vec<u32> {
    values.iter().map(|v| v.to_bits()).collect()
}

/// The rows of a matrix in eight bits, each with the scale of its greatest number.
fn quantized(source: &[f16], out_features: usize, in_features: usize) -> Q8LinearWeight {
    let mut qweight = Vec::new();
    let mut scales = Vec::new();
    for row in source.chunks(in_features) {
        let most = row.iter().fold(0.0f32, |m, v| m.max(v.to_f32().abs()));
        let scale = if most == 0.0 { 1.0 } else { most / 127.0 };
        scales.push(scale.to_bits());
        for v in row {
            qweight.push((v.to_f32() / scale).round().clamp(-127.0, 127.0) as i8);
        }
    }
    Q8LinearWeight { qweight, scales, out_features, in_features }
}

#[test]
fn q8_sidecar_roundtrip_preserves_weight() {
    let source = [
        f16::from_f32(0.5),
        f16::from_f32(-1.0),
        f16::from_f32(1.5),
        f16::from_f32(0.25),
    ];
    let weight = quantized(&source, 2, 2);

    let file = encode_q8_weight(&weight);
    let loaded = decode_q8_weight(&file, 2, 2, "weight.q8bin").unwrap();
    assert_eq!(loaded.qweight, weight.qweight);
    assert_eq!(loaded.scales, weight.scales);
}

#[test]
fn test_convert_f32_tensor() {
    let shape = vec![2, 3];
    let data: Vec<f32> = vec![1.0, 2.0, 3.0, 4.0, 5.0, 6.0];
    let bytes: Vec<u8> = data.iter().flat_map(|f| f.to_le_bytes()).collect();

    let tensor = convert_tensor(&shape, &StoredDtype::F32, &bytes, "test")
        .unwrap()
        .to_tensor()
        .unwrap();
    assert_eq!(tensor.shape(), &[2, 3]);
    assert_eq!(tensor.as_slice(), &bits(&data)[..]);
}

#[test]
fn test_convert_f16_keeps_f16_storage() {
    let shape = vec![2, 2];
    let data = [
        f16::from_f32(1.0),
        f16::from_f32(2.0),
        f16::from_f32(3.0),
        f16::from_f32(4.0),
    ];
    let bytes: Vec<u8> = data
        .iter()
        .flat_map(|f| f.to_bits().to_le_bytes())
        .collect();

    let tensor = convert_tensor(&shape, &StoredDtype::F16, &bytes, "test").unwrap();
    match tensor {
        LoadedTensor::F16 { shape, data } => {
            assert_eq!(shape, vec![2, 2]);
            assert_eq!(data.len(), 4);
            assert_eq!(data[2], f16::from_f32(3.0).to_bits());
        }
        LoadedTensor::Tensor(_) => panic!("f16 tensor should stay in f16 storage"),
    }
}

#[test]
fn other_formats_are_refused() {
    let e = convert_tensor(&[1], &StoredDtype::Other("I64".to_string()), &[0; 8], "x").unwrap_err();
    assert_eq!(e.message(), "Unsupported feature: Unsupported dtype I64 for tensor 'x'");
    let e = parse_safetensors_dtype("I64", "x").unwrap_err();
    assert_eq!(e.message(), "Unsupported feature: Unsupported dtype 'I64' for tensor 'x'");
    assert!(matches!(parse_safetensors_dtype("BF16", "x"), Ok(StoredDtype::BF16)));
}

/// A file of two tensors, `a` in single and `b` in half precision.
fn sample_file() -> Vec<u8> {
    let header = "{\"a\":{\"dtype\":\"F32\",\"shape\":[2],\"data_offsets\":[0,8]},\
                  \"b\":{\"dtype\":\"F16\",\"shape\":[1,2],\"data_offsets\":[8,12]}}";
    let mut file = (header.len() as u64).to_le_bytes().to_vec();
    file.extend(header.as_bytes());
    for v in [1.0f32, 2.0] {
        file.extend(v.to_le_bytes());
    }
    for v in [3.0f32, 4.0] {
        file.extend(f16::from_f32(v).to_le_bytes());
    }
    file
}

#[test]
fn a_safetensors_file_is_loaded() {
    let weights = load_safetensors(WeightMap::new(), &sample_file(), None).unwrap();
    let a = get_weight(&weights, "a").unwrap();
    assert_eq!(a.as_slice(), &bits(&[1.0, 2.0])[..]);
    let (shape, b) = get_linear_weight_f16(&weights, "b").unwrap();
    assert_eq!(shape, vec![1, 2]);
    assert_eq!(b, vec![f16::from_f32(3.0).to_bits(), f16::from_f32(4.0).to_bits()]);
    let b = get_weight(&weights, "b").unwrap();
    assert_eq!(b.as_slice(), &bits(&[3.0, 4.0])[..]);
    assert_eq!(
        get_weight(&weights, "c").unwrap_err().message(),
        "Weight loading error: Weight 'c' not found"
    );
}

#[test]
fn a_broken_safetensors_file_is_refused() {
    let e = load_safetensors(WeightMap::new(), &[1, 2, 3], None).unwrap_err();
    assert!(e.message().starts_with("SafeTensors error: "));
    let e = load_safetensors(WeightMap::new(), &[1, 2, 3], Some("part-1")).unwrap_err();
    assert!(e.message().starts_with("SafeTensors error: part-1: "));
}

#[test]
fn a_later_weight_takes_the_place_of_an_earlier_one() {
    let first = LoadedTensor::F16 { shape: vec![1], data: vec![7] };
    let second = LoadedTensor::F16 { shape: vec![1], data: vec![8] };
    let weights = WeightMap::new().with("w".to_string(), first).with("w".to_string(), second);
    match weights.get("w") {
        Some(LoadedTensor::F16 { data, .. }) => assert_eq!(data, &vec![8]),
        _ => panic!("the weight is there"),
    }
    assert!(weights.get("v").is_none());
}

fn entry(name: &str, dtype: &str, shape: Vec<usize>, start: u64, end: u64) -> SafetensorsHeaderEntry {
    SafetensorsHeaderEntry { name: name.to_string(), dtype: dtype.to_string(), shape, start, end }
}

#[test]
fn chosen_tensors_are_read_in_the_order_of_the_file() {
    assert_eq!(header_span(&100u64.to_le_bytes(), "f").unwrap(), (100, 108));
    assert!(is_tensor_name("a"));
    assert!(!is_tensor_name("__metadata__"));
    let header = vec![entry("b", "F32", vec![1], 8, 12), entry("a", "F32", vec![2], 0, 8)];
    let names = vec!["b".to_string(), "a".to_string()];
    assert_eq!(select_entries(&header, &names, "f").unwrap(), vec![1, 0]);
    assert!(select_entries(&header, &["c".to_string()], "f").is_err());
    assert_eq!(entry_span(&header[0], 108, "f").unwrap(), (116, 4));
    assert_eq!(
        entry_span(&entry("z", "F32", vec![1], 9, 8), 0, "f").unwrap_err().message(),
        "SafeTensors error: Invalid data offsets for tensor 'z' in f"
    );
    let weights = add_entry(WeightMap::new(), &header[0], &1.5f32.to_le_bytes()).unwrap();
    assert_eq!(get_weight(&weights, "b").unwrap().as_slice(), &bits(&[1.5])[..]);
    assert!(add_entry(WeightMap::new(), &entry("q", "U8", vec![1], 0, 1), &[0]).is_err());
}

#[test]
fn linear_weights_are_left_out_of_a_warm_load() {
    assert!(should_skip_warm_q8_linear_weight("lm_head.weight"));
    assert!(should_skip_warm_q8_linear_weight("model.layers.3.mlp.down_proj.weight"));
    assert!(!should_skip_warm_q8_linear_weight("model.embed_tokens.weight"));
    assert!(!should_skip_warm_q8_linear_weight("model.layers.3.self_attn.q_norm.weight"));
}

#[test]
fn an_index_is_grouped_by_file() {
    let index = vec![
        ("lm_head.weight".to_string(), "b".to_string()),
        ("x".to_string(), "a".to_string()),
        ("y".to_string(), "b".to_string()),
    ];
    let all = group_shards(&index, false);
    assert_eq!(all.iter().map(|s| s.names.len()).sum::<usize>(), 3);
    assert_eq!(all.len(), 2);
    let warm = group_shards(&index, true);
    assert_eq!(warm.iter().map(|s| s.names.len()).sum::<usize>(), 2);
    for shard in &warm {
        assert!(shard.names.iter().all(|n| n != "lm_head.weight"));
    }
}

#[test]
fn the_hash_is_that_of_its_family() {
    assert_eq!(fnv1a64(b""), 0xcbf2_9ce4_8422_2325);
    assert_eq!(fnv1a64(b"a"), 0xaf63_dc4c_8601_ec8c);
    assert_eq!(fnv1a64(b"foobar"), 0x8594_4171_f739_67e8);
    assert_eq!(sidecar_file("a"), "af63dc4c8601ec8c.q8bin");
}

#[test]
fn a_model_is_told_by_its_files() {
    assert!(is_model_file("config.json"));
    assert!(is_model_file("model-00001-of-00002.safetensors"));
    assert!(!is_model_file("tokenizer.json"));
    let a = fingerprint_part("config.json", 10, 20, 30);
    let b = fingerprint_part("model.safetensors", 11, 21, 31);
    assert_eq!(a, "config.json:10:20:30");
    assert_eq!(fingerprint(&[a.clone(), b.clone()]), fingerprint(&[b.clone(), a.clone()]));
    assert!(fingerprint(&[a.clone()]) != fingerprint(&[b]));
    assert_eq!(fingerprint(&[]), "cbf29ce484222325");
}

#[test]
fn the_directory_beside_a_model_is_named_for_it() {
    assert_eq!(default_sidecar_name(true, Some("m"), "/x/m").unwrap(), "m.rsinfer-q8");
    assert_eq!(
        default_sidecar_name(false, Some("m"), "m").unwrap_err().message(),
        "Weight loading error: Cannot derive sidecar parent for model dir m"
    );
    assert_eq!(
        default_sidecar_name(true, None, "..").unwrap_err().message(),
        "Weight loading error: Cannot derive sidecar name for model dir .."
    );
}

#[test]
fn a_damaged_weight_file_is_refused() {
    let weight = Q8LinearWeight {
        qweight: vec![1, -2],
        scales: bits(&[0.5]),
        out_features: 1,
        in_features: 2,
    };
    let file = encode_q8_weight(&weight);
    assert_eq!(file.len(), 24 + 4 + 2);
    assert_eq!(
        decode_q8_weight(&file, 2, 1, "f").unwrap_err().message(),
        "Tensor shape mismatch: expected [2, 1], got [1, 2]"
    );
    assert_eq!(
        decode_q8_weight(&file[..29], 1, 2, "f").unwrap_err().message(),
        "IO error: failed to fill whole buffer"
    );
    let mut other = file.clone();
    other[0] ^= 1;
    assert_eq!(
        decode_q8_weight(&other, 1, 2, "f").unwrap_err().message(),
        "Weight loading error: Invalid Q8 sidecar magic in f"
    );
}

#[test]
fn what_is_stored_is_found() {
    let weight = Q8LinearWeight {
        qweight: vec![1, -2],
        scales: bits(&[0.5]),
        out_features: 1,
        in_features: 2,
    };
    let mut cache = Q8SidecarCache::open("dir", None, "print");
    assert!(cache.file_to_load("w", 1, 2).is_none());
    cache.store("w", &weight);
    cache.count_write();
    let file = cache.file_to_load("w", 1, 2).unwrap();
    assert_eq!(file, sidecar_file("w"));
    assert!(cache.file_to_load("w", 2, 1).is_none());
    let read = cache.accept("w", 1, 2, Ok(encode_q8_weight(&weight)), "dir/w").unwrap();
    assert_eq!(read.qweight, weight.qweight);
    assert!(cache.accept("w", 1, 2, Err("gone".to_string()), "dir/w").is_none());
    let report = cache.report();
    assert_eq!(report.hits, 1);
    assert_eq!(report.writes, 1);
    assert_eq!(report.fallbacks.len(), 1);
    assert!(report.fallbacks[0].contains("gone"));
    assert_eq!(cache.load_existing("w").unwrap().file, file);
}

#[test]
fn the_manifest_of_another_model_is_not_used() {
    let mut cache = Q8SidecarCache::open("dir", None, "one");
    let weight = Q8LinearWeight { qweight: vec![3], scales: bits(&[1.0]), out_features: 1, in_features: 1 };
    cache.store("w", &weight);
    let manifest = Q8SidecarManifest {
        format: cache.manifest.format.clone(),
        model_fingerprint: "one".to_string(),
        entries: cache.manifest.entries,
    };
    let same = Q8SidecarCache::open("dir", Some(manifest), "one");
    assert!(same.load_existing("w").is_some());
    let other = Q8SidecarCache::open("dir", Some(same.manifest), "two");
    assert!(other.load_existing("w").is_none());
}
