//! The key/value cache.

use rsinfer::engine::KVCache;
use rsinfer::tensor::Tensor;

fn bits(values: &[f32]) -> Vec<u32> {
    values.iter().map(|v| v.to_bits()).collect()
}

fn tensor(shape: &[usize], values: &[f32]) -> Tensor {
    Tensor::from_f32_slice(shape, &bits(values)).unwrap()
}

#[test]
fn test_kv_cache_new() {
    let cache = KVCache::new(4, 1024);
    assert_eq!(cache.current_len(), 0);
}

#[test]
fn test_kv_cache_append() {
    let mut cache = KVCache::new(2, 1024);

    let k = tensor(&[2, 2, 2], &[1.0, 2.0, 3.0, 4.0, 10.0, 20.0, 30.0, 40.0]);
    let v = tensor(&[2, 2, 2], &[5.0, 6.0, 7.0, 8.0, 50.0, 60.0, 70.0, 80.0]);

    cache.append(0, &k, &v).unwrap();
    assert_eq!(cache.current_len(), 2);

    let k2 = tensor(&[2, 1, 2], &[9.0, 10.0, 90.0, 100.0]);
    let v2 = tensor(&[2, 1, 2], &[11.0, 12.0, 110.0, 120.0]);
    cache.append(0, &k2, &v2).unwrap();
    assert_eq!(cache.current_len(), 3);

    let cached = cache.get_cached(0).unwrap();
    assert_eq!(cached.num_heads, 2);
    assert_eq!(cached.seq_len, 3);
    assert_eq!(cached.head_dim, 2);
    assert_eq!(cached.capacity_len, 64);
    assert_eq!(&cached.key[0..6], &bits(&[1.0, 2.0, 3.0, 4.0, 9.0, 10.0])[..]);
    assert_eq!(&cached.key[128..134], &bits(&[10.0, 20.0, 30.0, 40.0, 90.0, 100.0])[..]);

    let (cached_k, cached_v) = cache.get(0).unwrap();
    assert_eq!(cached_k.shape(), &[2, 3, 2]);
    assert_eq!(
        cached_k.as_slice(),
        &bits(&[1.0, 2.0, 3.0, 4.0, 9.0, 10.0, 10.0, 20.0, 30.0, 40.0, 90.0, 100.0])[..]
    );
    assert_eq!(
        cached_v.as_slice(),
        &bits(&[5.0, 6.0, 7.0, 8.0, 11.0, 12.0, 50.0, 60.0, 70.0, 80.0, 110.0, 120.0])[..]
    );
}

#[test]
fn snapshot_restore_truncates_lengths_without_losing_prior_cache() {
    let mut cache = KVCache::new(1, 16);
    let k = tensor(&[1, 2, 2], &[1.0, 2.0, 3.0, 4.0]);
    let v = tensor(&[1, 2, 2], &[5.0, 6.0, 7.0, 8.0]);
    cache.append(0, &k, &v).unwrap();
    let snapshot = cache.snapshot();

    let speculative_k = tensor(&[1, 1, 2], &[9.0, 10.0]);
    let speculative_v = tensor(&[1, 1, 2], &[11.0, 12.0]);
    cache.append(0, &speculative_k, &speculative_v).unwrap();
    assert_eq!(cache.current_len(), 3);

    cache.restore(snapshot).unwrap();
    assert_eq!(cache.current_len(), 2);
    let replacement_k = tensor(&[1, 1, 2], &[13.0, 14.0]);
    let replacement_v = tensor(&[1, 1, 2], &[15.0, 16.0]);
    cache.append(0, &replacement_k, &replacement_v).unwrap();

    let (cached_k, cached_v) = cache.get(0).unwrap();
    assert_eq!(cached_k.as_slice(), &bits(&[1.0, 2.0, 3.0, 4.0, 13.0, 14.0])[..]);
    assert_eq!(cached_v.as_slice(), &bits(&[5.0, 6.0, 7.0, 8.0, 15.0, 16.0])[..]);
}

#[test]
fn append_refuses_other_shapes_and_a_full_cache() {
    let mut cache = KVCache::new(1, 2);
    let flat = tensor(&[2, 2], &[1.0, 2.0, 3.0, 4.0]);
    assert!(cache.append(0, &flat, &flat).is_err());
    let one = tensor(&[1, 1, 2], &[1.0, 2.0]);
    let two = tensor(&[2, 1, 1], &[1.0, 2.0]);
    assert!(cache.append(0, &one, &two).is_err());
    cache.append(0, &one, &one).unwrap();
    assert!(cache.append(0, &two, &two).is_err());
    cache.append(0, &one, &one).unwrap();
    let e = cache.append(0, &one, &one).unwrap_err();
    assert_eq!(
        e.message(),
        "Tensor dimension error: KV cache length 3 exceeds max_len 2"
    );
    assert_eq!(cache.current_len(), 2);
}

#[test]
fn a_cache_grows_and_keeps_what_it_holds() {
    let mut cache = KVCache::new(1, 1024);
    let mut expected: Vec<u32> = Vec::new();
    for i in 0..130 {
        let row = [i as f32, (i * 2) as f32];
        expected.extend(bits(&row));
        let t = tensor(&[1, 1, 2], &row);
        cache.append(0, &t, &t).unwrap();
    }
    let (k, v) = cache.get(0).unwrap();
    assert_eq!(k.shape(), &[1, 130, 2]);
    assert_eq!(k.as_slice(), &expected[..]);
    assert_eq!(v.as_slice(), &expected[..]);
}

#[test]
fn an_empty_layer_has_nothing_to_read() {
    let cache = KVCache::new(1, 8);
    assert!(cache.get(0).is_err());
    assert!(cache.get_cached(0).is_err());
    assert!(cache.get(7).is_err());
}

#[test]
fn a_reset_cache_starts_anew() {
    let mut cache = KVCache::new(1, 8);
    let t = tensor(&[1, 2, 1], &[1.0, 2.0]);
    cache.append(0, &t, &t).unwrap();
    cache.reset();
    assert_eq!(cache.current_len(), 0);
    cache.append(0, &t, &t).unwrap();
    let (k, _) = cache.get(0).unwrap();
    assert_eq!(k.as_slice(), &bits(&[1.0, 2.0])[..]);
}

#[test]
fn a_length_beyond_the_limit_is_refused() {
    let mut cache = KVCache::new(1, 8);
    cache.set_current_len(8).unwrap();
    assert_eq!(cache.current_len(), 8);
    assert_eq!(
        cache.set_current_len(9).unwrap_err().message(),
        "Tensor dimension error: KV cache length 9 exceeds max_len 8"
    );
    assert_eq!(cache.current_len(), 8);
    assert_eq!(cache.max_len(), 8);
}

#[test]
fn what_is_read_is_what_was_appended() {
    let mut cache = KVCache::new(2, 200);
    let other = tensor(&[1, 1, 1], &[7.0]);
    cache.append(1, &other, &other).unwrap();
    assert_eq!(cache.current_len(), 0);
    let mut heads = [Vec::new(), Vec::new()];
    for step in 0..70 {
        let (a, b) = (step as f32, 100.0 + step as f32);
        heads[0].push(a);
        heads[1].push(b);
        cache.append(0, &tensor(&[2, 1, 1], &[a, b]), &tensor(&[2, 1, 1], &[-a, -b])).unwrap();
        assert_eq!(cache.current_len(), step + 1);
    }
    let (keys, values) = cache.get(0).unwrap();
    assert_eq!(keys.shape(), &[2, 70, 1]);
    let expected: Vec<f32> = heads.concat();
    assert_eq!(keys.as_slice(), &bits(&expected)[..]);
    let negated: Vec<f32> = expected.iter().map(|v| -v).collect();
    assert_eq!(values.as_slice(), &bits(&negated)[..]);
    assert_eq!(cache.get(1).unwrap().0.as_slice(), &bits(&[7.0])[..]);
}
