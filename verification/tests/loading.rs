//! Loading and building a model, and the weights that are kept beside it.

use rsinfer::engine::CacheStamp;
use rsinfer::error::RsinferError;
use rsinfer::model::loading::{has_output_layer, BuildAction, LoadAction, ModelBuild, ModelLoad};
use rsinfer::model::q8_load::Q8Step;
use rsinfer::model::q8_sidecar::{encode_q8_weight, sidecar_file};
use rsinfer::model::weights::{
    warm_names, weight_source, SafetensorsHeaderEntry, WeightSource,
};
use rsinfer::model::{LoadedTensor, Q8SidecarCache, WeightMap};
use rsinfer::runtime::{
    DevicePreference, LayerDevice, QuantizationCacheMode, QuantizationMode, RuntimeOptions,
    RuntimePlan,
};
use rsinfer::tensor::Q8LinearWeight;

fn weight(first: i8) -> Q8LinearWeight {
    Q8LinearWeight {
        qweight: vec![first, -2],
        scales: vec![0.5f32.to_bits()],
        out_features: 1,
        in_features: 2,
    }
}

fn options(quantization: QuantizationMode, cache: QuantizationCacheMode) -> RuntimeOptions {
    RuntimeOptions { quantization, quantization_cache: cache, ..RuntimeOptions::default() }
}

fn gone() -> RsinferError {
    RsinferError::Io("gone".to_string())
}

/// Creates a weight under a name, with files that can be written.
fn create(cache: &mut Q8SidecarCache, name: &str, made: Q8LinearWeight) -> Q8LinearWeight {
    let step = cache.load_created(name, Ok(made));
    let Q8Step::Write { file, bytes, weight } = step else {
        panic!("a created weight is written");
    };
    assert_eq!(file, sidecar_file(name));
    assert_eq!(bytes, encode_q8_weight(&weight));
    let Q8Step::List(weight) = cache.load_written(name, weight, Ok(())) else {
        panic!("a written weight is listed");
    };
    let Q8Step::Done(weight) = cache.load_listed(weight, Ok(())) else {
        panic!("a listed weight is there");
    };
    weight
}

#[test]
fn a_weight_that_was_kept_is_the_hit_of_the_next_load() {
    let mut cache = Q8SidecarCache::open("dir", None, "print");
    assert!(matches!(cache.load_or_create("w", 1, 2), Q8Step::Create));
    let first = create(&mut cache, "w", weight(7));
    assert_eq!((cache.hits, cache.writes, cache.fallbacks.len()), (0, 1, 0));

    let Q8Step::Read(file) = cache.load_or_create("w", 1, 2) else {
        panic!("a kept weight is read");
    };
    assert_eq!(file, sidecar_file("w"));
    let read = Ok(encode_q8_weight(&first));
    let Q8Step::Done(second) = cache.load_read("w", 1, 2, read, "dir/w") else {
        panic!("a kept weight is there");
    };
    assert_eq!(second.qweight, first.qweight);
    assert_eq!(second.scales, first.scales);
    assert_eq!((cache.hits, cache.writes, cache.fallbacks.len()), (1, 1, 0));

    assert!(matches!(cache.load_or_create("w", 2, 1), Q8Step::Create));
    assert!(matches!(cache.load_or_create("v", 1, 2), Q8Step::Create));
}

#[test]
fn a_weight_that_cannot_be_read_is_created_again() {
    let mut cache = Q8SidecarCache::open("dir", None, "print");
    create(&mut cache, "w", weight(7));
    let step = cache.load_read("w", 1, 2, Err("no such file".to_string()), "dir/w");
    assert!(matches!(step, Q8Step::Create));
    assert_eq!(cache.fallbacks, ["w: sidecar read failed: IO error: no such file"]);
    let again = create(&mut cache, "w", weight(9));
    assert_eq!(again.qweight, [9, -2]);
    assert_eq!((cache.hits, cache.writes), (0, 2));
    assert_eq!(cache.manifest.entries.len(), 1);
}

#[test]
fn a_weight_that_cannot_be_created_or_kept_is_an_error() {
    let mut cache = Q8SidecarCache::open("dir", None, "print");
    let step = cache.load_created("w", Err(RsinferError::WeightError("none".to_string())));
    let Q8Step::Failed(error) = step else {
        panic!("an error stays an error");
    };
    assert_eq!(error.message(), "Weight loading error: none");
    assert!(matches!(cache.load_written("w", weight(7), Err(gone())), Q8Step::Failed(_)));
    assert_eq!(cache.manifest.entries.len(), 0);
    assert!(matches!(cache.load_written("w", weight(7), Ok(())), Q8Step::List(_)));
    let Q8Step::Failed(error) = cache.load_listed(weight(7), Err(gone())) else {
        panic!("a list that cannot be written is an error");
    };
    assert_eq!(error.message(), "IO error: gone");
    assert_eq!(cache.manifest.entries.len(), 1);
    assert_eq!((cache.hits, cache.writes, cache.fallbacks.len()), (0, 0, 0));
}

#[test]
fn an_index_comes_before_one_file() {
    assert_eq!(weight_source(true, true, "\"m\"").unwrap(), WeightSource::Sharded);
    assert_eq!(weight_source(true, false, "\"m\"").unwrap(), WeightSource::Sharded);
    assert_eq!(weight_source(false, true, "\"m\"").unwrap(), WeightSource::Single);
    assert_eq!(
        weight_source(false, false, "\"m\"").unwrap_err().message(),
        "Weight loading error: No safetensors file found in \"m\""
    );
}

#[test]
fn a_header_is_read_but_for_its_linear_weights() {
    let entry = |name: &str| SafetensorsHeaderEntry {
        name: name.to_string(),
        dtype: "F16".to_string(),
        shape: vec![1],
        start: 0,
        end: 2,
    };
    let header = [
        entry("model.embed_tokens.weight"),
        entry("model.layers.0.self_attn.q_proj.weight"),
        entry("model.norm.weight"),
        entry("lm_head.weight"),
    ];
    assert_eq!(warm_names(&header), ["model.embed_tokens.weight", "model.norm.weight"]);
}

#[test]
fn kept_weights_are_tried_before_all_weights() {
    let kept = options(QuantizationMode::Q8, QuantizationCacheMode::Auto);
    let mut load = ModelLoad::start(&kept);
    assert_eq!(load.action, LoadAction::OpenFirst);
    assert_eq!(load.advance(None), LoadAction::ReadWarm);
    assert_eq!(load.advance(None), LoadAction::BuildWarm);
    assert_eq!(load.advance(None), LoadAction::FinishWarm);

    let mut load = ModelLoad::start(&kept);
    assert_eq!(load.advance(Some("closed".to_string())), LoadAction::ReadAll);
    assert_eq!(load.advance(None), LoadAction::OpenAgain);
    assert_eq!(load.advance(Some("still".to_string())), LoadAction::Build { sidecar: false });
    assert_eq!(load.why.as_deref(), Some("closed"));
    assert_eq!(load.advance(None), LoadAction::Finish);

    let mut load = ModelLoad::start(&kept);
    load.advance(None);
    load.advance(None);
    assert_eq!(load.advance(Some("no weight".to_string())), LoadAction::ReadAll);
    assert_eq!(load.advance(None), LoadAction::OpenAgain);
    assert_eq!(load.advance(None), LoadAction::Build { sidecar: true });
    assert_eq!(load.why, None);
    assert_eq!(load.advance(Some("no weight".to_string())), LoadAction::Fail);

    let mut load = ModelLoad::start(&options(QuantizationMode::Q8, QuantizationCacheMode::Off));
    assert_eq!(load.action, LoadAction::ReadAll);
    assert_eq!(load.advance(None), LoadAction::Build { sidecar: false });
    let mut load = ModelLoad::start(&RuntimeOptions::default());
    assert_eq!(load.advance(Some("no file".to_string())), LoadAction::Fail);
}

fn gpu_plan() -> RuntimePlan {
    let mut plan = RuntimePlan::cpu_only(2, DevicePreference::Hybrid, "start".to_string());
    plan.layer_devices = vec![LayerDevice::Gpu, LayerDevice::Cpu];
    plan
}

#[test]
fn a_device_that_fails_is_noted_and_not_used() {
    let kept = options(QuantizationMode::Q8, QuantizationCacheMode::Auto);
    let mut plan = gpu_plan();
    let mut steps = ModelBuild::start(2, true, &kept, true, None, &plan);
    assert_eq!(steps.action, BuildAction::TryDevice);
    assert_eq!(steps.advance(&mut plan, Some("no adapter")), BuildAction::FindLayer(0));
    assert_eq!(plan.notes.len(), 3);
    assert!(plan.notes[1].ends_with("no adapter"));
    assert_eq!(steps.advance(&mut plan, None), BuildAction::FindLayer(1));
    assert_eq!(steps.advance(&mut plan, None), BuildAction::FindHead);
    assert_eq!(steps.advance(&mut plan, Some("not found")), BuildAction::CheckHead);
    assert_eq!(steps.advance(&mut plan, Some("not found")), BuildAction::FindEmbeddings);
    assert_eq!(steps.advance(&mut plan, None), BuildAction::Assemble);
    assert_eq!(steps.advance(&mut plan, None), BuildAction::EnableQ8);
    assert_eq!(steps.advance(&mut plan, None), BuildAction::Finish);
    assert_eq!(plan.notes.len(), 3);
}

#[test]
fn a_device_that_opens_is_used() {
    let mut plan = gpu_plan();
    let resident = RuntimeOptions {
        internal_resident_decode_prototype: true,
        ..RuntimeOptions::default()
    };
    let mut steps = ModelBuild::start(2, false, &resident, false, None, &plan);
    assert_eq!(steps.advance(&mut plan, None), BuildAction::Assemble);
    assert_eq!(steps.advance(&mut plan, None), BuildAction::AttachDevice);
    assert_eq!(plan.notes.len(), 1);
    assert_eq!(steps.advance(&mut plan, None), BuildAction::Finish);
    assert!(plan.notes[1].starts_with("Internal resident decode prototype"));
}

#[test]
fn embeddings_are_looked_for_only_without_an_output_layer() {
    let kept = options(QuantizationMode::Q8, QuantizationCacheMode::Auto);
    let mut plan = RuntimePlan::cpu_only(0, DevicePreference::Cpu, "start".to_string());
    let mut steps = ModelBuild::start(0, true, &kept, true, None, &plan);
    assert_eq!(steps.action, BuildAction::FindHead);
    assert_eq!(steps.advance(&mut plan, None), BuildAction::Assemble);
    let mut steps = ModelBuild::start(0, true, &kept, true, None, &plan);
    steps.advance(&mut plan, Some("not found"));
    assert_eq!(steps.action, BuildAction::CheckHead);
    assert_eq!(steps.advance(&mut plan, None), BuildAction::Assemble);
    let mut steps = ModelBuild::start(0, false, &kept, true, None, &plan);
    assert_eq!(steps.advance(&mut plan, Some("not found")), BuildAction::Assemble);

    let why = Some("closed".to_string());
    let mut steps = ModelBuild::start(0, true, &kept, false, why, &plan);
    assert_eq!(steps.action, BuildAction::Assemble);
    assert_eq!(steps.advance(&mut plan, None), BuildAction::EnableQ8);
    assert_eq!(
        plan.notes.last().unwrap(),
        "Q8 sidecar cache unavailable; deriving Q8 weights in memory: closed"
    );

    let weights = WeightMap::new();
    assert!(!has_output_layer(&weights));
    let weights = weights.with(
        "lm_head.weight".to_string(),
        LoadedTensor::F16 { shape: vec![1, 2], data: vec![0, 0] },
    );
    assert!(has_output_layer(&weights));
}

#[test]
fn stamps_do_not_come_again() {
    let mut stamp = CacheStamp::new();
    let first = stamp;
    stamp.host_ran();
    let second = stamp;
    stamp.next_cache();
    assert_eq!(first, CacheStamp { cache_id: 1, revision: 1 });
    assert_eq!(second, CacheStamp { cache_id: 1, revision: 2 });
    assert_eq!(stamp, CacheStamp { cache_id: 2, revision: 3 });
}
