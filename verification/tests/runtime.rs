//! The plan of what runs where.

use rsinfer::model::Qwen3Config;
use rsinfer::runtime::{
    build_runtime_plan, estimate_gpu_layers, estimate_lm_head_bytes,
    estimate_transformer_layer_bytes, needs_gpu_probe, parse_nvidia_smi, parse_nvidia_smi_line,
    DevicePreference, GpuInfo, LayerDevice, QuantizationCacheMode, QuantizationMode,
    RuntimeOptions, RuntimePlan,
};

fn test_config() -> Qwen3Config {
    Qwen3Config {
        hidden_size: 256,
        intermediate_size: 512,
        num_hidden_layers: 4,
        num_attention_heads: 8,
        num_key_value_heads: 2,
        explicit_head_dim: Some(32),
        vocab_size: 1024,
        max_position_embeddings: 2048,
        rms_norm_eps: 1e-6f32.to_bits(),
        rope_theta: 10000.0f32.to_bits(),
        model_type: "qwen3".to_string(),
        torch_dtype: "float16".to_string(),
        tie_word_embeddings: true,
        eos_token_id: 151645,
        bos_token_id: None,
    }
}

fn test_gpu(mib: usize) -> GpuInfo {
    GpuInfo {
        name: "Test GPU".to_string(),
        memory_total_mib: Some(mib),
        driver_version: Some("1.0".to_string()),
    }
}

#[test]
fn cpu_plan_never_probes_gpu() {
    let options = RuntimeOptions::default();
    assert!(!needs_gpu_probe(&options));
    let plan = build_runtime_plan(&test_config(), &options, None);
    assert_eq!(plan.compute_backend, "cpu");
    assert_eq!(plan.gpu_layer_count(), 0);
    assert!(plan.layer_devices.iter().all(|&d| d == LayerDevice::Cpu));
}

#[test]
fn nvidia_smi_parser_accepts_first_gpu_line() {
    let gpu = parse_nvidia_smi_line("NVIDIA GeForce RTX 4060 Laptop GPU, 8188, 595.79").unwrap();
    assert_eq!(gpu.name, "NVIDIA GeForce RTX 4060 Laptop GPU");
    assert_eq!(gpu.memory_total_mib, Some(8188));
    assert_eq!(gpu.driver_version.as_deref(), Some("595.79"));
}

#[test]
fn runtime_plan_display_is_honest_about_cpu_execution() {
    let config = test_config();
    let gpu = test_gpu(8192);
    let layers = estimate_gpu_layers(&config, &gpu, QuantizationMode::Unquantized);
    assert!(layers <= config.num_hidden_layers);

    let text = RuntimePlan {
        requested_device: DevicePreference::Hybrid,
        compute_backend: "cpu-execution-with-planned-gpu-placement".to_string(),
        gpu: Some(gpu),
        layer_devices: vec![
            LayerDevice::Gpu,
            LayerDevice::Gpu,
            LayerDevice::Cpu,
            LayerDevice::Cpu,
        ],
        transformer_decode_gpu_layers: 0,
        lm_head_device: LayerDevice::Cpu,
        quantization: QuantizationMode::Unquantized,
        notes: vec!["GPU kernels are not implemented yet.".to_string()],
    }
    .to_text();
    assert!(text.contains("cpu-execution-with-planned-gpu-placement"));
    assert!(text.contains("2 GPU / 2 CPU"));
    assert!(text.contains("runtime.quantization: none"));
}

#[test]
fn q8_auto_estimate_uses_sixteen_transformer_gpu_layers() {
    let mut config = test_config();
    config.num_hidden_layers = 24;
    let gpu = test_gpu(8192);

    assert_eq!(estimate_gpu_layers(&config, &gpu, QuantizationMode::Q8), 16);
}

#[test]
fn nvidia_smi_parser_refuses_a_line_without_a_name() {
    assert!(parse_nvidia_smi_line("").is_none());
    assert!(parse_nvidia_smi_line(" , 8188, 1").is_none());
    let gpu = parse_nvidia_smi_line("Some GPU, many").unwrap();
    assert_eq!(gpu.memory_total_mib, None);
    assert_eq!(gpu.driver_version, None);
}

#[test]
fn nvidia_smi_output_is_read_from_its_first_line() {
    let gpu = parse_nvidia_smi("A, 10, 1.5\nB, 20, 1.6\n").unwrap();
    assert_eq!(gpu.name, "A");
    assert_eq!(gpu.memory_total_mib, Some(10));
}

#[test]
fn weights_are_estimated_in_single_precision() {
    let config = test_config();
    // Query and output: 2 * 256 * 256; key and value: 2 * 256 * 64; feed-forward: 3 * 256 * 512.
    assert_eq!(
        estimate_transformer_layer_bytes(&config),
        (2 * 256 * 256 + 2 * 256 * 64 + 3 * 256 * 512) * 4
    );
    assert_eq!(estimate_lm_head_bytes(&config), 1024 * 256 * 4);
}

#[test]
fn a_plan_without_a_device_stays_on_the_processor() {
    let options = RuntimeOptions {
        device: DevicePreference::Auto,
        gpu_layers: None,
        quantization: QuantizationMode::Unquantized,
        quantization_cache: QuantizationCacheMode::Auto,
        q8_cache_dir: None,
        internal_resident_decode_prototype: false,
    };
    assert!(needs_gpu_probe(&options));
    let plan = build_runtime_plan(&test_config(), &options, None);
    assert_eq!(plan.gpu_layer_count(), 0);
    assert_eq!(plan.layer_devices.len(), 4);
    assert!(!plan.should_try_gpu_backend());
}

#[test]
fn a_hybrid_plan_places_the_requested_layers() {
    let options = RuntimeOptions {
        device: DevicePreference::Hybrid,
        gpu_layers: Some(3),
        quantization: QuantizationMode::Q8,
        quantization_cache: QuantizationCacheMode::Off,
        q8_cache_dir: None,
        internal_resident_decode_prototype: false,
    };
    let plan = build_runtime_plan(&test_config(), &options, Some(test_gpu(8192)));
    assert_eq!(plan.gpu_layer_count(), 3);
    assert_eq!(plan.layer_devices[2], LayerDevice::Gpu);
    assert_eq!(plan.layer_devices[3], LayerDevice::Cpu);
    assert_eq!(plan.planned_transformer_gpu_layers(), 3);
    assert!(plan.should_try_gpu_backend());
}

#[test]
fn marks_change_the_back_end() {
    let mut plan = RuntimePlan::cpu_only(2, DevicePreference::Hybrid, "why".to_string());
    plan.mark_lm_head_gpu();
    assert_eq!(plan.lm_head_device, LayerDevice::Gpu);
    assert!(plan.compute_backend != "cpu");
    let text = plan.to_text();
    assert!(text.starts_with("runtime.device: hybrid\n"));
    assert!(text.contains("runtime.lm_head: GPU\n"));
    assert!(text.contains("runtime.note: why\n"));
}

#[test]
fn notes_stand_in_their_order() {
    let mut plan = RuntimePlan::cpu_only(1, DevicePreference::Cpu, "first".to_string());
    plan.add_note("second");
    plan.mark_q8_sidecar_disabled();
    assert_eq!(plan.notes[0], "first");
    assert_eq!(plan.notes[1], "second");
    assert_eq!(plan.notes.len(), 3);
}

#[test]
fn words_of_the_options() {
    assert_eq!(DevicePreference::Cpu.as_str(), "cpu");
    assert_eq!(DevicePreference::Auto.as_str(), "auto");
    assert_eq!(DevicePreference::Hybrid.as_str(), "hybrid");
    assert_eq!(QuantizationMode::Unquantized.as_str(), "none");
    assert_eq!(QuantizationMode::Q8.as_str(), "q8");
    assert_eq!(QuantizationCacheMode::Auto.as_str(), "auto");
    assert_eq!(QuantizationCacheMode::Off.as_str(), "off");
    assert_eq!(LayerDevice::Cpu.as_str(), "CPU");
    assert_eq!(LayerDevice::Gpu.as_str(), "GPU");
}

#[test]
fn the_backend_is_named_after_the_work() {
    let mut plan = RuntimePlan::cpu_only(2, DevicePreference::Auto, "start".to_string());
    plan.mark_transformer_decode_gpu_layers(2, 14);
    assert_eq!(plan.compute_backend, "cpu-prefill-gpu-decode-linears");
    plan.mark_lm_head_gpu();
    assert_eq!(plan.compute_backend, "cpu-prefill-gpu-decode-linears-gpu-lm-head");
    let name = plan.compute_backend.clone();
    plan.mark_lm_head_gpu();
    assert_eq!(plan.compute_backend, name);
    plan.mark_transformer_decode_gpu_layers(0, 0);
    assert_eq!(plan.compute_backend, "cpu-transformer-gpu-lm-head");
    plan.compute_backend = String::new();
    plan.refresh_compute_backend();
    assert_eq!(plan.compute_backend, "cpu-transformer-gpu-lm-head");

    let mut plan = RuntimePlan::cpu_only(2, DevicePreference::Hybrid, "start".to_string());
    plan.mark_transformer_decode_gpu_layers(0, 0);
    assert_eq!(plan.compute_backend, "cpu-execution-with-planned-gpu-placement");
    let mut plan = RuntimePlan::cpu_only(2, DevicePreference::Cpu, "start".to_string());
    plan.mark_transformer_decode_gpu_layers(0, 0);
    assert_eq!(plan.compute_backend, "cpu");
}
