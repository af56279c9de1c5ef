//! The device plan: which layers are meant for a GPU, and what is really used.

use vstd::prelude::*;
use vstd::string::*;

use crate::model::Qwen3Config;
use crate::text;

verus! {

/// The most layers that one plan puts on a GPU.
pub const MAX_ACTIVE_TRANSFORMER_GPU_LAYERS: usize = 16;

/// The most layers that a plan puts on a GPU by itself.
pub const MAX_AUTO_TRANSFORMER_GPU_LAYERS: usize = 16;

/// What the user asked for.
#[derive(Clone, Copy, Debug, PartialEq, Eq, Structural)]
pub enum DevicePreference {
    Cpu,
    Auto,
    Hybrid,
}

/// Where a layer is meant to run.
#[derive(Clone, Copy, Debug, PartialEq, Eq, Structural)]
pub enum LayerDevice {
    Cpu,
    Gpu,
}

/// How weights are quantized.
#[derive(Clone, Copy, Debug, PartialEq, Eq, Structural)]
pub enum QuantizationMode {
    Unquantized,
    Q8,
}

/// Whether quantized weights are kept beside the model.
#[derive(Clone, Copy, Debug, PartialEq, Eq, Structural)]
pub enum QuantizationCacheMode {
    Auto,
    Off,
}

/// The word for a preference.
pub open spec fn preference_text(d: DevicePreference) -> Seq<char> {
    match d {
        DevicePreference::Cpu => "cpu"@,
        DevicePreference::Auto => "auto"@,
        DevicePreference::Hybrid => "hybrid"@,
    }
}

/// The word for a cache mode.
pub open spec fn cache_mode_text(m: QuantizationCacheMode) -> Seq<char> {
    match m {
        QuantizationCacheMode::Auto => "auto"@,
        QuantizationCacheMode::Off => "off"@,
    }
}

/// The word for a quantization mode.
pub open spec fn quantization_text(m: QuantizationMode) -> Seq<char> {
    match m {
        QuantizationMode::Unquantized => "none"@,
        QuantizationMode::Q8 => "q8"@,
    }
}

/// The word for a device.
pub open spec fn device_text(d: LayerDevice) -> Seq<char> {
    match d {
        LayerDevice::Cpu => "CPU"@,
        LayerDevice::Gpu => "GPU"@,
    }
}

impl DevicePreference {
    pub fn as_str(self) -> (r: &'static str)
        ensures
            r@ == preference_text(self),
    {
        match self {
            DevicePreference::Cpu => "cpu",
            DevicePreference::Auto => "auto",
            DevicePreference::Hybrid => "hybrid",
        }
    }
}

impl QuantizationCacheMode {
    pub fn as_str(self) -> (r: &'static str)
        ensures
            r@ == cache_mode_text(self),
    {
        match self {
            QuantizationCacheMode::Auto => "auto",
            QuantizationCacheMode::Off => "off",
        }
    }
}

impl QuantizationMode {
    pub fn as_str(self) -> (r: &'static str)
        ensures
            r@ == quantization_text(self),
    {
        match self {
            QuantizationMode::Unquantized => "none",
            QuantizationMode::Q8 => "q8",
        }
    }
}

impl LayerDevice {
    pub fn as_str(self) -> (r: &'static str)
        ensures
            r@ == device_text(self),
    {
        match self {
            LayerDevice::Cpu => "CPU",
            LayerDevice::Gpu => "GPU",
        }
    }
}

/// What the user chose; a directory is given by its path.
#[derive(Clone, Debug, PartialEq, Eq)]
pub struct RuntimeOptions {
    pub device: DevicePreference,
    pub gpu_layers: Option<usize>,
    pub quantization: QuantizationMode,
    pub quantization_cache: QuantizationCacheMode,
    pub q8_cache_dir: Option<String>,
    pub internal_resident_decode_prototype: bool,
}

impl Default for RuntimeOptions {
    fn default() -> (r: RuntimeOptions)
        ensures
            r.device is Cpu,
            r.gpu_layers is None,
            r.quantization is Unquantized,
            r.quantization_cache is Auto,
            r.q8_cache_dir is None,
            !r.internal_resident_decode_prototype,
    {
        RuntimeOptions {
            device: DevicePreference::Cpu,
            gpu_layers: None,
            quantization: QuantizationMode::Unquantized,
            quantization_cache: QuantizationCacheMode::Auto,
            q8_cache_dir: None,
            internal_resident_decode_prototype: false,
        }
    }
}

/// What is known of a GPU.
#[derive(Clone, Debug, PartialEq, Eq)]
pub struct GpuInfo {
    pub name: String,
    pub memory_total_mib: Option<usize>,
    pub driver_version: Option<String>,
}

/// The mathematical value of what is known of a GPU.
pub struct GpuView {
    pub name: Seq<char>,
    pub memory_total_mib: Option<usize>,
    pub driver_version: Option<Seq<char>>,
}

impl View for GpuInfo {
    type V = GpuView;

    open spec fn view(&self) -> GpuView {
        GpuView {
            name: self.name@,
            memory_total_mib: self.memory_total_mib,
            driver_version: match self.driver_version {
                Some(s) => Some(s@),
                None => None,
            },
        }
    }
}

/// Which device does what.
#[derive(Clone, Debug, PartialEq, Eq)]
pub struct RuntimePlan {
    pub requested_device: DevicePreference,
    pub compute_backend: String,
    pub gpu: Option<GpuInfo>,
    pub layer_devices: Vec<LayerDevice>,
    pub transformer_decode_gpu_layers: usize,
    pub lm_head_device: LayerDevice,
    pub quantization: QuantizationMode,
    pub notes: Vec<String>,
}

/// The mathematical value of a plan.
pub struct PlanView {
    pub requested_device: DevicePreference,
    pub compute_backend: Seq<char>,
    pub gpu: Option<GpuView>,
    pub layer_devices: Seq<LayerDevice>,
    pub transformer_decode_gpu_layers: usize,
    pub lm_head_device: LayerDevice,
    pub quantization: QuantizationMode,
    pub notes: Seq<Seq<char>>,
}

/// The value of a GPU that may be missing.
pub open spec fn gpu_view(g: Option<GpuInfo>) -> Option<GpuView> {
    match g {
        Some(g) => Some(g@),
        None => None,
    }
}

/// The values of a list of texts.
pub open spec fn texts(v: Seq<String>) -> Seq<Seq<char>> {
    v.map_values(|s: String| s@)
}

impl View for RuntimePlan {
    type V = PlanView;

    open spec fn view(&self) -> PlanView {
        PlanView {
            requested_device: self.requested_device,
            compute_backend: self.compute_backend@,
            gpu: gpu_view(self.gpu),
            layer_devices: self.layer_devices@,
            transformer_decode_gpu_layers: self.transformer_decode_gpu_layers,
            lm_head_device: self.lm_head_device,
            quantization: self.quantization,
            notes: texts(self.notes@),
        }
    }
}

/// The number of layers that a list puts on a GPU.
pub open spec fn gpu_count(s: Seq<LayerDevice>) -> nat
    decreases s.len(),
{
    if s.len() == 0 {
        0
    } else {
        gpu_count(s.drop_last()) + (if s.last() is Gpu {
            1nat
        } else {
            0nat
        })
    }
}

/// A list that puts the first `n` of `total` layers on a GPU.
pub open spec fn placement(total: nat, n: nat) -> Seq<LayerDevice> {
    Seq::new(
        total,
        |i: int|
            if i < n {
                LayerDevice::Gpu
            } else {
                LayerDevice::Cpu
            },
    )
}

/// A plan that uses the CPU alone.
pub open spec fn cpu_plan(num_layers: nat, requested: DevicePreference, note: Seq<char>) -> PlanView {
    PlanView {
        requested_device: requested,
        compute_backend: "cpu"@,
        gpu: None,
        layer_devices: placement(num_layers, 0),
        transformer_decode_gpu_layers: 0,
        lm_head_device: LayerDevice::Cpu,
        quantization: QuantizationMode::Unquantized,
        notes: seq![note],
    }
}

/// The name of what does the work.
pub open spec fn backend_text(decode_gpu: bool, lm_head_gpu: bool, requested: DevicePreference)
    -> Seq<char> {
    if decode_gpu && lm_head_gpu {
        "cpu-prefill-gpu-decode-linears-gpu-lm-head"@
    } else if decode_gpu {
        "cpu-prefill-gpu-decode-linears"@
    } else if lm_head_gpu {
        "cpu-transformer-gpu-lm-head"@
    } else if requested is Cpu {
        "cpu"@
    } else {
        "cpu-execution-with-planned-gpu-placement"@
    }
}

/// The name of what does the work under a plan.
pub open spec fn backend_of(p: PlanView) -> Seq<char> {
    backend_text(
        p.transformer_decode_gpu_layers > 0,
        p.lm_head_device is Gpu,
        p.requested_device,
    )
}

/// A plan whose backend is named after what it runs where.
pub open spec fn refreshed(p: PlanView) -> PlanView {
    PlanView { compute_backend: backend_of(p), ..p }
}

/// Whether `part` stands somewhere in `text`.
pub open spec fn has_text(text: Seq<char>, part: Seq<char>) -> bool {
    exists|i: int|
        0 <= i <= text.len() - part.len() && #[trigger] text.subrange(i, i + part.len()) == part
}

/// A plan with one more note.
pub open spec fn noted(p: PlanView, note: Seq<char>) -> PlanView {
    PlanView { notes: p.notes.push(note), ..p }
}

/// The bytes of one layer in single precision.
pub open spec fn layer_bytes(c: Qwen3Config) -> nat {
    let h = c.hidden_size as nat;
    let i = c.intermediate_size as nat;
    let kv = (c.num_key_value_heads as nat) * c.head_width();
    (h * h + kv * h + kv * h + h * h + i * h + i * h + h * i) * 4
}

/// The bytes of the output layer in single precision.
pub open spec fn lm_head_bytes(c: Qwen3Config) -> nat {
    (c.vocab_size as nat) * (c.hidden_size as nat) * 4
}

/// The sizes of the layers can be counted.
pub open spec fn sizes_fit(c: Qwen3Config) -> bool {
    &&& c.has_head_width()
    &&& (c.num_key_value_heads as nat) * c.head_width() <= usize::MAX
    &&& layer_bytes(c) <= usize::MAX
    &&& (c.vocab_size as nat) * (c.hidden_size as nat) <= usize::MAX
    &&& lm_head_bytes(c) <= usize::MAX
}

/// The smaller of two numbers.
pub open spec fn at_most(a: nat, b: nat) -> nat {
    if a < b {
        a
    } else {
        b
    }
}

/// The part of a GPU's memory that layers may take: what is left beside the output layer and a
/// reserve.
pub open spec fn usable_mib(c: Qwen3Config, mib: usize) -> nat {
    let taken = 2048 + lm_head_bytes(c) / (1024 * 1024);
    if mib >= taken {
        (mib - taken) as nat
    } else {
        0
    }
}

/// The layers that fit in the memory of a GPU, by a careful estimate.
pub open spec fn estimated_layers(c: Qwen3Config, g: GpuView, q: QuantizationMode) -> nat {
    let layers = c.num_hidden_layers as nat;
    if q is Q8 {
        at_most(MAX_AUTO_TRANSFORMER_GPU_LAYERS as nat, layers)
    } else {
        match g.memory_total_mib {
            None => 0,
            Some(mib) => if mib < 4096 || layer_bytes(c) == 0 {
                0
            } else {
                at_most(
                    at_most(usable_mib(c, mib) * 1048576 / layer_bytes(c), layers),
                    MAX_ACTIVE_TRANSFORMER_GPU_LAYERS as nat,
                )
            },
        }
    }
}

/// The estimate can be made.
pub open spec fn estimate_fits(c: Qwen3Config, g: GpuView, q: QuantizationMode) -> bool {
    q is Q8 || match g.memory_total_mib {
        None => true,
        Some(mib) => mib < 4096 || (sizes_fit(c) && (layer_bytes(c) == 0 || usable_mib(c, mib)
            * 1048576 <= usize::MAX)),
    }
}

/// The notes of a plan that names a GPU.
pub open spec fn gpu_notes(
    c: Qwen3Config,
    wanted: nat,
    placed: nat,
    chosen: bool,
    q: QuantizationMode,
) -> Seq<Seq<char>> {
    let base = seq![
        "Transformer attention/KV/prefill GPU kernels are not implemented yet; only selected decode linear matvecs can be active GPU work."@,
        "Layer placement controls optional decode linear GPU offload and remains CPU fallback compatible."@,
    ];
    let clamped = if wanted > c.num_hidden_layers {
        base.push(
            "--gpu-layers requested "@ + text::dec(wanted) + ", clamped to "@ + text::dec(
                c.num_hidden_layers as nat,
            ) + " transformer layers."@,
        )
    } else {
        base
    };
    let capped = if wanted > placed {
        clamped.push(
            "--gpu-layers requested "@ + text::dec(wanted)
                + ", active transformer GPU layers capped to "@ + text::dec(placed)
                + " for this wgpu/f32 backend."@,
        )
    } else {
        clamped
    };
    if chosen {
        capped
    } else if q is Q8 {
        capped.push(
            "Q8 hybrid defaults transformer decode GPU layers to 16 on this local decode profile; pass --gpu-layers to override for explicit GPU+CPU decode testing."@,
        )
    } else {
        capped.push("GPU layer count was conservatively estimated from visible GPU memory."@)
    }
}

/// The layers that the user asked for, or the estimate.
pub open spec fn wanted_layers(c: Qwen3Config, o: RuntimeOptions, g: GpuView) -> nat {
    match o.gpu_layers {
        Some(n) => n as nat,
        None => estimated_layers(c, g, o.quantization),
    }
}

/// The layers that are placed on a GPU.
pub open spec fn placed_layers(c: Qwen3Config, wanted: nat) -> nat {
    at_most(
        at_most(wanted, c.num_hidden_layers as nat),
        MAX_ACTIVE_TRANSFORMER_GPU_LAYERS as nat,
    )
}

/// The plan for a model, given the GPU that a probe found.
pub open spec fn runtime_plan(c: Qwen3Config, o: RuntimeOptions, gpu: Option<GpuView>) -> PlanView {
    if o.device is Cpu {
        cpu_plan(
            c.num_hidden_layers as nat,
            DevicePreference::Cpu,
            "CPU-only execution selected; no GPU probing performed."@,
        )
    } else {
        match gpu {
            None => cpu_plan(
                c.num_hidden_layers as nat,
                o.device,
                "No NVIDIA GPU was detected through nvidia-smi; falling back to CPU execution."@,
            ),
            Some(g) => {
                let wanted = wanted_layers(c, o, g);
                let placed = placed_layers(c, wanted);
                PlanView {
                    requested_device: o.device,
                    compute_backend: "cpu-execution-with-planned-gpu-placement"@,
                    gpu: Some(g),
                    layer_devices: placement(c.num_hidden_layers as nat, placed),
                    transformer_decode_gpu_layers: 0,
                    lm_head_device: LayerDevice::Cpu,
                    quantization: o.quantization,
                    notes: gpu_notes(c, wanted, placed, o.gpu_layers is Some, o.quantization),
                }
            },
        }
    }
}

/// What a line of `nvidia-smi` says: a name, the memory in MiB and the driver, between commas.
pub open spec fn gpu_line(line: Seq<char>) -> Option<GpuView> {
    let f = text::fields(line, ',');
    let name = text::trimmed(f[0]);
    if name.len() == 0 {
        None
    } else {
        Some(
            GpuView {
                name,
                memory_total_mib: if f.len() > 1 {
                    match text::parsed(text::trimmed(f[1]), usize::MAX as nat) {
                        Some(n) => Some(n as usize),
                        None => None,
                    }
                } else {
                    None
                },
                driver_version: if f.len() > 2 && text::trimmed(f[2]).len() > 0 {
                    Some(text::trimmed(f[2]))
                } else {
                    None
                },
            },
        )
    }
}

/// The first GPU that a list of lines names.
pub open spec fn first_gpu(lines: Seq<Seq<char>>) -> Option<GpuView>
    decreases lines.len(),
{
    if lines.len() == 0 {
        None
    } else {
        match gpu_line(lines[0]) {
            Some(g) => Some(g),
            None => first_gpu(lines.drop_first()),
        }
    }
}

fn parse_gpu_chars(line: &[char]) -> (r: Option<GpuInfo>)
    ensures
        gpu_view(r) == gpu_line(line@),
{
    let f = text::split_chars(line, ',');
    let name = text::trim_chars(&f[0]);
    if name.len() == 0 {
        return None;
    }
    let mut memory_total_mib: Option<usize> = None;
    if f.len() > 1 {
        memory_total_mib = text::parse_size(text::trim_chars(&f[1]));
    }
    let mut driver_version: Option<String> = None;
    if f.len() > 2 {
        let driver = text::trim_chars(&f[2]);
        if driver.len() > 0 {
            driver_version = Some(text::string_of(driver));
        }
    }
    Some(GpuInfo { name: text::string_of(name), memory_total_mib, driver_version })
}

/// Reads one line of `nvidia-smi --query-gpu=name,memory.total,driver_version`.
pub fn parse_nvidia_smi_line(line: &str) -> (r: Option<GpuInfo>)
    ensures
        gpu_view(r) == gpu_line(line@),
{
    parse_gpu_chars(&text::chars_of(line))
}

/// The first GPU that the output of `nvidia-smi` names.
pub fn parse_nvidia_smi(output: &str) -> (r: Option<GpuInfo>)
    ensures
        gpu_view(r) == first_gpu(text::fields(output@, '\n')),
{
    let lines = text::split_chars(&text::chars_of(output), '\n');
    let ghost all = text::fields(output@, '\n');
    let mut i: usize = 0;
    assert(all.skip(0) =~= all);
    while i < lines.len()
        invariant
            i <= lines.len(),
            lines.len() == all.len(),
            all == text::fields(output@, '\n'),
            forall|j: int| 0 <= j < lines.len() ==> (#[trigger] lines@[j])@ == all[j],
            first_gpu(all) == first_gpu(all.skip(i as int)),
        decreases lines.len() - i,
    {
        assert(all.skip(i as int)[0] == all[i as int]);
        assert(all.skip(i as int).drop_first() =~= all.skip(i + 1));
        let found = parse_gpu_chars(&lines[i]);
        if found.is_some() {
            return found;
        }
        i += 1;
    }
    None
}

/// The bytes of one layer in single precision.
pub fn estimate_transformer_layer_bytes(config: &Qwen3Config) -> (r: usize)
    requires
        sizes_fit(*config),
    ensures
        r == layer_bytes(*config),
{
    let hidden: usize = config.hidden_size;
    let inner: usize = config.intermediate_size;
    let kv_hidden: usize = {
        proof {
            assert(config.num_key_value_heads as nat * config.head_width() <= usize::MAX);
        }
        config.num_key_value_heads * config.head_dim()
    };
    proof {
        let h = hidden as int;
        let i = inner as int;
        let k = kv_hidden as int;
        assert(h * h >= 0 && k * h >= 0 && i * h >= 0 && h * i >= 0) by (nonlinear_arith)
            requires
                h >= 0,
                i >= 0,
                k >= 0,
        ;
    }
    let q_proj: usize = hidden * hidden;
    let k_proj: usize = kv_hidden * hidden;
    let v_proj: usize = kv_hidden * hidden;
    let o_proj: usize = hidden * hidden;
    let gate_proj: usize = inner * hidden;
    let up_proj: usize = inner * hidden;
    let down_proj: usize = hidden * inner;
    (q_proj + k_proj + v_proj + o_proj + gate_proj + up_proj + down_proj) * 4
}

/// The bytes of the output layer in single precision.
pub fn estimate_lm_head_bytes(config: &Qwen3Config) -> (r: usize)
    requires
        sizes_fit(*config),
    ensures
        r == lm_head_bytes(*config),
{
    config.vocab_size * config.hidden_size * 4
}

/// The layers that fit in the memory of a GPU, by a careful estimate.
pub fn estimate_gpu_layers(
    config: &Qwen3Config,
    gpu: &GpuInfo,
    quantization: QuantizationMode,
) -> (r: usize)
    requires
        estimate_fits(*config, gpu@, quantization),
    ensures
        r == estimated_layers(*config, gpu@, quantization),
{
    let layers: usize = config.num_hidden_layers;
    if quantization == QuantizationMode::Q8 {
        if MAX_AUTO_TRANSFORMER_GPU_LAYERS < layers {
            return MAX_AUTO_TRANSFORMER_GPU_LAYERS;
        }
        return layers;
    }
    let mib: usize = match gpu.memory_total_mib {
        Some(m) => m,
        None => {
            return 0;
        },
    };
    if mib < 4096 {
        return 0;
    }
    let lm_head_bytes: usize = estimate_lm_head_bytes(config);
    let lm_head_mib: usize = lm_head_bytes / 1048576;
    assert(lm_head_mib * 1048576 <= lm_head_bytes <= usize::MAX);
    let usable: usize = mib.saturating_sub(2048 + lm_head_mib);
    let per_layer: usize = estimate_transformer_layer_bytes(config);
    if per_layer == 0 {
        return 0;
    }
    let mut fit: usize = (usable * 1024 * 1024) / per_layer;
    assert(usable * 1024 * 1024 == usable * 1048576);
    if layers < fit {
        fit = layers;
    }
    if MAX_ACTIVE_TRANSFORMER_GPU_LAYERS < fit {
        fit = MAX_ACTIVE_TRANSFORMER_GPU_LAYERS;
    }
    if MAX_AUTO_TRANSFORMER_GPU_LAYERS < fit {
        fit = MAX_AUTO_TRANSFORMER_GPU_LAYERS;
    }
    fit
}

fn place_layers(total: usize, n: usize) -> (r: Vec<LayerDevice>)
    ensures
        r@ == placement(total as nat, n as nat),
{
    let mut out: Vec<LayerDevice> = Vec::with_capacity(total);
    let mut i: usize = 0;
    while i < total
        invariant
            i <= total,
            out@ == placement(total as nat, n as nat).take(i as int),
        decreases total - i,
    {
        if i < n {
            out.push(LayerDevice::Gpu);
        } else {
            out.push(LayerDevice::Cpu);
        }
        i += 1;
        assert(out@ =~= placement(total as nat, n as nat).take(i as int));
    }
    assert(placement(total as nat, n as nat).take(total as int) =~= placement(
        total as nat,
        n as nat,
    ));
    out
}

/// Whether a GPU has to be looked for before the plan is made.
pub fn needs_gpu_probe(options: &RuntimeOptions) -> (r: bool)
    ensures
        r == !(options.device is Cpu),
{
    options.device != DevicePreference::Cpu
}

/// The plan for a model, given the GPU that a probe found.
pub fn build_runtime_plan(config: &Qwen3Config, options: &RuntimeOptions, gpu: Option<GpuInfo>)
    -> (r: RuntimePlan)
    requires
        !(options.device is Cpu) && gpu is Some ==> estimate_fits(
            *config,
            gpu->0@,
            options.quantization,
        ),
    ensures
        r@ == runtime_plan(*config, *options, gpu_view(gpu)),
{
    let layers: usize = config.num_hidden_layers;
    if options.device == DevicePreference::Cpu {
        return RuntimePlan::cpu_only(
            layers,
            DevicePreference::Cpu,
            "CPU-only execution selected; no GPU probing performed.".to_owned(),
        );
    }
    let gpu = match gpu {
        Some(gpu) => gpu,
        None => {
            return RuntimePlan::cpu_only(
                layers,
                options.device,
                "No NVIDIA GPU was detected through nvidia-smi; falling back to CPU execution.".to_owned(),
            );
        },
    };
    let estimated: usize = estimate_gpu_layers(config, &gpu, options.quantization);
    let wanted: usize = match options.gpu_layers {
        Some(n) => n,
        None => estimated,
    };
    let mut placed: usize = wanted;
    if layers < placed {
        placed = layers;
    }
    if MAX_ACTIVE_TRANSFORMER_GPU_LAYERS < placed {
        placed = MAX_ACTIVE_TRANSFORMER_GPU_LAYERS;
    }
    let mut notes: Vec<String> = Vec::new();
    notes.push(
        "Transformer attention/KV/prefill GPU kernels are not implemented yet; only selected decode linear matvecs can be active GPU work.".to_owned(),
    );
    notes.push(
        "Layer placement controls optional decode linear GPU offload and remains CPU fallback compatible.".to_owned(),
    );
    let ghost base = seq![
        "Transformer attention/KV/prefill GPU kernels are not implemented yet; only selected decode linear matvecs can be active GPU work."@,
        "Layer placement controls optional decode linear GPU offload and remains CPU fallback compatible."@,
    ];
    assert(texts(notes@) =~= base);
    if wanted > layers {
        let mut note = "--gpu-layers requested ".to_owned();
        text::push_size(&mut note, wanted);
        note.append(", clamped to ");
        text::push_size(&mut note, layers);
        note.append(" transformer layers.");
        push_note(&mut notes, note);
    }
    if wanted > placed {
        let mut note = "--gpu-layers requested ".to_owned();
        text::push_size(&mut note, wanted);
        note.append(", active transformer GPU layers capped to ");
        text::push_size(&mut note, placed);
        note.append(" for this wgpu/f32 backend.");
        push_note(&mut notes, note);
    }
    if options.gpu_layers.is_none() {
        if options.quantization == QuantizationMode::Q8 {
            push_note(
                &mut notes,
                "Q8 hybrid defaults transformer decode GPU layers to 16 on this local decode profile; pass --gpu-layers to override for explicit GPU+CPU decode testing.".to_owned(),
            );
        } else {
            push_note(
                &mut notes,
                "GPU layer count was conservatively estimated from visible GPU memory.".to_owned(),
            );
        }
    }
    RuntimePlan {
        requested_device: options.device,
        compute_backend: "cpu-execution-with-planned-gpu-placement".to_owned(),
        gpu: Some(gpu),
        layer_devices: place_layers(layers, placed),
        transformer_decode_gpu_layers: 0,
        lm_head_device: LayerDevice::Cpu,
        quantization: options.quantization,
        notes,
    }
}

fn push_note(notes: &mut Vec<String>, note: String)
    ensures
        texts(final(notes)@) == texts(old(notes)@).push(note@),
{
    notes.push(note);
    assert(texts(notes@) =~= texts(old(notes)@).push(note@));
}

/// The line for a plan's GPU.
pub open spec fn gpu_text(gpu: Option<GpuView>) -> Seq<char> {
    match gpu {
        None => "runtime.gpu: none\n"@,
        Some(g) => "runtime.gpu: "@ + g.name + (match g.memory_total_mib {
            Some(m) => " ("@ + text::dec(m as nat) + " MiB)"@,
            None => ""@,
        }) + (match g.driver_version {
            Some(d) => ", driver "@ + d,
            None => ""@,
        }) + "\n"@,
    }
}

/// The lines for the first `n` notes.
pub open spec fn note_lines(notes: Seq<Seq<char>>, n: int) -> Seq<char>
    decreases n,
{
    if n <= 0 {
        Seq::<char>::empty()
    } else {
        note_lines(notes, n - 1) + ("runtime.note: "@ + notes[n - 1] + "\n"@)
    }
}

/// A plan as a user reads it.
pub open spec fn plan_text(p: PlanView) -> Seq<char> {
    "runtime.device: "@ + preference_text(p.requested_device) + "\n"@
        + "runtime.compute_backend: "@ + p.compute_backend + "\n"@ + gpu_text(p.gpu)
        + "runtime.layers: "@ + text::dec(gpu_count(p.layer_devices)) + " GPU / "@ + text::dec(
        (p.layer_devices.len() - gpu_count(p.layer_devices)) as nat,
    ) + " CPU\n"@ + "runtime.transformer_decode_gpu_layers: "@ + text::dec(
        p.transformer_decode_gpu_layers as nat,
    ) + "\n"@ + "runtime.lm_head: "@ + device_text(p.lm_head_device) + "\n"@
        + "runtime.quantization: "@ + quantization_text(p.quantization) + "\n"@ + note_lines(
        p.notes,
        p.notes.len() as int,
    )
}

fn gpu_line_text(gpu: &Option<GpuInfo>) -> (r: String)
    ensures
        r@ == gpu_text(gpu_view(*gpu)),
{
    match gpu {
        None => "runtime.gpu: none\n".to_owned(),
        Some(g) => {
            let mut s = "runtime.gpu: ".to_owned();
            s.append(g.name.as_str());
            let mut memory = "".to_owned();
            match g.memory_total_mib {
                Some(m) => {
                    memory = " (".to_owned();
                    text::push_size(&mut memory, m);
                    memory.append(" MiB)");
                },
                None => {},
            }
            s.append(memory.as_str());
            let mut driver = "".to_owned();
            match &g.driver_version {
                Some(d) => {
                    driver = text::joined(", driver ", d.as_str());
                },
                None => {},
            }
            s.append(driver.as_str());
            s.append("\n");
            s
        },
    }
}

impl RuntimePlan {
    /// A plan that uses the CPU alone.
    pub fn cpu_only(num_layers: usize, requested_device: DevicePreference, note: String) -> (r:
        RuntimePlan)
        ensures
            r@ == cpu_plan(num_layers as nat, requested_device, note@),
    {
        let mut notes: Vec<String> = Vec::new();
        notes.push(note);
        assert(texts(notes@) =~= seq![note@]);
        RuntimePlan {
            requested_device,
            compute_backend: "cpu".to_owned(),
            gpu: None,
            layer_devices: place_layers(num_layers, 0),
            transformer_decode_gpu_layers: 0,
            lm_head_device: LayerDevice::Cpu,
            quantization: QuantizationMode::Unquantized,
            notes,
        }
    }

    /// The number of layers that are meant for a GPU.
    pub fn gpu_layer_count(&self) -> (r: usize)
        ensures
            r == gpu_count(self@.layer_devices),
            r <= self@.layer_devices.len(),
    {
        let mut n: usize = 0;
        let mut i: usize = 0;
        assert(self.layer_devices@.take(0) =~= Seq::<LayerDevice>::empty());
        while i < self.layer_devices.len()
            invariant
                i <= self.layer_devices.len(),
                n <= i,
                n == gpu_count(self.layer_devices@.take(i as int)),
            decreases self.layer_devices.len() - i,
        {
            proof {
                let next = self.layer_devices@.take(i + 1);
                assert(next.drop_last() =~= self.layer_devices@.take(i as int));
                assert(next.last() == self.layer_devices@[i as int]);
            }
            if self.layer_devices[i] == LayerDevice::Gpu {
                n += 1;
            }
            i += 1;
        }
        assert(self.layer_devices@.take(self.layer_devices@.len() as int) =~= self.layer_devices@);
        n
    }

    /// The plan as a user reads it.
    pub fn to_text(&self) -> (r: String)
        ensures
            r@ == plan_text(self@),
    {
        let mut s = "runtime.device: ".to_owned();
        s.append(self.requested_device.as_str());
        s.append("\n");
        s.append("runtime.compute_backend: ");
        s.append(self.compute_backend.as_str());
        s.append("\n");
        let line = gpu_line_text(&self.gpu);
        s.append(line.as_str());
        s.append("runtime.layers: ");
        let on_gpu: usize = self.gpu_layer_count();
        text::push_size(&mut s, on_gpu);
        s.append(" GPU / ");
        text::push_size(&mut s, self.layer_devices.len() - on_gpu);
        s.append(" CPU\n");
        s.append("runtime.transformer_decode_gpu_layers: ");
        text::push_size(&mut s, self.transformer_decode_gpu_layers);
        s.append("\n");
        s.append("runtime.lm_head: ");
        s.append(self.lm_head_device.as_str());
        s.append("\n");
        s.append("runtime.quantization: ");
        s.append(self.quantization.as_str());
        s.append("\n");
        let ghost head = s@;
        let mut i: usize = 0;
        assert(head + note_lines(self@.notes, 0) =~= head);
        while i < self.notes.len()
            invariant
                i <= self.notes.len(),
                s@ == head + note_lines(self@.notes, i as int),
            decreases self.notes.len() - i,
        {
            let mut line = "runtime.note: ".to_owned();
            line.append(self.notes[i].as_str());
            line.append("\n");
            s.append(line.as_str());
            assert(self@.notes[i as int] == self.notes@[i as int]@);
            assert(s@ =~= head + note_lines(self@.notes, i + 1));
            i += 1;
        }
        s
    }

    /// Adds a note.
    pub fn add_note(&mut self, note: &str)
        ensures
            final(self)@ == noted(old(self)@, note@),
    {
        self.note(note.to_owned());
    }

    fn note(&mut self, note: String)
        ensures
            final(self)@ == noted(old(self)@, note@),
    {
        self.notes.push(note);
        assert(self@.notes =~= old(self)@.notes.push(note@));
    }

    /// Names the work after where it is done.
    pub fn refresh_compute_backend(&mut self)
        ensures
            final(self)@ == refreshed(old(self)@),
    {
        let decode = self.transformer_decode_gpu_layers > 0;
        let head = self.lm_head_device == LayerDevice::Gpu;
        self.compute_backend =
        if decode && head {
            "cpu-prefill-gpu-decode-linears-gpu-lm-head".to_owned()
        } else if decode {
            "cpu-prefill-gpu-decode-linears".to_owned()
        } else if head {
            "cpu-transformer-gpu-lm-head".to_owned()
        } else if self.requested_device == DevicePreference::Cpu {
            "cpu".to_owned()
        } else {
            "cpu-execution-with-planned-gpu-placement".to_owned()
        };
    }

    /// Records that the output layer runs on the GPU.
    pub fn mark_lm_head_gpu(&mut self)
        ensures
            final(self)@ == noted(
                with_lm_head_gpu(old(self)@),
                "lm_head matvec is using the optional wgpu backend."@,
            ),
    {
        self.lm_head_device = LayerDevice::Gpu;
        self.refresh_compute_backend();
        self.note("lm_head matvec is using the optional wgpu backend.".to_owned());
    }

    /// Records that the quantized output layer runs on the GPU.
    pub fn mark_lm_head_q8_gpu(&mut self)
        ensures
            final(self)@ == noted(
                with_lm_head_gpu(old(self)@),
                "lm_head Q8 matvec is using the optional wgpu backend; greedy temperature<=0 can use fused Q8 GPU argmax."@,
            ),
    {
        self.lm_head_device = LayerDevice::Gpu;
        self.refresh_compute_backend();
        self.note(
            "lm_head Q8 matvec is using the optional wgpu backend; greedy temperature<=0 can use fused Q8 GPU argmax.".to_owned(),
        );
    }

    /// Records that the output layer stays on the CPU.
    pub fn mark_lm_head_gpu_fallback(&mut self, reason: &str)
        ensures
            final(self)@ == noted(
                (PlanView { lm_head_device: LayerDevice::Cpu, ..old(self)@ }),
                "lm_head GPU backend unavailable; using CPU fallback: "@ + reason@,
            ),
    {
        self.lm_head_device = LayerDevice::Cpu;
        self.note(text::joined("lm_head GPU backend unavailable; using CPU fallback: ", reason));
    }

    /// Whether the output layer may be tried on a GPU.
    pub fn should_try_lm_head_gpu(&self) -> (r: bool)
        ensures
            r == tries_lm_head(self@),
    {
        self.requested_device != DevicePreference::Cpu && self.gpu.is_some()
    }

    /// Whether a GPU may be tried at all.
    pub fn should_try_gpu_backend(&self) -> (r: bool)
        ensures
            r == tries_backend(self@),
    {
        self.should_try_lm_head_gpu() || self.planned_transformer_gpu_layers() > 0
    }

    /// The number of layers that are meant for a GPU.
    pub fn planned_transformer_gpu_layers(&self) -> (r: usize)
        ensures
            r == gpu_count(self@.layer_devices),
            r <= self@.layer_devices.len(),
    {
        self.gpu_layer_count()
    }

    /// Records how many layers have their linear parts on the GPU.
    pub fn mark_transformer_decode_gpu_layers(&mut self, active_layers: usize, attached: usize)
        ensures
            final(self)@ == decode_marked(
                old(self)@,
                active_layers,
                "decode matvec for "@ + text::dec(active_layers as nat)
                    + " transformer layer(s) attached "@ + text::dec(attached as nat)
                    + " linear GPU kernels through the shared wgpu context; q/k/v same-input groups are batched and MLP can fuse gate/up SwiGLU into GPU down_proj; prefill still falls back to CPU."@,
            ),
    {
        self.transformer_decode_gpu_layers = active_layers;
        self.refresh_compute_backend();
        if active_layers > 0 {
            let mut s = "decode matvec for ".to_owned();
            text::push_size(&mut s, active_layers);
            s.append(" transformer layer(s) attached ");
            text::push_size(&mut s, attached);
            s.append(
                " linear GPU kernels through the shared wgpu context; q/k/v same-input groups are batched and MLP can fuse gate/up SwiGLU into GPU down_proj; prefill still falls back to CPU.",
            );
            self.note(s);
        }
    }

    /// Records how many layers have their quantized linear parts on the GPU.
    pub fn mark_transformer_decode_q8_gpu_layers(&mut self, active_layers: usize, attached: usize)
        ensures
            final(self)@ == decode_marked(
                old(self)@,
                active_layers,
                "decode Q8 matvec for "@ + text::dec(active_layers as nat)
                    + " transformer layer(s) attached "@ + text::dec(attached as nat)
                    + " linear GPU kernels through the shared wgpu context; q/k/v can use one shared input upload, MLP can fuse gate/up SwiGLU into Q8 GPU down_proj, and prefill still falls back to CPU."@,
            ),
    {
        self.transformer_decode_gpu_layers = active_layers;
        self.refresh_compute_backend();
        if active_layers > 0 {
            let mut s = "decode Q8 matvec for ".to_owned();
            text::push_size(&mut s, active_layers);
            s.append(" transformer layer(s) attached ");
            text::push_size(&mut s, attached);
            s.append(
                " linear GPU kernels through the shared wgpu context; q/k/v can use one shared input upload, MLP can fuse gate/up SwiGLU into Q8 GPU down_proj, and prefill still falls back to CPU.",
            );
            self.note(s);
        }
    }

    /// Records that layers, or parts of them, stay on the CPU.
    pub fn mark_transformer_gpu_fallback(&mut self, reason: &str)
        ensures
            final(self)@ == noted(
                old(self)@,
                "transformer decode GPU backend unavailable or partial; using CPU fallback where needed: "@
                    + reason@,
            ),
    {
        self.note(
            text::joined(
                "transformer decode GPU backend unavailable or partial; using CPU fallback where needed: ",
                reason,
            ),
        );
    }

    /// Records how many linear parts are quantized.
    pub fn mark_q8_quantization(&mut self, attached_linears: usize)
        ensures
            final(self)@ == noted(
                (PlanView { quantization: QuantizationMode::Q8, ..old(self)@ }),
                "Q8 linear path enabled for "@ + text::dec(attached_linears as nat)
                    + " bias-free linear layer(s); Q8 GPU matvecs or existing GPU matvecs take priority where attached, then CPU Q8 is used as fallback."@,
            ),
    {
        self.quantization = QuantizationMode::Q8;
        let mut s = "Q8 linear path enabled for ".to_owned();
        text::push_size(&mut s, attached_linears);
        s.append(
            " bias-free linear layer(s); Q8 GPU matvecs or existing GPU matvecs take priority where attached, then CPU Q8 is used as fallback.",
        );
        self.note(s);
    }

    /// Records that quantized weights are not kept.
    pub fn mark_q8_sidecar_disabled(&mut self)
        ensures
            final(self)@ == noted(
                old(self)@,
                "Q8 sidecar cache disabled; deriving Q8 weights in memory."@,
            ),
    {
        self.note("Q8 sidecar cache disabled; deriving Q8 weights in memory.".to_owned());
    }

    /// Records that quantized weights cannot be kept.
    pub fn mark_q8_sidecar_unavailable(&mut self, reason: &str)
        ensures
            final(self)@ == noted(
                old(self)@,
                "Q8 sidecar cache unavailable; deriving Q8 weights in memory: "@ + reason@,
            ),
    {
        self.note(
            text::joined("Q8 sidecar cache unavailable; deriving Q8 weights in memory: ", reason),
        );
    }

    /// Records what the kept weights were good for.
    pub fn mark_q8_sidecar_report(
        &mut self,
        dir: &str,
        hits: usize,
        writes: usize,
        fallbacks: usize,
    )
        ensures
            final(self)@ == noted(
                old(self)@,
                "Q8 sidecar cache at "@ + dir@ + ": "@ + text::dec(hits as nat) + " hit(s), "@
                    + text::dec(writes as nat) + " write(s), "@ + text::dec(fallbacks as nat)
                    + " fallback(s)."@,
            ),
    {
        let mut s = text::joined("Q8 sidecar cache at ", dir);
        s.append(": ");
        text::push_size(&mut s, hits);
        s.append(" hit(s), ");
        text::push_size(&mut s, writes);
        s.append(" write(s), ");
        text::push_size(&mut s, fallbacks);
        s.append(" fallback(s).");
        self.note(s);
    }
}

/// Whether the output layer may be tried on a GPU.
pub open spec fn tries_lm_head(p: PlanView) -> bool {
    !(p.requested_device is Cpu) && p.gpu is Some
}

/// Whether a GPU may be tried at all.
pub open spec fn tries_backend(p: PlanView) -> bool {
    tries_lm_head(p) || gpu_count(p.layer_devices) > 0
}

/// A plan whose output layer runs on the GPU.
pub open spec fn with_lm_head_gpu(p: PlanView) -> PlanView {
    let q = PlanView { lm_head_device: LayerDevice::Gpu, ..p };
    refreshed(q)
}

/// A plan with `active` layers on the GPU, and a note where there are any.
pub open spec fn decode_marked(p: PlanView, active: usize, note: Seq<char>) -> PlanView {
    let q = PlanView { transformer_decode_gpu_layers: active, ..p };
    let r = refreshed(q);
    if active > 0 {
        noted(r, note)
    } else {
        r
    }
}

/// Whether the named backend is the one that does the work.
pub open spec fn honest(p: PlanView) -> bool {
    p.compute_backend == backend_of(p)
}

/// Law: a plan starts out honest where a GPU was asked for and found, or none was asked for;
/// where none was found the work is done by the CPU, and the plan says so.
pub proof fn law_new_plan_is_honest(c: Qwen3Config, o: RuntimeOptions, gpu: Option<GpuView>)
    ensures
        o.device is Cpu || gpu is Some ==> honest(runtime_plan(c, o, gpu)),
        !(o.device is Cpu) && gpu is None ==> runtime_plan(c, o, gpu).compute_backend == "cpu"@,
{
}

/// Law: recording GPU work leaves the plan honest; recording that the output layer stayed on
/// the CPU keeps it so where the layer had not been put on the GPU.
pub proof fn law_marks_stay_honest(p: PlanView, active: usize, note: Seq<char>)
    requires
        honest(p),
    ensures
        honest(noted(p, note)),
        honest(noted(with_lm_head_gpu(p), note)),
        honest(decode_marked(p, active, note)),
        p.lm_head_device is Cpu ==> honest(
            noted((PlanView { lm_head_device: LayerDevice::Cpu, ..p }), note),
        ),
{
}

/// Law: on the CPU alone nothing is placed on a GPU and none is tried, whatever a probe found.
pub proof fn law_cpu_plan_uses_no_gpu(c: Qwen3Config, o: RuntimeOptions, gpu: Option<GpuView>)
    requires
        o.device is Cpu || gpu is None,
    ensures
        gpu_count(runtime_plan(c, o, gpu).layer_devices) == 0,
        runtime_plan(c, o, gpu).gpu is None,
        !tries_lm_head(runtime_plan(c, o, gpu)),
{
    lemma_placement_count(c.num_hidden_layers as nat, 0, c.num_hidden_layers as nat);
    assert(placement(c.num_hidden_layers as nat, 0).take(c.num_hidden_layers as int) =~= placement(
        c.num_hidden_layers as nat,
        0,
    ));
}

/// Law: a plan puts the first layers on the GPU, at most sixteen and no more than there are, and
/// never more than were asked for.
pub proof fn law_plan_places_prefix(c: Qwen3Config, o: RuntimeOptions, g: GpuView)
    requires
        !(o.device is Cpu),
    ensures
        ({
            let p = runtime_plan(c, o, Some(g));
            let n = placed_layers(c, wanted_layers(c, o, g));
            &&& p.layer_devices.len() == c.num_hidden_layers
            &&& gpu_count(p.layer_devices) == n
            &&& n <= 16 && n <= c.num_hidden_layers && n <= wanted_layers(c, o, g)
            &&& forall|i: int|
                0 <= i < p.layer_devices.len() ==> ((#[trigger] p.layer_devices[i]) is Gpu <==> i
                    < n)
        }),
{
    let n = placed_layers(c, wanted_layers(c, o, g));
    let total = c.num_hidden_layers as nat;
    lemma_placement_count(total, n, total);
    assert(placement(total, n).take(total as int) =~= placement(total, n));
}

/// Law: the name of the backend speaks of decoding on the GPU if and only if layers are decoded
/// there, and of the output layer if and only if it runs there. With neither, it is `cpu` where
/// the CPU was asked for. Naming it changes nothing else, and naming it again nothing at all.
pub proof fn law_backend_names_the_work(p: PlanView)
    ensures
        refreshed(refreshed(p)) == refreshed(p),
        (PlanView { compute_backend: p.compute_backend, ..refreshed(p) }) == p,
        has_text(refreshed(p).compute_backend, "gpu-decode-linears"@)
            <==> p.transformer_decode_gpu_layers > 0,
        has_text(refreshed(p).compute_backend, "gpu-lm-head"@) <==> (p.lm_head_device is Gpu),
        (p.transformer_decode_gpu_layers == 0 && !(p.lm_head_device is Gpu)) ==> (
        refreshed(p).compute_backend == (if p.requested_device is Cpu {
            "cpu"@
        } else {
            "cpu-execution-with-planned-gpu-placement"@
        })),
{
    reveal_strlit("gpu-decode-linears");
    reveal_strlit("gpu-lm-head");
    let decode = "gpu-decode-linears"@;
    let head = "gpu-lm-head"@;
    let text = backend_of(p);
    if p.transformer_decode_gpu_layers > 0 && p.lm_head_device is Gpu {
        reveal_strlit("cpu-prefill-gpu-decode-linears-gpu-lm-head");
        assert(text.subrange(12int, 12int + decode.len()) =~= decode);
        assert(text.subrange(31int, 31int + head.len()) =~= head);
    } else if p.transformer_decode_gpu_layers > 0 {
        reveal_strlit("cpu-prefill-gpu-decode-linears");
        assert(text.subrange(12int, 12int + decode.len()) =~= decode);
        assert(text[16] == 'd');
        lemma_no_text(text, head, 12, 4);
    } else if p.lm_head_device is Gpu {
        reveal_strlit("cpu-transformer-gpu-lm-head");
        assert(text.subrange(16int, 16int + head.len()) =~= head);
        assert(text[20] == 'l');
        lemma_no_text(text, decode, 16, 4);
    } else if p.requested_device is Cpu {
        reveal_strlit("cpu");
    } else {
        reveal_strlit("cpu-execution-with-planned-gpu-placement");
        assert(text[31] == 'p');
        lemma_no_text(text, head, 27, 4);
        lemma_no_text(text, decode, 27, 4);
    }
}

// A text whose only letter `g` stands at `at` does not hold a part that begins with `g` and
// differs `off` letters further on.
proof fn lemma_no_text(text: Seq<char>, part: Seq<char>, at: int, off: int)
    requires
        0 <= off < part.len(),
        part[0] == 'g',
        0 <= at,
        at + off < text.len() ==> text[at + off] != part[off],
        forall|i: int| 0 <= i < text.len() && i != at ==> text[i] != 'g',
    ensures
        !has_text(text, part),
{
    assert forall|i: int|
        0 <= i <= text.len() - part.len() implies (#[trigger] text.subrange(i, i + part.len()))
            != part by {
        let sub = text.subrange(i, i + part.len());
        assert(sub[0] == text[i]);
        assert(sub[off] == text[i + off]);
    }
}

proof fn lemma_placement_count(total: nat, n: nat, upto: nat)
    requires
        upto <= total,
        n <= total,
    ensures
        gpu_count(placement(total, n).take(upto as int)) == at_most(n, upto),
    decreases upto,
{
    let s = placement(total, n).take(upto as int);
    if upto > 0 {
        lemma_placement_count(total, n, (upto - 1) as nat);
        assert(s.drop_last() =~= placement(total, n).take(upto - 1));
        assert(s.last() == placement(total, n)[upto - 1]);
    }
}

/// Law: the number of layers on the GPU is the number of places at which the list says so.
pub proof fn law_gpu_layers_are_counted(s: Seq<LayerDevice>)
    ensures
        gpu_count(s) == s.filter(|d: LayerDevice| d is Gpu).len(),
        gpu_count(s) <= s.len(),
    decreases s.len(),
{
    reveal(Seq::filter);
    if s.len() > 0 {
        law_gpu_layers_are_counted(s.drop_last());
    }
}

/// Law: where the memory of a GPU is known and at least 4096 MiB, and nothing is quantized, as many
/// layers are put on it as fit beside the output layer and 2048 MiB, each in single precision with
/// its four attention matrices and three inner ones; one more would not fit, unless there are
/// sixteen, or all, already.  With less memory, or none that is known, there are none; quantized
/// layers are not measured.
pub proof fn law_estimate_is_the_greatest_that_fits(
    c: Qwen3Config,
    g: GpuView,
    q: QuantizationMode,
)
    ensures
        ({
            let n = estimated_layers(c, g, q);
            let h = c.hidden_size as int;
            let width = match c.explicit_head_dim {
                Some(d) => d as int,
                None => c.hidden_size as int / c.num_attention_heads as int,
            };
            let kv = c.num_key_value_heads * width;
            let layer = 4 * (2 * (h * h) + 2 * (kv * h) + 3 * (c.intermediate_size * h));
            let head_mib = c.vocab_size * h * 4 / 1048576;
            &&& n <= 16 && n <= c.num_hidden_layers
            &&& q is Q8 ==> n == 16 || n == c.num_hidden_layers
            &&& !(q is Q8) ==> match g.memory_total_mib {
                None => n == 0,
                Some(mib) => if mib < 4096 || layer == 0 || mib < 2048 + head_mib {
                    n == 0
                } else {
                    let room = (mib - 2048 - head_mib) * 1048576;
                    &&& n * layer <= room
                    &&& n < 16 && n < c.num_hidden_layers ==> (n + 1) * layer > room
                },
            }
        }),
{
    let n = estimated_layers(c, g, q);
    let h = c.hidden_size as int;
    let i = c.intermediate_size as int;
    let width = match c.explicit_head_dim {
        Some(d) => d as int,
        None => c.hidden_size as int / c.num_attention_heads as int,
    };
    let kv = c.num_key_value_heads * width;
    let layer = 4 * (2 * (h * h) + 2 * (kv * h) + 3 * (c.intermediate_size * h));
    assert(c.head_width() == width);
    assert(i * h == h * i) by (nonlinear_arith);
    assert(layer_bytes(c) == layer);
    let head_mib = c.vocab_size * h * 4 / 1048576;
    assert(lm_head_bytes(c) == c.vocab_size * h * 4);
    if !(q is Q8) {
        match g.memory_total_mib {
            None => {},
            Some(mib) => {
                if mib >= 4096 && layer != 0 {
                    let room = (usable_mib(c, mib) * 1048576) as int;
                    let fit = room / layer;
                    vstd::arithmetic::div_mod::lemma_fundamental_div_mod(room, layer);
                    vstd::arithmetic::div_mod::lemma_mod_bound(room, layer);
                    assert(layer * fit == fit * layer) by (nonlinear_arith);
                    assert(fit * layer + layer == (fit + 1) * layer) by (nonlinear_arith);
                    assert(n <= fit);
                    assert(n * layer <= fit * layer) by (nonlinear_arith)
                        requires
                            n <= fit,
                            layer > 0,
                    ;
                    if mib < 2048 + head_mib {
                        assert(0int / layer == 0) by (nonlinear_arith)
                            requires
                                layer > 0,
                        ;
                    }
                }
            },
        }
    }
}

/// Law: a plan for a GPU that was found puts as many layers on it as were asked for, or as fit where
/// nothing was asked, but no more than sixteen and no more than there are; the GPU, the request and
/// the quantization are those that were given.
pub proof fn law_plan_places_what_was_asked(c: Qwen3Config, o: RuntimeOptions, g: GpuView)
    requires
        !(o.device is Cpu),
    ensures
        ({
            let p = runtime_plan(c, o, Some(g));
            let n = gpu_count(p.layer_devices);
            let asked = match o.gpu_layers {
                Some(k) => k as nat,
                None => estimated_layers(c, g, o.quantization),
            };
            &&& n <= asked
            &&& n < asked ==> n == 16 || n == c.num_hidden_layers
            &&& p.layer_devices.len() == c.num_hidden_layers
            &&& p.gpu == Some(g)
            &&& p.requested_device == o.device
            &&& p.quantization == o.quantization
            &&& p.transformer_decode_gpu_layers == 0 && p.lm_head_device is Cpu
            &&& tries_lm_head(p)
        }),
{
    law_plan_places_prefix(c, o, g);
}

/// Law: a GPU may be tried where one was asked for and found, or where layers are meant for one.
pub proof fn law_when_a_gpu_is_tried(p: PlanView)
    ensures
        tries_lm_head(p) <==> !(p.requested_device is Cpu) && p.gpu is Some,
        tries_backend(p) <==> (!(p.requested_device is Cpu) && p.gpu is Some) || exists|i: int|
            0 <= i < p.layer_devices.len() && #[trigger] p.layer_devices[i] is Gpu,
{
    lemma_some_on_gpu(p.layer_devices);
}

proof fn lemma_some_on_gpu(s: Seq<LayerDevice>)
    ensures
        gpu_count(s) > 0 <==> exists|i: int| 0 <= i < s.len() && #[trigger] s[i] is Gpu,
    decreases s.len(),
{
    if s.len() > 0 {
        let t = s.drop_last();
        lemma_some_on_gpu(t);
        if gpu_count(t) > 0 {
            let i = choose|i: int| 0 <= i < t.len() && #[trigger] t[i] is Gpu;
            assert(s[i] is Gpu);
        }
        if s.last() is Gpu {
            assert(s[s.len() - 1] is Gpu);
        }
        if exists|i: int| 0 <= i < s.len() && #[trigger] s[i] is Gpu {
            let i = choose|i: int| 0 <= i < s.len() && #[trigger] s[i] is Gpu;
            if i < t.len() {
                assert(t[i] is Gpu);
            }
        }
    }
}

/// Law: a line of three fields names a GPU unless the first is blank: by the first field, with the
/// memory that the second gives as a number and the driver that the third names, if they do, each
/// without the white space around it.
pub proof fn law_smi_line_is_read(name: Seq<char>, memory: Seq<char>, driver: Seq<char>)
    requires
        !name.contains(','),
        !memory.contains(','),
        !driver.contains(','),
    ensures
        ({
            let line = name.push(',') + memory;
            let whole = line.push(',') + driver;
            &&& gpu_line(name) is Some <==> text::trimmed(name).len() > 0
            &&& gpu_line(whole) is Some <==> text::trimmed(name).len() > 0
            &&& text::trimmed(name).len() > 0 ==> {
                let g = gpu_line(whole)->0;
                &&& g.name == text::trimmed(name)
                &&& match text::parsed(text::trimmed(memory), usize::MAX as nat) {
                    Some(n) => g.memory_total_mib == Some(n as usize),
                    None => g.memory_total_mib is None,
                }
                &&& text::trimmed(driver).len() > 0 ==> g.driver_version == Some(
                    text::trimmed(driver),
                )
                &&& text::trimmed(driver).len() == 0 ==> g.driver_version is None
                &&& gpu_line(line) == Some(GpuView { driver_version: None, ..g })
                &&& gpu_line(name) == Some(
                    GpuView { name: g.name, memory_total_mib: None, driver_version: None },
                )
            }
        }),
{
    let line = name.push(',') + memory;
    let whole = line.push(',') + driver;
    crate::text_laws::law_fields_are_what_stands_between(name, ',', name);
    crate::text_laws::law_fields_are_what_stands_between(name, ',', memory);
    crate::text_laws::law_fields_are_what_stands_between(line, ',', driver);
    assert(text::fields(line, ',') =~= seq![name, memory]);
    assert(text::fields(whole, ',') =~= seq![name, memory, driver]);
}

/// Law: of several lines the first that names a GPU counts.
pub proof fn law_first_named_gpu_counts(lines: Seq<Seq<char>>)
    ensures
        match first_gpu(lines) {
            Some(g) => exists|i: int|
                0 <= i < lines.len() && gpu_line(#[trigger] lines[i]) == Some(g) && forall|j: int|
                    0 <= j < i ==> gpu_line(#[trigger] lines[j]) is None,
            None => forall|i: int| 0 <= i < lines.len() ==> gpu_line(#[trigger] lines[i]) is None,
        },
    decreases lines.len(),
{
    if lines.len() > 0 {
        let rest = lines.drop_first();
        law_first_named_gpu_counts(rest);
        match gpu_line(lines[0]) {
            Some(g) => {},
            None => match first_gpu(rest) {
                Some(g) => {
                    let i = choose|i: int|
                        0 <= i < rest.len() && gpu_line(#[trigger] rest[i]) == Some(g) && forall|j: int|
                            0 <= j < i ==> gpu_line(#[trigger] rest[j]) is None;
                    assert(lines[i + 1] == rest[i]);
                    assert forall|j: int| 0 <= j < i + 1 implies gpu_line(#[trigger] lines[j]) is None by {
                        if j > 0 {
                            assert(lines[j] == rest[j - 1]);
                        }
                    }
                },
                None => {
                    assert forall|i: int| 0 <= i < lines.len() implies gpu_line(
                        #[trigger] lines[i],
                    ) is None by {
                        if i > 0 {
                            assert(lines[i] == rest[i - 1]);
                        }
                    }
                },
            },
        }
    }
}

/// Law: recording something changes what it is about and adds at most one note; all else stays.
pub proof fn law_marks_change_what_they_are_about(p: PlanView, active: usize, note: Seq<char>)
    ensures
        noted(p, note) == (PlanView { notes: p.notes + seq![note], ..p }),
        ({
            let q = with_lm_head_gpu(p);
            &&& q.lm_head_device is Gpu
            &&& q == (PlanView {
                lm_head_device: q.lm_head_device,
                compute_backend: q.compute_backend,
                ..p
            })
        }),
        ({
            let q = decode_marked(p, active, note);
            &&& q.transformer_decode_gpu_layers == active
            &&& q.notes == (if active > 0 {
                p.notes + seq![note]
            } else {
                p.notes
            })
            &&& q == (PlanView {
                transformer_decode_gpu_layers: active,
                compute_backend: q.compute_backend,
                notes: q.notes,
                ..p
            })
        }),
{
    assert(p.notes.push(note) =~= p.notes + seq![note]);
}

/// Law: the report of a plan names the request, the backend, the GPU, how many layers are meant for
/// which device, what is decoded where, the quantization and every note, each on a line of its own.
pub proof fn law_report_tells_the_plan(p: PlanView, note: Seq<char>)
    ensures
        plan_text(noted(p, note)) == plan_text(p) + "runtime.note: "@ + note + "\n"@,
        plan_text(PlanView { notes: Seq::empty(), ..p }) == "runtime.device: "@ + (
        match p.requested_device {
            DevicePreference::Cpu => "cpu"@,
            DevicePreference::Auto => "auto"@,
            DevicePreference::Hybrid => "hybrid"@,
        }) + "\n"@ + "runtime.compute_backend: "@ + p.compute_backend + "\n"@ + gpu_text(p.gpu)
            + "runtime.layers: "@ + text::dec(gpu_count(p.layer_devices)) + " GPU / "@ + text::dec(
            (p.layer_devices.len() - gpu_count(p.layer_devices)) as nat,
        ) + " CPU\n"@ + "runtime.transformer_decode_gpu_layers: "@ + text::dec(
            p.transformer_decode_gpu_layers as nat,
        ) + "\n"@ + "runtime.lm_head: "@ + (if p.lm_head_device is Gpu {
            "GPU"@
        } else {
            "CPU"@
        }) + "\n"@ + "runtime.quantization: "@ + (if p.quantization is Q8 {
            "q8"@
        } else {
            "none"@
        }) + "\n"@,
{
    let q = noted(p, note);
    let n = p.notes.len() as int;
    lemma_note_lines(p.notes, note, n);
    assert(q.notes[n] == note);
    assert(note_lines(q.notes, n + 1) == note_lines(q.notes, n) + ("runtime.note: "@ + note
        + "\n"@));
    assert(plan_text(q) =~= plan_text(p) + "runtime.note: "@ + note + "\n"@);
    let e = PlanView { notes: Seq::empty(), ..p };
    assert(note_lines(e.notes, 0) =~= Seq::<char>::empty());
    assert(plan_text(e) =~= "runtime.device: "@ + preference_text(p.requested_device) + "\n"@
        + "runtime.compute_backend: "@ + p.compute_backend + "\n"@ + gpu_text(p.gpu)
        + "runtime.layers: "@ + text::dec(gpu_count(p.layer_devices)) + " GPU / "@ + text::dec(
        (p.layer_devices.len() - gpu_count(p.layer_devices)) as nat,
    ) + " CPU\n"@ + "runtime.transformer_decode_gpu_layers: "@ + text::dec(
        p.transformer_decode_gpu_layers as nat,
    ) + "\n"@ + "runtime.lm_head: "@ + device_text(p.lm_head_device) + "\n"@
        + "runtime.quantization: "@ + quantization_text(p.quantization) + "\n"@);
}

proof fn lemma_note_lines(notes: Seq<Seq<char>>, note: Seq<char>, n: int)
    requires
        0 <= n <= notes.len(),
    ensures
        note_lines(notes.push(note), n) == note_lines(notes, n),
    decreases n,
{
    if n > 0 {
        lemma_note_lines(notes, note, n - 1);
        assert(notes.push(note)[n - 1] == notes[n - 1]);
    }
}

} // verus!
