//! What holds of a plan and of the words that tell a user of it or of what went wrong.

use vstd::prelude::*;
use vstd::string::*;

use crate::error;
use crate::error::ErrorView;
use crate::model::Qwen3Config;
use crate::runtime;
use crate::runtime::{
    DevicePreference, GpuView, LayerDevice, PlanView, QuantizationCacheMode, QuantizationMode,
    RuntimeOptions,
};
use crate::text;

verus! {

/// Law: the backend is named after what runs on the GPU: the layers and the output layer, one of the
/// two, or neither; and where neither does, after what was asked for.
pub proof fn law_backend_is_named(p: PlanView)
    ensures
        ({
            let name = runtime::backend_of(p);
            let decodes = p.transformer_decode_gpu_layers > 0;
            let head = p.lm_head_device == LayerDevice::Gpu;
            &&& decodes && head ==> name == "cpu-prefill-gpu-decode-linears-gpu-lm-head"@
            &&& decodes && !head ==> name == "cpu-prefill-gpu-decode-linears"@
            &&& !decodes && head ==> name == "cpu-transformer-gpu-lm-head"@
            &&& !decodes && !head && p.requested_device == DevicePreference::Cpu ==> name == "cpu"@
            &&& !decodes && !head && p.requested_device != DevicePreference::Cpu ==> name
                == "cpu-execution-with-planned-gpu-placement"@
        }),
        runtime::refreshed(p) == (PlanView { compute_backend: runtime::backend_of(p), ..p }),
{
}

/// Law: where no GPU is asked for or none is found, every layer stays off it, nothing is quantized, and
/// one note says why.
pub proof fn law_plan_without_gpu(
    c: Qwen3Config,
    o: RuntimeOptions,
    gpu: Option<GpuView>,
    i: int,
)
    requires
        o.device is Cpu || gpu is None,
    ensures
        ({
            let p = runtime::runtime_plan(c, o, gpu);
            &&& p.layer_devices.len() == c.num_hidden_layers
            &&& 0 <= i < c.num_hidden_layers ==> p.layer_devices[i] == LayerDevice::Cpu
            &&& p.gpu is None && p.lm_head_device == LayerDevice::Cpu
            &&& p.transformer_decode_gpu_layers == 0
            &&& p.requested_device == o.device
            &&& p.compute_backend == "cpu"@
            &&& p.quantization == QuantizationMode::Unquantized
            &&& p.notes.len() == 1
            &&& o.device is Cpu ==> p.notes[0]
                == "CPU-only execution selected; no GPU probing performed."@
            &&& !(o.device is Cpu) ==> p.notes[0]
                == "No NVIDIA GPU was detected through nvidia-smi; falling back to CPU execution."@
        }),
{
}

/// Law: the layers that are meant for a GPU are the first ones.
pub proof fn law_first_layers_go_first(total: nat, n: nat, i: int)
    requires
        0 <= i < total,
    ensures
        runtime::placement(total, n).len() == total,
        runtime::placement(total, n)[i] == LayerDevice::Gpu <==> i < n,
{
}

/// Law: a plan for a GPU notes what was clamped to the layers that there are, what was capped, and how
/// many layers were chosen where nobody asked; each if and only if it is so, and in this order.
pub proof fn law_what_a_plan_notes(
    c: Qwen3Config,
    wanted: nat,
    placed: nat,
    chosen: bool,
    q: QuantizationMode,
)
    ensures
        ({
            let s = runtime::gpu_notes(c, wanted, placed, chosen, q);
            let more = wanted > c.num_hidden_layers;
            let most = wanted > placed;
            let clamped = "--gpu-layers requested "@ + text::dec(wanted) + ", clamped to "@
                + text::dec(c.num_hidden_layers as nat) + " transformer layers."@;
            let capped = "--gpu-layers requested "@ + text::dec(wanted)
                + ", active transformer GPU layers capped to "@ + text::dec(placed)
                + " for this wgpu/f32 backend."@;
            let at: int = if more {
                3
            } else {
                2
            };
            let end: int = if most {
                at + 1
            } else {
                at
            };
            &&& s.len() == end + (if chosen {
                0int
            } else {
                1int
            })
            &&& more ==> s[2] == clamped
            &&& most ==> s[at] == capped
            &&& !chosen && q == QuantizationMode::Q8 ==> s.last()
                == "Q8 hybrid defaults transformer decode GPU layers to 16 on this local decode profile; pass --gpu-layers to override for explicit GPU+CPU decode testing."@
            &&& !chosen && q != QuantizationMode::Q8 ==> s.last()
                == "GPU layer count was conservatively estimated from visible GPU memory."@
        }),
{
}

/// Law: a GPU is told by its name, with its memory and its driver where they are known.
pub proof fn law_gpu_is_told(name: Seq<char>, mib: usize, driver: Seq<char>)
    ensures
        runtime::gpu_text(None) == "runtime.gpu: none\n"@,
        runtime::gpu_text(
            Some(
                GpuView {
                    name,
                    memory_total_mib: Some(mib),
                    driver_version: Some(driver),
                },
            ),
        ) == "runtime.gpu: "@ + name + " ("@ + text::dec(mib as nat) + " MiB)"@ + ", driver "@
            + driver + "\n"@,
        runtime::gpu_text(
            Some(GpuView { name, memory_total_mib: None, driver_version: None }),
        ) == "runtime.gpu: "@ + name + "\n"@,
        runtime::gpu_text(
            Some(GpuView { name, memory_total_mib: Some(mib), driver_version: None }),
        ) == "runtime.gpu: "@ + name + " ("@ + text::dec(mib as nat) + " MiB)"@ + "\n"@,
        runtime::gpu_text(
            Some(GpuView { name, memory_total_mib: None, driver_version: Some(driver) }),
        ) == "runtime.gpu: "@ + name + ", driver "@ + driver + "\n"@,
{
    reveal_strlit("");
    let head = "runtime.gpu: "@ + name;
    let mem = " ("@ + text::dec(mib as nat) + " MiB)"@;
    let end = ", driver "@ + driver;
    assert(head + ""@ =~= head);
    assert(head + mem =~= head + " ("@ + text::dec(mib as nat) + " MiB)"@);
    assert(head + mem + ""@ =~= head + mem);
    assert(head + mem + end =~= head + mem + ", driver "@ + driver);
    assert(head + end =~= head + ", driver "@ + driver);
}

/// Law: each request and each mode has its own word.
pub proof fn law_words_of_modes()
    ensures
        runtime::preference_text(DevicePreference::Cpu) == "cpu"@,
        runtime::preference_text(DevicePreference::Auto) == "auto"@,
        runtime::preference_text(DevicePreference::Hybrid) == "hybrid"@,
        runtime::cache_mode_text(QuantizationCacheMode::Auto) == "auto"@,
        runtime::cache_mode_text(QuantizationCacheMode::Off) == "off"@,
        runtime::quantization_text(QuantizationMode::Unquantized) == "none"@,
        runtime::quantization_text(QuantizationMode::Q8) == "q8"@,
        runtime::device_text(LayerDevice::Cpu) == "CPU"@,
        runtime::device_text(LayerDevice::Gpu) == "GPU"@,
{
}

/// Law: an error is told by its kind and then in its own words; two shapes are told apart as what was
/// expected and what came.
pub proof fn law_errors_are_told(s: Seq<char>, expected: Seq<usize>, actual: Seq<usize>)
    ensures
        error::error_text(ErrorView::Io(s)) == "IO error: "@ + s,
        error::error_text(ErrorView::Json(s)) == "JSON parse error: "@ + s,
        error::error_text(ErrorView::SafeTensors(s)) == "SafeTensors error: "@ + s,
        error::error_text(ErrorView::ShapeMismatch { expected, actual })
            == "Tensor shape mismatch: expected "@ + text::bracketed(expected) + ", got "@
            + text::bracketed(actual),
        error::error_text(ErrorView::DimensionError(s)) == "Tensor dimension error: "@ + s,
        error::error_text(ErrorView::ConfigError(s)) == "Model config error: "@ + s,
        error::error_text(ErrorView::WeightError(s)) == "Weight loading error: "@ + s,
        error::error_text(ErrorView::TokenizerError(s)) == "Tokenizer error: "@ + s,
        error::error_text(ErrorView::Unsupported(s)) == "Unsupported feature: "@ + s,
{
}

} // verus!
