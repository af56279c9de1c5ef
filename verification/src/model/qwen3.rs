//! The model: its parts out of the weights, and what of it goes on a device.

use vstd::prelude::*;
use vstd::string::*;

use crate::engine::cache;
use crate::engine::KVCache;
use crate::error::{ErrorView, RsinferError};
use crate::gpu::context;
use crate::gpu::{GpuContext, GpuPositionUniform, GpuResidentBuffer};
use crate::model::block;
use crate::model::block_build;
use crate::model::linear;
use crate::model::weights;
use crate::model::{
    build_transformer_block_with_q8_sidecar, get_weight, BlockQ8Weights, Linear, Qwen3Config,
    Q8SidecarReport, RmsNorm, TransformerBlock, WeightMap,
};
use crate::runtime;
use crate::runtime::{LayerDevice, QuantizationCacheMode, RuntimePlan};
use crate::tensor::{Q8LinearWeight, Tensor};
use crate::text;

verus! {

/// The two values between which a token goes from block to block on a device, and its position.
#[derive(Debug)]
pub struct ResidentQwen3RuntimeState {
    pub resident_hidden_a: GpuResidentBuffer,
    pub resident_hidden_b: GpuResidentBuffer,
    pub resident_position: GpuPositionUniform,
    pub hidden_size: usize,
}

/// The model.
#[derive(Debug)]
pub struct Qwen3Model {
    pub config: Qwen3Config,
    pub embed_tokens: Tensor,
    pub layers: Vec<TransformerBlock>,
    pub norm: RmsNorm,
    pub lm_head: Linear,
    pub runtime_plan: RuntimePlan,
    pub resident_decode_prototype: bool,
    pub resident_runtime_state: Option<ResidentQwen3RuntimeState>,
}

/// The error of the first layer from `i` on that cannot be built.
pub open spec fn layers_error(
    w: Map<Seq<char>, weights::LoadedView>,
    x: Seq<BlockQ8Weights>,
    i: int,
) -> Option<ErrorView>
    decreases x.len() - i,
{
    if i < 0 || i >= x.len() {
        None
    } else {
        match block_build::first_error(block_build::block_errors(w, i as usize, x[i]), 0) {
            Some(e) => Some(e),
            None => layers_error(w, x, i + 1),
        }
    }
}

/// The message where there is no output layer.
pub open spec fn no_head() -> ErrorView {
    ErrorView::WeightError("缺少 lm_head.weight 且 tie_word_embeddings 为 false"@)
}

/// Whether the output layer takes the weights of the embedding: it has none of its own, and may.
pub open spec fn head_tied(
    w: Map<Seq<char>, weights::LoadedView>,
    tie: bool,
    head: Option<Q8LinearWeight>,
) -> bool {
    tie && block_build::part_load_error(w, "lm_head.weight"@, head) is Some
}

/// Why there is no output layer.
pub open spec fn head_error(
    w: Map<Seq<char>, weights::LoadedView>,
    tie: bool,
    head: Option<Q8LinearWeight>,
    embed: Option<Q8LinearWeight>,
) -> Option<ErrorView> {
    if block_build::part_load_error(w, "lm_head.weight"@, head) is None {
        None
    } else if tie {
        block_build::part_load_error(w, "model.embed_tokens.weight"@, embed)
    } else {
        Some(no_head())
    }
}

/// Whether a layer is the output layer of a model.
pub open spec fn is_head(
    w: Map<Seq<char>, weights::LoadedView>,
    tie: bool,
    head: Option<Q8LinearWeight>,
    embed: Option<Q8LinearWeight>,
    l: Linear,
) -> bool {
    if head_tied(w, tie, head) {
        block_build::is_part(w, "model.embed_tokens.weight"@, embed, l)
    } else {
        block_build::is_part(w, "lm_head.weight"@, head, l)
    }
}

/// Why a model cannot be built, in the order in which it is found.
pub open spec fn model_error(
    w: Map<Seq<char>, weights::LoadedView>,
    tie: bool,
    x: Seq<BlockQ8Weights>,
    head: Option<Q8LinearWeight>,
    embed: Option<Q8LinearWeight>,
) -> Option<ErrorView> {
    match weights::get_error(w, "model.embed_tokens.weight"@) {
        Some(e) => Some(e),
        None => match layers_error(w, x, 0) {
            Some(e) => Some(e),
            None => match weights::get_error(w, "model.norm.weight"@) {
                Some(e) => Some(e),
                None => head_error(w, tie, head, embed),
            },
        },
    }
}

/// The output layer: that of its own name, or that of the embedding where the model shares it.
pub fn load_lm_head(
    weights: &WeightMap,
    tie_word_embeddings: bool,
    head: Option<Q8LinearWeight>,
    embed: Option<Q8LinearWeight>,
) -> (r: Result<Linear, RsinferError>)
    requires
        block_build::part_sizes_known(weights@, "lm_head.weight"@, head),
        block_build::part_sizes_known(weights@, "model.embed_tokens.weight"@, embed),
    ensures
        match r {
            Ok(l) => {
                &&& head_error(weights@, tie_word_embeddings, head, embed) is None
                &&& is_head(weights@, tie_word_embeddings, head, embed, l)
            },
            Err(e) => head_error(weights@, tie_word_embeddings, head, embed) == Some(e@),
        },
{
    match Linear::from_weight_map_or_q8_sidecar(weights, "lm_head.weight", None, head) {
        Ok(l) => Ok(l),
        Err(_) => {
            if tie_word_embeddings {
                Linear::from_weight_map_or_q8_sidecar(
                    weights,
                    "model.embed_tokens.weight",
                    None,
                    embed,
                )
            } else {
                Err(
                    RsinferError::WeightError(
                        "缺少 lm_head.weight 且 tie_word_embeddings 为 false".to_owned(),
                    ),
                )
            }
        },
    }
}

fn load_layers(
    weights: &WeightMap,
    config: &Qwen3Config,
    existing: Vec<BlockQ8Weights>,
    inv_freq: &[u32],
    scale: u32,
) -> (r: Result<Vec<TransformerBlock>, RsinferError>)
    requires
        config.num_hidden_layers > 0 ==> config.has_head_width(),
        existing@.len() == config.num_hidden_layers,
        forall|i: int|
            0 <= i < existing@.len() ==> block_build::block_sizes_known(
                weights@,
                i as usize,
                #[trigger] existing@[i],
            ),
    ensures
        match r {
            Ok(v) => {
                &&& layers_error(weights@, existing@, 0) is None
                &&& v@.len() == config.num_hidden_layers
                &&& forall|i: int|
                    0 <= i < v@.len() ==> block_build::is_block(
                        weights@,
                        *config,
                        i as usize,
                        existing@[i],
                        inv_freq@,
                        scale,
                        #[trigger] v@[i],
                    )
            },
            Err(e) => layers_error(weights@, existing@, 0) == Some(e@),
        },
{
    let ghost x = existing@;
    let n: usize = existing.len();
    let mut rest = existing;
    let mut layers: Vec<TransformerBlock> = Vec::new();
    let mut i: usize = 0;
    assert(rest@ =~= x.skip(0));
    while i < n
        invariant
            i <= n,
            n == x.len(),
            x == existing@,
            rest@ == x.skip(i as int),
            layers@.len() == i,
            n > 0 ==> config.has_head_width(),
            layers_error(weights@, x, 0) == layers_error(weights@, x, i as int),
            forall|k: int|
                0 <= k < x.len() ==> block_build::block_sizes_known(
                    weights@,
                    k as usize,
                    #[trigger] x[k],
                ),
            forall|k: int|
                0 <= k < i ==> block_build::is_block(
                    weights@,
                    *config,
                    k as usize,
                    x[k],
                    inv_freq@,
                    scale,
                    #[trigger] layers@[k],
                ),
        decreases n - i,
    {
        assert(rest@[0] == x[i as int]);
        let one = rest.remove(0);
        assert(rest@ =~= x.skip(i + 1));
        assert(block_build::block_sizes_known(weights@, i, x[i as int]));
        match build_transformer_block_with_q8_sidecar(
            weights,
            config,
            i,
            one,
            vstd::slice::slice_to_vec(inv_freq),
            scale,
        ) {
            Ok(b) => {
                layers.push(b);
            },
            Err(e) => {
                return Err(e);
            },
        }
        i += 1;
    }
    Ok(layers)
}

/// A plan after a device was to be opened.
pub open spec fn opened(p: runtime::PlanView, why: Option<Seq<char>>) -> runtime::PlanView {
    match why {
        None => p,
        Some(e) => runtime::noted(
            (runtime::PlanView {
                lm_head_device: LayerDevice::Cpu,
                ..runtime::noted(
                    p,
                    "transformer decode GPU backend unavailable or partial; using CPU fallback where needed: "@
                        + e,
                )
            }),
            "lm_head GPU backend unavailable; using CPU fallback: "@ + e,
        ),
    }
}

/// Notes that a device could not be opened.
pub fn note_device_failure(plan: &mut RuntimePlan, why: &str)
    ensures
        final(plan)@ == opened(old(plan)@, Some(why@)),
{
    plan.mark_transformer_gpu_fallback(why);
    plan.mark_lm_head_gpu_fallback(why);
}

/// A plan after it is known whether weights in eight bits are kept.
pub open spec fn sidecar_noted(
    p: runtime::PlanView,
    mode: QuantizationCacheMode,
    why: Option<Seq<char>>,
) -> runtime::PlanView {
    match mode {
        QuantizationCacheMode::Auto => match why {
            Some(e) => runtime::noted(
                p,
                "Q8 sidecar cache unavailable; deriving Q8 weights in memory: "@ + e,
            ),
            None => p,
        },
        QuantizationCacheMode::Off => runtime::noted(
            p,
            "Q8 sidecar cache disabled; deriving Q8 weights in memory."@,
        ),
    }
}

/// Notes whether weights in eight bits are kept.
pub fn note_sidecar(plan: &mut RuntimePlan, mode: QuantizationCacheMode, why: Option<&str>)
    ensures
        final(plan)@ == sidecar_noted(
            old(plan)@,
            mode,
            match why {
                Some(s) => Some(s@),
                None => None,
            },
        ),
{
    match mode {
        QuantizationCacheMode::Auto => match why {
            Some(e) => plan.mark_q8_sidecar_unavailable(e),
            None => {},
        },
        QuantizationCacheMode::Off => plan.mark_q8_sidecar_disabled(),
    }
}

/// A plan after all linear layers have weights in eight bits.
pub open spec fn quantization_noted(
    p: runtime::PlanView,
    layers: nat,
    report: Option<Q8SidecarReport>,
) -> runtime::PlanView {
    let q = runtime::noted(
        (runtime::PlanView { quantization: runtime::QuantizationMode::Q8, ..p }),
        "Q8 linear path enabled for "@ + text::dec(7 * layers + 1)
            + " bias-free linear layer(s); Q8 GPU matvecs or existing GPU matvecs take priority where attached, then CPU Q8 is used as fallback."@,
    );
    match report {
        Some(r) => runtime::noted(
            q,
            "Q8 sidecar cache at "@ + r.dir@ + ": "@ + text::dec(r.hits as nat) + " hit(s), "@
                + text::dec(r.writes as nat) + " write(s), "@ + text::dec(r.fallbacks@.len())
                + " fallback(s)."@,
        ),
        None => q,
    }
}

/// What is counted of the first `n` blocks that were put on a device.
pub struct Attached {
    /// The blocks with a layer there.
    pub active: nat,
    /// The layers there.
    pub linears: nat,
    /// What could not be done.
    pub failures: Seq<Seq<char>>,
}

/// What is counted of blocks with the given numbers of layers on a device, and messages.
pub open spec fn tally(counts: Seq<nat>, errors: Seq<Seq<Seq<char>>>, n: nat) -> Attached
    decreases n,
{
    if n == 0 {
        Attached { active: 0, linears: 0, failures: Seq::empty() }
    } else {
        let k = n - 1;
        let t = tally(counts, errors, k as nat);
        Attached {
            active: if counts[k] > 0 {
                t.active + 1
            } else {
                t.active
            },
            linears: t.linears + counts[k],
            failures: if errors[k].len() > 0 {
                t.failures.push(
                    "layer "@ + text::dec(k as nat) + ": "@ + text::listed(errors[k], "; "@),
                )
            } else {
                t.failures
            },
        }
    }
}

/// A plan after blocks were put on a device.
pub open spec fn blocks_noted(p: runtime::PlanView, q8: bool, t: Attached) -> runtime::PlanView {
    let note = if q8 {
        "decode Q8 matvec for "@ + text::dec(t.active) + " transformer layer(s) attached "@
            + text::dec(t.linears)
            + " linear GPU kernels through the shared wgpu context; q/k/v can use one shared input upload, MLP can fuse gate/up SwiGLU into Q8 GPU down_proj, and prefill still falls back to CPU."@
    } else {
        "decode matvec for "@ + text::dec(t.active) + " transformer layer(s) attached "@
            + text::dec(t.linears)
            + " linear GPU kernels through the shared wgpu context; q/k/v same-input groups are batched and MLP can fuse gate/up SwiGLU into GPU down_proj; prefill still falls back to CPU."@
    };
    let q = runtime::decode_marked(p, t.active as usize, note);
    if t.failures.len() > 0 {
        runtime::noted(
            q,
            "transformer decode GPU backend unavailable or partial; using CPU fallback where needed: "@
                + text::listed(t.failures, " | "@),
        )
    } else {
        q
    }
}

/// A plan after the output layer was to be put on a device.
pub open spec fn head_noted(p: runtime::PlanView, q8: bool, why: Option<Seq<char>>)
    -> runtime::PlanView {
    match why {
        Some(e) => runtime::noted(
            (runtime::PlanView { lm_head_device: LayerDevice::Cpu, ..p }),
            "lm_head GPU backend unavailable; using CPU fallback: "@ + e,
        ),
        None => runtime::noted(
            runtime::with_lm_head_gpu(p),
            if q8 {
                "lm_head Q8 matvec is using the optional wgpu backend; greedy temperature<=0 can use fused Q8 GPU argmax."@
            } else {
                "lm_head matvec is using the optional wgpu backend."@
            },
        ),
    }
}

/// Whether the first `n` of some blocks were put on a device one after the other, each leaving the
/// device as the next finds it.
pub open spec fn blocks_attached(
    ls: Seq<TransformerBlock>,
    ms: Seq<TransformerBlock>,
    cs: Seq<context::ContextView>,
    counts: Seq<nat>,
    errors: Seq<Seq<Seq<char>>>,
    q8: bool,
    n: nat,
) -> bool {
    &&& ms.len() == ls.len()
    &&& n <= ls.len()
    &&& cs.len() == n + 1
    &&& counts.len() == n
    &&& errors.len() == n
    &&& forall|i: int|
        0 <= i < n ==> #[trigger] block::block_enabled(
            cs[i],
            cs[i + 1],
            ls[i],
            ms[i],
            q8,
            counts[i],
            errors[i],
        )
    &&& forall|i: int| n <= i < ls.len() ==> #[trigger] ms[i] == ls[i]
}

/// What becomes of a model whose first `n` blocks and output layer are put on a device.
pub open spec fn is_attached(
    a: Qwen3Model,
    b: Qwen3Model,
    c: context::ContextView,
    after: context::ContextView,
    q8: bool,
    n: nat,
    cs: Seq<context::ContextView>,
    counts: Seq<nat>,
    errors: Seq<Seq<Seq<char>>>,
) -> bool {
    let last = cs.last();
    let plan = blocks_noted(a.runtime_plan@, q8, tally(counts, errors, n));
    &&& blocks_attached(a.layers@, b.layers@, cs, counts, errors, q8, n)
    &&& cs[0] == c
    &&& b.config == a.config
    &&& b.embed_tokens == a.embed_tokens
    &&& b.norm == a.norm
    &&& b.resident_decode_prototype == a.resident_decode_prototype
    &&& b.resident_runtime_state == a.resident_runtime_state
    &&& if q8 {
        let why = linear::q8_error(a.lm_head, last.max_chunk_bytes);
        &&& exists|r: Result<(), String>| #[trigger]
            linear::q8_enabled(last, after, a.lm_head, b.lm_head, true, r)
        &&& b.runtime_plan@ == head_noted(plan, q8, why)
    } else {
        let why = linear::half_error(a.lm_head, last.max_chunk_bytes);
        &&& exists|r: Result<(), String>| #[trigger]
            linear::half_enabled(last, after, a.lm_head, b.lm_head, r)
        &&& b.runtime_plan@ == head_noted(plan, q8, why)
    }
}

/// Whether the linear layers of a block have their weights in eight bits.
pub open spec fn block_in_eight_bits(b: TransformerBlock) -> bool {
    &&& b.attention.q_proj.q8_weight is Some && b.attention.k_proj.q8_weight is Some
    &&& b.attention.v_proj.q8_weight is Some && b.attention.o_proj.q8_weight is Some
    &&& b.mlp.gate_proj.q8_weight is Some && b.mlp.up_proj.q8_weight is Some
    &&& b.mlp.down_proj.q8_weight is Some
}

/// Whether all linear layers of a model have their weights in eight bits.
pub open spec fn all_in_eight_bits(m: Qwen3Model) -> bool {
    &&& m.lm_head.q8_weight is Some
    &&& forall|i: int| 0 <= i < m.layers@.len() ==> block_in_eight_bits(#[trigger] m.layers@[i])
}

impl Qwen3Model {
    /// All that a model holds can be put on the given device, or is there.
    pub open spec fn well_formed(&self, id: u64) -> bool {
        &&& self.lm_head.well_formed() && self.lm_head.on_device(id)
        &&& forall|i: int|
            0 <= i < self.layers@.len() ==> (#[trigger] self.layers@[i]).well_formed(id)
    }

    /// A model out of its weights, and of those in eight bits that were found beside it.
    pub fn from_weights(
        config: Qwen3Config,
        weights: &WeightMap,
        runtime_plan: RuntimePlan,
        existing: Vec<BlockQ8Weights>,
        head: Option<Q8LinearWeight>,
        embed: Option<Q8LinearWeight>,
        inv_freq: &[u32],
        scale: u32,
        resident_decode_prototype: bool,
    ) -> (r: Result<Qwen3Model, RsinferError>)
        requires
            config.num_hidden_layers > 0 ==> config.has_head_width(),
            existing@.len() == config.num_hidden_layers,
            forall|i: int|
                0 <= i < existing@.len() ==> block_build::block_sizes_known(
                    weights@,
                    i as usize,
                    #[trigger] existing@[i],
                ),
            block_build::part_sizes_known(weights@, "lm_head.weight"@, head),
            block_build::part_sizes_known(weights@, "model.embed_tokens.weight"@, embed),
        ensures
            ({
                let w = weights@;
                let tie = config.tie_word_embeddings;
                let why = model_error(w, tie, existing@, head, embed);
                match r {
                    Ok(m) => {
                        &&& why is None
                        &&& m.config == config
                        &&& m.embed_tokens.dims() == weights::shape_of(
                            w["model.embed_tokens.weight"@],
                        )
                        &&& m.embed_tokens.values() == weights::numbers_of(
                            w["model.embed_tokens.weight"@],
                        )
                        &&& m.layers@.len() == config.num_hidden_layers
                        &&& forall|i: int|
                            0 <= i < m.layers@.len() ==> block_build::is_block(
                                w,
                                config,
                                i as usize,
                                existing@[i],
                                inv_freq@,
                                scale,
                                #[trigger] m.layers@[i],
                            )
                        &&& block_build::is_norm_of(
                            w,
                            "model.norm.weight"@,
                            config.rms_norm_eps,
                            m.norm,
                        )
                        &&& is_head(w, tie, head, embed, m.lm_head)
                        &&& m.runtime_plan == runtime_plan
                        &&& m.resident_decode_prototype == resident_decode_prototype
                        &&& m.resident_runtime_state is None
                    },
                    Err(e) => why == Some(e@),
                }
            }),
    {
        let embed_tokens = match get_weight(weights, "model.embed_tokens.weight") {
            Ok(t) => t,
            Err(e) => {
                return Err(e);
            },
        };
        let layers = match load_layers(weights, &config, existing, inv_freq, scale) {
            Ok(v) => v,
            Err(e) => {
                return Err(e);
            },
        };
        let norm = match get_weight(weights, "model.norm.weight") {
            Ok(t) => RmsNorm::new(t, config.rms_norm_eps),
            Err(e) => {
                return Err(e);
            },
        };
        let lm_head = match load_lm_head(weights, config.tie_word_embeddings, head, embed) {
            Ok(l) => l,
            Err(e) => {
                return Err(e);
            },
        };
        Ok(
            Qwen3Model {
                config,
                embed_tokens,
                layers,
                norm,
                lm_head,
                runtime_plan,
                resident_decode_prototype,
                resident_runtime_state: None,
            },
        )
    }

    /// Notes that all linear layers have weights in eight bits, and what was kept of them.
    pub fn note_quantization(&mut self, report: Option<Q8SidecarReport>)
        requires
            all_in_eight_bits(*old(self)),
            7 * old(self).layers@.len() + 1 <= usize::MAX,
        ensures
            final(self).runtime_plan@ == quantization_noted(
                old(self).runtime_plan@,
                old(self).layers@.len(),
                report,
            ),
            *final(self) == (Qwen3Model { runtime_plan: final(self).runtime_plan, ..*old(self) }),
    {
        let linears: usize = 7 * self.layers.len() + 1;
        self.runtime_plan.mark_q8_quantization(linears);
        match &report {
            Some(r) => {
                self.runtime_plan.mark_q8_sidecar_report(
                    r.dir.as_str(),
                    r.hits,
                    r.writes,
                    r.fallbacks.len(),
                );
            },
            None => {},
        }
    }

    fn attach_blocks(&mut self, context: &mut GpuContext, q8: bool, n: usize) -> (r: (
        usize,
        usize,
        Vec<String>,
    ))
        requires
            old(self).well_formed(old(context)@.id),
            n <= old(self).layers@.len(),
            7 * old(self).layers@.len() <= usize::MAX,
        ensures
            final(context)@.id == old(context)@.id,
            *final(self) == (Qwen3Model { layers: final(self).layers, ..*old(self) }),
            exists|
                cs: Seq<context::ContextView>,
                counts: Seq<nat>,
                errors: Seq<Seq<Seq<char>>>,
            | #[trigger]
                blocks_attached(
                    old(self).layers@,
                    final(self).layers@,
                    cs,
                    counts,
                    errors,
                    q8,
                    n as nat,
                ) && cs[0] == old(context)@ && cs.last() == final(context)@ && tally(
                    counts,
                    errors,
                    n as nat,
                ) == (Attached {
                    active: r.0 as nat,
                    linears: r.1 as nat,
                    failures: runtime::texts(r.2@),
                }),
    {
        let ghost first = *self;
        let ghost ls = self.layers@;
        let ghost id = context@.id;
        let ghost mut cs: Seq<context::ContextView> = seq![context@];
        let ghost mut counts: Seq<nat> = Seq::empty();
        let ghost mut errors: Seq<Seq<Seq<char>>> = Seq::empty();
        let total: usize = self.layers.len();
        let mut active: usize = 0;
        let mut linears: usize = 0;
        let mut failures: Vec<String> = Vec::new();
        assert(runtime::texts(failures@) =~= Seq::<Seq<char>>::empty());
        let mut i: usize = 0;
        while i < n
            invariant
                i <= n,
                n <= total,
                total == ls.len(),
                7 * total <= usize::MAX,
                self.layers@.len() == total,
                *self == (Qwen3Model { layers: self.layers, ..first }),
                ls == first.layers@,
                first.well_formed(id),
                context@.id == id,
                cs.len() == i + 1,
                cs[0] == old(context)@,
                cs[i as int] == context@,
                counts.len() == i,
                errors.len() == i,
                active <= i,
                linears <= 7 * i,
                tally(counts, errors, i as nat) == (Attached {
                    active: active as nat,
                    linears: linears as nat,
                    failures: runtime::texts(failures@),
                }),
                forall|k: int|
                    0 <= k < i ==> #[trigger] block::block_enabled(
                        cs[k],
                        cs[k + 1],
                        ls[k],
                        self.layers@[k],
                        q8,
                        counts[k],
                        errors[k],
                    ),
                forall|k: int| i <= k < total ==> #[trigger] self.layers@[k] == ls[k],
            decreases n - i,
        {
            let ghost before = self.layers@;
            let ghost c0 = context@;
            let ghost old_counts = counts;
            let ghost old_errors = errors;
            let ghost old_cs = cs;
            assert(self.layers@[i as int] == ls[i as int]);
            assert(first.layers@[i as int].well_formed(id));
            let layer = &mut self.layers[i];
            let (attached, listed) = if q8 {
                layer.try_enable_q8_gpu_matvecs(context)
            } else {
                layer.try_enable_gpu_matvecs(context)
            };
            let ghost words = runtime::texts(listed@);
            proof {
                cs = cs.push(context@);
                counts = counts.push(attached as nat);
                errors = errors.push(words);
                assert(old_counts =~= counts.take(i as int));
                assert(old_errors =~= errors.take(i as int));
                lemma_tally(old_counts, counts, old_errors, errors, i as nat);
            }
            if attached > 0 {
                active += 1;
                linears += attached;
            }
            if listed.len() > 0 {
                let mut s = "layer ".to_owned();
                text::push_size(&mut s, i);
                s.append(": ");
                let joined = text::join_texts(&listed, "; ");
                s.append(joined.as_str());
                let ghost line = s@;
                let ghost before_failures = failures@;
                failures.push(s);
                assert(runtime::texts(failures@) =~= runtime::texts(before_failures).push(line));
            }
            proof {
                assert forall|k: int| 0 <= k < i + 1 implies #[trigger] block::block_enabled(
                    cs[k],
                    cs[k + 1],
                    ls[k],
                    self.layers@[k],
                    q8,
                    counts[k],
                    errors[k],
                ) by {
                    if k < i {
                        assert(block::block_enabled(
                            old_cs[k],
                            old_cs[k + 1],
                            ls[k],
                            before[k],
                            q8,
                            old_counts[k],
                            old_errors[k],
                        ));
                        assert(self.layers@[k] == before[k]);
                    }
                }
                assert forall|k: int| i + 1 <= k < total implies #[trigger] self.layers@[k]
                    == ls[k] by {
                    assert(self.layers@[k] == before[k]);
                }
            }
            i += 1;
        }
        assert(blocks_attached(ls, self.layers@, cs, counts, errors, q8, n as nat));
        (active, linears, failures)
    }

    /// Puts the blocks that are meant for it, and the output layer, on a device.
    pub fn attach_gpu(&mut self, context: &mut GpuContext, q8: bool)
        requires
            old(self).well_formed(old(context)@.id),
            runtime::gpu_count(old(self).runtime_plan@.layer_devices) <= old(self).layers@.len(),
            7 * old(self).layers@.len() <= usize::MAX,
        ensures
            exists|
                cs: Seq<context::ContextView>,
                counts: Seq<nat>,
                errors: Seq<Seq<Seq<char>>>,
            | #[trigger]
                is_attached(
                    *old(self),
                    *final(self),
                    old(context)@,
                    final(context)@,
                    q8,
                    runtime::gpu_count(old(self).runtime_plan@.layer_devices),
                    cs,
                    counts,
                    errors,
                ),
    {
        let ghost a = *self;
        let ghost c = context@;
        let planned: usize = self.runtime_plan.planned_transformer_gpu_layers();
        let (active, linears, failures) = self.attach_blocks(context, q8, planned);
        let ghost (cs, counts, errors) = choose|
            cs: Seq<context::ContextView>,
            counts: Seq<nat>,
            errors: Seq<Seq<Seq<char>>>,
        | #[trigger]
            blocks_attached(a.layers@, self.layers@, cs, counts, errors, q8, planned as nat)
                && cs[0] == c && cs.last() == context@ && tally(counts, errors, planned as nat) == (
            Attached {
                active: active as nat,
                linears: linears as nat,
                failures: runtime::texts(failures@),
            });
        let ghost last = context@;
        if q8 {
            self.runtime_plan.mark_transformer_decode_q8_gpu_layers(active, linears);
        } else {
            self.runtime_plan.mark_transformer_decode_gpu_layers(active, linears);
        }
        if failures.len() > 0 {
            let joined = text::join_texts(&failures, " | ");
            self.runtime_plan.mark_transformer_gpu_fallback(joined.as_str());
        }
        assert(self.runtime_plan@ == blocks_noted(
            a.runtime_plan@,
            q8,
            tally(counts, errors, planned as nat),
        ));
        if q8 {
            let r = self.lm_head.try_enable_q8_gpu_matvec_with_context_and_argmax(context, true);
            assert(linear::q8_enabled(last, context@, a.lm_head, self.lm_head, true, r));
            match r {
                Ok(()) => self.runtime_plan.mark_lm_head_q8_gpu(),
                Err(e) => self.runtime_plan.mark_lm_head_gpu_fallback(e.as_str()),
            }
        } else {
            let r = self.lm_head.try_enable_gpu_matvec_with_context(context);
            assert(linear::half_enabled(last, context@, a.lm_head, self.lm_head, r));
            match r {
                Ok(()) => {
                    if self.lm_head.has_gpu_matvec() {
                        self.runtime_plan.mark_lm_head_gpu();
                    } else {
                        self.runtime_plan.mark_lm_head_gpu_fallback("backend was not attached");
                    }
                },
                Err(e) => self.runtime_plan.mark_lm_head_gpu_fallback(e.as_str()),
            }
        }
        assert(is_attached(
            a,
            *self,
            c,
            context@,
            q8,
            planned as nat,
            cs,
            counts,
            errors,
        ));
    }

    /// Whether a device can find the next token itself.
    pub fn has_greedy_token_fast_path(&self) -> (r: bool)
        ensures
            r == self.lm_head.finds_greatest(),
    {
        self.lm_head.has_q8_gpu_argmax()
    }

    /// A cache for the model.
    pub fn create_kv_cache(&self) -> (r: KVCache)
        ensures
            r@.layers == Seq::new(
                self.config.num_hidden_layers as nat,
                |i: int| None::<cache::LayerView>,
            ),
            r@.current_len == 0,
            r@.max_len == self.config.max_position_embeddings,
            r@.well_formed(),
    {
        KVCache::new(self.config.num_hidden_layers, self.config.max_position_embeddings)
    }
}

proof fn lemma_tally(
    counts: Seq<nat>,
    more: Seq<nat>,
    errors: Seq<Seq<Seq<char>>>,
    more_errors: Seq<Seq<Seq<char>>>,
    n: nat,
)
    requires
        n <= counts.len() <= more.len(),
        n <= errors.len() <= more_errors.len(),
        counts == more.take(counts.len() as int),
        errors == more_errors.take(errors.len() as int),
    ensures
        tally(counts, errors, n) == tally(more, more_errors, n),
    decreases n,
{
    if n > 0 {
        lemma_tally(counts, more, errors, more_errors, (n - 1) as nat);
        assert(counts[n - 1] == more[n - 1]);
        assert(errors[n - 1] == more_errors[n - 1]);
    }
}

/// A plan with the note of a model that is run on a device from block to block.
pub open spec fn resident_noted(p: runtime::PlanView) -> runtime::PlanView {
    runtime::noted(
        p,
        "Internal resident decode prototype path is enabled for decode-one GPU layers; default behavior remains unchanged when this flag is off."@,
    )
}

/// The note of a model that is run on a device from block to block.
pub fn note_resident_decode(plan: &mut RuntimePlan)
    ensures
        final(plan)@ == resident_noted(old(plan)@),
{
    plan.add_note(
        "Internal resident decode prototype path is enabled for decode-one GPU layers; default behavior remains unchanged when this flag is off.",
    );
}

/// The note of a model that was loaded from kept weights alone.
pub fn note_warm_load(plan: &mut RuntimePlan)
    ensures
        final(plan)@ == runtime::noted(
            old(plan)@,
            "Warm Q8 sidecar fast-load skipped raw safetensors reads for transformer/lm_head linear weights."@,
        ),
{
    plan.add_note(
        "Warm Q8 sidecar fast-load skipped raw safetensors reads for transformer/lm_head linear weights.",
    );
}

/// Whether weights in eight bits are looked for beside the model.
pub fn uses_q8_sidecar(options: &runtime::RuntimeOptions) -> (r: bool)
    ensures
        r == (options.quantization is Q8 && options.quantization_cache is Auto),
{
    options.quantization == runtime::QuantizationMode::Q8 && options.quantization_cache
        == QuantizationCacheMode::Auto
}

} // verus!
