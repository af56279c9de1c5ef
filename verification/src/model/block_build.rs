//! A block out of the weights of a model.

use vstd::prelude::*;
use vstd::string::*;

use crate::error::{ErrorView, RsinferError};
use crate::gpu::resident;
use crate::model::linear;
use crate::model::weights;
use crate::model::{
    get_weight, Attention, Linear, Mlp, Qwen3Config, RmsNorm, TransformerBlock, WeightMap,
};
use crate::tensor::dtypes;
use crate::tensor::Q8LinearWeight;
use crate::text;

verus! {

/// The weights in eight bits of a block that were found beside the model.
#[derive(Debug)]
pub struct BlockQ8Weights {
    pub q_proj: Option<Q8LinearWeight>,
    pub k_proj: Option<Q8LinearWeight>,
    pub v_proj: Option<Q8LinearWeight>,
    pub o_proj: Option<Q8LinearWeight>,
    pub gate_proj: Option<Q8LinearWeight>,
    pub up_proj: Option<Q8LinearWeight>,
    pub down_proj: Option<Q8LinearWeight>,
}

impl BlockQ8Weights {
    /// No weights at all.
    pub fn none() -> (r: BlockQ8Weights)
        ensures
            r == (BlockQ8Weights {
                q_proj: None,
                k_proj: None,
                v_proj: None,
                o_proj: None,
                gate_proj: None,
                up_proj: None,
                down_proj: None,
            }),
    {
        BlockQ8Weights {
            q_proj: None,
            k_proj: None,
            v_proj: None,
            o_proj: None,
            gate_proj: None,
            up_proj: None,
            down_proj: None,
        }
    }
}

/// The name of a weight of a block.
pub open spec fn block_name(layer: usize, suffix: Seq<char>) -> Seq<char> {
    "model.layers."@ + text::dec(layer as nat) + "."@ + suffix
}

/// The name of a weight of a block.
pub fn block_weight_name(layer: usize, suffix: &str) -> (r: String)
    ensures
        r@ == block_name(layer, suffix@),
{
    let mut s = "model.layers.".to_owned();
    text::push_size(&mut s, layer);
    s.append(".");
    s.append(suffix);
    s
}

/// Whether a linear layer of a block can be built at all.
pub open spec fn part_sizes_known(
    w: Map<Seq<char>, weights::LoadedView>,
    name: Seq<char>,
    existing: Option<Q8LinearWeight>,
) -> bool {
    existing is None ==> linear::sizes_known(w, name)
}

/// Why a linear layer of a block cannot be built.
pub open spec fn part_load_error(
    w: Map<Seq<char>, weights::LoadedView>,
    name: Seq<char>,
    existing: Option<Q8LinearWeight>,
) -> Option<ErrorView> {
    if existing is Some {
        None
    } else {
        linear::load_error(w, name)
    }
}

/// Whether a linear layer is the one that is built.
pub open spec fn is_part(
    w: Map<Seq<char>, weights::LoadedView>,
    name: Seq<char>,
    existing: Option<Q8LinearWeight>,
    l: Linear,
) -> bool {
    match existing {
        Some(q) => linear::is_q8_only(name, q, None, l),
        None => linear::is_loaded(w, name, None, l),
    }
}

/// Whether a normalization is the one that is built.
pub open spec fn is_norm_of(
    w: Map<Seq<char>, weights::LoadedView>,
    name: Seq<char>,
    eps: u32,
    n: RmsNorm,
) -> bool {
    &&& weights::get_error(w, name) is None
    &&& n.weight.dims() == weights::shape_of(w[name])
    &&& n.weight.values() == weights::numbers_of(w[name])
    &&& resident::contiguous(n.weight) == weights::in_memory(w[name])
    &&& n.eps == eps
}

/// The first error of some, from `i` on.
pub open spec fn first_error(s: Seq<Option<ErrorView>>, i: int) -> Option<ErrorView>
    decreases s.len() - i,
{
    if i < 0 || i >= s.len() {
        None
    } else {
        match s[i] {
            Some(e) => Some(e),
            None => first_error(s, i + 1),
        }
    }
}

/// What can be wrong with the weights of a block, in the order in which it is found.
pub open spec fn block_errors(
    w: Map<Seq<char>, weights::LoadedView>,
    layer: usize,
    x: BlockQ8Weights,
) -> Seq<Option<ErrorView>> {
    seq![
        part_load_error(w, block_name(layer, "self_attn.q_proj.weight"@), x.q_proj),
        part_load_error(w, block_name(layer, "self_attn.k_proj.weight"@), x.k_proj),
        part_load_error(w, block_name(layer, "self_attn.v_proj.weight"@), x.v_proj),
        part_load_error(w, block_name(layer, "self_attn.o_proj.weight"@), x.o_proj),
        weights::get_error(w, block_name(layer, "self_attn.q_norm.weight"@)),
        weights::get_error(w, block_name(layer, "self_attn.k_norm.weight"@)),
        part_load_error(w, block_name(layer, "mlp.gate_proj.weight"@), x.gate_proj),
        part_load_error(w, block_name(layer, "mlp.up_proj.weight"@), x.up_proj),
        part_load_error(w, block_name(layer, "mlp.down_proj.weight"@), x.down_proj),
        weights::get_error(w, block_name(layer, "input_layernorm.weight"@)),
        weights::get_error(w, block_name(layer, "post_attention_layernorm.weight"@)),
    ]
}

/// Whether the numbers of places in the weights of a block can be held.
pub open spec fn block_sizes_known(
    w: Map<Seq<char>, weights::LoadedView>,
    layer: usize,
    x: BlockQ8Weights,
) -> bool {
    &&& part_sizes_known(w, block_name(layer, "self_attn.q_proj.weight"@), x.q_proj)
    &&& part_sizes_known(w, block_name(layer, "self_attn.k_proj.weight"@), x.k_proj)
    &&& part_sizes_known(w, block_name(layer, "self_attn.v_proj.weight"@), x.v_proj)
    &&& part_sizes_known(w, block_name(layer, "self_attn.o_proj.weight"@), x.o_proj)
    &&& part_sizes_known(w, block_name(layer, "mlp.gate_proj.weight"@), x.gate_proj)
    &&& part_sizes_known(w, block_name(layer, "mlp.up_proj.weight"@), x.up_proj)
    &&& part_sizes_known(w, block_name(layer, "mlp.down_proj.weight"@), x.down_proj)
}

/// Whether a block is the one that is built.
pub open spec fn is_block(
    w: Map<Seq<char>, weights::LoadedView>,
    config: Qwen3Config,
    layer: usize,
    x: BlockQ8Weights,
    inv_freq: Seq<u32>,
    scale: u32,
    b: TransformerBlock,
) -> bool {
    let eps = config.rms_norm_eps;
    let a = b.attention;
    &&& is_part(w, block_name(layer, "self_attn.q_proj.weight"@), x.q_proj, a.q_proj)
    &&& is_part(w, block_name(layer, "self_attn.k_proj.weight"@), x.k_proj, a.k_proj)
    &&& is_part(w, block_name(layer, "self_attn.v_proj.weight"@), x.v_proj, a.v_proj)
    &&& is_part(w, block_name(layer, "self_attn.o_proj.weight"@), x.o_proj, a.o_proj)
    &&& is_norm_of(w, block_name(layer, "self_attn.q_norm.weight"@), eps, a.q_norm)
    &&& is_norm_of(w, block_name(layer, "self_attn.k_norm.weight"@), eps, a.k_norm)
    &&& a.num_heads == config.num_attention_heads
    &&& a.num_kv_heads == config.num_key_value_heads
    &&& a.head_dim == config.head_width()
    &&& a.rope_theta == config.rope_theta
    &&& a.rope_inv_freq@ == inv_freq
    &&& a.scale == scale
    &&& a.q8_qkv_batch is None
    &&& a.resident_runtime_state is None
    &&& is_part(w, block_name(layer, "mlp.gate_proj.weight"@), x.gate_proj, b.mlp.gate_proj)
    &&& is_part(w, block_name(layer, "mlp.up_proj.weight"@), x.up_proj, b.mlp.up_proj)
    &&& is_part(w, block_name(layer, "mlp.down_proj.weight"@), x.down_proj, b.mlp.down_proj)
    &&& b.mlp.gpu_swiglu_down is None
    &&& b.mlp.q8_gpu_swiglu_down is None
    &&& is_norm_of(w, block_name(layer, "input_layernorm.weight"@), eps, b.input_layernorm)
    &&& is_norm_of(
        w,
        block_name(layer, "post_attention_layernorm.weight"@),
        eps,
        b.post_attention_layernorm,
    )
    &&& b.resident_runtime_state is None
}

fn load_part(weights: &WeightMap, layer: usize, suffix: &str, existing: Option<Q8LinearWeight>) -> (r:
    Result<Linear, RsinferError>)
    requires
        part_sizes_known(weights@, block_name(layer, suffix@), existing),
    ensures
        match r {
            Ok(l) => {
                &&& part_load_error(weights@, block_name(layer, suffix@), existing) is None
                &&& is_part(weights@, block_name(layer, suffix@), existing, l)
            },
            Err(e) => part_load_error(weights@, block_name(layer, suffix@), existing) == Some(e@),
        },
{
    let name = block_weight_name(layer, suffix);
    Linear::from_weight_map_or_q8_sidecar(weights, name.as_str(), None, existing)
}

fn load_norm(weights: &WeightMap, layer: usize, suffix: &str, eps: u32) -> (r: Result<
    RmsNorm,
    RsinferError,
>)
    ensures
        match r {
            Ok(n) => is_norm_of(weights@, block_name(layer, suffix@), eps, n),
            Err(e) => weights::get_error(weights@, block_name(layer, suffix@)) == Some(e@),
        },
{
    let name = block_weight_name(layer, suffix);
    match get_weight(weights, name.as_str()) {
        Ok(w) => Ok(RmsNorm::new(w, eps)),
        Err(e) => Err(e),
    }
}

/// A block out of the weights of a model; `inv_freq` are the rotary frequencies and `scale` is what
/// the products of queries and keys are multiplied by.
pub fn build_transformer_block(
    weights: &WeightMap,
    config: &Qwen3Config,
    layer: usize,
    inv_freq: Vec<u32>,
    scale: u32,
) -> (r: Result<TransformerBlock, RsinferError>)
    requires
        config.has_head_width(),
        block_sizes_known(
            weights@,
            layer,
            (BlockQ8Weights {
                q_proj: None,
                k_proj: None,
                v_proj: None,
                o_proj: None,
                gate_proj: None,
                up_proj: None,
                down_proj: None,
            }),
        ),
    ensures
        ({
            let x = BlockQ8Weights {
                q_proj: None,
                k_proj: None,
                v_proj: None,
                o_proj: None,
                gate_proj: None,
                up_proj: None,
                down_proj: None,
            };
            match r {
                Ok(b) => {
                    &&& first_error(block_errors(weights@, layer, x), 0) is None
                    &&& is_block(weights@, *config, layer, x, inv_freq@, scale, b)
                },
                Err(e) => first_error(block_errors(weights@, layer, x), 0) == Some(e@),
            }
        }),
{
    build_transformer_block_with_q8_sidecar(
        weights,
        config,
        layer,
        BlockQ8Weights::none(),
        inv_freq,
        scale,
    )
}

/// A block out of the weights of a model, and of those in eight bits that were found beside it.
pub fn build_transformer_block_with_q8_sidecar(
    weights: &WeightMap,
    config: &Qwen3Config,
    layer: usize,
    existing: BlockQ8Weights,
    inv_freq: Vec<u32>,
    scale: u32,
) -> (r: Result<TransformerBlock, RsinferError>)
    requires
        config.has_head_width(),
        block_sizes_known(weights@, layer, existing),
    ensures
        match r {
            Ok(b) => {
                &&& first_error(block_errors(weights@, layer, existing), 0) is None
                &&& is_block(weights@, *config, layer, existing, inv_freq@, scale, b)
            },
            Err(e) => first_error(block_errors(weights@, layer, existing), 0) == Some(e@),
        },
{
    let ghost x = existing;
    let ghost errors = block_errors(weights@, layer, x);
    let eps: u32 = config.rms_norm_eps;
    proof {
        reveal_with_fuel(first_error, 12);
    }
    let q_proj = match load_part(weights, layer, "self_attn.q_proj.weight", existing.q_proj) {
        Ok(l) => l,
        Err(e) => {
            return Err(e);
        },
    };
    assert(errors[0] is None);
    let k_proj = match load_part(weights, layer, "self_attn.k_proj.weight", existing.k_proj) {
        Ok(l) => l,
        Err(e) => {
            return Err(e);
        },
    };
    assert(errors[1] is None);
    let v_proj = match load_part(weights, layer, "self_attn.v_proj.weight", existing.v_proj) {
        Ok(l) => l,
        Err(e) => {
            return Err(e);
        },
    };
    assert(errors[2] is None);
    let o_proj = match load_part(weights, layer, "self_attn.o_proj.weight", existing.o_proj) {
        Ok(l) => l,
        Err(e) => {
            return Err(e);
        },
    };
    assert(errors[3] is None);
    let q_norm = match load_norm(weights, layer, "self_attn.q_norm.weight", eps) {
        Ok(n) => n,
        Err(e) => {
            return Err(e);
        },
    };
    assert(errors[4] is None);
    let k_norm = match load_norm(weights, layer, "self_attn.k_norm.weight", eps) {
        Ok(n) => n,
        Err(e) => {
            return Err(e);
        },
    };
    assert(errors[5] is None);
    let gate_proj = match load_part(weights, layer, "mlp.gate_proj.weight", existing.gate_proj) {
        Ok(l) => l,
        Err(e) => {
            return Err(e);
        },
    };
    assert(errors[6] is None);
    let up_proj = match load_part(weights, layer, "mlp.up_proj.weight", existing.up_proj) {
        Ok(l) => l,
        Err(e) => {
            return Err(e);
        },
    };
    assert(errors[7] is None);
    let down_proj = match load_part(weights, layer, "mlp.down_proj.weight", existing.down_proj) {
        Ok(l) => l,
        Err(e) => {
            return Err(e);
        },
    };
    assert(errors[8] is None);
    let input_layernorm = match load_norm(weights, layer, "input_layernorm.weight", eps) {
        Ok(n) => n,
        Err(e) => {
            return Err(e);
        },
    };
    assert(errors[9] is None);
    let post_attention_layernorm = match load_norm(
        weights,
        layer,
        "post_attention_layernorm.weight",
        eps,
    ) {
        Ok(n) => n,
        Err(e) => {
            return Err(e);
        },
    };
    assert(errors[10] is None);
    let attention = Attention {
        q_proj,
        k_proj,
        v_proj,
        o_proj,
        q_norm,
        k_norm,
        num_heads: config.num_attention_heads,
        num_kv_heads: config.num_key_value_heads,
        head_dim: config.head_dim(),
        rope_theta: config.rope_theta,
        rope_inv_freq: inv_freq,
        scale,
        q8_qkv_batch: None,
        resident_runtime_state: None,
    };
    let mlp = Mlp::new(gate_proj, up_proj, down_proj);
    proof {
        assert(crate::model::mlp::mlp_parts(mlp)[0] == gate_proj);
        assert(crate::model::mlp::mlp_parts(mlp)[1] == up_proj);
        assert(crate::model::mlp::mlp_parts(mlp)[2] == down_proj);
    }
    Ok(TransformerBlock::new(input_layernorm, attention, post_attention_layernorm, mlp))
}

/// Whether a linear layer holds what is known under a name: the weight in eight bits that was found
/// for it, or else the numbers that are stored, in half precision and row by row.
pub open spec fn holds_weight(
    w: Map<Seq<char>, weights::LoadedView>,
    name: Seq<char>,
    found: Option<Q8LinearWeight>,
    l: Linear,
) -> bool {
    let dims = seq![l.out_features, l.in_features];
    &&& l.source_name is Some && l.source_name->0@ == name
    &&& l.bias is None
    &&& match found {
        Some(q) => {
            &&& l.q8_weight == Some(q)
            &&& l.weight@.len() == 0
            &&& dims == seq![q.out_features, q.in_features]
        },
        None => {
            &&& l.q8_weight is None
            &&& w.contains_key(name)
            &&& l.weight@.len() == l.out_features * l.in_features
            &&& match w[name] {
                weights::LoadedView::F16 { shape, data } => shape == dims && l.weight@ == data,
                weights::LoadedView::Tensor { dims: shape, values, row_major } => {
                    &&& shape == dims
                    &&& row_major ==> {
                        &&& l.weight@.len() == values.len()
                        &&& forall|i: int|
                            0 <= i < values.len() ==> #[trigger] l.weight@[i] == dtypes::narrowed(
                                values[i],
                            )
                    }
                },
            }
        },
    }
}

/// Whether a normalization holds the numbers that are stored under a name, in single precision.
pub open spec fn holds_norm(
    w: Map<Seq<char>, weights::LoadedView>,
    name: Seq<char>,
    n: RmsNorm,
) -> bool {
    &&& w.contains_key(name)
    &&& match w[name] {
        weights::LoadedView::F16 { shape, data } => {
            &&& n.weight.dims() == shape
            &&& n.weight.values().len() == data.len()
            &&& forall|i: int|
                0 <= i < data.len() ==> #[trigger] n.weight.values()[i] == dtypes::widened(data[i])
        },
        weights::LoadedView::Tensor { dims, values, .. } => n.weight.dims() == dims
            && n.weight.values() == values,
    }
}

/// A part that is built holds what is known under its name.
pub proof fn lemma_part_holds(
    w: Map<Seq<char>, weights::LoadedView>,
    name: Seq<char>,
    found: Option<Q8LinearWeight>,
    l: Linear,
)
    requires
        is_part(w, name, found, l),
    ensures
        holds_weight(w, name, found, l),
{
    let dims = seq![l.out_features, l.in_features];
    if found is None {
        let p = weights::linear_weight(w, name)->Ok_0;
        assert(p.0.len() == 2);
        assert(p.0 =~= dims);
        assert(w.contains_key(name));
        match w[name] {
            weights::LoadedView::F16 { shape, data } => {
                assert(shape =~= dims);
                if shape.len() != 2 {
                    assert(p.0 == shape);
                }
            },
            weights::LoadedView::Tensor { dims: shape, values, row_major } => {
                assert(shape =~= dims);
            },
        }
    }
}

/// Law: every linear part and every normalization of a block holds the numbers of its own name, and
/// none those of another.
pub proof fn law_parts_bear_their_names(
    w: Map<Seq<char>, weights::LoadedView>,
    config: Qwen3Config,
    layer: usize,
    x: BlockQ8Weights,
    inv_freq: Seq<u32>,
    scale: u32,
    b: TransformerBlock,
)
    requires
        is_block(w, config, layer, x, inv_freq, scale, b),
    ensures
        ({
            let p = "model.layers."@ + text::dec(layer as nat) + "."@;
            let a = b.attention;
            &&& holds_weight(w, p + "self_attn.q_proj.weight"@, x.q_proj, a.q_proj)
            &&& holds_weight(w, p + "self_attn.k_proj.weight"@, x.k_proj, a.k_proj)
            &&& holds_weight(w, p + "self_attn.v_proj.weight"@, x.v_proj, a.v_proj)
            &&& holds_weight(w, p + "self_attn.o_proj.weight"@, x.o_proj, a.o_proj)
            &&& holds_weight(w, p + "mlp.gate_proj.weight"@, x.gate_proj, b.mlp.gate_proj)
            &&& holds_weight(w, p + "mlp.up_proj.weight"@, x.up_proj, b.mlp.up_proj)
            &&& holds_weight(w, p + "mlp.down_proj.weight"@, x.down_proj, b.mlp.down_proj)
            &&& holds_norm(w, p + "self_attn.q_norm.weight"@, a.q_norm)
            &&& holds_norm(w, p + "self_attn.k_norm.weight"@, a.k_norm)
            &&& holds_norm(w, p + "input_layernorm.weight"@, b.input_layernorm)
            &&& holds_norm(w, p + "post_attention_layernorm.weight"@, b.post_attention_layernorm)
            &&& a.q_norm.eps == config.rms_norm_eps && a.k_norm.eps == config.rms_norm_eps
            &&& b.input_layernorm.eps == config.rms_norm_eps
            &&& b.post_attention_layernorm.eps == config.rms_norm_eps
            &&& a.num_heads == config.num_attention_heads
            &&& a.num_kv_heads == config.num_key_value_heads
            &&& a.rope_inv_freq@ == inv_freq && a.scale == scale
        }),
{
    let a = b.attention;
    lemma_part_holds(w, block_name(layer, "self_attn.q_proj.weight"@), x.q_proj, a.q_proj);
    lemma_part_holds(w, block_name(layer, "self_attn.k_proj.weight"@), x.k_proj, a.k_proj);
    lemma_part_holds(w, block_name(layer, "self_attn.v_proj.weight"@), x.v_proj, a.v_proj);
    lemma_part_holds(w, block_name(layer, "self_attn.o_proj.weight"@), x.o_proj, a.o_proj);
    lemma_part_holds(w, block_name(layer, "mlp.gate_proj.weight"@), x.gate_proj, b.mlp.gate_proj);
    lemma_part_holds(w, block_name(layer, "mlp.up_proj.weight"@), x.up_proj, b.mlp.up_proj);
    lemma_part_holds(w, block_name(layer, "mlp.down_proj.weight"@), x.down_proj, b.mlp.down_proj);
}

} // verus!
