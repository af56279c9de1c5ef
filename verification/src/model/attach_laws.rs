//! What holds of the parts of a model that are put on a device: which weights stand there, what runs on
//! them together, and what is made there for one token.

use vstd::prelude::*;
use vstd::string::*;

use crate::engine::cache;
use crate::engine::CachedKV;
use crate::error::RsinferError;
use crate::gpu::chain;
use crate::gpu::context;
use crate::gpu::context::{ContextView, OpView};
use crate::gpu::matvec;
use crate::gpu::q8;
use crate::gpu::q8_swiglu;
use crate::gpu::swiglu;
use crate::gpu::{GpuBufferInfo, GpuCommand, GpuResidentBuffer, GpuUsage};
use crate::model::attention;
use crate::model::attention_once;
use crate::model::attention_once::AttentionOnce;
use crate::model::attention_state::{AttentionShape, ResidentAttentionRuntimeState};
use crate::model::attention_sync;
use crate::model::block;
use crate::model::block_once;
use crate::model::block_once::BlockOnce;
use crate::model::block_state;
use crate::model::flow_laws;
use crate::model::group;
use crate::model::linear;
use crate::model::mlp;
use crate::model::qwen3;
use crate::model::qwen3::ResidentQwen3RuntimeState;
use crate::model::qwen3_decode;
use crate::model::{Attention, Linear, Mlp, Qwen3Model, RmsNorm, TransformerBlock};
use crate::tensor::array;
use crate::tensor::Tensor;

verus! {

/// Law: a layer that is put on a device keeps all that it has, and what stands there is its own weight,
/// in eight bits or in half precision, in the runs that fit the device; one that cannot be stays as
/// it is.
pub proof fn law_attached_layer_holds_its_weight(c: ContextView, l: Linear, m: Linear, q8: bool)
    requires
        group::part_became(c, l, m, q8),
    ensures
        m.weight == l.weight && m.q8_weight == l.q8_weight && m.bias == l.bias,
        m.source_name == l.source_name && m.out_features == l.out_features,
        m.in_features == l.in_features,
        q8 && linear::q8_error(l, c.max_chunk_bytes) is None ==> {
            &&& m.gpu_matvec == l.gpu_matvec
            &&& m.q8_gpu_matvec matches Some(x) && {
                &&& x.context == c.id && x.input_buffer == Some(c.buffers.len() as usize)
                &&& x.in_features == (l.q8_weight->0).in_features && x.out_features == (
                l.q8_weight->0).out_features
                &&& x.chunks@ == q8::q8_chunks_made(
                    context::made(c, (l.q8_weight->0).in_features, GpuUsage::Input),
                    c.buffers.len() as usize,
                    l.q8_weight->0,
                    q8::q8_plan(c.max_chunk_bytes, l.q8_weight->0),
                    false,
                ).1
            }
        },
        !q8 && linear::half_error(l, c.max_chunk_bytes) is None ==> {
            &&& m.q8_gpu_matvec == l.q8_gpu_matvec
            &&& m.gpu_matvec matches Some(x) && {
                &&& x.context == c.id && x.input_buffer == c.buffers.len() as usize
                &&& x.in_features == l.in_features && x.out_features == l.out_features
                &&& x.chunks@ == matvec::chunks_made(
                    context::made(c, l.in_features, GpuUsage::Input),
                    c.buffers.len() as usize,
                    l.weight@,
                    l.in_features,
                    matvec::weight_plan(c.max_chunk_bytes, l.out_features, l.in_features),
                ).1
            }
        },
        q8 && linear::q8_error(l, c.max_chunk_bytes) is Some ==> m == l,
        !q8 && linear::half_error(l, c.max_chunk_bytes) is Some ==> m == l,
{
    reveal(group::part_became);
}

/// Law: where query, key and value share an input, each is found by the rows of its own projection from
/// that input; the projections keep their weights, and that of the result stays as it was.
pub proof fn law_shared_input_serves_each_projection(
    c: ContextView,
    after: ContextView,
    a: Attention,
    mid: Seq<Linear>,
    b: Attention,
    errors: Seq<Seq<char>>,
    noted: Seq<Seq<char>>,
    i: int,
    j: int,
)
    requires
        attention::batched(c, after, a, mid, b, errors, noted),
        mid.len() == 4,
        0 <= i < 3,
    ensures
        b.o_proj == mid[3],
        b.q_proj.weight == mid[0].weight && b.q_proj.q8_weight == mid[0].q8_weight,
        b.k_proj.weight == mid[1].weight && b.k_proj.q8_weight == mid[1].q8_weight,
        b.v_proj.weight == mid[2].weight && b.v_proj.q8_weight == mid[2].q8_weight,
        b.q_norm == a.q_norm && b.k_norm == a.k_norm,
        b.q8_qkv_batch is Some ==> mid[0].q8_gpu_matvec is Some && mid[1].q8_gpu_matvec is Some
            && mid[2].q8_gpu_matvec is Some,
        b.q8_qkv_batch matches Some(x) ==> 0 <= j < (mid[i].q8_gpu_matvec->0).chunks@.len() ==> {
            let k = (mid[i].q8_gpu_matvec->0).chunks@[j];
            let g = x.groups@[i]@[j];
            &&& x.groups@.len() == 3
            &&& g.input == x.input_buffer && x.input_buffer == c.buffers.len() as usize
            &&& g.qweight == k.qweight_buffer && g.scales == k.scales_buffer
            &&& g.output == k.output_buffer && g.params == k.params_buffer
        },
        b.q8_qkv_batch is None ==> after == c && b.q_proj == mid[0] && b.k_proj == mid[1]
            && b.v_proj == mid[2],
{
    let m = attention::qkv_q8(mid);
    assert(*m[0] == mid[0].q8_gpu_matvec->0 && *m[1] == mid[1].q8_gpu_matvec->0);
    assert(*m[2] == mid[2].q8_gpu_matvec->0);
    if b.q8_qkv_batch is Some {
        let x = b.q8_qkv_batch->0;
        assert(x.groups@[i]@ == q8::q8_all_binds(m[i].chunks@, x.input_buffer));
        assert(*m[i] == mid[i].q8_gpu_matvec->0);
    }
}

/// Law: a feed-forward part that runs as one in half precision gates the products of its gate and its
/// up matrix into the input of its last one; all three keep their weights.
pub proof fn law_fused_part_gates_its_own_products(
    c: ContextView,
    after: ContextView,
    m: Mlp,
    ls: Seq<Linear>,
    r: Mlp,
    errors: Seq<Seq<char>>,
    noted: Seq<Seq<char>>,
)
    requires
        mlp::fused(c, after, m, ls, r, errors, noted),
        ls.len() == 3,
    ensures
        r.gate_proj == ls[0] && r.up_proj == ls[1] && r.down_proj == ls[2],
        r.q8_gpu_swiglu_down == m.q8_gpu_swiglu_down,
        r.gpu_swiglu_down matches Some(s) ==> {
            &&& ls[0].gpu_matvec is Some && ls[1].gpu_matvec is Some && ls[2].gpu_matvec is Some
            &&& s.groups@ == swiglu::gates_made(
                c,
                (ls[0].gpu_matvec->0).chunks@,
                (ls[1].gpu_matvec->0).chunks@,
                (ls[2].gpu_matvec->0).input_buffer,
                (ls[0].gpu_matvec->0).chunks@.len(),
            ).1
        },
        r.gpu_swiglu_down is None ==> after == c,
{
}

/// Law: a feed-forward part that runs as one in eight bits finds the products of its gate and its up
/// matrix from one input, and gates them into the input of its last one; all three keep their
/// weights.
pub proof fn law_q8_fused_part_gates_its_own_products(
    c: ContextView,
    after: ContextView,
    m: Mlp,
    ls: Seq<Linear>,
    r: Mlp,
    errors: Seq<Seq<char>>,
    noted: Seq<Seq<char>>,
    j: int,
)
    requires
        mlp::q8_fused(c, after, m, ls, r, errors, noted),
        ls.len() == 3,
    ensures
        r.gate_proj.weight == ls[0].weight && r.gate_proj.q8_weight == ls[0].q8_weight,
        r.up_proj.weight == ls[1].weight && r.up_proj.q8_weight == ls[1].q8_weight,
        r.down_proj == ls[2],
        r.gpu_swiglu_down == m.gpu_swiglu_down,
        r.q8_gpu_swiglu_down matches Some(s) ==> {
            let g = (ls[0].q8_gpu_matvec->0).chunks@;
            let u = (ls[1].q8_gpu_matvec->0).chunks@;
            &&& ls[0].q8_gpu_matvec is Some && ls[1].q8_gpu_matvec is Some
            &&& s.shared_input_buffer == c.buffers.len() as usize
            &&& 0 <= j < g.len() ==> s.gate_groups@[j].input == s.shared_input_buffer
                && s.gate_groups@[j].qweight == g[j].qweight_buffer && s.gate_groups@[j].scales
                == g[j].scales_buffer && s.gate_groups@[j].output == g[j].output_buffer
            &&& 0 <= j < u.len() ==> s.up_groups@[j].input == s.shared_input_buffer
                && s.up_groups@[j].qweight == u[j].qweight_buffer && s.up_groups@[j].scales
                == u[j].scales_buffer && s.up_groups@[j].output == u[j].output_buffer
            &&& s.groups@ == q8_swiglu::q8_gates_made(
                context::made(c, (ls[0].q8_gpu_matvec->0).in_features, GpuUsage::Input),
                g,
                u,
                (ls[2].q8_gpu_matvec->0).input_buffer->0,
                g.len(),
            ).1
        },
        r.q8_gpu_swiglu_down is None ==> after == c && r.gate_proj == ls[0] && r.up_proj == ls[1],
{
}

/// Law: of a model that is put on a device the first blocks go there and all others stay as they are;
/// the embeddings, the last norm and the weights of the output layer stay too.
pub proof fn law_attached_model_keeps_the_rest(
    a: Qwen3Model,
    b: Qwen3Model,
    c: ContextView,
    after: ContextView,
    q8: bool,
    n: nat,
    cs: Seq<ContextView>,
    counts: Seq<nat>,
    errors: Seq<Seq<Seq<char>>>,
    i: int,
)
    requires
        qwen3::is_attached(a, b, c, after, q8, n, cs, counts, errors),
        0 <= i < a.layers@.len(),
    ensures
        b.layers@.len() == a.layers@.len(),
        i >= n ==> b.layers@[i] == a.layers@[i],
        i < n ==> block::block_enabled(
            cs[i],
            cs[i + 1],
            a.layers@[i],
            b.layers@[i],
            q8,
            counts[i],
            errors[i],
        ),
        i < n ==> b.layers@[i].input_layernorm == a.layers@[i].input_layernorm
            && b.layers@[i].post_attention_layernorm == a.layers@[i].post_attention_layernorm,
        b.embed_tokens == a.embed_tokens && b.norm == a.norm && b.config == a.config,
        b.lm_head.weight == a.lm_head.weight && b.lm_head.q8_weight == a.lm_head.q8_weight,
        b.lm_head.bias == a.lm_head.bias,
        q8 ==> b.lm_head.gpu_matvec == a.lm_head.gpu_matvec,
        !q8 ==> b.lm_head.q8_gpu_matvec == a.lm_head.q8_gpu_matvec,
        cs[0] == c && cs.len() == n + 1,
{
    if i < n {
        assert(block::block_enabled(
            cs[i],
            cs[i + 1],
            a.layers@[i],
            b.layers@[i],
            q8,
            counts[i],
            errors[i],
        ));
    }
}

/// Law: the keys and values that a block decodes with are those that the cache holds of its own layer,
/// and none at the first position.
pub proof fn law_prefix_is_that_of_the_layer(
    c: cache::CacheView,
    layer: usize,
    position: usize,
    cached: Option<CachedKV<'_>>,
)
    requires
        block::is_prefix(c, layer, position, cached),
    ensures
        cached is None <==> position == 0,
        cached matches Some(k) ==> {
            &&& layer < c.layers.len()
            &&& c.layers[layer as int] matches Some(l) && l.key == k.key@ && l.value == k.value@
                && l.len == k.seq_len && l.capacity == k.capacity_len && l.num_heads == k.num_heads
                && l.head_dim == k.head_dim
        },
{
}

/// Law: keys and values are written to the device unless they were under the same stamp; either way the
/// device then stands at the position and for that state of the cache.
pub proof fn law_synchronized_stands_for_the_cache(
    a: Attention,
    c: ContextView,
    s: ResidentAttentionRuntimeState,
    cache_id: u64,
    revision: u64,
    cached: Option<CachedKV<'_>>,
    position: usize,
    after: ContextView,
    t: ResidentAttentionRuntimeState,
    r: Result<(), RsinferError>,
)
    requires
        attention_sync::is_synchronized(
            a,
            c,
            s,
            cache_id,
            revision,
            cached,
            position,
            after,
            t,
            r,
        ),
    ensures
        ({
            let same = s.synced_cache_id == cache_id && s.synced_cache_revision == revision;
            let suits = cached matches Some(k) ==> k.num_heads == a.num_kv_heads && k.head_dim
                == a.head_dim;
            &&& r is Ok <==> (same || suits) && position <= s.max_len
            &&& r is Ok && same ==> after == c
            &&& r is Ok && !same ==> after.ops == c.ops.push(
                OpView::Write {
                    buffer: s.resident_key_cache.buffer,
                    words: attention_sync::device_keys(cached, a, s.max_len),
                },
            ).push(
                OpView::Write {
                    buffer: s.resident_value_cache.buffer,
                    words: attention_sync::device_values(cached, a, s.max_len),
                },
            )
            &&& r is Ok ==> t.kv_gpu.current_len == position && t.synced_cache_id == cache_id
                && t.synced_cache_revision == revision && t.resident_key_cache
                == s.resident_key_cache && t.resident_value_cache == s.resident_value_cache
            &&& r is Err ==> t == s
        }),
{
}

/// Law: a block that is decoded writes the norm of what it reads, then all of its attention, then, in one
/// more pass, all that comes behind it.
pub proof fn law_block_writes_all_of_its_commands(
    a: TransformerBlock,
    b: TransformerBlock,
    c: ContextView,
    after: ContextView,
    start: Seq<GpuCommand>,
    end: Seq<GpuCommand>,
    input: GpuResidentBuffer,
    output: GpuResidentBuffer,
    layer: usize,
    position: usize,
    r: Result<(), RsinferError>,
)
    requires
        block::is_encoded(a, b, c, after, start, end, input, output, layer, position, r),
        r is Ok,
    ensures
        ({
            let s = a.resident_runtime_state->0;
            let io = block::io_of(s, layer);
            let first = start + seq![
                GpuCommand::BeginPass,
                crate::gpu::norm::norm_command(s.gpu_input_norm, io.input_norm_cache),
            ];
            let steps = attention::decode_steps(
                c,
                a.attention,
                a.attention.resident_runtime_state->0,
                s.resident_norm1,
                s.resident_attn,
                position,
            );
            let post = block::post_steps(a, s, input, output, io);
            &&& chain::failing(steps, 0) == steps.len() && chain::failing(post, 0) == 4
            &&& end == first + chain::written_by(steps, steps.len())
                + seq![GpuCommand::BeginPass] + post[0].commands + post[1].commands
                + post[2].commands + post[3].commands
            &&& steps == attention::qkv_steps(
                c,
                a.attention,
                a.attention.resident_runtime_state->0,
                s.resident_norm1,
            ) + attention::attend_steps(
                a.attention,
                a.attention.resident_runtime_state->0,
                s.resident_attn,
                position,
            )
        }),
{
    let s = a.resident_runtime_state->0;
    let io = block::io_of(s, layer);
    let first = start + seq![
        GpuCommand::BeginPass,
        crate::gpu::norm::norm_command(s.gpu_input_norm, io.input_norm_cache),
    ];
    let steps = attention::decode_steps(
        c,
        a.attention,
        a.attention.resident_runtime_state->0,
        s.resident_norm1,
        s.resident_attn,
        position,
    );
    let post = block::post_steps(a, s, input, output, io);
    chain::law_steps_write_up_to_failure(steps, 0, first);
    assert(first + chain::written_by(steps, 0) =~= first);
    let done = chain::encoded(steps, 0, first);
    assert(done.0 is None);
    lemma_good_steps(steps, 0, first);
    let mid = done.1.push(GpuCommand::BeginPass);
    lemma_good_steps(post, 0, mid);
    flow_laws::law_good_steps_are_all_written(post, mid);
    assert(mid =~= first + chain::written_by(steps, steps.len()) + seq![GpuCommand::BeginPass]);
}

proof fn lemma_good_steps(steps: Seq<chain::EncodeStep>, i: int, e: Seq<GpuCommand>)
    requires
        0 <= i <= steps.len(),
        chain::encoded(steps, i, e).0 is None,
    ensures
        chain::failing(steps, i) == steps.len(),
        forall|k: int| i <= k < steps.len() ==> (#[trigger] steps[k]).error is None,
    decreases steps.len() - i,
{
    if i < steps.len() {
        lemma_good_steps(steps, i + 1, e + steps[i].commands);
    }
}

/// Law: each of the blocks that run on a device goes from the value that it reads to the one that the
/// next reads, under its own number, at the position, and with the position that all share.
pub proof fn law_block_runs_under_its_number(
    l: TransformerBlock,
    m: TransformerBlock,
    s: ResidentQwen3RuntimeState,
    c: ContextView,
    after: ContextView,
    start: Seq<GpuCommand>,
    end: Seq<GpuCommand>,
    kv: cache::CacheView,
    cache_id: u64,
    revision: u64,
    i: usize,
    position: usize,
    r: Result<(), RsinferError>,
)
    requires
        qwen3_decode::block_ran(
            l,
            m,
            s,
            c,
            after,
            start,
            end,
            kv,
            cache_id,
            revision,
            i,
            position,
            r,
        ),
    ensures
        i % 2 == 0 ==> block::is_layer_run(
            l,
            m,
            c,
            after,
            start,
            end,
            s.resident_hidden_a,
            s.resident_hidden_b,
            s.resident_hidden_a,
            s.resident_hidden_b,
            kv,
            cache_id,
            revision,
            i,
            position,
            s.resident_position.buffer,
            r,
        ),
        i % 2 != 0 ==> block::is_layer_run(
            l,
            m,
            c,
            after,
            start,
            end,
            s.resident_hidden_b,
            s.resident_hidden_a,
            s.resident_hidden_a,
            s.resident_hidden_b,
            kv,
            cache_id,
            revision,
            i,
            position,
            s.resident_position.buffer,
            r,
        ),
{
    reveal(qwen3_decode::block_ran);
}

/// Law: of some blocks that run on a device each starts from what the one before it left.
pub proof fn law_blocks_run_one_by_one(
    ls: Seq<TransformerBlock>,
    ms: Seq<TransformerBlock>,
    s: ResidentQwen3RuntimeState,
    cs: Seq<ContextView>,
    es: Seq<Seq<GpuCommand>>,
    kv: cache::CacheView,
    cache_id: u64,
    revision: u64,
    position: usize,
    n: nat,
    i: int,
)
    requires
        qwen3_decode::blocks_ran(ls, ms, s, cs, es, kv, cache_id, revision, position, n),
        0 <= i < n,
    ensures
        n <= ls.len() && ms.len() == ls.len() && cs.len() == n + 1 && es.len() == n + 1,
        exists|r: Result<(), RsinferError>|
            r is Ok && #[trigger] qwen3_decode::block_ran(
                ls[i],
                ms[i],
                s,
                cs[i],
                cs[i + 1],
                es[i],
                es[i + 1],
                kv,
                cache_id,
                revision,
                i as usize,
                position,
                r,
            ),
{
    let r: Result<(), RsinferError> = Ok(());
    assert(qwen3_decode::block_ran(
        ls[i],
        ms[i],
        s,
        cs[i],
        cs[i + 1],
        es[i],
        es[i + 1],
        kv,
        cache_id,
        revision,
        i as usize,
        position,
        r,
    ));
}

/// Law: a value that is made with what it holds has a number for each place, and is written whole.
pub proof fn law_value_is_made_and_written(c: ContextView, shape: Seq<usize>, words: Seq<u32>)
    ensures
        ({
            let d = attention_once::with_value(c, shape, words);
            &&& d.buffers == c.buffers.push(
                GpuBufferInfo {
                    words: array::numel(shape) as usize,
                    usage: GpuUsage::Resident,
                },
            )
            &&& d.ops == c.ops.push(OpView::Write { buffer: c.buffers.len() as usize, words })
        }),
{
}

/// Law: what the attention of one token alone needs has the shapes of its query, its keys and its values;
/// no two values share a buffer, and the keys and values of earlier positions are written to their
/// own.
pub proof fn law_values_of_one_token_are_apart(
    c: ContextView,
    a: AttentionShape<'_>,
    max_len: usize,
    position: usize,
    keys: Seq<u32>,
    values: Seq<u32>,
    s: AttentionOnce,
)
    requires
        attention_once::is_once(c, a, max_len, position, true, true, keys, values, s),
        c.buffers.len() + 8 <= usize::MAX,
    ensures
        ({
            let b = c.buffers.len();
            let q = seq![1usize, a.num_heads, a.head_dim];
            let k = seq![1usize, a.num_kv_heads, a.head_dim];
            let room = seq![a.num_kv_heads, max_len, a.head_dim];
            &&& s.q_pre.shape@ == q && s.q_pre.buffer == b
            &&& s.k_pre.shape@ == k && s.k_pre.buffer == b + 1
            &&& s.q.shape@ == q && s.q.buffer == b + 2
            &&& s.own_k matches Some(x) && x.shape@ == k && x.buffer == b + 3
            &&& s.own_v matches Some(x) && x.shape@ == k && x.buffer == b + 4
            &&& s.key_cache.shape@ == room && s.key_cache.buffer == b + 5
            &&& s.value_cache.shape@ == room && s.value_cache.buffer == b + 6
            &&& s.attention.shape@ == q && s.attention.buffer == b + 7
            &&& attention_once::all_put(c, a, max_len, true, true, keys, values).ops == c.ops.push(
                OpView::Write { buffer: (b + 5) as usize, words: keys },
            ).push(OpView::Write { buffer: (b + 6) as usize, words: values })
            &&& s.kv_gpu.num_heads == a.num_kv_heads && s.kv_gpu.head_dim == a.head_dim
            &&& s.kv_gpu.max_len == max_len && s.kv_gpu.current_len == position
            &&& s.attn_gpu.num_heads == a.num_heads && s.attn_gpu.num_kv_heads == a.num_kv_heads
            &&& s.attn_gpu.head_dim == a.head_dim && s.attn_gpu.max_len == max_len
        }),
{
    reveal(attention_once::is_once);
    reveal_with_fuel(attention_once::values_made, 7);
}

/// Law: one token through a block alone has seven rows of its width, no two in one buffer, and is written
/// to the first.
pub proof fn law_rows_of_one_token_are_apart(
    c: ContextView,
    first: RmsNorm,
    second: RmsNorm,
    x: Tensor,
    s: BlockOnce,
)
    requires
        block_once::is_block_once(c, first, second, x, s),
        c.buffers.len() + 7 <= usize::MAX,
    ensures
        ({
            let b = c.buffers.len();
            let row = seq![1usize, x.dims()[1]];
            &&& s.input.shape@ == row && s.input.buffer == b
            &&& s.norm1.shape@ == row && s.norm1.buffer == b + 1
            &&& s.attn.shape@ == row && s.attn.buffer == b + 2
            &&& s.hidden.shape@ == row && s.hidden.buffer == b + 3
            &&& s.norm2.shape@ == row && s.norm2.buffer == b + 4
            &&& s.mlp.shape@ == row && s.mlp.buffer == b + 5
            &&& s.output.shape@ == row && s.output.buffer == b + 6
            &&& s.gpu_add.len == x.dims()[1]
            &&& block_once::token_put(c, x, 6).ops == c.ops.push(
                OpView::Write { buffer: b as usize, words: x.values() },
            )
        }),
{
    reveal_with_fuel(block_state::rows_made, 8);
}

/// Law: what a block keeps on a device are rows of its width, and one of the width inside its feed-forward
/// part; no two of them share a buffer.
pub proof fn law_rows_of_a_block_are_apart(
    c: ContextView,
    after: ContextView,
    first: RmsNorm,
    second: RmsNorm,
    m: Mlp,
    hidden: usize,
    s: block_state::ResidentTransformerBlockRuntimeState,
)
    requires
        block_state::is_block_state(c, after, first, second, m, hidden, s),
        c.buffers.len() + 24 <= usize::MAX,
    ensures
        ({
            let b = c.buffers.len() + 15;
            let row = seq![1usize, hidden];
            &&& s.resident_input.shape@ == row && s.resident_input.buffer == b
            &&& s.resident_norm1.shape@ == row && s.resident_norm1.buffer == b + 1
            &&& s.resident_attn.shape@ == row && s.resident_attn.buffer == b + 2
            &&& s.resident_hidden.shape@ == row && s.resident_hidden.buffer == b + 3
            &&& s.resident_norm2.shape@ == row && s.resident_norm2.buffer == b + 4
            &&& s.resident_mlp_output.shape@ == row && s.resident_mlp_output.buffer == b + 5
            &&& s.resident_mlp_hidden.shape@ == seq![1usize, m.gate_proj.out_features]
                && s.resident_mlp_hidden.buffer == b + 6
            &&& s.resident_output.shape@ == row && s.resident_output.buffer == b + 7
            &&& s.gpu_input_norm.weight_buffer == c.buffers.len() + 1
            &&& s.gpu_post_norm.weight_buffer == c.buffers.len() + 6
            &&& s.gpu_add.params_buffer == c.buffers.len() + 14
        }),
{
    reveal_with_fuel(block_state::rows_made, 10);
    flow_laws::law_block_holds_its_norms(c, first, second, hidden);
}

} // verus!
