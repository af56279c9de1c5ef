//! What holds of a token on its way through blocks on a device: from which value to which value each
//! part of a block goes, and what stands on the device for that.

use vstd::prelude::*;
use vstd::string::*;

use crate::engine::CachedKV;
use crate::error::{ErrorView, RsinferError};
use crate::gpu::chain;
use crate::gpu::context;
use crate::gpu::context::{ContextView, OpView};
use crate::gpu::norm;
use crate::gpu::q8;
use crate::gpu::q8_batch;
use crate::gpu::q8_swiglu;
use crate::gpu::resident;
use crate::gpu::swiglu;
use crate::gpu::{
    GpuBindGroup, GpuCommand, GpuDispatch, GpuPipeline, GpuQ8MatVec, GpuQ8SwiGluDown,
    GpuQ8SwiGluDownResidentCache, GpuResidentBuffer,
};
use crate::model::attention;
use crate::model::attention::RmsNorm;
use crate::model::attention_decode;
use crate::model::attention_once;
use crate::model::attention_once::AttentionOnce;
use crate::model::attention_state;
use crate::model::attention_state::{AttentionShape, ResidentAttentionRuntimeState};
use crate::model::attention_sync;
use crate::model::block;
use crate::model::block_once;
use crate::model::block_once::BlockOnce;
use crate::model::block_state;
use crate::model::block_state::{
    ResidentTransformerBlockIoCaches, ResidentTransformerBlockRuntimeState,
};
use crate::model::{Attention, Mlp, TransformerBlock};

verus! {

/// A run of the kernel that adds two values into a third.
pub open spec fn adds(lhs: usize, rhs: usize, output: usize, params: usize, n: usize) -> GpuCommand {
    GpuCommand::Dispatch(
        GpuDispatch {
            pipeline: GpuPipeline::ResidualAdd,
            group: GpuBindGroup::ResidualAdd { lhs, rhs, output, params },
            workgroups: context::workgroups(n as u32),
        },
    )
}

/// A run of the kernel that norms one value into another.
pub open spec fn norms(input: usize, weight: usize, output: usize, params: usize, rows: usize)
    -> GpuCommand {
    GpuCommand::Dispatch(
        GpuDispatch {
            pipeline: GpuPipeline::RmsNorm,
            group: GpuBindGroup::RmsNorm { input, weight, output, params },
            workgroups: rows as u32,
        },
    )
}

/// Law: a block that reads one value and writes another norms what it reads, adds what the attention
/// gave to what it read, and at the end what the feed-forward part gave to that sum.
pub proof fn law_block_adds_to_what_it_read(
    s: ResidentTransformerBlockRuntimeState,
    input: GpuResidentBuffer,
    output: GpuResidentBuffer,
)
    ensures
        ({
            let io = block_state::io_caches(s, input, output);
            &&& norm::norm_command(s.gpu_input_norm, io.input_norm_cache) == norms(
                input.buffer,
                s.gpu_input_norm.weight_buffer,
                s.resident_norm1.buffer,
                s.gpu_input_norm.params_buffer,
                s.gpu_input_norm.rows,
            )
            &&& resident::residual_command(s.gpu_add, io.input_residual_cache) == adds(
                input.buffer,
                s.resident_attn.buffer,
                s.resident_hidden.buffer,
                s.gpu_add.params_buffer,
                s.gpu_add.len,
            )
            &&& resident::residual_command(s.gpu_add, io.output_residual_cache) == adds(
                s.resident_hidden.buffer,
                s.resident_mlp_output.buffer,
                output.buffer,
                s.gpu_add.params_buffer,
                s.gpu_add.len,
            )
        }),
{
}

/// Law: a block of an even number goes from the first of two values to the second and one of an odd
/// number back, however it was prepared for them.
pub proof fn law_blocks_go_to_and_fro(
    s: ResidentTransformerBlockRuntimeState,
    t: ResidentTransformerBlockRuntimeState,
    a: GpuResidentBuffer,
    b: GpuResidentBuffer,
    r: Result<(), RsinferError>,
    layer: usize,
)
    requires
        s.slot_caches is None,
        r is Ok,
        block_state::is_slotted(s, t, a, b, r),
    ensures
        layer % 2 == 0 ==> block::io_of(t, layer) == block_state::io_caches(s, a, b),
        layer % 2 != 0 ==> block::io_of(t, layer) == block_state::io_caches(s, b, a),
        t.resident_attn == s.resident_attn && t.resident_hidden == s.resident_hidden,
        t.resident_norm1 == s.resident_norm1 && t.resident_norm2 == s.resident_norm2,
{
}

/// Law: behind its attention a block adds, norms, runs its feed-forward part and adds again, in this
/// order and once each; only a failure of the feed-forward part is called one of it.
pub proof fn law_block_goes_on_in_order(
    b: TransformerBlock,
    s: ResidentTransformerBlockRuntimeState,
    input: GpuResidentBuffer,
    output: GpuResidentBuffer,
    io: ResidentTransformerBlockIoCaches,
    why: Seq<char>,
    failed: int,
)
    ensures
        ({
            let steps = block::post_steps(b, s, input, output, io);
            &&& steps.len() == 4
            &&& steps[0].commands == seq![
                resident::residual_command(s.gpu_add, io.input_residual_cache),
            ]
            &&& steps[0].error is None <==> s.gpu_add.context == input.context && s.gpu_add.context
                == s.resident_attn.context && s.gpu_add.context == s.resident_hidden.context
            &&& steps[1].commands == seq![
                norm::norm_command(s.gpu_post_norm, s.gpu_post_norm_cache),
            ]
            &&& steps[2].commands == q8_swiglu::q8_swiglu_runs(
                b.mlp.gate_proj.q8_gpu_matvec->0,
                b.mlp.down_proj.q8_gpu_matvec->0,
                s.resident_mlp_q8_cache->0,
            )
            &&& steps[3].commands == seq![
                resident::residual_command(s.gpu_add, io.output_residual_cache),
            ]
            &&& steps[3].error is None <==> s.gpu_add.context == s.resident_hidden.context
                && s.gpu_add.context == s.resident_mlp_output.context && s.gpu_add.context
                == output.context
        }),
        block::post_failure(failed, why) == (if failed == 2 {
            ErrorView::DimensionError("GPU resident MLP prototype failed: "@ + why)
        } else {
            ErrorView::DimensionError(
                "GPU resident transformer block prototype failed: "@ + why,
            )
        }),
{
}

/// Law: the commands of steps that all go well are theirs, one behind the other.
pub proof fn law_good_steps_are_all_written(steps: Seq<chain::EncodeStep>, e: Seq<GpuCommand>)
    requires
        steps.len() == 4,
        steps[0].error is None,
        steps[1].error is None,
        steps[2].error is None,
        steps[3].error is None,
    ensures
        chain::encoded(steps, 0, e) == (
            None::<Seq<char>>,
            e + steps[0].commands + steps[1].commands + steps[2].commands + steps[3].commands,
        ),
{
    reveal_with_fuel(chain::encoded, 6);
}

/// Law: a matrix in eight bits goes from one value to another chunk by chunk, with the kernel for its
/// width, and each chunk has its products put at the place of its rows; it can if and only if all
/// are on one device and have the widths of the matrix.
pub proof fn law_matrix_goes_from_value_to_value(
    m: GpuQ8MatVec,
    input: GpuResidentBuffer,
    output: GpuResidentBuffer,
)
    ensures
        ({
            let s = attention::q8_step(m, input, output);
            &&& s.error is None <==> m.context == input.context && m.context == output.context
                && input.len == m.in_features && output.len == m.out_features
            &&& s.commands == q8::q8_resident_commands(
                m.chunks@,
                m.chunks@.map_values(
                    |c: q8::GpuQ8MatVecChunk|
                        q8::GpuQ8Binds {
                            input: input.buffer,
                            qweight: c.qweight_buffer,
                            scales: c.scales_buffer,
                            output: c.output_buffer,
                            params: c.params_buffer,
                        },
                ),
                if m.in_features % 4 == 0 {
                    GpuPipeline::Q8MatVecVec4
                } else {
                    GpuPipeline::Q8MatVec
                },
                output.buffer,
                m.chunks@.len(),
            )
        }),
{
    let binds = m.chunks@.map_values(
        |c: q8::GpuQ8MatVecChunk|
            q8::GpuQ8Binds {
                input: input.buffer,
                qweight: c.qweight_buffer,
                scales: c.scales_buffer,
                output: c.output_buffer,
                params: c.params_buffer,
            },
    );
    assert(binds =~= q8::q8_all_binds(m.chunks@, input.buffer));
}

/// Law: query, key and value of a token are found from the same value, each by its own projection and
/// each into its own; where the projections share one input, the value is copied there first.
pub proof fn law_query_key_and_value_are_found(
    c: ContextView,
    a: Attention,
    s: ResidentAttentionRuntimeState,
    hidden: GpuResidentBuffer,
)
    ensures
        ({
            let steps = attention::qkv_steps(c, a, s, hidden);
            &&& steps.len() == 4
            &&& a.q8_qkv_batch is None ==> {
                &&& steps[0] == attention::q8_step(
                    a.q_proj.q8_gpu_matvec->0,
                    hidden,
                    s.resident_q_pre,
                )
                &&& steps[1] == attention::q8_step(
                    a.k_proj.q8_gpu_matvec->0,
                    hidden,
                    s.resident_k_pre,
                )
                &&& steps[2] == attention::q8_step(a.v_proj.q8_gpu_matvec->0, hidden, s.resident_v)
                &&& steps[3].error is None && steps[3].commands == seq![GpuCommand::BeginPass]
            }
            &&& a.q8_qkv_batch matches Some(b) ==> {
                &&& steps[0].commands.len() == 0
                &&& steps[1].commands == seq![
                    GpuCommand::Copy {
                        src: hidden.buffer,
                        dst: b.input_buffer,
                        dst_offset: 0,
                        words: b.in_features,
                    },
                ]
                &&& steps[1].error is None <==> b.context == hidden.context && hidden.len
                    == b.in_features
                &&& steps[2].error is None && steps[2].commands == seq![GpuCommand::BeginPass]
            }
        }),
{
}

/// Law: behind that an attention turns query and key, keeps key and value at the position, attends over
/// what is kept, and projects the result into the value that it writes.
pub proof fn law_attention_goes_on_in_order(
    a: Attention,
    s: ResidentAttentionRuntimeState,
    output: GpuResidentBuffer,
    position: usize,
)
    ensures
        ({
            let steps = attention::attend_steps(a, s, output, position);
            let o = a.o_proj.q8_gpu_matvec->0;
            let groups = match s.o_proj_gpu_cache {
                Some(k) => k.groups@,
                None => q8::q8_all_binds(o.chunks@, s.resident_attention.buffer),
            };
            &&& steps.len() == 5
            &&& steps[0].commands == norm::rope_commands(s.qk_gpu, s.qk_gpu_cache)
            &&& steps[1].commands == crate::gpu::attention::kv_commands(s.kv_gpu, s.kv_gpu_cache)
            &&& steps[1].error is None <==> position < s.kv_gpu.max_len && s.kv_gpu.context
                == s.resident_k.context && s.kv_gpu.context == s.resident_v.context
                && s.kv_gpu.context == s.resident_key_cache.context && s.kv_gpu.context
                == s.resident_value_cache.context
            &&& steps[2].commands == seq![
                crate::gpu::attention::attention_command(s.attn_gpu, s.attn_gpu_cache, position),
            ]
            &&& steps[2].error is None <==> position < s.attn_gpu.max_len && s.attn_gpu.context
                == s.resident_q.context && s.attn_gpu.context == s.resident_key_cache.context
                && s.attn_gpu.context == s.resident_value_cache.context && s.attn_gpu.context
                == s.resident_attention.context
            &&& steps[3].commands.len() == 0
            &&& steps[4].commands == q8::q8_resident_commands(
                o.chunks@,
                groups,
                if o.in_features % 4 == 0 {
                    GpuPipeline::Q8MatVecVec4
                } else {
                    GpuPipeline::Q8MatVec
                },
                output.buffer,
                o.chunks@.len(),
            )
        }),
{
}

/// Law: what an attention keeps on a device has the shapes of its query, its keys and its values, and
/// no two of its values share a buffer.
pub proof fn law_attention_values_are_apart(
    c: ContextView,
    a: AttentionShape<'_>,
    max_len: usize,
    position_buffer: usize,
    s: ResidentAttentionRuntimeState,
)
    requires
        attention_state::is_state(c, a, max_len, position_buffer, s),
        c.buffers.len() + 12 <= usize::MAX,
    ensures
        s.resident_key_cache.shape@ == seq![a.num_kv_heads, max_len, a.head_dim],
        s.resident_value_cache.shape@ == seq![a.num_kv_heads, max_len, a.head_dim],
        s.resident_q_pre.shape@ == seq![1usize, a.num_heads, a.head_dim],
        s.resident_q.shape@ == seq![1usize, a.num_heads, a.head_dim],
        s.resident_attention.shape@ == seq![1usize, a.num_heads, a.head_dim],
        s.resident_k_pre.shape@ == seq![1usize, a.num_kv_heads, a.head_dim],
        s.resident_k.shape@ == seq![1usize, a.num_kv_heads, a.head_dim],
        s.resident_v.shape@ == seq![1usize, a.num_kv_heads, a.head_dim],
        s.resident_key_cache.buffer == c.buffers.len() + 4,
        s.resident_value_cache.buffer == c.buffers.len() + 5,
        s.resident_q_pre.buffer == c.buffers.len() + 6,
        s.resident_k_pre.buffer == c.buffers.len() + 7,
        s.resident_q.buffer == c.buffers.len() + 8,
        s.resident_k.buffer == c.buffers.len() + 9,
        s.resident_v.buffer == c.buffers.len() + 10,
        s.resident_attention.buffer == c.buffers.len() + 11,
        s.kv_gpu.num_heads == a.num_kv_heads && s.kv_gpu.head_dim == a.head_dim,
        s.kv_gpu.max_len == max_len && s.kv_gpu.current_len == 0,
        s.attn_gpu.num_heads == a.num_heads && s.attn_gpu.num_kv_heads == a.num_kv_heads,
        s.attn_gpu.head_dim == a.head_dim && s.attn_gpu.max_len == max_len,
{
    reveal_with_fuel(attention_state::buffers_made, 10);
}

/// Law: what turns queries and keys on a device holds the frequencies, the weight of the queries and
/// that of the keys, in this order, and starts at the first position.
pub proof fn law_turning_holds_its_weights(c: ContextView, a: AttentionShape<'_>, max_len: usize)
    requires
        c.buffers.len() + 12 <= usize::MAX,
    ensures
        ({
            let d = attention_state::turn_made(c, a);
            let b = c.buffers.len() as int;
            let n = c.ops.len() as int;
            &&& d.buffers.len() == b + 12 && d.ops.len() == n + 6
            &&& d.ops[n] == OpView::Init { buffer: b as usize, words: a.inv_freq@ }
            &&& d.ops[n + 1] == OpView::Init {
                buffer: (b + 2) as usize,
                words: resident::contiguous(*a.q_weight),
            }
            &&& d.ops[n + 3] == OpView::Init {
                buffer: (b + 6) as usize,
                words: seq![0u32, 0, 0, 0],
            }
            &&& d.ops[n + 4] == OpView::Init {
                buffer: (b + 8) as usize,
                words: resident::contiguous(*a.k_weight),
            }
        }),
        ({
            let f = attention_state::kernel_config(a, max_len);
            &&& f.num_heads == a.num_heads && f.num_kv_heads == a.num_kv_heads
            &&& f.head_dim == a.head_dim && f.scale == a.scale && f.max_len == max_len
        }),
{
}

/// Law: a block holds the weight of its first norm before that of its second, with the width of a row,
/// one row, and its epsilon each; and then what adds as many numbers.
pub proof fn law_block_holds_its_norms(
    c: ContextView,
    first: RmsNorm,
    second: RmsNorm,
    hidden: usize,
)
    requires
        c.buffers.len() + 15 <= usize::MAX,
    ensures
        ({
            let d = block_state::kernels_made(c, first, second, hidden, 3);
            let b = c.buffers.len() as int;
            let n = c.ops.len() as int;
            &&& d.buffers.len() == b + 15 && d.ops.len() == n + 5
            &&& d.ops[n] == OpView::Init {
                buffer: (b + 1) as usize,
                words: resident::contiguous(first.weight),
            }
            &&& d.ops[n + 1] == OpView::Init {
                buffer: (b + 4) as usize,
                words: seq![hidden as u32, 1, first.eps, 0],
            }
            &&& d.ops[n + 2] == OpView::Init {
                buffer: (b + 6) as usize,
                words: resident::contiguous(second.weight),
            }
            &&& d.ops[n + 3] == OpView::Init {
                buffer: (b + 9) as usize,
                words: seq![hidden as u32, 1, second.eps, 0],
            }
            &&& d.ops[n + 4] == OpView::Init {
                buffer: (b + 14) as usize,
                words: seq![hidden as u32, 0, 0, 0],
            }
        }),
{
    let r = block_state::row(hidden);
    crate::tensor::laws::law_places_are_the_product(Seq::empty(), 1);
    assert(r.drop_last() =~= Seq::<usize>::empty().push(1));
}

/// Law: a gated layer with prepared buffers finds the products of gate and up from the same value,
/// gates them into the value between, and multiplies that into the last, where each product goes
/// to the place of its row.
pub proof fn law_gated_layer_goes_through_the_middle(
    before: ContextView,
    after: ContextView,
    gate: GpuQ8MatVec,
    up: GpuQ8MatVec,
    down: GpuQ8MatVec,
    input: GpuResidentBuffer,
    hidden: GpuResidentBuffer,
    output: GpuResidentBuffer,
    c: GpuQ8SwiGluDownResidentCache,
    k: int,
)
    requires
        q8_swiglu::is_q8_swiglu_cache(before, after, gate, up, down, input, hidden, output, c),
    ensures
        c.gate_groups@.len() == gate.chunks@.len() && c.up_groups@.len() == up.chunks@.len(),
        0 <= k < gate.chunks@.len() ==> c.gate_groups@[k].input == input.buffer
            && c.gate_groups@[k].qweight == gate.chunks@[k].qweight_buffer
            && c.gate_groups@[k].scales == gate.chunks@[k].scales_buffer && c.gate_groups@[k].output
            == gate.chunks@[k].output_buffer,
        0 <= k < up.chunks@.len() ==> c.up_groups@[k].input == input.buffer
            && c.up_groups@[k].qweight == up.chunks@[k].qweight_buffer && c.up_groups@[k].scales
            == up.chunks@[k].scales_buffer && c.up_groups@[k].output == up.chunks@[k].output_buffer,
        0 <= k < gate.chunks@.len() ==> c.swiglu_groups@[k].gate == gate.chunks@[k].output_buffer
            && c.swiglu_groups@[k].up == up.chunks@[k].output_buffer && c.swiglu_groups@[k].output
            == hidden.buffer && c.swiglu_groups@[k].out_features
            == gate.chunks@[k].rows.out_features,
        0 <= k < down.chunks@.len() ==> c.down_groups@[k].input == hidden.buffer
            && c.down_groups@[k].qweight == down.chunks@[k].qweight_buffer
            && c.down_groups@[k].scales == down.chunks@[k].scales_buffer && c.down_groups@[k].output
            == output.buffer,
        ({
            let kernel = q8::q8_kernel(gate.in_features);
            let last = q8::q8_kernel(down.in_features);
            let n = gate.chunks@.len();
            q8_swiglu::q8_swiglu_runs(gate, down, c) == q8_batch::chunk_runs(
                c.gate_groups@,
                gate.chunks@,
                kernel,
                n,
            ) + (q8_batch::chunk_runs(c.up_groups@, gate.chunks@, kernel, n) + (
            swiglu::gate_commands(c.swiglu_groups@, false) + q8_batch::chunk_runs(
                c.down_groups@,
                down.chunks@,
                last,
                down.chunks@.len(),
            )))
        }),
{
    let gates = q8_swiglu::q8_gates_made(
        before,
        gate.chunks@,
        up.chunks@,
        hidden.buffer,
        gate.chunks@.len(),
    );
    lemma_gates(before, gate.chunks@, up.chunks@, hidden.buffer, gate.chunks@.len());
    lemma_cached(
        gates.0,
        hidden.buffer,
        down.in_features,
        down.chunks@,
        output.buffer,
        down.chunks@.len(),
    );
    let kernel = q8::q8_kernel(gate.in_features);
    let last = q8::q8_kernel(down.in_features);
    let n = gate.chunks@.len();
    assert(q8_swiglu::q8_swiglu_runs(gate, down, c) =~= q8_batch::chunk_runs(
        c.gate_groups@,
        gate.chunks@,
        kernel,
        n,
    ) + (q8_batch::chunk_runs(c.up_groups@, gate.chunks@, kernel, n) + (swiglu::gate_commands(
        c.swiglu_groups@,
        false,
    ) + q8_batch::chunk_runs(c.down_groups@, down.chunks@, last, down.chunks@.len()))));
}

proof fn lemma_gates(
    c: ContextView,
    gate: Seq<q8::GpuQ8MatVecChunk>,
    up: Seq<q8::GpuQ8MatVecChunk>,
    output: usize,
    n: nat,
)
    ensures
        ({
            let g = q8_swiglu::q8_gates_made(c, gate, up, output, n).1;
            &&& g.len() == n
            &&& forall|k: int|
                0 <= k < n ==> (#[trigger] g[k]).gate == gate[k].output_buffer && g[k].up
                    == up[k].output_buffer && g[k].output == output && g[k].out_features
                    == gate[k].rows.out_features
        }),
    decreases n,
{
    if n > 0 {
        lemma_gates(c, gate, up, output, (n - 1) as nat);
    }
}

proof fn lemma_cached(
    c: ContextView,
    input: usize,
    width: usize,
    chunks: Seq<q8::GpuQ8MatVecChunk>,
    output: usize,
    n: nat,
)
    ensures
        ({
            let g = q8_batch::chunks_cached(c, input, width, chunks, output, n).1;
            &&& g.len() == n
            &&& forall|k: int|
                0 <= k < n ==> (#[trigger] g[k]).input == input && g[k].qweight
                    == chunks[k].qweight_buffer && g[k].scales == chunks[k].scales_buffer
                    && g[k].output == output
        }),
    decreases n,
{
    if n > 0 {
        lemma_cached(c, input, width, chunks, output, (n - 1) as nat);
    }
}

/// Law: the gated layer in eight bits on its own input runs gate, then up, then the gates, then the last
/// matrix.
pub proof fn law_own_gated_layer_runs_in_order(
    s: GpuQ8SwiGluDown,
    gate: GpuQ8MatVec,
    down: GpuQ8MatVec,
)
    ensures
        ({
            let kernel = q8::q8_kernel(gate.in_features);
            q8_swiglu::q8_swiglu_commands(s, gate, down) == q8_swiglu::chunk_passes(
                s.gate_groups@,
                gate.chunks@,
                kernel,
                s.gate_groups@.len(),
            ) + (q8_swiglu::chunk_passes(
                s.up_groups@,
                gate.chunks@,
                kernel,
                s.up_groups@.len(),
            ) + (swiglu::gate_commands(s.groups@, true) + q8::q8_chunks_commands(
                down.chunks@,
                q8::q8_kernel(down.in_features),
            )))
        }),
{
    let kernel = q8::q8_kernel(gate.in_features);
    assert(q8_swiglu::q8_swiglu_commands(s, gate, down) =~= q8_swiglu::chunk_passes(
        s.gate_groups@,
        gate.chunks@,
        kernel,
        s.gate_groups@.len(),
    ) + (q8_swiglu::chunk_passes(s.up_groups@, gate.chunks@, kernel, s.up_groups@.len()) + (
    swiglu::gate_commands(s.groups@, true) + q8::q8_chunks_commands(
        down.chunks@,
        q8::q8_kernel(down.in_features),
    ))));
}

/// Law: a token with values made for it alone has room for what is cached and for its position, and
/// its key and value are kept behind what is cached and not before the position.
pub proof fn law_room_for_one_token(cached: Option<CachedKV<'_>>, position: usize)
    requires
        position < usize::MAX,
    ensures
        attention_once::once_room(cached, position) > position,
        cached matches Some(k) ==> attention_once::once_room(cached, position) >= k.capacity_len,
        attention_once::once_room(cached, position) == position + 1 || (cached matches Some(k)
            && attention_once::once_room(cached, position) == k.capacity_len),
        attention_once::once_slot(cached, position) >= position,
        cached matches Some(k) ==> attention_once::once_slot(cached, position) >= k.seq_len,
        attention_once::once_slot(cached, position) == position || (cached matches Some(k)
            && attention_once::once_slot(cached, position) == k.seq_len),
        attention_once::prefix_len(cached) == (match cached {
            Some(k) => k.seq_len,
            None => 0,
        }),
{
}

/// Law: one token is decoded alone if and only if it is one row of the width of all heads, the query
/// projection is on the device, and just the positions before it are cached, with the heads of the
/// attention.
pub proof fn law_when_one_token_is_decoded_alone(
    a: Attention,
    dims: Seq<usize>,
    cached: Option<CachedKV<'_>>,
    position: usize,
)
    requires
        a.num_heads * a.head_dim <= usize::MAX,
    ensures
        attention_once::once_refused(a, dims, cached, position) is None <==> {
            &&& dims.len() == 2 && dims[0] == 1 && dims[1] == a.num_heads * a.head_dim
            &&& a.q_proj.q8_gpu_matvec is Some
            &&& match cached {
                Some(k) => k.seq_len == position && k.num_heads == a.num_kv_heads && k.head_dim
                    == a.head_dim,
                None => position == 0,
            }
        },
{
    let width = (a.num_heads * a.head_dim) as usize;
    if dims.len() == 2 && dims[0] == 1 && dims[1] == width {
        assert(dims =~= block_state::row(width));
    }
    if dims == block_state::row(width) {
        assert(dims.len() == 2 && dims[0] == 1 && dims[1] == width);
    }
}

/// Law: query, key and value of a token alone are found from the same value, each by its own projection
/// and each into its own.
pub proof fn law_one_token_finds_query_key_and_value(
    c: ContextView,
    a: Attention,
    s: AttentionOnce,
    v: GpuResidentBuffer,
    hidden: GpuResidentBuffer,
)
    ensures
        *attention_once::once_outputs(s, v)[0] == s.q_pre,
        *attention_once::once_outputs(s, v)[1] == s.k_pre,
        *attention_once::once_outputs(s, v)[2] == v,
        attention_once::once_outputs(s, v).len() == 3,
        ({
            let steps = attention_once::once_qkv_steps(c, a, s, v, hidden);
            &&& a.q8_qkv_batch is None ==> {
                &&& steps.len() == 3
                &&& steps[0] == attention::q8_step(a.q_proj.q8_gpu_matvec->0, hidden, s.q_pre)
                &&& steps[1] == attention::q8_step(a.k_proj.q8_gpu_matvec->0, hidden, s.k_pre)
                &&& steps[2] == attention::q8_step(a.v_proj.q8_gpu_matvec->0, hidden, v)
            }
            &&& a.q8_qkv_batch matches Some(b) ==> {
                &&& steps.len() == 1
                &&& steps[0].commands.len() >= 2
                &&& steps[0].commands[0] == (GpuCommand::Copy {
                    src: hidden.buffer,
                    dst: b.input_buffer,
                    dst_offset: 0,
                    words: b.in_features,
                })
                &&& steps[0].commands[1] is BeginPass
            }
        }),
{
}

/// Law: behind that a token alone turns query and key, keeps key and value, attends over what is kept,
/// and projects the result, each in a pass of its own and from the values of the one before.
pub proof fn law_one_token_goes_on_in_order(
    a: Attention,
    s: AttentionOnce,
    k: GpuResidentBuffer,
    v: GpuResidentBuffer,
    output: GpuResidentBuffer,
    slot: usize,
    position: usize,
)
    ensures
        ({
            let steps = attention_once::once_attend_steps(a, s, k, v, output, slot, position);
            let begin = seq![GpuCommand::BeginPass];
            &&& steps.len() == 4
            &&& steps[0].commands == begin + norm::rope_commands(
                s.qk_gpu,
                norm::rope_cache(s.qk_gpu, s.q_pre, s.k_pre, s.q, k, s.qk_gpu.position_buffer),
            )
            &&& steps[1].commands == begin + crate::gpu::attention::kv_commands(
                s.kv_gpu,
                crate::gpu::attention::kv_cache(
                    s.kv_gpu,
                    k,
                    v,
                    s.key_cache,
                    s.value_cache,
                    s.kv_gpu.position_buffer,
                ),
            )
            &&& slot >= s.kv_gpu.max_len ==> steps[1].error is Some
            &&& steps[2].commands.len() == 2 && steps[2].commands[0] is BeginPass
            &&& steps[2].commands[1] == crate::gpu::attention::attention_command(
                s.attn_gpu,
                crate::gpu::attention::attention_cache(
                    s.attn_gpu,
                    s.q,
                    s.key_cache,
                    s.value_cache,
                    s.attention,
                    s.attn_gpu.position_buffer,
                ),
                position,
            )
            &&& position >= s.attn_gpu.max_len ==> steps[2].error is Some
            &&& steps[3] == attention::q8_step(a.o_proj.q8_gpu_matvec->0, s.attention, output)
        }),
{
}

/// Law: the value that a caller brings is used, and else the one that was made.
pub proof fn law_brought_values_are_used(
    brought: &GpuResidentBuffer,
    own: Option<GpuResidentBuffer>,
)
    ensures
        attention_once::chosen(Some(brought), own) == *brought,
        own matches Some(b) ==> attention_once::chosen(None, own) == b,
{
}

/// Law: one token through a block alone is normed, goes through the attention, is added to what it was,
/// is normed, goes through the feed-forward part and is added again; each part takes the values of
/// the one before.
pub proof fn law_one_token_goes_through_a_block(
    b: TransformerBlock,
    s: BlockOnce,
    c: ContextView,
    mid: ContextView,
    after: ContextView,
    e: Seq<GpuCommand>,
    f: Seq<GpuCommand>,
    cached: Option<CachedKV<'_>>,
    position: usize,
    ran: Result<(), RsinferError>,
    fed: Result<(), RsinferError>,
    r: Result<(), RsinferError>,
)
    requires
        block_once::is_block_run(b, s, c, mid, after, e, f, cached, position, ran, fed, r),
        r is Ok,
    ensures
        ran is Ok && fed is Ok,
        attention_once::is_run_once(
            b.attention,
            c,
            mid,
            s.norm1,
            s.attn,
            cached,
            position,
            seq![
                GpuCommand::BeginPass,
                norms(
                    s.input.buffer,
                    s.gpu_input_norm.weight_buffer,
                    s.norm1.buffer,
                    s.gpu_input_norm.params_buffer,
                    s.gpu_input_norm.rows,
                ),
            ],
            e,
            ran,
        ),
        ({
            let between = e + seq![
                GpuCommand::BeginPass,
                adds(
                    s.input.buffer,
                    s.attn.buffer,
                    s.hidden.buffer,
                    s.gpu_add.params_buffer,
                    s.gpu_add.len,
                ),
            ] + seq![
                GpuCommand::BeginPass,
                norms(
                    s.hidden.buffer,
                    s.gpu_post_norm.weight_buffer,
                    s.norm2.buffer,
                    s.gpu_post_norm.params_buffer,
                    s.gpu_post_norm.rows,
                ),
            ];
            let last = seq![
                GpuCommand::BeginPass,
                adds(
                    s.hidden.buffer,
                    s.mlp.buffer,
                    s.output.buffer,
                    s.gpu_add.params_buffer,
                    s.gpu_add.len,
                ),
            ];
            exists|g: Seq<GpuCommand>| #[trigger]
                block_once::is_mlp_once(b.mlp, mid, after, between, g, s.norm2, s.mlp, fed) && f
                    == g + last
        }),
{
    assert(block_once::norm_pass(s.gpu_input_norm, s.input, s.norm1) =~= seq![
        GpuCommand::BeginPass,
        norms(
            s.input.buffer,
            s.gpu_input_norm.weight_buffer,
            s.norm1.buffer,
            s.gpu_input_norm.params_buffer,
            s.gpu_input_norm.rows,
        ),
    ]);
}

/// Law: a token is sent through a block alone if and only if it is one row and the query projection is on
/// the device.
pub proof fn law_when_a_token_is_sent_through_a_block(b: TransformerBlock, dims: Seq<usize>)
    ensures
        block_once::block_refused(b, dims) is None <==> dims.len() == 2 && dims[0] == 1
            && b.attention.q_proj.q8_gpu_matvec is Some,
{
}

/// Law: an attention decodes on a device if and only if its four projections are there and so is what it
/// keeps; a feed-forward part runs there if and only if its three layers are, and what runs them as
/// one.
pub proof fn law_when_the_parts_of_a_block_decode(a: Attention, m: Mlp)
    ensures
        attention_decode::decode_refused(a) is None <==> a.q_proj.q8_gpu_matvec is Some
            && a.k_proj.q8_gpu_matvec is Some && a.v_proj.q8_gpu_matvec is Some
            && a.o_proj.q8_gpu_matvec is Some && a.resident_runtime_state is Some,
        block_once::mlp_missing(m) is None <==> m.gate_proj.q8_gpu_matvec is Some
            && m.up_proj.q8_gpu_matvec is Some && m.down_proj.q8_gpu_matvec is Some
            && m.q8_gpu_swiglu_down is Some,
{
}

/// Law: what is kept on a device is made anew if and only if there is none, or it has less room than is
/// wanted; keys and values are refused if and only if they have other heads than the attention.
pub proof fn law_when_kept_values_serve(
    s: ResidentAttentionRuntimeState,
    wanted: usize,
    k: CachedKV<'_>,
    a: Attention,
)
    ensures
        attention_sync::stale(None, wanted),
        attention_sync::stale(Some(s), wanted) <==> s.max_len < wanted,
        attention_sync::prefix_error(None, a) is None,
        attention_sync::prefix_error(Some(k), a) is None <==> k.num_heads == a.num_kv_heads
            && k.head_dim == a.head_dim,
        attention_sync::capacity_of(Some(k)) == Some(k.capacity_len),
        attention_sync::capacity_of(None) is None,
{
}

/// Law: keys and values go to the device in this order, each to its own buffer.
pub proof fn law_keys_and_values_are_uploaded(
    c: ContextView,
    s: ResidentAttentionRuntimeState,
    cached: Option<CachedKV<'_>>,
    a: Attention,
)
    ensures
        attention_sync::uploaded(c, s, cached, a).ops == c.ops.push(
            OpView::Write {
                buffer: s.resident_key_cache.buffer,
                words: attention_sync::device_keys(cached, a, s.max_len),
            },
        ).push(
            OpView::Write {
                buffer: s.resident_value_cache.buffer,
                words: attention_sync::device_values(cached, a, s.max_len),
            },
        ),
        attention_sync::uploaded(c, s, cached, a).buffers == c.buffers,
        attention_sync::uploaded(c, s, cached, a).stats == c.stats,
{
}

} // verus!
