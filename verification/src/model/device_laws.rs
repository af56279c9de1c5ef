//! What holds of the parts of a model before they run on a device: when they can, what they hold there,
//! and what they were told.

use vstd::prelude::*;
use vstd::string::*;

use crate::gpu::attention as gpu_attention;
use crate::gpu::chain;
use crate::gpu::context::{ContextView, OpView};
use crate::gpu::norm;
use crate::gpu::q8::GpuQ8Binds;
use crate::gpu::q8_batch;
use crate::gpu::q8_swiglu;
use crate::gpu::resident;
use crate::gpu::{
    GpuCommand, GpuKvAppend, GpuQ8MatVec, GpuQ8SameInputBatch, GpuQ8SwiGluDownResidentCache,
    GpuQkRmsNormRopeConfig, GpuResidentBuffer, GpuRmsNorm,
};
use crate::engine::CachedKV;
use crate::error::RsinferError;
use crate::model::attach_laws;
use crate::model::attention;
use crate::model::attention_once;
use crate::model::attention_once::AttentionOnce;
use crate::model::attention_state;
use crate::model::attention_state::{AttentionShape, ResidentAttentionRuntimeState};
use crate::model::attention_sync;
use crate::model::block;
use crate::model::block_once;
use crate::model::block_state;
use crate::model::block_state::ResidentTransformerBlockRuntimeState;
use crate::model::group;
use crate::model::linear;
use crate::model::loading;
use crate::model::mlp;
use crate::model::weights;
use crate::model::weights::LoadedView;
use crate::model::{Attention, Linear, Mlp, RmsNorm};
use crate::tensor::{Q8LinearWeight, Tensor};

verus! {

/// Law: a layer goes on a device in half precision just when its weight fits there, and keeps all else;
/// one that cannot stays as it is, with the device as it was.
pub proof fn law_layer_goes_on_a_device_whole(
    before: ContextView,
    after: ContextView,
    l: Linear,
    m: Linear,
    r: Result<(), String>,
)
    requires
        linear::half_enabled(before, after, l, m, r),
    ensures
        r is Ok <==> linear::half_error(l, before.max_chunk_bytes) is None,
        r is Err ==> m == l && after == before,
        m.weight == l.weight && m.q8_weight == l.q8_weight && m.bias == l.bias,
        m.out_features == l.out_features && m.in_features == l.in_features,
        m.source_name == l.source_name && m.q8_gpu_matvec == l.q8_gpu_matvec,
        r is Ok ==> (m.gpu_matvec matches Some(x) && linear::half_made(before, after, l, x)),
{
}

/// Law: a layer that is loaded has the rows, the width and the numbers of the weight of its name, and
/// nothing on a device yet.
pub proof fn law_loaded_layer_is_its_weight(
    w: Map<Seq<char>, LoadedView>,
    name: Seq<char>,
    bias: Option<Tensor>,
    l: Linear,
)
    requires
        linear::is_loaded(w, name, bias, l),
    ensures
        weights::linear_weight(w, name) matches Ok(p) && p.0[0] == l.out_features && p.0[1]
            == l.in_features && p.1 == l.weight@,
        l.bias == bias,
        l.source_name matches Some(s) && s@ == name,
        l.gpu_matvec is None && l.q8_gpu_matvec is None && l.q8_weight is None,
{
}

/// Law: a layer in eight bits alone has the rows and the width of its weight, and no other weight.
pub proof fn law_q8_layer_is_its_weight(
    name: Seq<char>,
    w: Q8LinearWeight,
    bias: Option<Tensor>,
    l: Linear,
)
    requires
        linear::is_q8_only(name, w, bias, l),
    ensures
        l.q8_weight == Some(w) && l.weight@.len() == 0,
        l.out_features == w.out_features && l.in_features == w.in_features,
        l.bias == bias,
        l.source_name matches Some(s) && s@ == name,
        l.gpu_matvec is None && l.q8_gpu_matvec is None,
{
}

/// Law: decoding makes something on a device only where the projections share an input, it was not made
/// before, and a step came to it; what it makes then are the groups of the three projections.
pub proof fn law_decoding_makes_its_groups_once(
    c: ContextView,
    a: Attention,
    s: ResidentAttentionRuntimeState,
    failed: int,
)
    ensures
        a.q8_qkv_batch is None ==> attention::decode_after(c, a, s, failed) == c,
        s.qkv_batch_cache is Some ==> attention::decode_after(c, a, s, failed) == c,
        failed <= 0 ==> attention::decode_after(c, a, s, failed) == c,
        s.qkv_batch_cache is None && failed > 0 ==> (a.q8_qkv_batch matches Some(b)
            ==> attention::decode_after(c, a, s, failed) == q8_batch::batch_cached(
            c,
            b,
            attention::qkv_q8(attention::projections(a)),
            attention::qkv_outputs(s),
            3,
        ).0),
{
}

/// Law: a token alone makes the groups of its projections only where they share an input and a step came
/// to them; it then tells where key and value go, and where the token stands, each just when the steps
/// before it went well.
pub proof fn law_one_token_tells_its_places(
    c: ContextView,
    a: Attention,
    s: AttentionOnce,
    v: GpuResidentBuffer,
    slot: usize,
    position: usize,
    failed: int,
)
    ensures
        a.q8_qkv_batch is None || failed <= 0 ==> attention_once::once_found(c, a, s, v, failed)
            == c,
        a.q8_qkv_batch is Some && failed > 0 ==> attention_once::once_found(c, a, s, v, failed)
            == attention_once::once_cached(c, a, s, v).0,
        ({
            let d = attention_once::once_attended(c, s, slot, position, failed);
            let first = OpView::Write {
                buffer: s.kv_gpu.position_buffer,
                words: seq![slot as u32, 0, 0, 0],
            };
            let second = OpView::Write {
                buffer: s.attn_gpu.position_buffer,
                words: seq![position as u32, 0, 0, 0],
            };
            &&& d.buffers == c.buffers
            &&& failed <= 1 ==> d == c
            &&& failed == 2 ==> d.ops == c.ops.push(first)
            &&& failed > 2 ==> d.ops == c.ops.push(first).push(second)
        }),
{
}

/// Law: an attention has just the shape of its own heads, weights and frequencies.
pub proof fn law_attention_has_its_own_shape(a: Attention, s: AttentionShape<'_>)
    ensures
        a.has_shape(s) <==> {
            &&& s.num_heads == a.num_heads && s.num_kv_heads == a.num_kv_heads
            &&& s.head_dim == a.head_dim && s.scale == a.scale
            &&& *s.q_weight == a.q_norm.weight && s.q_eps == a.q_norm.eps
            &&& *s.k_weight == a.k_norm.weight && s.k_eps == a.k_norm.eps
            &&& s.inv_freq@ == a.rope_inv_freq@
        },
{
}

/// Law: what turns queries and keys is set up with their weights, their shapes, and the first position.
pub proof fn law_turning_is_set_up(f: GpuQkRmsNormRopeConfig<'_>, a: AttentionShape<'_>)
    ensures
        attention_state::is_rope_config(f, a) <==> {
            &&& f.q_weight == a.q_weight && f.q_eps == a.q_eps
            &&& f.k_weight == a.k_weight && f.k_eps == a.k_eps
            &&& f.q_shape@ == seq![1usize, a.num_heads, a.head_dim]
            &&& f.k_shape@ == seq![1usize, a.num_kv_heads, a.head_dim]
            &&& f.inv_freq@ == a.inv_freq@ && f.pos == 0
        },
{
}

/// Law: an attention can be kept on a device, or run there once, just when it has heads, of some width,
/// the turning and the attention take them, and there is room for a position.
pub proof fn law_when_an_attention_can_be_kept(
    c: ContextView,
    a: AttentionShape<'_>,
    max_len: usize,
    position: usize,
    own_k: bool,
    own_v: bool,
    keys: Seq<u32>,
    values: Seq<u32>,
)
    ensures
        ({
            let fits = a.num_heads > 0 && a.num_kv_heads > 0 && a.head_dim > 0
                && attention_state::turn_error(a) is None && gpu_attention::attention_error(
                attention_state::kernel_config(a, max_len),
            ) is None;
            &&& attention_state::state_error(c, a, max_len) is None <==> fits && max_len > 0
            &&& attention_once::once_error(
                c,
                a,
                max_len,
                position,
                own_k,
                own_v,
                keys,
                values,
            ) is None <==> fits
            &&& a.num_heads == 0 || a.head_dim == 0 ==> (attention_once::once_error(
                c,
                a,
                max_len,
                position,
                own_k,
                own_v,
                keys,
                values,
            ) matches Some(p) && p.1 == c)
            &&& a.num_kv_heads == 0 || a.head_dim == 0 || max_len == 0 ==> (
            attention_state::state_error(c, a, max_len) matches Some(p) && p.1 == c)
        }),
{
    reveal(attention_once::once_error);
}

/// Law: what keeps keys and values for one token has the heads and the width of the keys, the room, and
/// counts what was kept before; its buffers stand one behind the other.
pub proof fn law_one_token_keeps_its_keys(
    c: ContextView,
    a: AttentionShape<'_>,
    max_len: usize,
    position: usize,
    k: GpuKvAppend,
)
    requires
        attention_once::is_keeper(c, a, max_len, position, k),
    ensures
        k.context == c.id,
        k.num_heads == a.num_kv_heads && k.head_dim == a.head_dim,
        k.max_len == max_len && k.current_len == position,
        k.key_input_buffer == c.buffers.len(),
        k.value_input_buffer == c.buffers.len() + 1,
        k.params_buffer == c.buffers.len() + 2,
        k.position_buffer == c.buffers.len() + 3,
        k.standalone matches Some(s) && s.key_cache == c.buffers.len() + 4 && s.value_cache
            == c.buffers.len() + 5 && s.key_readback == c.buffers.len() + 6 && s.value_readback
            == c.buffers.len() + 7,
        attention_once::keeper_made(c, a, max_len, position) == gpu_attention::kv_made(
            attention_once::turn_made_at(c, a, position),
            k.num_heads,
            k.head_dim,
            k.max_len,
            false,
        ),
{
}

/// Law: a token alone that went well through an attention of its own shape has all of its steps written
/// behind what was there; one that cannot be taken writes nothing.
pub proof fn law_one_token_is_written_whole(
    a: Attention,
    shape: AttentionShape<'_>,
    s: AttentionOnce,
    c: ContextView,
    after: ContextView,
    e: Seq<GpuCommand>,
    f: Seq<GpuCommand>,
    hidden: GpuResidentBuffer,
    output: GpuResidentBuffer,
    cached: Option<CachedKV<'_>>,
    position: usize,
    r: Result<(), RsinferError>,
)
    requires
        attention_once::is_encoded_once(
            a,
            shape,
            s,
            c,
            after,
            e,
            f,
            hidden,
            output,
            cached,
            position,
            None,
            None,
            r,
        ),
    ensures
        a.has_shape(shape),
        a.num_heads == 0 || a.head_dim == 0 ==> r is Err && f == e && after == c,
        r is Ok ==> {
            let room = attention_once::once_room(cached, position);
            let slot = attention_once::once_slot(cached, position);
            let keys = attention_sync::device_keys(cached, a, room);
            let values = attention_sync::device_values(cached, a, room);
            let made = attention_once::once_made(
                c,
                shape,
                room,
                position,
                true,
                true,
                keys,
                values,
            );
            let k = attention_once::chosen(None, s.own_k);
            let v = attention_once::chosen(None, s.own_v);
            let steps = attention_once::once_qkv_steps(made, a, s, v, hidden)
                + attention_once::once_attend_steps(a, s, k, v, output, slot, position);
            &&& attention_once::is_once(c, shape, room, position, true, true, keys, values, s)
            &&& chain::encoded(steps, 0, e) == (None::<Seq<char>>, f)
        },
{
    reveal(attention_once::once_error);
}

/// Law: a gated layer runs for one token just when its three parts and what fuses them are on the device
/// and take the values; a missing part writes nothing.
pub proof fn law_one_token_is_gated(
    m: Mlp,
    c: ContextView,
    after: ContextView,
    e: Seq<GpuCommand>,
    f: Seq<GpuCommand>,
    input: GpuResidentBuffer,
    hidden: GpuResidentBuffer,
    output: GpuResidentBuffer,
    r: Result<(), RsinferError>,
)
    requires
        block_once::is_mlp_hidden(m, c, after, e, f, input, hidden, output, r),
    ensures
        m.gate_proj.q8_gpu_matvec is None || m.up_proj.q8_gpu_matvec is None
            || m.down_proj.q8_gpu_matvec is None || m.q8_gpu_swiglu_down is None ==> r is Err && f
            == e && after == c,
        r is Err ==> f == e && after == c,
        m.gate_proj.q8_gpu_matvec matches Some(x) ==> (m.up_proj.q8_gpu_matvec matches Some(y) ==> (
        m.down_proj.q8_gpu_matvec matches Some(z) ==> (m.q8_gpu_swiglu_down matches Some(s)
            ==> exists|q: Result<(), String>|
            (q is Ok <==> r is Ok) && #[trigger] q8_swiglu::q8_swiglu_hidden_result(
                c,
                after,
                e,
                f,
                s,
                x,
                y,
                z,
                input,
                hidden,
                output,
                q,
            )))),
{
}

/// Law: the fused part of a layer needs its three parts and what fuses them on the device, and what is
/// cached for the values that it runs on.
pub proof fn law_when_a_fused_part_is_written(
    m: Mlp,
    input: GpuResidentBuffer,
    output: GpuResidentBuffer,
    k: &GpuQ8SwiGluDownResidentCache,
)
    ensures
        mlp::encode_error(m, input, output, None) is Some,
        mlp::encode_error(m, input, output, Some(k)) is None <==> {
            &&& m.gate_proj.q8_gpu_matvec is Some && m.up_proj.q8_gpu_matvec is Some
            &&& m.down_proj.q8_gpu_matvec is Some && m.q8_gpu_swiglu_down is Some
            &&& q8_swiglu::q8_swiglu_encode_error(
                m.q8_gpu_swiglu_down->0,
                m.gate_proj.q8_gpu_matvec->0,
                m.up_proj.q8_gpu_matvec->0,
                m.down_proj.q8_gpu_matvec->0,
                input,
                output,
                *k,
            ) is None
        },
{
}

/// Law: three parts in eight bits can be fused just when they fit each other and the last has an input of
/// its own.
pub proof fn law_when_parts_are_fused(ls: Seq<Linear>, x: GpuQ8MatVec, y: GpuQ8MatVec, z: GpuQ8MatVec)
    requires
        ls.len() == 3,
        ls[0].q8_gpu_matvec == Some(x),
        ls[1].q8_gpu_matvec == Some(y),
        ls[2].q8_gpu_matvec == Some(z),
    ensures
        mlp::q8_fuse_error(ls) is None <==> q8_swiglu::q8_swiglu_error(x, y, z) is None
            && z.input_buffer is Some,
{
}

/// Law: the three projections share an input through what is cached for them just when it has a group
/// for each of them and each of their results, and these fit.
pub proof fn law_when_projections_share_their_input(
    b: GpuQ8SameInputBatch,
    m: Seq<&GpuQ8MatVec>,
    hidden: GpuResidentBuffer,
    outputs: Seq<&GpuResidentBuffer>,
    groups: Seq<Seq<GpuQ8Binds>>,
)
    ensures
        attention::qkv_error(b, m, hidden, outputs, groups) is None ==> m.len() == groups.len()
            && outputs.len() == groups.len() && m.len() == b.groups@.len() && hidden.len
            == b.in_features && hidden.context == b.context,
        m.len() == groups.len() && outputs.len() == groups.len() ==> (attention::qkv_error(
            b,
            m,
            hidden,
            outputs,
            groups,
        ) is None <==> q8_batch::batch_resident_error(
            b,
            m,
            hidden,
            outputs,
            groups,
            q8_batch::cache_layout(),
        ) is None),
{
}

/// Law: a block can be made ready on a device just when its norms have its width, it has a width, and so
/// has its gated layer, which takes its values where it is fused.
pub proof fn law_when_a_block_can_be_made_ready(
    c: ContextView,
    first: RmsNorm,
    second: RmsNorm,
    m: Mlp,
    hidden: usize,
)
    ensures
        block_state::block_state_error(c, first, second, m, hidden) is None <==> {
            &&& norm::norm_error(first.weight, seq![1usize, hidden]) is None
            &&& norm::norm_error(second.weight, seq![1usize, hidden]) is None
            &&& hidden > 0 && m.gate_proj.out_features > 0
            &&& block_state::mlp_cache_error(
                block_state::kernels_made(c, first, second, hidden, 3),
                m,
                hidden,
            ) is None
        },
        norm::norm_error(first.weight, seq![1usize, hidden]) is Some ==> (
        block_state::block_state_error(c, first, second, m, hidden) matches Some(p) && p.1 == c),
        m.q8_gpu_swiglu_down is None ==> block_state::mlp_cache_error(c, m, hidden) is None,
        m.gate_proj.q8_gpu_matvec is None || m.up_proj.q8_gpu_matvec is None
            || m.down_proj.q8_gpu_matvec is None ==> block_state::mlp_cache_error(c, m, hidden) is None,
        block_state::mlp_cache_error(c, m, hidden) is None && m.q8_gpu_swiglu_down is Some
            && m.gate_proj.q8_gpu_matvec is Some && m.up_proj.q8_gpu_matvec is Some
            && m.down_proj.q8_gpu_matvec is Some ==> q8_swiglu::q8_swiglu_error(
            m.gate_proj.q8_gpu_matvec->0,
            m.up_proj.q8_gpu_matvec->0,
            m.down_proj.q8_gpu_matvec->0,
        ) is None,
{
    let ls = mlp::mlp_parts(m);
    assert(ls[0] == m.gate_proj && ls[1] == m.up_proj && ls[2] == m.down_proj);
}

/// Law: a norm of a block has its shape and its buffers one behind the other: what comes in, the weight,
/// the result, the way out, and the parameters.
pub proof fn law_norm_has_its_own_buffers(c: ContextView, n: GpuRmsNorm, hidden: usize)
    requires
        block_state::is_norm(c, n, hidden),
    ensures
        n.context == c.id,
        n.shape@ == seq![1usize, hidden],
        n.input_buffer == c.buffers.len(),
        n.weight_buffer == c.buffers.len() + 1,
        n.output_buffer == c.buffers.len() + 2,
        n.readback_buffer == c.buffers.len() + 3,
        n.params_buffer == c.buffers.len() + 4,
{
}

/// Law: a block takes an input and an output just when its first norm takes the input, its first sum the
/// input and the attention, and its second sum what the gated layer gave and the output.
pub proof fn law_when_a_block_takes_its_ends(
    s: ResidentTransformerBlockRuntimeState,
    input: GpuResidentBuffer,
    output: GpuResidentBuffer,
)
    ensures
        block_state::io_error(s, input, output) is None <==> {
            &&& norm::norm_cache_error(s.gpu_input_norm, input, s.resident_norm1) is None
            &&& resident::residual_cache_error(
                s.gpu_add,
                input,
                s.resident_attn,
                s.resident_hidden,
            ) is None
            &&& resident::residual_cache_error(
                s.gpu_add,
                s.resident_hidden,
                s.resident_mlp_output,
                output,
            ) is None
        },
{
}

/// Law: parts that are put on a device together are put there one by one, each behind those before it.
pub proof fn law_parts_are_put_one_by_one(
    c: ContextView,
    ls: Seq<Linear>,
    ms: Seq<Linear>,
    q8: bool,
    i: int,
)
    requires
        group::group_became(c, ls, ms, q8),
        0 <= i < ls.len(),
    ensures
        ms.len() == ls.len(),
        group::part_became(group::group_after(c, ls, q8, i as nat), ls[i], ms[i], q8),
        ms[i].weight == ls[i].weight && ms[i].bias == ls[i].bias && ms[i].q8_weight == ls[i].q8_weight,
{
    attach_laws::law_attached_layer_holds_its_weight(
        group::group_after(c, ls, q8, i as nat),
        ls[i],
        ms[i],
        q8,
    );
}

/// Law: of an attention its four projections are put on a device and counted, and the errors are theirs,
/// under its name; those in half precision are put there and nothing else.
pub proof fn law_projections_are_put_on_a_device(
    c: ContextView,
    after: ContextView,
    a: Attention,
    b: Attention,
    q8: bool,
    n: nat,
    errors: Seq<Seq<char>>,
)
    requires
        block::attention_enabled(c, after, a, b, q8, n, errors),
    ensures
        ({
            let ls = seq![a.q_proj, a.k_proj, a.v_proj, a.o_proj];
            let told = group::group_errors(
                c,
                ls,
                "attention."@,
                attention::projection_names(),
                q8,
                4,
            );
            &&& n == group::group_count(c, ls, q8, 4)
            &&& !q8 ==> errors == told && after == group::group_after(c, ls, false, 4)
            &&& !q8 ==> group::group_became(
                c,
                ls,
                seq![b.q_proj, b.k_proj, b.v_proj, b.o_proj],
                false,
            )
            &&& !q8 ==> b.q_norm == a.q_norm && b.k_norm == a.k_norm && b.num_heads == a.num_heads
            &&& q8 ==> exists|mid: Seq<Linear>| #[trigger]
                group::group_became(c, ls, mid, true) && attention::batched(
                    group::group_after(c, ls, true, 4),
                    after,
                    a,
                    mid,
                    b,
                    told,
                    errors,
                )
        }),
{
    assert(attention::projections(a) =~= seq![a.q_proj, a.k_proj, a.v_proj, a.o_proj]);
    assert(attention::projections(b) =~= seq![b.q_proj, b.k_proj, b.v_proj, b.o_proj]);
}

/// Law: of a gated layer its three parts are put on a device and counted, and then fused, in eight bits or
/// in half precision as they are.
pub proof fn law_gated_parts_are_put_on_a_device(
    c: ContextView,
    after: ContextView,
    a: Mlp,
    b: Mlp,
    q8: bool,
    n: nat,
    errors: Seq<Seq<char>>,
)
    requires
        block::mlp_enabled(c, after, a, b, q8, n, errors),
    ensures
        ({
            let ls = seq![a.gate_proj, a.up_proj, a.down_proj];
            let told = group::group_errors(c, ls, "mlp."@, mlp::mlp_names(), q8, 3);
            let behind = group::group_after(c, ls, q8, 3);
            &&& n == group::group_count(c, ls, q8, 3)
            &&& q8 ==> exists|mid: Seq<Linear>| #[trigger]
                group::group_became(c, ls, mid, true) && mlp::q8_fused(
                    behind,
                    after,
                    a,
                    mid,
                    b,
                    told,
                    errors,
                )
            &&& !q8 ==> exists|mid: Seq<Linear>| #[trigger]
                group::group_became(c, ls, mid, false) && mlp::fused(
                    behind,
                    after,
                    a,
                    mid,
                    b,
                    told,
                    errors,
                )
        }),
{
    assert(mlp::mlp_parts(a) =~= seq![a.gate_proj, a.up_proj, a.down_proj]);
}

/// Law: an attention keeps the room that it has on a device as long as that is enough; else new room is
/// made, of its own shape and with what is wanted.
pub proof fn law_room_is_made_when_it_is_wanted(
    a: Attention,
    c: ContextView,
    kept: Option<ResidentAttentionRuntimeState>,
    wanted: usize,
    position_buffer: usize,
    after: ContextView,
    s: ResidentAttentionRuntimeState,
)
    requires
        attention_sync::is_roomed(a, c, kept, wanted, position_buffer, after, s),
    ensures
        kept matches Some(k) ==> k.max_len >= wanted ==> s == k && after == c,
        kept is None || (kept->0).max_len < wanted ==> exists|shape: AttentionShape<'_>|
            #[trigger] a.has_shape(shape) && attention_state::is_state(
                c,
                shape,
                wanted,
                position_buffer,
                s,
            ) && after == attention_state::state_made(c, shape, wanted),
{
}

/// Law: a model whose weights are all read goes on to the device where there is one, and is done else.
pub proof fn law_device_comes_behind_the_weights(b: loading::BuildView)
    ensures
        b.device ==> loading::weights_done(b) is AttachDevice,
        !b.device ==> loading::weights_done(b) is Finish,
{
}

} // verus!
