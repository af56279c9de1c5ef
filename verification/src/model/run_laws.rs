//! What holds of a model that runs: what is handed to a device and asked of it, and what stays of the
//! parts that ran there.

use vstd::prelude::*;
use vstd::string::*;

use crate::engine::cache;
use crate::error::{ErrorView, RsinferError};
use crate::gpu::context;
use crate::gpu::context::{ContextView, OpView};
use crate::gpu::q8;
use crate::gpu::resident;
use crate::gpu::{GpuBufferInfo, GpuCommand, GpuUsage};
use crate::model::attention;
use crate::model::attention::QkvStep;
use crate::model::attention_state::ResidentAttentionRuntimeState;
use crate::model::linear;
use crate::model::qwen3::ResidentQwen3RuntimeState;
use crate::model::qwen3_decode;
use crate::model::weights;
use crate::model::weights::{LoadedTensor, LoadedView, RawTensor};
use crate::model::{Attention, Linear};
use crate::tensor::array;
use crate::tensor::dtypes;
use crate::tensor::Tensor;

verus! {

/// Law: a weight as a tensor has the shape and the numbers that are stored, those in half precision
/// widened; it cannot be one only where it is in half precision and has not a number for each
/// place.
pub proof fn law_weight_keeps_shape_and_numbers(
    shape: Seq<usize>,
    data: Seq<u16>,
    values: Seq<u32>,
    rest: bool,
    i: int,
)
    requires
        0 <= i < data.len(),
        array::extent(shape) <= isize::MAX,
    ensures
        ({
            let v = LoadedView::F16 { shape, data };
            let t = LoadedView::Tensor { dims: shape, values, row_major: rest };
            &&& weights::shape_of(v) == shape && weights::shape_of(t) == shape
            &&& weights::numbers_of(v).len() == data.len() && weights::numbers_of(v)[i]
                == dtypes::widened(data[i])
            &&& weights::numbers_of(t) == values
            &&& weights::tensor_error(v) is None <==> array::numel(shape) == data.len()
            &&& weights::tensor_error(t) is None
            &&& weights::in_memory(v) == weights::numbers_of(v)
            &&& weights::in_memory(t) == (if rest {
                values
            } else {
                Seq::empty()
            })
        }),
{
}

/// Law: a weight is had by its name, and one that is not there is named.
pub proof fn law_missing_weight_is_named(w: Map<Seq<char>, LoadedView>, name: Seq<char>)
    ensures
        !w.contains_key(name) ==> weights::get_error(w, name) == Some(
            ErrorView::WeightError("Weight '"@ + name + "' not found"@),
        ),
        w.contains_key(name) ==> weights::get_error(w, name) == weights::tensor_error(w[name]),
{
}

/// Law: of several weights of one name the last counts, and no weight is lost to another name.
pub proof fn law_last_of_a_name_counts(s: Seq<(String, LoadedTensor)>, p: (String, LoadedTensor), name: Seq<char>)
    ensures
        weights::folded(Seq::empty()) == Map::<Seq<char>, LoadedView>::empty(),
        weights::folded(s.push(p)).contains_key(p.0@),
        weights::folded(s.push(p))[p.0@] == p.1@,
        name != p.0@ ==> (weights::folded(s.push(p)).contains_key(name) <==> weights::folded(
            s,
        ).contains_key(name)),
        name != p.0@ && weights::folded(s).contains_key(name) ==> weights::folded(s.push(p))[name]
            == weights::folded(s)[name],
{
    assert(s.push(p).drop_last() =~= s);
}

/// Law: tensors are added to weights one by one under their names, as what they are converted to;
/// the first that cannot be converted is the result.
pub proof fn law_tensors_are_added_by_name(
    w: Map<Seq<char>, LoadedView>,
    l: Seq<RawTensor>,
    n: nat,
)
    ensures
        weights::with_tensors(w, l, 0) == Ok::<Map<Seq<char>, LoadedView>, ErrorView>(w),
        weights::with_tensors(w, l, n) is Err ==> weights::with_tensors(w, l, n + 1)
            == weights::with_tensors(w, l, n),
        weights::with_tensors(w, l, n) matches Ok(m) ==> ({
            let t = l[n as int];
            match weights::converted(
                t.stored().shape,
                weights::dtype_named(t.stored().dtype),
                t.stored().data,
                t.name@,
            ) {
                Ok(v) => weights::with_tensors(w, l, n + 1) == Ok::<
                    Map<Seq<char>, LoadedView>,
                    ErrorView,
                >(m.insert(t.name@, v)),
                Err(e) => weights::with_tensors(w, l, n + 1) == Err::<
                    Map<Seq<char>, LoadedView>,
                    ErrorView,
                >(e),
            }
        }),
{
}

/// Law: a token is handed over as the first of the two values, and its position to every kernel that
/// asks for it; nothing else is written.
pub proof fn law_token_is_handed_over(
    c: ContextView,
    s: ResidentQwen3RuntimeState,
    hidden: Tensor,
    position: usize,
)
    ensures
        ({
            let d = qwen3_decode::handed_over(c, s, hidden, position);
            &&& d.ops == c.ops.push(
                OpView::Write {
                    buffer: s.resident_hidden_a.buffer,
                    words: resident::contiguous(hidden),
                },
            ).push(
                OpView::Write {
                    buffer: s.resident_position.buffer,
                    words: seq![position as u32, 0, 0, 0],
                },
            )
            &&& d.buffers == c.buffers
        }),
        hidden.row_major() ==> resident::contiguous(hidden) == hidden.values(),
        !hidden.row_major() ==> resident::contiguous(hidden).len() == 0,
{
}

/// Law: what some blocks gave is asked for from the value that the last of them wrote, all of it; the
/// cache then counts the position, or nothing is asked for where it has no room.
pub proof fn law_last_value_is_asked_for(
    s: ResidentQwen3RuntimeState,
    c: ContextView,
    after: ContextView,
    kv: cache::CacheView,
    kv_after: cache::CacheView,
    commands: Seq<GpuCommand>,
    position: usize,
    n: int,
    r: Result<usize, RsinferError>,
)
    requires
        qwen3_decode::is_asked(s, c, after, kv, kv_after, commands, position, n, r),
        c.buffers.len() < usize::MAX,
    ensures
        ({
            let k = c.ops.len() as int;
            let out = if n % 2 == 0 {
                s.resident_hidden_a
            } else {
                s.resident_hidden_b
            };
            &&& r is Ok <==> position + 1 <= kv.max_len
            &&& after.ops.len() > k && after.ops[k] == OpView::Submit(commands)
            &&& r is Err ==> kv_after == kv && after.buffers == c.buffers
            &&& r matches Ok(id) ==> {
                &&& id == c.buffers.len()
                &&& after.buffers == c.buffers.push(
                    GpuBufferInfo { words: out.len, usage: GpuUsage::Readback },
                )
                &&& after.ops.len() == k + 4
                &&& after.ops[k + 1] == OpView::Submit(
                    seq![
                        GpuCommand::Copy {
                            src: out.buffer,
                            dst: id,
                            dst_offset: 0,
                            words: out.len,
                        },
                    ],
                )
                &&& after.ops[k + 2] == OpView::MapRead(id)
                &&& kv_after.current_len == position + 1
                &&& kv_after.layers == kv.layers && kv_after.max_len == kv.max_len
            }
        }),
{
    if position + 1 <= kv.max_len {
        let sent = context::submitted(c, commands);
        let id = context::fresh(sent);
        reveal_with_fuel(context::all_map_asked, 3);
        assert(seq![id].drop_last() =~= Seq::<usize>::empty());
        assert(seq![id].last() == id);
    }
}

/// Law: the two values of a model have the width of its hidden state and are apart; they are made once
/// for a width, and a width of nothing is refused.
pub proof fn law_two_values_are_made(
    b: Option<ResidentQwen3RuntimeState>,
    c: ContextView,
    after: ContextView,
    hidden: usize,
    r: Result<(), RsinferError>,
)
    requires
        qwen3_decode::is_ready(None, b, c, after, hidden, r),
        c.buffers.len() + 3 <= usize::MAX,
    ensures
        r is Ok <==> hidden > 0,
        hidden == 0 ==> b is None && after == c,
        hidden > 0 ==> (b matches Some(s) && s.hidden_size == hidden && s.resident_hidden_a.shape@
            == seq![1usize, hidden] && s.resident_hidden_b.shape@ == seq![1usize, hidden]
            && s.resident_hidden_a.buffer == c.buffers.len() && s.resident_hidden_b.buffer
            == c.buffers.len() + 1 && s.resident_position.buffer == c.buffers.len() + 2),
{
}

/// Law: what is ready for a width is used again, and the device stays as it was.
pub proof fn law_ready_values_are_used_again(
    s: ResidentQwen3RuntimeState,
    b: Option<ResidentQwen3RuntimeState>,
    c: ContextView,
    after: ContextView,
    r: Result<(), RsinferError>,
)
    requires
        qwen3_decode::is_ready(Some(s), b, c, after, s.hidden_size, r),
    ensures
        r is Ok && b == Some(s) && after == c,
{
}

/// Law: where the three projections are on no device, query, key and value are found apart, and the
/// device stays as it was.
pub proof fn law_projections_off_the_device_run_apart(
    a: Attention,
    x: Tensor,
    from: int,
    before: ContextView,
    after: ContextView,
    r: QkvStep,
)
    requires
        attention::is_qkv_step(a, x, from, before, after, r),
        a.q_proj.gpu_matvec is None || a.k_proj.gpu_matvec is None || a.v_proj.gpu_matvec is None,
        a.q_proj.q8_gpu_matvec is None || a.k_proj.q8_gpu_matvec is None
            || a.v_proj.q8_gpu_matvec is None,
    ensures
        r is Apart,
        after == before,
{
}

/// Law: query, key and value are read in this order, each from the buffers of its own projection.
pub proof fn law_projections_are_read_in_order(
    a: Attention,
    x: Tensor,
    from: int,
    before: ContextView,
    after: ContextView,
    r: QkvStep,
)
    requires
        attention::is_qkv_step(a, x, from, before, after, r),
    ensures
        r matches QkvStep::Half(b) ==> b@ == crate::gpu::matvec::readbacks_of(
            (a.q_proj.gpu_matvec->0).chunks@,
        ) + crate::gpu::matvec::readbacks_of((a.k_proj.gpu_matvec->0).chunks@)
            + crate::gpu::matvec::readbacks_of((a.v_proj.gpu_matvec->0).chunks@),
        r matches QkvStep::Q8(b) ==> b@ == q8::q8_readbacks_of(
            (a.q_proj.q8_gpu_matvec->0).chunks@,
        ) + q8::q8_readbacks_of((a.k_proj.q8_gpu_matvec->0).chunks@) + q8::q8_readbacks_of(
            (a.v_proj.q8_gpu_matvec->0).chunks@,
        ),
        r is Half ==> from <= 1,
        r is Q8 ==> from <= 0,
{
    let m = attention::qkv_half(a);
    let two = m.drop_last();
    let one = two.drop_last();
    assert(m.last() == m[2] && two.last() == m[1] && one.last() == m[0]);
    assert(one.drop_last().len() == 0);
    reveal_with_fuel(crate::gpu::matvec::many_readbacks, 5);
    let q = attention::qkv_q8(attention::projections(a));
    let q2 = q.drop_last();
    let q1 = q2.drop_last();
    assert(q.last() == q[2] && q2.last() == q[1] && q1.last() == q[0]);
    assert(q1.drop_last().len() == 0);
    reveal_with_fuel(q8::q8_many_readbacks, 5);
    let none = Seq::<usize>::empty();
    let x1 = crate::gpu::matvec::readbacks_of((a.q_proj.gpu_matvec->0).chunks@);
    assert(none + x1 =~= x1);
    let y1 = q8::q8_readbacks_of((a.q_proj.q8_gpu_matvec->0).chunks@);
    assert(none + y1 =~= y1);
}

/// Law: decoding a token reaches its position once its key and value are kept, and changes nothing else
/// of what an attention keeps but the buffers that it prepares.
pub proof fn law_decoding_reaches_the_position(
    c: ContextView,
    a: Attention,
    s: ResidentAttentionRuntimeState,
    t: ResidentAttentionRuntimeState,
    position: usize,
    failed: int,
)
    requires
        attention::is_decoded(c, a, s, t, position, failed),
        position < usize::MAX,
    ensures
        failed > 5 ==> t.kv_gpu.current_len > position && t.kv_gpu.current_len
            >= s.kv_gpu.current_len && (t.kv_gpu.current_len == position + 1
            || t.kv_gpu.current_len == s.kv_gpu.current_len),
        failed <= 5 ==> t.kv_gpu == s.kv_gpu,
        t.resident_key_cache == s.resident_key_cache,
        t.resident_value_cache == s.resident_value_cache,
        t.resident_q == s.resident_q && t.resident_k == s.resident_k,
        t.resident_v == s.resident_v && t.resident_attention == s.resident_attention,
        t.attn_gpu == s.attn_gpu && t.qk_gpu == s.qk_gpu && t.max_len == s.max_len,
        t.synced_cache_id == s.synced_cache_id,
        t.synced_cache_revision == s.synced_cache_revision,
{
}

/// Law: a layer that gives up what it needs to run alone keeps its weights, its name and the rows of its
/// matrix.
pub proof fn law_released_layer_keeps_its_rows(l: Linear, m: Linear, keep: bool, i: int)
    requires
        linear::is_released(l, m, keep),
    ensures
        m.weight == l.weight && m.q8_weight == l.q8_weight && m.bias == l.bias,
        m.source_name == l.source_name && m.gpu_matvec == l.gpu_matvec,
        m.out_features == l.out_features && m.in_features == l.in_features,
        l.q8_gpu_matvec is None ==> m.q8_gpu_matvec is None,
        l.q8_gpu_matvec matches Some(a) ==> (m.q8_gpu_matvec matches Some(b) && b.input_buffer is None
            && b.chunks@.len() == a.chunks@.len() && (0 <= i < a.chunks@.len()
            ==> b.chunks@[i].qweight_buffer == a.chunks@[i].qweight_buffer
            && b.chunks@[i].scales_buffer == a.chunks@[i].scales_buffer && b.chunks@[i].output_buffer
            == a.chunks@[i].output_buffer && b.chunks@[i].rows == a.chunks@[i].rows
            && b.chunks@[i].input_buffer is None)),
{
}

/// Law: a layer without its weight in eight bits cannot go on a device in them, and one without its
/// weight in half precision not in that.
pub proof fn law_layers_need_their_weight(l: Linear, limit: u64)
    ensures
        l.q8_weight is None ==> linear::q8_error(l, limit) is Some,
        l.q8_weight is None && l.weight@.len() == l.out_features * l.in_features ==> linear::q8_error(
            l,
            limit,
        ) == Some("Q8 weight was not attached"@),
        l.q8_weight matches Some(w) ==> linear::q8_error(l, limit) == q8::q8_weight_error(limit, w),
        l.weight@.len() != l.out_features * l.in_features ==> linear::half_error(l, limit) == Some(
            "Linear '"@ + (match l.source_name {
                Some(s) => s@,
                None => "<unnamed>"@,
            }) + "' "@ + "has no f16 weight for GPU matvec fallback"@,
        ),
        l.weight@.len() == l.out_features * l.in_features ==> (linear::half_error(l, limit) is None
            <==> 0 < l.in_features * 4 <= limit),
{
}

} // verus!
