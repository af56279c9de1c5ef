//! What holds of a device behind a call: what was written there, what ran, and what can be read.

use vstd::prelude::*;
use vstd::string::*;

use crate::gpu::attention;
use crate::gpu::context;
use crate::gpu::context::{ContextView, OpView};
use crate::gpu::laws;
use crate::gpu::matvec;
use crate::gpu::norm;
use crate::gpu::q8;
use crate::gpu::q8::GpuQ8Binds;
use crate::gpu::q8_batch;
use crate::gpu::q8_batch::GpuQ8SameInputBatchResidentCache;
use crate::gpu::q8_swiglu;
use crate::gpu::resident;
use crate::gpu::rows;
use crate::gpu::swiglu;
use crate::gpu::{
    GpuCommand, GpuKvAppend, GpuMatVec, GpuPipeline, GpuQ8MatVec, GpuQ8MatVecChunk,
    GpuQ8SameInputBatch, GpuQ8SwiGluDown, GpuQ8SwiGluDownResidentCache, GpuResidentBuffer, GpuWrite,
};
use crate::tensor::grid;
use crate::tensor::Tensor;

verus! {

/// Whether the work from place `n` on is: some commands are submitted, each of some buffers is asked
/// for in its order, and all of that is waited for.
pub open spec fn is_read(ops: Seq<OpView>, n: int, commands: Seq<GpuCommand>, buffers: Seq<usize>)
    -> bool {
    &&& ops.len() == n + buffers.len() + 2
    &&& ops[n] == OpView::Submit(commands)
    &&& forall|i: int|
        0 <= i < buffers.len() ==> #[trigger] ops[n + 1 + i] == OpView::MapRead(buffers[i])
    &&& ops.last() == OpView::PollWait
}

/// The kernel for rows of a width in eight bits.
pub open spec fn kernel_for(width: usize) -> GpuPipeline {
    if width % 4 == 0 {
        GpuPipeline::Q8MatVecVec4
    } else {
        GpuPipeline::Q8MatVec
    }
}

/// Law: reading back leaves all that was done before, then submits, asks and waits, and makes no
/// buffer.
pub proof fn law_read_back_is_read(c: ContextView, commands: Seq<GpuCommand>, buffers: Seq<usize>)
    ensures
        ({
            let r = context::read_back(c, commands, buffers);
            let n = c.ops.len() as int;
            &&& r.ops.take(n) == c.ops
            &&& is_read(r.ops, n, commands, buffers)
            &&& r.buffers == c.buffers && r.id == c.id && r.max_chunk_bytes == c.max_chunk_bytes
        }),
{
    let s = context::submitted(c, commands);
    laws::lemma_mapped(s, buffers);
    lemma_asked_keeps(s, buffers);
    let r = context::read_back(c, commands, buffers);
    let n = c.ops.len() as int;
    assert(r.ops.take(n) =~= c.ops);
    assert forall|i: int| 0 <= i < buffers.len() implies #[trigger] r.ops[n + 1 + i]
        == OpView::MapRead(buffers[i]) by {
        assert(context::all_map_asked(s, buffers).ops[s.ops.len() + i] == OpView::MapRead(
            buffers[i],
        ));
    }
}

proof fn lemma_asked_keeps(c: ContextView, buffers: Seq<usize>)
    ensures
        ({
            let r = context::all_map_asked(c, buffers);
            r.buffers == c.buffers && r.id == c.id && r.max_chunk_bytes == c.max_chunk_bytes
        }),
    decreases buffers.len(),
{
    if buffers.len() > 0 {
        lemma_asked_keeps(c, buffers.drop_last());
    }
}

/// Law: matrices that share an input are run just when there is one for each group, the input has their
/// width, and each product can be read. The input is written first; then all of them run in one pass,
/// their products are copied out and asked for in order. Nothing is submitted otherwise.
pub proof fn law_shared_input_is_read_back(
    before: ContextView,
    after: ContextView,
    b: GpuQ8SameInputBatch,
    m: Seq<&GpuQ8MatVec>,
    words: Seq<u32>,
    r: Result<Vec<usize>, String>,
)
    requires
        q8_batch::batch_raw_result(before, after, b, m, words, r),
    ensures
        r is Ok <==> {
            &&& m.len() == b.groups@.len()
            &&& words.len() == b.in_features
            &&& forall|i: int, j: int|
                0 <= i < m.len() && 0 <= j < m[i].chunks@.len() ==> (
                #[trigger] m[i].chunks@[j]).readback_buffer is Some
        },
        after.buffers == before.buffers,
        r matches Ok(buffers) ==> {
            let n = before.ops.len() as int;
            &&& buffers@ == q8::q8_many_readbacks(m)
            &&& after.ops.take(n) == before.ops
            &&& after.ops[n] == (OpView::Write { buffer: b.input_buffer, words })
            &&& is_read(
                after.ops,
                n + 1,
                seq![GpuCommand::BeginPass] + q8_batch::batch_runs(
                    q8_batch::bind_lists(b.groups@),
                    m,
                    kernel_for(b.in_features),
                    m.len(),
                ) + q8_batch::batch_copies(m),
                buffers@,
            )
        },
        r is Err ==> (after == before <==> !(m.len() == b.groups@.len() && words.len()
            == b.in_features)),
        r is Err && after != before ==> after.ops == before.ops.push(
            OpView::Write { buffer: b.input_buffer, words },
        ),
{
    let given = context::written(before, b.input_buffer, words, GpuWrite::Uncounted);
    assert(given.ops.len() == before.ops.len() + 1);
    if let Ok(buffers) = r {
        let commands = seq![GpuCommand::BeginPass] + q8_batch::batch_runs(
            q8_batch::bind_lists(b.groups@),
            m,
            kernel_for(b.in_features),
            m.len(),
        ) + q8_batch::batch_copies(m);
        law_read_back_is_read(given, commands, buffers@);
        let n = before.ops.len() as int;
        assert(after.ops.take(n + 1)[n] == given.ops[n]);
        assert(after.ops.take(n) =~= after.ops.take(n + 1).take(n));
        assert(given.ops.take(n) =~= before.ops);
        assert forall|i: int, j: int|
            0 <= i < m.len() && 0 <= j < m[i].chunks@.len() implies (
            #[trigger] m[i].chunks@[j]).readback_buffer is Some by {
            assert(!q8_batch::unreadable(m[i].chunks@));
        }
    } else if q8_batch::any_unreadable(m) {
        let i = choose|i: int| 0 <= i < m.len() && q8_batch::unreadable((#[trigger] m[i]).chunks@);
        let j = choose|j: int|
            0 <= j < m[i].chunks@.len() && (#[trigger] m[i].chunks@[j]).readback_buffer is None;
        assert(m[i].chunks@[j].readback_buffer is None);
    }
}

/// Law: matrices that have inputs of their own are run just when the input has the width of the first
/// and each has a place for it, a way in and a way out. The input is written for each first; then they
/// run, and their products are asked for in order. No matrices ask nothing of the device.
pub proof fn law_q8_matrices_are_read_back(
    before: ContextView,
    after: ContextView,
    m: Seq<&GpuQ8MatVec>,
    words: Seq<u32>,
    r: Result<Vec<usize>, String>,
)
    requires
        q8::q8_raw_result(before, after, m, words, r),
    ensures
        m.len() == 0 ==> (r matches Ok(v) && v@.len() == 0 && after == before),
        m.len() > 0 && words.len() != m[0].in_features ==> r is Err && after == before,
        forall|i: int|
            0 <= i < m.len() && (#[trigger] m[i]).input_buffer is None ==> r is Err && after
                == before,
        r matches Ok(buffers) ==> m.len() > 0 ==> {
            let given = q8::q8_many_written(before, m, words);
            &&& buffers@ == q8::q8_many_readbacks(m)
            &&& after.ops.take(given.ops.len() as int) == given.ops
            &&& is_read(
                after.ops,
                given.ops.len() as int,
                q8::q8_many_commands(m),
                q8::q8_many_readbacks(m),
            )
        },
        r is Err ==> after == before || after == q8::q8_many_written(before, m, words),
{
    if m.len() > 0 && r is Ok {
        law_read_back_is_read(
            q8::q8_many_written(before, m, words),
            q8::q8_many_commands(m),
            q8::q8_many_readbacks(m),
        );
    }
}

/// Law: a gated layer in eight bits is run just when it suits its parts, the input has their width, and
/// each product of the last can be read. The input is written once, by the host; then the parts run,
/// and the products of the last are asked for.
pub proof fn law_gated_layer_is_read_back(
    before: ContextView,
    after: ContextView,
    s: GpuQ8SwiGluDown,
    gate: GpuQ8MatVec,
    up: GpuQ8MatVec,
    down: GpuQ8MatVec,
    words: Seq<u32>,
    r: Result<Vec<usize>, String>,
)
    requires
        q8_swiglu::q8_swiglu_raw_result(before, after, s, gate, up, down, words, r),
    ensures
        words.len() != gate.in_features ==> r is Err && after == before,
        s.context != gate.context ==> r is Err && after == before,
        after.buffers == before.buffers,
        r matches Ok(buffers) ==> {
            let n = before.ops.len() as int;
            &&& forall|i: int|
                0 <= i < down.chunks@.len() ==> (#[trigger] down.chunks@[i]).readback_buffer == Some(
                    buffers@[i],
                )
            &&& buffers@.len() == down.chunks@.len()
            &&& after.ops.take(n) == before.ops
            &&& after.ops[n] == (OpView::Write { buffer: s.shared_input_buffer, words })
            &&& is_read(
                after.ops,
                n + 1,
                q8_swiglu::q8_swiglu_commands(s, gate, down),
                buffers@,
            )
        },
        r is Err && after != before ==> after.ops == before.ops.push(
            OpView::Write { buffer: s.shared_input_buffer, words },
        ) && exists|i: int|
            0 <= i < down.chunks@.len() && ((#[trigger] down.chunks@[i]).input_buffer is None
                || down.chunks@[i].readback_buffer is None),
{
    let given = context::written(before, s.shared_input_buffer, words, GpuWrite::Host);
    crate::gpu::admission::law_what_runs_alone(down.chunks@, q8_swiglu::down_name());
    if let Ok(buffers) = r {
        law_read_back_is_read(given, q8_swiglu::q8_swiglu_commands(s, gate, down), buffers@);
        let n = before.ops.len() as int;
        assert(after.ops.take(n + 1)[n] == given.ops[n]);
        assert(after.ops.take(n) =~= after.ops.take(n + 1).take(n));
        assert(given.ops.take(n) =~= before.ops);
    }
}

/// Law: what is cached for matrices that share an input serves just as many matrices and results as it
/// has groups, and those that the groups themselves suit.
pub proof fn law_what_a_cached_batch_takes(
    b: GpuQ8SameInputBatch,
    m: Seq<&GpuQ8MatVec>,
    input: GpuResidentBuffer,
    outputs: Seq<&GpuResidentBuffer>,
    cache: GpuQ8SameInputBatchResidentCache,
)
    ensures
        m.len() != cache.groups@.len() || outputs.len() != cache.groups@.len() ==> (
        q8_batch::batch_encode_error(b, m, input, outputs, cache) matches Some(e) && e
            == "GPU Q8 shared-input resident batch cache size mismatch"@),
        q8_batch::batch_encode_error(b, m, input, outputs, cache) is None ==> {
            &&& m.len() == cache.groups@.len() && outputs.len() == cache.groups@.len()
            &&& m.len() == b.groups@.len()
            &&& b.context == input.context && input.len == b.in_features
        },
        m.len() == cache.groups@.len() && outputs.len() == cache.groups@.len() ==> (
        q8_batch::batch_encode_error(b, m, input, outputs, cache) is None
            <==> q8_batch::batch_resident_error(
            b,
            m,
            input,
            outputs,
            q8_batch::bind_lists(cache.groups@),
            q8_batch::cache_layout(),
        ) is None),
{
}

/// Law: a call costs one reading back where the device was given two lists of commands, waited for once,
/// and asked for one buffer; a quiet one costs none of that.
pub proof fn law_what_a_call_costs(a: ContextView, b: ContextView)
    requires
        a.stats.submits + 2 <= u64::MAX,
        a.stats.poll_waits < u64::MAX,
        a.stats.map_reads < u64::MAX,
    ensures
        context::costs_one_readback(a, b) <==> b.stats.submits == a.stats.submits + 2
            && b.stats.poll_waits == a.stats.poll_waits + 1 && b.stats.map_reads
            == a.stats.map_reads + 1,
        context::quiet(a, b) <==> b.stats.submits == a.stats.submits && b.stats.poll_waits
            == a.stats.poll_waits && b.stats.map_reads == a.stats.map_reads,
{
}

/// Law: values are all on a device when each one of them is.
pub proof fn law_values_share_a_device(id: u64, b: Seq<&GpuResidentBuffer>, one: &GpuResidentBuffer)
    ensures
        resident::all_on(id, Seq::empty()),
        resident::all_on(id, b.push(one)) <==> resident::all_on(id, b) && one.context == id,
{
    let c = b.push(one);
    if resident::all_on(id, c) {
        assert(c[b.len() as int].context == id);
        assert forall|i: int| 0 <= i < b.len() implies (#[trigger] b[i]).context == id by {
            assert(c[i].context == id);
        }
    }
}

/// Law: the products of a matrix are one row, part behind part.
pub proof fn law_products_make_a_row(m: GpuMatVec, parts: Seq<Seq<u32>>, t: Tensor)
    requires
        matvec::is_output(m, parts, t),
    ensures
        t.dims() == seq![1usize, m.out_features],
        t.values() == rows::concat(parts),
{
}

/// Law: of what is kept for each head only the positions in use count, in their order.
pub proof fn law_positions_in_use_are_read(k: GpuKvAppend, raw: Seq<u32>, h: int, p: int, x: int)
    requires
        0 <= h < k.num_heads,
        0 <= p < k.current_len,
        0 <= x < k.head_dim,
    ensures
        ({
            let dim = k.head_dim as int;
            let u = attention::kv_in_use(k, raw);
            &&& u.len() == k.num_heads * (k.current_len * dim)
            &&& u[h * (k.current_len * dim) + (p * dim + x)] == raw[h * (k.max_len * dim) + (p * dim
                + x)]
        }),
{
    let dim = k.head_dim as int;
    let len = k.current_len as int;
    let col = p * dim + x;
    assert(0 <= col < len * dim) by (nonlinear_arith)
        requires
            0 <= p < len,
            0 <= x < dim,
            col == p * dim + x,
    ;
    grid::lemma_cell_range(k.num_heads as int, len * dim, h, col);
}

/// Law: what shares an input writes to results of its own when each matrix has the widths of its place,
/// each of its chunks a group, and each result just its rows, all on one device.
pub proof fn law_what_results_a_batch_takes(
    b: GpuQ8SameInputBatch,
    m: Seq<&GpuQ8MatVec>,
    outputs: Seq<&GpuResidentBuffer>,
    groups: Seq<Seq<GpuQ8Binds>>,
    layout: Seq<char>,
    i: int,
)
    requires
        0 <= i <= m.len(),
    ensures
        q8_batch::batch_outputs_error(b, m, outputs, groups, layout, i) is None <==> forall|j: int|
            i <= j < m.len() ==> {
                &&& (#[trigger] m[j]).in_features == b.in_features
                &&& m[j].out_features == b.out_features@[j]
                &&& m[j].context == b.context && outputs[j].context == b.context
                &&& m[j].chunks@.len() == groups[j].len()
                &&& outputs[j].len == m[j].out_features
            },
    decreases m.len() - i,
{
    if i < m.len() {
        law_what_results_a_batch_takes(b, m, outputs, groups, layout, i + 1);
        let one = m[i];
        if q8_batch::batch_outputs_error(b, m, outputs, groups, layout, i) is None {
            assert forall|j: int| i <= j < m.len() implies {
                &&& (#[trigger] m[j]).in_features == b.in_features
                &&& m[j].out_features == b.out_features@[j]
                &&& m[j].context == b.context && outputs[j].context == b.context
                &&& m[j].chunks@.len() == groups[j].len()
                &&& outputs[j].len == m[j].out_features
            } by {
                if j > i {
                    assert(m[j].in_features == b.in_features);
                }
            }
        }
    }
}

/// Law: what is cached for a gated layer serves it when there is a group for each chunk, the values have
/// the widths of its ends, and all is on one device.
pub proof fn law_what_a_cached_gated_layer_takes(
    s: GpuQ8SwiGluDown,
    x: GpuQ8MatVec,
    y: GpuQ8MatVec,
    z: GpuQ8MatVec,
    input: GpuResidentBuffer,
    output: GpuResidentBuffer,
    c: GpuQ8SwiGluDownResidentCache,
)
    ensures
        q8_swiglu::q8_swiglu_encode_error(s, x, y, z, input, output, c) is None <==> {
            &&& q8_swiglu::q8_swiglu_error(x, y, z) is None
            &&& c.gate_groups@.len() == x.chunks@.len() && c.up_groups@.len() == y.chunks@.len()
            &&& c.swiglu_groups@.len() == x.chunks@.len()
            &&& c.down_groups@.len() == z.chunks@.len()
            &&& s.context == x.context && s.context == input.context && s.context
                == output.context
            &&& input.len == x.in_features && output.len == z.out_features
        },
{
}

/// Law: a gated layer that goes through a value in the middle writes one pass: both products of the
/// input, then what is gated, into the middle, then the product of that. A refused one writes nothing
/// and makes nothing.
pub proof fn law_gated_layer_is_written_in_one_pass(
    before: ContextView,
    after: ContextView,
    e0: Seq<GpuCommand>,
    e1: Seq<GpuCommand>,
    s: GpuQ8SwiGluDown,
    x: GpuQ8MatVec,
    y: GpuQ8MatVec,
    z: GpuQ8MatVec,
    input: GpuResidentBuffer,
    hidden: GpuResidentBuffer,
    output: GpuResidentBuffer,
    r: Result<(), String>,
)
    requires
        q8_swiglu::q8_swiglu_hidden_result(
            before,
            after,
            e0,
            e1,
            s,
            x,
            y,
            z,
            input,
            hidden,
            output,
            r,
        ),
    ensures
        r is Ok <==> q8_swiglu::q8_swiglu_hidden_error(s, x, y, z, input, hidden, output) is None,
        r is Err ==> e1 == e0 && after == before,
        r is Ok ==> {
            let n = x.chunks@.len();
            let mid = q8_swiglu::q8_gates_made(before, x.chunks@, y.chunks@, hidden.buffer, n);
            let last = q8_batch::chunks_cached(
                mid.0,
                hidden.buffer,
                z.in_features,
                z.chunks@,
                output.buffer,
                z.chunks@.len(),
            );
            &&& after == last.0
            &&& e1 == e0 + seq![GpuCommand::BeginPass] + q8_batch::chunk_runs(
                q8::q8_all_binds(x.chunks@, input.buffer),
                x.chunks@,
                kernel_for(x.in_features),
                n,
            ) + q8_batch::chunk_runs(
                q8::q8_all_binds(y.chunks@, input.buffer),
                x.chunks@,
                kernel_for(x.in_features),
                n,
            ) + swiglu::gate_commands(mid.1, false) + q8_batch::chunk_runs(
                last.1,
                z.chunks@,
                kernel_for(z.in_features),
                z.chunks@.len(),
            )
        },
{
}

/// Law: a side that is normed and turned has its buffers one behind the other: what comes in, the
/// weight, the result, the way out, and the parameters.
pub proof fn law_side_has_its_own_buffers(s: norm::GpuRopeSide, first: nat, shape: Seq<usize>)
    requires
        norm::is_side(s, first, shape),
    ensures
        s.input_buffer == first,
        s.weight_buffer == first + 1,
        s.output_buffer == first + 2,
        s.readback_buffer == first + 3,
        s.params_buffer == first + 4,
        s.shape@ == shape,
{
}

/// Law: the results of finding the greatest fit when no chunk has more than the device can hold.
pub proof fn law_greatest_results_fit(chunks: Seq<GpuQ8MatVecChunk>, c: GpuQ8MatVecChunk)
    ensures
        q8::results_fit(Seq::empty()),
        q8::results_fit(chunks.push(c)) <==> q8::results_fit(chunks) && c.argmax_results
            <= 67_108_864,
{
    let d = chunks.push(c);
    if q8::results_fit(d) {
        assert(d[chunks.len() as int].argmax_results <= 67_108_864);
        assert forall|i: int| 0 <= i < chunks.len() implies (#[trigger] chunks[i]).argmax_results
            <= 0x0400_0000 by {
            assert(d[i].argmax_results <= 0x0400_0000);
        }
    }
}

} // verus!
