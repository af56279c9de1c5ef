//! What holds of the work for a device: what its buffers are filled with, which kernels run on which
//! of them, and what is copied where.

use vstd::prelude::*;

use crate::gpu::attention;
use crate::gpu::attention::GpuKvStandalone;
use crate::gpu::context;
use crate::gpu::context::{ContextView, OpView};
use crate::gpu::matvec;
use crate::gpu::norm;
use crate::gpu::pack;
use crate::gpu::q8;
use crate::gpu::q8::GpuQ8Binds;
use crate::gpu::q8_batch;
use crate::gpu::q8_swiglu;
use crate::gpu::resident;
use crate::gpu::rows;
use crate::gpu::swiglu;
use crate::gpu::{
    GpuBindGroup, GpuBufferInfo, GpuCommand, GpuContext, GpuDecodeGqaAttention,
    GpuDecodeGqaAttentionConfig, GpuDispatch, GpuKvAppend, GpuMatVec, GpuMatVecChunk, GpuPipeline,
    GpuQ8MatVec, GpuQ8MatVecChunk, GpuQ8SameInputBatch, GpuQkRmsNormRope, GpuQkRmsNormRopeConfig,
    GpuResidentBuffer, GpuResidualAdd, GpuRmsNorm, GpuRows, GpuSwiGluDown, GpuUsage, GpuWrite,
};
use crate::tensor::array;
use crate::tensor::dtypes;
use crate::tensor::Q8LinearWeight;

verus! {

/// Law: a kernel reads what it is given, writes its result behind that, and has its parameters at
/// the end; and a group lists the buffers in just that order.
pub proof fn law_buffers_are_bound_in_order(a: usize, b: usize, c: usize, d: usize, e: usize, f: usize)
    ensures
        context::bound(GpuBindGroup::MatVec { input: a, weight: b, output: c, params: d }) == seq![
            a,
            b,
            c,
            d,
        ],
        context::bound(GpuBindGroup::RmsNorm { input: a, weight: b, output: c, params: d }) == seq![
            a,
            b,
            c,
            d,
        ],
        context::bound(
            GpuBindGroup::RmsNormRope {
                input: a,
                weight: b,
                inv_freq: c,
                output: d,
                params: e,
                position: f,
            },
        ) == seq![a, b, c, d, e, f],
        context::bound(GpuBindGroup::KvAppend { input: a, cache: b, params: c, position: d })
            == seq![a, b, c, d],
        context::bound(
            GpuBindGroup::DecodeGqaAttention {
                q: a,
                key: b,
                value: c,
                output: d,
                params: e,
                position: f,
            },
        ) == seq![a, b, c, d, e, f],
        context::bound(GpuBindGroup::ResidualAdd { lhs: a, rhs: b, output: c, params: d }) == seq![
            a,
            b,
            c,
            d,
        ],
        context::bound(
            GpuBindGroup::Q8MatVec { input: a, qweight: b, scales: c, output: d, params: e },
        ) == seq![a, b, c, d, e],
        context::bound(
            GpuBindGroup::Argmax { input: a, qweight: b, scales: c, result: d, params: e },
        ) == seq![a, b, c, d, e],
        context::bound(GpuBindGroup::SwiGlu { gate: a, up: b, output: c, params: d }) == seq![
            a,
            b,
            c,
            d,
        ],
{
}

/// Law: every kernel writes just one of its buffers; its uniforms stand behind that, and what it only
/// reads before it.
pub proof fn law_kernels_write_one_buffer(p: GpuPipeline, i: int)
    requires
        0 <= i < context::layout(p).len(),
    ensures
        ({
            let l = context::layout(p);
            let w: int = if p is KvAppend {
                1
            } else if p is MatVec || p is RmsNorm || p is ResidualAdd || p is SwiGlu {
                2
            } else {
                3
            };
            let u: int = if p is RmsNormRope || p is DecodeGqaAttention
                || p is DecodeGqaAttentionSerial || p is KvAppend {
                2
            } else {
                1
            };
            &&& l.len() == w + 1 + u
            &&& i < w ==> l[i] is Read
            &&& i == w ==> l[i] is ReadWrite
            &&& i > w ==> l[i] is Uniform
        }),
{
}

/// Law: a group suits the kernel of its kind, and no other.
pub proof fn law_groups_suit_their_kernel(g: GpuBindGroup, p: GpuPipeline)
    ensures
        g is MatVec ==> (context::suits(g, p) <==> p is MatVec),
        g is RmsNorm ==> (context::suits(g, p) <==> p is RmsNorm),
        g is RmsNormRope ==> (context::suits(g, p) <==> p is RmsNormRope),
        g is KvAppend ==> (context::suits(g, p) <==> p is KvAppend),
        g is DecodeGqaAttention ==> (context::suits(g, p) <==> p is DecodeGqaAttention
            || p is DecodeGqaAttentionSerial),
        g is ResidualAdd ==> (context::suits(g, p) <==> p is ResidualAdd),
        g is Q8MatVec ==> (context::suits(g, p) <==> p is Q8MatVec || p is Q8MatVecVec4),
        g is Argmax ==> (context::suits(g, p) <==> p is Argmax),
        g is SwiGlu ==> (context::suits(g, p) <==> p is SwiGlu),
{
}

/// Law: a buffer that is made has the next number, the size and the use that are asked for, and no
/// other changes; one that is filled is filled with just the given words.
pub proof fn law_buffers_are_made_one_by_one(
    c: ContextView,
    n: usize,
    words: Seq<u32>,
    usage: GpuUsage,
)
    ensures
        ({
            let a = context::made(c, n, usage);
            let b = context::filled(c, words, usage);
            &&& a.buffers == c.buffers.push(GpuBufferInfo { words: n, usage })
            &&& a.ops == c.ops && a.stats == c.stats && a.id == c.id
            &&& a.max_chunk_bytes == c.max_chunk_bytes
            &&& b.buffers == c.buffers.push(GpuBufferInfo { words: words.len() as usize, usage })
            &&& b.ops == c.ops.push(
                OpView::Init { buffer: c.buffers.len() as usize, words },
            )
            &&& b.stats == c.stats && b.id == c.id && b.max_chunk_bytes == c.max_chunk_bytes
        }),
{
}

/// Law: what the host hands over, submits, asks to map and waits for is done in that order and
/// counted once each, from the start again behind the greatest count; a position counts as a
/// write of the host too.
pub proof fn law_device_work_is_counted(
    c: ContextView,
    buffer: usize,
    words: Seq<u32>,
    commands: Seq<GpuCommand>,
    position: usize,
)
    requires
        c.stats.submits < u64::MAX,
        c.stats.poll_waits < u64::MAX,
        c.stats.map_reads < u64::MAX,
        c.stats.host_write_buffers < u64::MAX,
        c.stats.position_write_buffers < u64::MAX,
    ensures
        context::next(u64::MAX) == 0,
        ({
            let w = context::written(c, buffer, words, GpuWrite::Uncounted);
            let h = context::written(c, buffer, words, GpuWrite::Host);
            let p = context::positioned(c, buffer, position);
            let s = context::submitted(c, commands);
            let m = context::map_asked(c, buffer);
            let x = context::waited(c);
            let done = OpView::Write { buffer, words };
            &&& w.ops == c.ops.push(done) && w.stats == c.stats
            &&& h.ops == c.ops.push(done)
            &&& h.stats.host_write_buffers == c.stats.host_write_buffers + 1
            &&& h.stats.position_write_buffers == c.stats.position_write_buffers
            &&& h.stats.submits == c.stats.submits && h.stats.poll_waits == c.stats.poll_waits
            &&& h.stats.map_reads == c.stats.map_reads
            &&& p.ops == c.ops.push(
                OpView::Write { buffer, words: seq![position as u32, 0, 0, 0] },
            )
            &&& p.stats.host_write_buffers == c.stats.host_write_buffers + 1
            &&& p.stats.position_write_buffers == c.stats.position_write_buffers + 1
            &&& p.stats.submits == c.stats.submits && p.stats.poll_waits == c.stats.poll_waits
            &&& p.stats.map_reads == c.stats.map_reads
            &&& s.ops == c.ops.push(OpView::Submit(commands))
            &&& s.stats.submits == c.stats.submits + 1
            &&& s.stats.poll_waits == c.stats.poll_waits && s.stats.map_reads == c.stats.map_reads
            &&& s.stats.host_write_buffers == c.stats.host_write_buffers
            &&& m.ops == c.ops.push(OpView::MapRead(buffer))
            &&& m.stats.map_reads == c.stats.map_reads + 1
            &&& m.stats.submits == c.stats.submits && m.stats.poll_waits == c.stats.poll_waits
            &&& x.ops == c.ops.push(OpView::PollWait)
            &&& x.stats.poll_waits == c.stats.poll_waits + 1
            &&& x.stats.submits == c.stats.submits && x.stats.map_reads == c.stats.map_reads
            &&& w.buffers == c.buffers && h.buffers == c.buffers && p.buffers == c.buffers
            &&& s.buffers == c.buffers && m.buffers == c.buffers && x.buffers == c.buffers
        }),
{
}

/// Law: reading back submits the commands, then asks to map each buffer in its order, then waits.
pub proof fn law_read_back_in_order(
    c: ContextView,
    commands: Seq<GpuCommand>,
    buffers: Seq<usize>,
    i: int,
)
    requires
        0 <= i < buffers.len(),
    ensures
        ({
            let r = context::read_back(c, commands, buffers);
            let n = c.ops.len() as int;
            &&& r.ops.len() == n + buffers.len() + 2
            &&& r.ops.take(n) == c.ops
            &&& r.ops[n] == OpView::Submit(commands)
            &&& r.ops[n + 1 + i] == OpView::MapRead(buffers[i])
            &&& r.ops.last() == OpView::PollWait
        }),
{
    lemma_mapped(context::submitted(c, commands), buffers);
    assert(context::read_back(c, commands, buffers).ops.take(c.ops.len() as int) =~= c.ops);
}

pub proof fn lemma_mapped(c: ContextView, buffers: Seq<usize>)
    ensures
        ({
            let r = context::all_map_asked(c, buffers);
            let n = c.ops.len() as int;
            &&& r.ops.len() == n + buffers.len()
            &&& forall|i: int| 0 <= i < n ==> #[trigger] r.ops[i] == c.ops[i]
            &&& forall|i: int|
                0 <= i < buffers.len() ==> #[trigger] r.ops[n + i] == OpView::MapRead(buffers[i])
        }),
    decreases buffers.len(),
{
    if buffers.len() > 0 {
        let b = buffers.drop_last();
        lemma_mapped(c, b);
        let before = context::all_map_asked(c, b);
        let r = context::all_map_asked(c, buffers);
        let n = c.ops.len() as int;
        assert forall|i: int| 0 <= i < buffers.len() implies #[trigger] r.ops[n + i]
            == OpView::MapRead(buffers[i]) by {
            if i < b.len() {
                assert(before.ops[n + i] == OpView::MapRead(b[i]));
            }
        }
    }
}

/// Law: each row of a matrix is in one run of its plan, and in no other.
pub proof fn law_each_row_is_in_one_run(runs: Seq<GpuRows>, upto: int, r: int)
    requires
        rows::covers(runs, upto),
        0 <= r < upto,
    ensures
        exists|k: int|
            0 <= k < runs.len() && (#[trigger] runs[k]).out_offset <= r < runs[k].out_offset
                + runs[k].out_features,
        forall|j: int, k: int|
            0 <= j < runs.len() && 0 <= k < runs.len() && (#[trigger] runs[j]).out_offset <= r
                < runs[j].out_offset + runs[j].out_features && (#[trigger] runs[k]).out_offset <= r
                < runs[k].out_offset + runs[k].out_features ==> j == k,
    decreases runs.len(),
{
    let front = runs.drop_last();
    let at = runs.last().out_offset as int;
    assert(runs.last() == runs[runs.len() - 1]);
    assert forall|k: int| 0 <= k < front.len() implies (#[trigger] runs[k]).out_offset
        + runs[k].out_features <= at by {
        rows::lemma_covers_bound(front, at, k);
        assert(front[k] == runs[k]);
    }
    if r < at {
        law_each_row_is_in_one_run(front, at, r);
        let k = choose|k: int|
            0 <= k < front.len() && (#[trigger] front[k]).out_offset <= r < front[k].out_offset
                + front[k].out_features;
        assert(runs[k] == front[k]);
        assert forall|j: int, k: int|
            0 <= j < runs.len() && 0 <= k < runs.len() && (#[trigger] runs[j]).out_offset <= r
                < runs[j].out_offset + runs[j].out_features && (#[trigger] runs[k]).out_offset <= r
                < runs[k].out_offset + runs[k].out_features implies j == k by {
            assert(front[j] == runs[j] && front[k] == runs[k]);
        }
    }
}

/// Law: a chunk of a matrix in half precision holds, number for number, the rows of its run, widened;
/// it knows how wide and how many they are, and has room for one product of each.
pub proof fn law_chunk_holds_its_rows(
    c: ContextView,
    input: usize,
    weight: Seq<u16>,
    width: usize,
    r: GpuRows,
    i: int,
    j: int,
)
    requires
        (r.out_offset + r.out_features) * width <= weight.len(),
        weight.len() <= usize::MAX,
        c.buffers.len() + 4 <= usize::MAX,
        0 <= i < r.out_features,
        0 <= j < width,
    ensures
        ({
            let (d, k) = matvec::chunk_made(c, input, weight, width, r);
            let b = c.buffers.len() as int;
            let n = c.ops.len() as int;
            &&& d.buffers.len() == b + 4 && d.ops.len() == n + 2
            &&& d.buffers.take(b) == c.buffers && d.ops.take(n) == c.ops
            &&& k.input_buffer == input && k.rows == r
            &&& k.weight_buffer == b && k.output_buffer == b + 1 && k.readback_buffer == b + 2
            &&& k.params_buffer == b + 3
            &&& d.buffers[b] == (GpuBufferInfo {
                words: (r.out_features * width) as usize,
                usage: GpuUsage::Weight,
            })
            &&& d.buffers[b + 1] == (GpuBufferInfo {
                words: r.out_features,
                usage: GpuUsage::Output,
            })
            &&& d.buffers[b + 2] == (GpuBufferInfo {
                words: r.out_features,
                usage: GpuUsage::Readback,
            })
            &&& d.ops[n] is Init && d.ops[n]->Init_buffer == b
            &&& d.ops[n]->Init_words.len() == r.out_features * width
            &&& d.ops[n]->Init_words[i * width + j] == dtypes::widened(
                weight[(r.out_offset + i) * width + j],
            )
            &&& d.ops[n + 1] == OpView::Init {
                buffer: (b + 3) as usize,
                words: seq![width as u32, r.out_features as u32, 0, 0],
            }
        }),
{
    let (d, k) = matvec::chunk_made(c, input, weight, width, r);
    let start = r.out_offset * width;
    let rows = r.out_features as int;
    let w = width as int;
    let off = r.out_offset as int;
    assert(start >= 0 && start + rows * w == (off + rows) * w && rows * w >= 0 && (off + i) * w + j
        == start + (i * w + j) && 0 <= i * w && i * w + j < rows * w) by (nonlinear_arith)
        requires
            start == off * w,
            0 <= off,
            0 <= i < rows,
            0 <= j < w,
    ;
    assert(d.buffers.take(c.buffers.len() as int) =~= c.buffers);
    assert(d.ops.take(c.ops.len() as int) =~= c.ops);
}

/// Law: the chunks of a matrix are put on a device one after the other, one for each run.
pub proof fn law_chunks_are_made_in_order(
    c: ContextView,
    input: usize,
    weight: Seq<u16>,
    width: usize,
    plan: Seq<GpuRows>,
    r: GpuRows,
)
    ensures
        matvec::chunks_made(c, input, weight, width, Seq::empty()) == (
            c,
            Seq::<GpuMatVecChunk>::empty(),
        ),
        ({
            let before = matvec::chunks_made(c, input, weight, width, plan);
            let one = matvec::chunk_made(before.0, input, weight, width, r);
            matvec::chunks_made(c, input, weight, width, plan.push(r)) == (
                one.0,
                before.1.push(one.1),
            )
        }),
{
    assert(plan.push(r).drop_last() =~= plan);
}

/// Law: a matrix can be put on a device if and only if it has a number for each place and one row
/// fits into a binding; its runs then take every row, each as many as fit.
pub proof fn law_when_a_matrix_goes_on_a_device(limit: u64, len: nat, out: usize, width: usize)
    requires
        width * 4 <= u64::MAX,
    ensures
        matvec::weight_error(limit, len, out, width) is None <==> len == out * width && 0 < width
            * 4 <= limit,
        matvec::weight_error(limit, len, out, width) is None ==> rows::covers(
            matvec::weight_plan(limit, out, width),
            out as int,
        ),
        matvec::weight_error(limit, len, out, width) is None ==> forall|k: int|
            0 <= k < matvec::weight_plan(limit, out, width).len() ==> (#[trigger] matvec::weight_plan(
                limit,
                out,
                width,
            )[k]).out_features * (width * 4) <= limit,
{
    if matvec::weight_error(limit, len, out, width) is None {
        let row = (width * 4) as u64;
        let most = rows::rows_per_chunk(limit, row);
        rows::law_chunk_fits(limit, row, 0);
        rows::law_plan_covers(most, out);
        let plan = matvec::weight_plan(limit, out, width);
        assert forall|k: int| 0 <= k < plan.len() implies (#[trigger] plan[k]).out_features * (width
            * 4) <= limit by {
            rows::law_chunk_fits(limit, row, plan[k].out_features as int);
        }
    }
}

/// Law: a chunk is multiplied by one run of the kernel, on its input, its rows and its output, with a
/// thread for each row; and all its products are copied out, where they are to be.
pub proof fn law_chunk_is_multiplied(c: GpuMatVecChunk, copied: bool)
    requires
        c.rows.out_features <= u32::MAX,
    ensures
        ({
            let s = matvec::chunk_commands(c, copied);
            &&& s.len() == (if copied {
                3int
            } else {
                2int
            })
            &&& s[0] is BeginPass
            &&& s[1] matches GpuCommand::Dispatch(d) && d.pipeline is MatVec && d.group == (
            GpuBindGroup::MatVec {
                input: c.input_buffer,
                weight: c.weight_buffer,
                output: c.output_buffer,
                params: c.params_buffer,
            }) && d.workgroups * 64 >= c.rows.out_features && (d.workgroups - 1) * 64
                < c.rows.out_features
            &&& copied ==> s[2] == (GpuCommand::Copy {
                src: c.output_buffer,
                dst: c.readback_buffer,
                dst_offset: 0,
                words: c.rows.out_features,
            })
        }),
{
}

/// Law: some chunks, and some matrices, run one after the other, and are read in the same order.
pub proof fn law_matrices_run_in_order(
    chunks: Seq<GpuMatVecChunk>,
    c: GpuMatVecChunk,
    copied: bool,
    m: Seq<&GpuMatVec>,
    one: &GpuMatVec,
    d: ContextView,
    words: Seq<u32>,
)
    ensures
        matvec::chunks_commands(Seq::empty(), copied).len() == 0,
        matvec::chunks_commands(chunks.push(c), copied) == matvec::chunks_commands(chunks, copied)
            + matvec::chunk_commands(c, copied),
        matvec::readbacks_of(chunks.push(c)) == matvec::readbacks_of(chunks).push(
            c.readback_buffer,
        ),
        matvec::rows_of(chunks.push(c)) == matvec::rows_of(chunks).push(c.rows),
        matvec::many_commands(Seq::empty()).len() == 0,
        matvec::many_commands(m.push(one)) == matvec::many_commands(m) + matvec::chunks_commands(
            one.chunks@,
            true,
        ),
        matvec::many_readbacks(Seq::empty()).len() == 0,
        matvec::many_readbacks(m.push(one)) == matvec::many_readbacks(m) + matvec::readbacks_of(
            one.chunks@,
        ),
        matvec::many_written(d, Seq::empty(), words) == d,
        matvec::many_written(d, m.push(one), words).ops == matvec::many_written(d, m, words).ops.push(
            OpView::Write { buffer: one.input_buffer, words },
        ),
        matvec::chunk_count(Seq::empty()) == 0,
        matvec::chunk_count(m.push(one)) == matvec::chunk_count(m) + one.chunks@.len(),
{
    assert(chunks.push(c).drop_last() =~= chunks);
    assert(m.push(one).drop_last() =~= m);
    assert(matvec::readbacks_of(chunks.push(c)) =~= matvec::readbacks_of(chunks).push(
        c.readback_buffer,
    ));
    assert(matvec::rows_of(chunks.push(c)) =~= matvec::rows_of(chunks).push(c.rows));
}

/// Law: matrices take a row together if and only if it is as wide as all of them and they are on one
/// device; with no matrix there is nothing to refuse.
pub proof fn law_when_matrices_take_a_row(m: Seq<&GpuMatVec>, dims: Seq<usize>)
    requires
        m.len() > 0,
    ensures
        matvec::many_error(Seq::empty(), dims) is None,
        matvec::many_error(m, dims) is None <==> {
            &&& dims.len() == 2 && dims[0] == 1
            &&& forall|i: int| 0 <= i < m.len() ==> (#[trigger] m[i]).in_features == dims[1]
            &&& forall|i: int| 0 <= i < m.len() ==> (#[trigger] m[i]).context == m[0].context
        },
{
    if dims.len() == 2 && dims[0] == 1 && dims[1] == m[0].in_features {
        assert(dims =~= seq![1usize, m[0].in_features]);
    }
    if matvec::many_error(m, dims) is None {
        assert(dims[0] == 1 && dims[1] == m[0].in_features);
    }
    let first = m[0];
    assert(first.in_features == m[0].in_features);
}

/// Law: what the matrix with number `i` gave is behind what all before it gave.
pub proof fn law_parts_belong_to_their_matrix(
    m: Seq<&GpuMatVec>,
    parts: Seq<Seq<u32>>,
    i: int,
    k: int,
)
    requires
        0 <= i < m.len(),
        0 <= k < m[i].chunks@.len(),
        matvec::chunk_count(m.take(i)) + m[i].chunks@.len() <= parts.len(),
    ensures
        matvec::own_parts(m, parts, i).len() == m[i].chunks@.len(),
        matvec::own_parts(m, parts, i)[k] == parts[matvec::chunk_count(m.take(i)) + k],
{
}

/// Law: parts one behind the other make the whole.
pub proof fn law_parts_are_joined(parts: Seq<Seq<u32>>, p: Seq<u32>)
    ensures
        rows::concat(Seq::empty()) == Seq::<u32>::empty(),
        rows::concat(parts.push(p)) == rows::concat(parts) + p,
{
    assert(parts.push(p).drop_last() =~= parts);
}

/// Law: four numbers of a row go into one word, the first in its lowest byte and negative ones in two's
/// complement; behind the end of the row there are zeros.
pub proof fn law_four_numbers_make_a_word(row: Seq<i8>, w: int)
    requires
        0 <= w,
        4 * w < row.len(),
    ensures
        pack::packed(row).len() == (row.len() + 3) / 4,
        w < pack::packed(row).len(),
        ({
            let x = pack::packed(row)[w] as int;
            let a = x % 256;
            let b = x / 256 % 256;
            let c = x / 65536 % 256;
            let d = x / 16777216 % 256;
            &&& a == (if row[4 * w] < 0 {
                row[4 * w] + 256
            } else {
                row[4 * w] as int
            })
            &&& 4 * w + 1 >= row.len() ==> b == 0
            &&& 4 * w + 1 < row.len() ==> b == (if row[4 * w + 1] < 0 {
                row[4 * w + 1] + 256
            } else {
                row[4 * w + 1] as int
            })
            &&& 4 * w + 2 >= row.len() ==> c == 0
            &&& 4 * w + 2 < row.len() ==> c == (if row[4 * w + 2] < 0 {
                row[4 * w + 2] + 256
            } else {
                row[4 * w + 2] as int
            })
            &&& 4 * w + 3 >= row.len() ==> d == 0
            &&& 4 * w + 3 < row.len() ==> d == (if row[4 * w + 3] < 0 {
                row[4 * w + 3] + 256
            } else {
                row[4 * w + 3] as int
            })
        }),
{
    let a = pack::bits_at(row, 4 * w);
    let b = pack::bits_at(row, 4 * w + 1);
    let c = pack::bits_at(row, 4 * w + 2);
    let d = pack::bits_at(row, 4 * w + 3);
    let sum = a + 256 * b + 65536 * c + 16777216 * d;
    assert(0 <= sum <= 0xffff_ffff);
    assert(pack::packed(row)[w] as int == sum);
    assert(sum == 256 * (b + 256 * c + 65536 * d) + a);
    assert(sum / 256 == b + 256 * c + 65536 * d);
    assert(sum / 65536 == c + 256 * d);
    assert(sum / 16777216 == d);
}

/// Law: some rows are packed one behind the other, each on its own words.
pub proof fn law_rows_are_packed_in_order(m: Seq<i8>, width: int, first: int, n: nat)
    ensures
        pack::packed_rows(m, width, first, 0).len() == 0,
        pack::packed_rows(m, width, first, n + 1) == pack::packed_rows(m, width, first, n)
            + pack::packed(m.subrange((first + n) * width, (first + n) * width + width)),
{
}

/// Law: a chunk of a matrix in eight bits holds the packed rows of its run and just their scales; it
/// knows how wide and how many they are, and where they start where it finds the greatest product,
/// for which it has room for two words of each workgroup.
pub proof fn law_q8_chunk_holds_its_rows(
    c: ContextView,
    input: usize,
    w: Q8LinearWeight,
    r: GpuRows,
    argmax: bool,
)
    requires
        r.out_offset + r.out_features <= w.scales@.len(),
        0 < r.out_features <= u32::MAX,
        c.buffers.len() + 8 <= usize::MAX,
        w.in_features + 3 <= usize::MAX,
    ensures
        ({
            let (d, k) = q8::q8_chunk_made(c, input, w, r, argmax);
            let b = c.buffers.len() as int;
            let n = c.ops.len() as int;
            let groups = context::workgroups(r.out_features as u32);
            let words = (w.in_features + 3) / 4;
            &&& d.ops.take(n) == c.ops && d.buffers.take(b) == c.buffers
            &&& k.input_buffer == Some(input) && k.rows == r && k.words_per_row == words
            &&& k.qweight_buffer == b && k.scales_buffer == b + 1 && k.output_buffer == b + 2
            &&& k.readback_buffer == Some((b + 3) as usize) && k.params_buffer == b + 4
            &&& d.ops[n] == OpView::Init {
                buffer: b as usize,
                words: pack::packed_rows(
                    w.qweight@,
                    w.in_features as int,
                    r.out_offset as int,
                    r.out_features as nat,
                ),
            }
            &&& d.ops[n + 1] is Init && d.ops[n + 1]->Init_buffer == b + 1
            &&& d.ops[n + 1]->Init_words.len() == r.out_features
            &&& forall|i: int|
                0 <= i < r.out_features ==> #[trigger] d.ops[n + 1]->Init_words[i]
                    == w.scales@[r.out_offset + i]
            &&& d.ops[n + 2] == OpView::Init {
                buffer: (b + 4) as usize,
                words: seq![w.in_features as u32, r.out_features as u32, words as u32, 0],
            }
            &&& d.buffers[b + 2] == (GpuBufferInfo {
                words: r.out_features,
                usage: GpuUsage::Output,
            })
            &&& d.buffers[b + 3] == (GpuBufferInfo {
                words: r.out_features,
                usage: GpuUsage::Readback,
            })
            &&& !argmax ==> k.argmax is None && k.argmax_results == 0 && d.ops.len() == n + 3
                && d.buffers.len() == b + 5
            &&& argmax ==> {
                &&& k.argmax_results == groups
                &&& k.argmax matches Some(a) && a.input == input && a.result == b + 5 && a.readback
                    == b + 6 && a.params == b + 7
                &&& d.buffers.len() == b + 8 && d.ops.len() == n + 4
                &&& d.buffers[b + 5].words == 2 * groups && d.buffers[b + 6].words == 2 * groups
                &&& d.ops[n + 3] == OpView::Init {
                    buffer: (b + 7) as usize,
                    words: seq![
                        w.in_features as u32,
                        r.out_features as u32,
                        words as u32,
                        r.out_offset as u32,
                    ],
                }
            }
        }),
{
    let (d, k) = q8::q8_chunk_made(c, input, w, r, argmax);
    assert(d.buffers.take(c.buffers.len() as int) =~= c.buffers);
    assert(d.ops.take(c.ops.len() as int) =~= c.ops);
}

/// Law: the chunks of a matrix in eight bits are put on a device one after the other.
pub proof fn law_q8_chunks_are_made_in_order(
    c: ContextView,
    input: usize,
    w: Q8LinearWeight,
    plan: Seq<GpuRows>,
    r: GpuRows,
    argmax: bool,
)
    ensures
        q8::q8_chunks_made(c, input, w, Seq::empty(), argmax) == (
            c,
            Seq::<GpuQ8MatVecChunk>::empty(),
        ),
        ({
            let before = q8::q8_chunks_made(c, input, w, plan, argmax);
            let one = q8::q8_chunk_made(before.0, input, w, r, argmax);
            q8::q8_chunks_made(c, input, w, plan.push(r), argmax) == (one.0, before.1.push(one.1))
        }),
{
    assert(plan.push(r).drop_last() =~= plan);
}

/// Law: a weight in eight bits can be put on a device if and only if it has a number for each place
/// and a scale for each row, is not empty, and one packed row fits into a binding; its runs then
/// take every row.
pub proof fn law_when_a_q8_matrix_goes_on_a_device(limit: u64, w: Q8LinearWeight)
    requires
        w.in_features + 3 <= usize::MAX,
    ensures
        q8::q8_weight_error(limit, w) is None <==> {
            &&& w.qweight@.len() == w.out_features * w.in_features
            &&& w.scales@.len() == w.out_features
            &&& w.in_features > 0 && w.out_features > 0
            &&& (w.in_features + 3) / 4 * 4 <= limit
        },
        q8::q8_weight_error(limit, w) is None ==> rows::covers(
            q8::q8_plan(limit, w),
            w.out_features as int,
        ),
{
    if q8::q8_weight_error(limit, w) is None {
        let row = (pack::words_for(w.in_features as nat) * 4) as u64;
        rows::law_chunk_fits(limit, row, 0);
        rows::law_plan_covers(rows::rows_per_chunk(limit, row), w.out_features);
    }
}

/// Law: rows are read four numbers at a time if and only if their width can be divided by four.
pub proof fn law_kernel_follows_the_width(width: usize)
    ensures
        q8::q8_kernel(width) is Q8MatVecVec4 <==> width % 4 == 0,
        q8::q8_kernel(width) is Q8MatVec <==> width % 4 != 0,
{
}

/// Law: a chunk in eight bits is multiplied by one run of the kernel on its input, its rows, their
/// scales and its output, with a workgroup for each row, and all its products are copied out.
pub proof fn law_q8_chunk_is_multiplied(c: GpuQ8MatVecChunk, kernel: GpuPipeline)
    ensures
        q8::q8_chunk_commands(c, kernel) == seq![
            GpuCommand::BeginPass,
            GpuCommand::Dispatch(
                GpuDispatch {
                    pipeline: kernel,
                    group: GpuBindGroup::Q8MatVec {
                        input: c.input_buffer->0,
                        qweight: c.qweight_buffer,
                        scales: c.scales_buffer,
                        output: c.output_buffer,
                        params: c.params_buffer,
                    },
                    workgroups: c.rows.out_features as u32,
                },
            ),
            GpuCommand::Copy {
                src: c.output_buffer,
                dst: c.readback_buffer->0,
                dst_offset: 0,
                words: c.rows.out_features,
            },
        ],
{
}

/// Law: some chunks in eight bits, and some matrices of them, run one after the other, each with the
/// kernel for its width, and are read in the same order.
pub proof fn law_q8_matrices_run_in_order(
    chunks: Seq<GpuQ8MatVecChunk>,
    c: GpuQ8MatVecChunk,
    kernel: GpuPipeline,
    m: Seq<&GpuQ8MatVec>,
    one: &GpuQ8MatVec,
    d: ContextView,
    words: Seq<u32>,
)
    ensures
        q8::q8_chunks_commands(Seq::empty(), kernel).len() == 0,
        q8::q8_chunks_commands(chunks.push(c), kernel) == q8::q8_chunks_commands(chunks, kernel)
            + q8::q8_chunk_commands(c, kernel),
        q8::q8_rows_of(chunks.push(c)) == q8::q8_rows_of(chunks).push(c.rows),
        c.readback_buffer matches Some(b) ==> q8::q8_readbacks_of(chunks.push(c))
            == q8::q8_readbacks_of(chunks).push(b),
        q8::q8_many_commands(Seq::empty()).len() == 0,
        q8::q8_many_commands(m.push(one)) == q8::q8_many_commands(m) + q8::q8_chunks_commands(
            one.chunks@,
            if one.in_features % 4 == 0 {
                GpuPipeline::Q8MatVecVec4
            } else {
                GpuPipeline::Q8MatVec
            },
        ),
        q8::q8_many_readbacks(Seq::empty()).len() == 0,
        q8::q8_many_readbacks(m.push(one)) == q8::q8_many_readbacks(m) + q8::q8_readbacks_of(
            one.chunks@,
        ),
        q8::q8_many_written(d, Seq::empty(), words) == d,
        one.input_buffer matches Some(b) ==> q8::q8_many_written(d, m.push(one), words).ops
            == q8::q8_many_written(d, m, words).ops.push(OpView::Write { buffer: b, words }),
        q8::q8_all_binds(chunks.push(c), c.output_buffer) == q8::q8_all_binds(
            chunks,
            c.output_buffer,
        ).push(
            GpuQ8Binds {
                input: c.output_buffer,
                qweight: c.qweight_buffer,
                scales: c.scales_buffer,
                output: c.output_buffer,
                params: c.params_buffer,
            },
        ),
{
    assert(chunks.push(c).drop_last() =~= chunks);
    assert(m.push(one).drop_last() =~= m);
    assert(q8::q8_rows_of(chunks.push(c)) =~= q8::q8_rows_of(chunks).push(c.rows));
    assert(q8::q8_readbacks_of(chunks.push(c)) =~= q8::q8_readbacks_of(chunks).push(
        c.readback_buffer->0,
    ));
    assert(q8::q8_all_binds(chunks.push(c), c.output_buffer) =~= q8::q8_all_binds(
        chunks,
        c.output_buffer,
    ).push(q8::q8_binds(c, c.output_buffer)));
}

/// Law: the products of a chunk with any input are those of its own rows and scales.
pub proof fn law_binds_keep_the_rows(c: GpuQ8MatVecChunk, input: usize)
    ensures
        ({
            let b = q8::q8_binds(c, input);
            &&& b.input == input && b.qweight == c.qweight_buffer && b.scales == c.scales_buffer
            &&& b.output == c.output_buffer && b.params == c.params_buffer
            &&& q8::q8_group(b) == (GpuBindGroup::Q8MatVec {
                input,
                qweight: c.qweight_buffer,
                scales: c.scales_buffer,
                output: c.output_buffer,
                params: c.params_buffer,
            })
        }),
{
}

/// Law: matrices in eight bits take a row together if and only if it is as wide as all of them, they
/// are on one device, and each has an input of its own.
pub proof fn law_when_q8_matrices_take_a_row(m: Seq<&GpuQ8MatVec>, dims: Seq<usize>, len: nat)
    requires
        m.len() > 0,
    ensures
        q8::q8_many_error(m, dims) is None <==> {
            &&& dims.len() == 2 && dims[0] == 1
            &&& forall|i: int| 0 <= i < m.len() ==> (#[trigger] m[i]).in_features == dims[1]
            &&& forall|i: int| 0 <= i < m.len() ==> (#[trigger] m[i]).context == m[0].context
        },
        q8::q8_raw_error(m, len) is None <==> {
            &&& len == m[0].in_features
            &&& forall|i: int| 0 <= i < m.len() ==> (#[trigger] m[i]).input_buffer is Some
        },
{
    if dims.len() == 2 && dims[0] == 1 && dims[1] == m[0].in_features {
        assert(dims =~= seq![1usize, m[0].in_features]);
    }
    if q8::q8_many_error(m, dims) is None {
        assert(dims[0] == 1 && dims[1] == m[0].in_features);
    }
    let first = m[0];
    assert(first.in_features == m[0].in_features);
}

/// Law: for the greatest product each chunk runs its kernel on its input, its rows and their scales,
/// and all results are copied out, two words each.
pub proof fn law_greatest_products_are_found(
    chunks: Seq<GpuQ8MatVecChunk>,
    c: GpuQ8MatVecChunk,
    a: q8::GpuQ8Argmax,
)
    requires
        c.argmax == Some(a),
    ensures
        q8::argmax_commands(Seq::empty()).len() == 0,
        q8::argmax_commands(chunks.push(c)) == q8::argmax_commands(chunks) + seq![
            GpuCommand::BeginPass,
            GpuCommand::Dispatch(
                GpuDispatch {
                    pipeline: GpuPipeline::Argmax,
                    group: GpuBindGroup::Argmax {
                        input: a.input,
                        qweight: c.qweight_buffer,
                        scales: c.scales_buffer,
                        result: a.result,
                        params: a.params,
                    },
                    workgroups: c.argmax_results as u32,
                },
            ),
            GpuCommand::Copy {
                src: a.result,
                dst: a.readback,
                dst_offset: 0,
                words: (2 * c.argmax_results) as usize,
            },
        ],
        q8::argmax_readbacks(chunks.push(c)) == q8::argmax_readbacks(chunks).push(a.readback),
        q8::no_argmax(chunks.push(c)) <==> q8::no_argmax(chunks),
{
    assert(chunks.push(c).drop_last() =~= chunks);
    assert(q8::argmax_readbacks(chunks.push(c)) =~= q8::argmax_readbacks(chunks).push(a.readback));
    if q8::no_argmax(chunks) {
        let i = choose|i: int| 0 <= i < chunks.len() && (#[trigger] chunks[i]).argmax is None;
        assert(chunks.push(c)[i].argmax is None);
    }
    if q8::no_argmax(chunks.push(c)) {
        let i = choose|i: int|
            0 <= i < chunks.len() + 1 && (#[trigger] chunks.push(c)[i]).argmax is None;
        assert(chunks[i].argmax is None);
    }
}

/// Law: products of a resident value are run chunk by chunk, and those of each chunk are copied to the
/// place of its rows in the result.
pub proof fn law_resident_products_are_collected(
    chunks: Seq<GpuQ8MatVecChunk>,
    groups: Seq<GpuQ8Binds>,
    kernel: GpuPipeline,
    output: usize,
    n: nat,
)
    ensures
        q8::q8_resident_commands(chunks, groups, kernel, output, 0).len() == 0,
        ({
            let c = chunks[n as int];
            let b = groups[n as int];
            q8::q8_resident_commands(chunks, groups, kernel, output, n + 1)
                == q8::q8_resident_commands(chunks, groups, kernel, output, n) + seq![
                GpuCommand::BeginPass,
                GpuCommand::Dispatch(
                    GpuDispatch {
                        pipeline: kernel,
                        group: GpuBindGroup::Q8MatVec {
                            input: b.input,
                            qweight: b.qweight,
                            scales: b.scales,
                            output: b.output,
                            params: b.params,
                        },
                        workgroups: c.rows.out_features as u32,
                    },
                ),
                GpuCommand::Copy {
                    src: c.output_buffer,
                    dst: output,
                    dst_offset: c.rows.out_offset,
                    words: c.rows.out_features,
                },
            ]
        }),
{
}

/// Law: a chunk that gives up its own input gives up nothing else, but for its way out where that is
/// not kept.
pub proof fn law_stripped_keeps_the_rows(c: GpuQ8MatVecChunk, keep: bool)
    ensures
        ({
            let s = q8::stripped(c, keep);
            &&& s.input_buffer is None
            &&& s.readback_buffer == (if keep {
                c.readback_buffer
            } else {
                None
            })
            &&& s.qweight_buffer == c.qweight_buffer && s.scales_buffer == c.scales_buffer
            &&& s.output_buffer == c.output_buffer && s.params_buffer == c.params_buffer
            &&& s.argmax == c.argmax && s.argmax_results == c.argmax_results
            &&& s.words_per_row == c.words_per_row && s.rows == c.rows
        }),
{
}

/// Law: matrices that share an input run chunk by chunk and matrix by matrix, each with its own
/// buffers, and their products are copied out in the same order.
pub proof fn law_shared_input_runs_in_order(
    groups: Seq<Seq<GpuQ8Binds>>,
    m: Seq<&GpuQ8MatVec>,
    kernel: GpuPipeline,
    n: nat,
    k: nat,
    chunks: Seq<GpuQ8MatVecChunk>,
    c: GpuQ8MatVecChunk,
    one: &GpuQ8MatVec,
)
    ensures
        q8_batch::chunk_runs(groups[n as int], chunks, kernel, 0).len() == 0,
        q8_batch::chunk_runs(groups[n as int], chunks, kernel, k + 1) == q8_batch::chunk_runs(
            groups[n as int],
            chunks,
            kernel,
            k,
        ).push(
            GpuCommand::Dispatch(
                GpuDispatch {
                    pipeline: kernel,
                    group: q8::q8_group(groups[n as int][k as int]),
                    workgroups: chunks[k as int].rows.out_features as u32,
                },
            ),
        ),
        q8_batch::batch_runs(groups, m, kernel, 0).len() == 0,
        q8_batch::batch_runs(groups, m, kernel, n + 1) == q8_batch::batch_runs(groups, m, kernel, n)
            + q8_batch::chunk_runs(
            groups[n as int],
            m[n as int].chunks@,
            kernel,
            m[n as int].chunks@.len(),
        ),
        q8_batch::chunk_copies(Seq::empty()).len() == 0,
        q8_batch::chunk_copies(chunks.push(c)) == q8_batch::chunk_copies(chunks).push(
            GpuCommand::Copy {
                src: c.output_buffer,
                dst: c.readback_buffer->0,
                dst_offset: 0,
                words: c.rows.out_features,
            },
        ),
        q8_batch::batch_copies(Seq::empty()).len() == 0,
        q8_batch::batch_copies(m.push(one)) == q8_batch::batch_copies(m) + q8_batch::chunk_copies(
            one.chunks@,
        ),
{
    assert(chunks.push(c).drop_last() =~= chunks);
    assert(m.push(one).drop_last() =~= m);
}

/// Law: for one resident output each chunk is prepared with the shared input, its own rows and scales,
/// the output, and words that say how wide and how many its rows are and where they start.
pub proof fn law_prepared_chunks_know_their_place(
    c: ContextView,
    input: usize,
    width: usize,
    chunks: Seq<GpuQ8MatVecChunk>,
    output: usize,
    n: nat,
)
    ensures
        q8_batch::chunks_cached(c, input, width, chunks, output, 0) == (
            c,
            Seq::<GpuQ8Binds>::empty(),
        ),
        ({
            let before = q8_batch::chunks_cached(c, input, width, chunks, output, n);
            let after = q8_batch::chunks_cached(c, input, width, chunks, output, n + 1);
            let k = chunks[n as int];
            let at = before.0.buffers.len() as usize;
            &&& after.0.ops == before.0.ops.push(
                OpView::Init {
                    buffer: at,
                    words: seq![
                        width as u32,
                        k.rows.out_features as u32,
                        k.words_per_row as u32,
                        k.rows.out_offset as u32,
                    ],
                },
            )
            &&& after.0.buffers == before.0.buffers.push(
                GpuBufferInfo { words: 4, usage: GpuUsage::Params },
            )
            &&& after.1 == before.1.push(
                GpuQ8Binds {
                    input,
                    qweight: k.qweight_buffer,
                    scales: k.scales_buffer,
                    output,
                    params: at,
                },
            )
        }),
{
}

/// Law: each pair of chunks has its two products multiplied into what is between the products, and the
/// words that go with it say where its values start and how many they are; in half precision and in
/// eight bits alike.
pub proof fn law_gates_take_their_pair(
    c: ContextView,
    g: Seq<GpuMatVecChunk>,
    u: Seq<GpuMatVecChunk>,
    g8: Seq<GpuQ8MatVecChunk>,
    u8s: Seq<GpuQ8MatVecChunk>,
    output: usize,
    n: nat,
)
    ensures
        swiglu::gates_made(c, g, u, output, 0) == (c, Seq::<swiglu::GpuSwiGluGroup>::empty()),
        ({
            let before = swiglu::gates_made(c, g, u, output, n);
            let after = swiglu::gates_made(c, g, u, output, n + 1);
            let at = before.0.buffers.len() as usize;
            let r = g[n as int].rows;
            &&& after.0.ops == before.0.ops.push(
                OpView::Init {
                    buffer: at,
                    words: seq![r.out_offset as u32, r.out_features as u32, 0, 0],
                },
            )
            &&& after.1.len() == before.1.len() + 1 && after.1.drop_last() == before.1
            &&& after.1.last().gate == g[n as int].output_buffer
            &&& after.1.last().up == u[n as int].output_buffer
            &&& after.1.last().output == output && after.1.last().params == at
            &&& after.1.last().out_features == r.out_features
        }),
        q8_swiglu::q8_gates_made(c, g8, u8s, output, 0) == (
            c,
            Seq::<swiglu::GpuSwiGluGroup>::empty(),
        ),
        ({
            let before = q8_swiglu::q8_gates_made(c, g8, u8s, output, n);
            let after = q8_swiglu::q8_gates_made(c, g8, u8s, output, n + 1);
            let at = before.0.buffers.len() as usize;
            let r = g8[n as int].rows;
            &&& after.0.ops == before.0.ops.push(
                OpView::Init {
                    buffer: at,
                    words: seq![r.out_offset as u32, r.out_features as u32, 0, 0],
                },
            )
            &&& after.1.len() == before.1.len() + 1 && after.1.drop_last() == before.1
            &&& after.1.last().gate == g8[n as int].output_buffer
            &&& after.1.last().up == u8s[n as int].output_buffer
            &&& after.1.last().output == output && after.1.last().params == at
            &&& after.1.last().out_features == r.out_features
        }),
{
    let a = swiglu::gates_made(c, g, u, output, n);
    let b = swiglu::gates_made(c, g, u, output, n + 1);
    assert(b.1.drop_last() =~= a.1);
    let x = q8_swiglu::q8_gates_made(c, g8, u8s, output, n);
    let y = q8_swiglu::q8_gates_made(c, g8, u8s, output, n + 1);
    assert(y.1.drop_last() =~= x.1);
}

/// Law: a gate is run on its two products and its output.
pub proof fn law_gates_are_bound(g: swiglu::GpuSwiGluGroup)
    ensures
        swiglu::gate_group(g) == (GpuBindGroup::SwiGlu {
            gate: g.gate,
            up: g.up,
            output: g.output,
            params: g.params,
        }),
{
}

/// Law: a gated layer first finds the products of gate and up, then gates them, then multiplies the
/// result by the last matrix, whose products alone are read.
pub proof fn law_gated_layer_runs_in_order(
    c: ContextView,
    s: GpuSwiGluDown,
    gate: GpuMatVec,
    up: GpuMatVec,
    down: GpuMatVec,
    words: Seq<u32>,
)
    ensures
        ({
            let a = matvec::chunks_commands(gate.chunks@, false);
            let b = matvec::chunks_commands(up.chunks@, false);
            let g = swiglu::gate_commands(s.groups@, true);
            let d = matvec::chunks_commands(down.chunks@, true);
            let all = a + (b + (g + d));
            let r = swiglu::swiglu_run(c, s, gate, up, down, words);
            let n = c.ops.len() as int;
            &&& swiglu::swiglu_commands(s, gate, up, down) == all
            &&& r.ops.len() == n + 4 + down.chunks@.len()
            &&& r.ops[n] == OpView::Write { buffer: gate.input_buffer, words }
            &&& r.ops[n + 1] == OpView::Write { buffer: up.input_buffer, words }
            &&& r.ops[n + 2] == OpView::Submit(all)
        }),
{
    let a = matvec::chunks_commands(gate.chunks@, false);
    let b = matvec::chunks_commands(up.chunks@, false);
    let g = swiglu::gate_commands(s.groups@, true);
    let d = matvec::chunks_commands(down.chunks@, true);
    assert(swiglu::swiglu_commands(s, gate, up, down) =~= a + (b + (g + d)));
    let c1 = context::written(c, gate.input_buffer, words, GpuWrite::Host);
    let c2 = context::written(c1, up.input_buffer, words, GpuWrite::Host);
    lemma_mapped(
        context::submitted(c2, swiglu::swiglu_commands(s, gate, up, down)),
        matvec::readbacks_of(down.chunks@),
    );
}

/// Law: a norm is told the length of a row, how many rows there are and its epsilon, holds its weight,
/// and norms its input into its output, one workgroup for each row.
pub proof fn law_norm_is_told_its_rows(
    c: ContextView,
    weight: Seq<u32>,
    shape: Seq<usize>,
    eps: u32,
    n: GpuRmsNorm,
    words: Seq<u32>,
)
    ensures
        ({
            let d = norm::norm_made(c, weight, shape, eps);
            let b = c.buffers.len() as int;
            let k = c.ops.len() as int;
            let len = array::numel(shape) as usize;
            &&& d.buffers.len() == b + 5 && d.ops.len() == k + 2
            &&& d.buffers[b] == (GpuBufferInfo { words: len, usage: GpuUsage::Input })
            &&& d.buffers[b + 2] == (GpuBufferInfo { words: len, usage: GpuUsage::Output })
            &&& d.buffers[b + 3] == (GpuBufferInfo { words: len, usage: GpuUsage::Readback })
            &&& d.ops[k] == OpView::Init { buffer: (b + 1) as usize, words: weight }
            &&& d.ops[k + 1] == OpView::Init {
                buffer: (b + 4) as usize,
                words: seq![shape.last() as u32, norm::rows_in(shape) as u32, eps, 0],
            }
        }),
        array::numel(shape.drop_last()) > 0 ==> norm::rows_in(shape) == array::numel(
            shape.drop_last(),
        ),
        array::numel(shape.drop_last()) == 0 ==> norm::rows_in(shape) == 1,
        ({
            let r = norm::norm_run(c, n, words);
            let k = c.ops.len() as int;
            &&& r.ops.len() == k + 4
            &&& r.ops[k] == OpView::Write { buffer: n.input_buffer, words }
            &&& r.ops[k + 1] == OpView::Submit(
                seq![
                    GpuCommand::BeginPass,
                    GpuCommand::Dispatch(
                        GpuDispatch {
                            pipeline: GpuPipeline::RmsNorm,
                            group: GpuBindGroup::RmsNorm {
                                input: n.input_buffer,
                                weight: n.weight_buffer,
                                output: n.output_buffer,
                                params: n.params_buffer,
                            },
                            workgroups: n.rows as u32,
                        },
                    ),
                    GpuCommand::Copy {
                        src: n.output_buffer,
                        dst: n.readback_buffer,
                        dst_offset: 0,
                        words: (n.rows * n.last_dim) as usize,
                    },
                ],
            )
            &&& r.ops[k + 2] == OpView::MapRead(n.readback_buffer)
        }),
{
    let c1 = context::written(c, n.input_buffer, words, GpuWrite::Uncounted);
    let r = norm::norm_run(c, n, words);
    let k = c.ops.len() as int;
    let commands = seq![
        GpuCommand::BeginPass,
        context::run(GpuPipeline::RmsNorm, norm::norm_group(n), n.rows as u32),
        context::copy(n.output_buffer, n.readback_buffer, 0, (n.rows * n.last_dim) as usize),
    ];
    lemma_mapped(context::submitted(c1, commands), seq![n.readback_buffer]);
    assert(r.ops[k + 2 + 0] == OpView::MapRead(seq![n.readback_buffer][0]));
}

/// Law: a resident norm reads one value and writes another, with the weight and the parameters of the
/// norm; a resident sum adds two values into a third, with a thread for each number.
pub proof fn law_resident_norms_and_sums(
    n: GpuRmsNorm,
    a: GpuResidualAdd,
    x: GpuResidentBuffer,
    y: GpuResidentBuffer,
    z: GpuResidentBuffer,
)
    requires
        a.len <= u32::MAX,
    ensures
        norm::norm_command(n, norm::norm_cache(n, x, y)) == GpuCommand::Dispatch(
            GpuDispatch {
                pipeline: GpuPipeline::RmsNorm,
                group: GpuBindGroup::RmsNorm {
                    input: x.buffer,
                    weight: n.weight_buffer,
                    output: y.buffer,
                    params: n.params_buffer,
                },
                workgroups: n.rows as u32,
            },
        ),
        ({
            let s = resident::residual_command(a, resident::residual_cache(a, x, y, z));
            s matches GpuCommand::Dispatch(d) && d.pipeline is ResidualAdd && d.group == (
            GpuBindGroup::ResidualAdd {
                lhs: x.buffer,
                rhs: y.buffer,
                output: z.buffer,
                params: a.params_buffer,
            }) && d.workgroups * 64 >= a.len && (d.workgroups - 1) * 64 < a.len
        }),
{
}

/// Law: a sum is told how many numbers there are, and adds its two inputs into its output, which is
/// then read.
pub proof fn law_sum_adds_its_inputs(
    c: ContextView,
    len: usize,
    a: GpuResidualAdd,
    lhs: Seq<u32>,
    rhs: Seq<u32>,
)
    ensures
        ({
            let d = resident::residual_made(c, len);
            let b = c.buffers.len() as int;
            &&& d.buffers.len() == b + 5 && d.ops.len() == c.ops.len() + 1
            &&& d.buffers[b] == (GpuBufferInfo { words: len, usage: GpuUsage::Input })
            &&& d.buffers[b + 1] == (GpuBufferInfo { words: len, usage: GpuUsage::Input })
            &&& d.buffers[b + 2] == (GpuBufferInfo { words: len, usage: GpuUsage::Output })
            &&& d.buffers[b + 3] == (GpuBufferInfo { words: len, usage: GpuUsage::Readback })
            &&& d.ops.last() == OpView::Init {
                buffer: (b + 4) as usize,
                words: seq![len as u32, 0, 0, 0],
            }
        }),
        ({
            let r = resident::residual_run(c, a, lhs, rhs);
            let k = c.ops.len() as int;
            &&& r.ops.len() == k + 5
            &&& r.ops[k] == OpView::Write { buffer: a.lhs_buffer, words: lhs }
            &&& r.ops[k + 1] == OpView::Write { buffer: a.rhs_buffer, words: rhs }
            &&& r.ops[k + 2] == OpView::Submit(
                seq![
                    GpuCommand::BeginPass,
                    GpuCommand::Dispatch(
                        GpuDispatch {
                            pipeline: GpuPipeline::ResidualAdd,
                            group: GpuBindGroup::ResidualAdd {
                                lhs: a.lhs_buffer,
                                rhs: a.rhs_buffer,
                                output: a.output_buffer,
                                params: a.params_buffer,
                            },
                            workgroups: context::workgroups(a.len as u32),
                        },
                    ),
                    GpuCommand::Copy {
                        src: a.output_buffer,
                        dst: a.readback_buffer,
                        dst_offset: 0,
                        words: a.len,
                    },
                ],
            )
            &&& r.ops[k + 3] == OpView::MapRead(a.readback_buffer)
        }),
{
    let c1 = context::written(c, a.lhs_buffer, lhs, GpuWrite::Uncounted);
    let c2 = context::written(c1, a.rhs_buffer, rhs, GpuWrite::Uncounted);
    let commands = seq![
        GpuCommand::BeginPass,
        context::run(
            GpuPipeline::ResidualAdd,
            resident::residual_group(a),
            context::workgroups(a.len as u32),
        ),
        context::copy(a.output_buffer, a.readback_buffer, 0, a.len),
    ];
    lemma_mapped(context::submitted(c2, commands), seq![a.readback_buffer]);
    let r = resident::residual_run(c, a, lhs, rhs);
    let k = c.ops.len() as int;
    assert(r.ops[k + 3 + 0] == OpView::MapRead(seq![a.readback_buffer][0]));
}

/// Law: what norms and turns queries is told the width of a head, how many heads there are, half that
/// width and its epsilon, and holds its weight; the same of keys.
pub proof fn law_turning_is_told_its_heads(
    c: ContextView,
    weight: Seq<u32>,
    shape: Seq<usize>,
    eps: u32,
)
    ensures
        ({
            let d = norm::side_made(c, weight, shape, eps);
            let b = c.buffers.len() as int;
            let k = c.ops.len() as int;
            let len = array::numel(shape) as usize;
            &&& d.buffers.len() == b + 5 && d.ops.len() == k + 2
            &&& d.buffers[b] == (GpuBufferInfo { words: len, usage: GpuUsage::Input })
            &&& d.buffers[b + 2] == (GpuBufferInfo { words: len, usage: GpuUsage::Output })
            &&& d.buffers[b + 3] == (GpuBufferInfo { words: len, usage: GpuUsage::Readback })
            &&& d.ops[k] == OpView::Init { buffer: (b + 1) as usize, words: weight }
            &&& d.ops[k + 1] == OpView::Init {
                buffer: (b + 4) as usize,
                words: seq![
                    shape.last() as u32,
                    norm::rows_in(shape) as u32,
                    (shape.last() / 2) as u32,
                    eps,
                ],
            }
        }),
{
}

/// Law: queries are turned with the weight of the queries and keys with that of the keys, each from its
/// own input to its own output, with the same frequencies and the same position.
pub proof fn law_queries_and_keys_are_turned_apart(
    r: GpuQkRmsNormRope,
    q: GpuResidentBuffer,
    k: GpuResidentBuffer,
    q_out: GpuResidentBuffer,
    k_out: GpuResidentBuffer,
    position: usize,
)
    ensures
        norm::rope_commands(r, norm::rope_cache(r, q, k, q_out, k_out, position)) == seq![
            GpuCommand::Dispatch(
                GpuDispatch {
                    pipeline: GpuPipeline::RmsNormRope,
                    group: GpuBindGroup::RmsNormRope {
                        input: q.buffer,
                        weight: r.q.weight_buffer,
                        inv_freq: r.inv_freq_buffer,
                        output: q_out.buffer,
                        params: r.q.params_buffer,
                        position,
                    },
                    workgroups: r.q.rows as u32,
                },
            ),
            GpuCommand::Dispatch(
                GpuDispatch {
                    pipeline: GpuPipeline::RmsNormRope,
                    group: GpuBindGroup::RmsNormRope {
                        input: k.buffer,
                        weight: r.k.weight_buffer,
                        inv_freq: r.inv_freq_buffer,
                        output: k_out.buffer,
                        params: r.k.params_buffer,
                        position,
                    },
                    workgroups: r.k.rows as u32,
                },
            ),
        ],
        norm::side_binds(r, r.q).input == r.q.input_buffer,
        norm::side_binds(r, r.q).weight == r.q.weight_buffer,
        norm::side_binds(r, r.q).inv_freq == r.inv_freq_buffer,
        norm::side_binds(r, r.q).output == r.q.output_buffer,
        norm::side_binds(r, r.q).params == r.q.params_buffer,
        norm::side_binds(r, r.q).position == r.position_buffer,
{
}

/// Law: keys and values on a device are told the width of a head, how many heads there are and how many
/// positions there is room for; a row of each goes to its own cache at the position that is told.
pub proof fn law_keys_and_values_are_appended(
    c: ContextView,
    heads: usize,
    dim: usize,
    max_len: usize,
    only: bool,
    k: GpuKvAppend,
    key: Seq<u32>,
    value: Seq<u32>,
    position: usize,
    s: GpuKvStandalone,
)
    ensures
        ({
            let d = attention::kv_made(c, heads, dim, max_len, only);
            let b = c.buffers.len() as int;
            let n = c.ops.len() as int;
            &&& d.buffers.len() == b + (if only {
                4int
            } else {
                8int
            })
            &&& d.ops.len() == n + 2
            &&& d.buffers[b].words == (heads * dim) as usize
            &&& d.buffers[b + 1].words == (heads * dim) as usize
            &&& !only ==> d.buffers[b + 4].words == (heads * (max_len * dim)) as usize
                && d.buffers[b + 5].words == (heads * (max_len * dim)) as usize
            &&& d.ops[n] == OpView::Init {
                buffer: (b + 2) as usize,
                words: seq![dim as u32, heads as u32, max_len as u32, 0],
            }
            &&& d.ops[n + 1] == OpView::Init {
                buffer: (b + 3) as usize,
                words: seq![0u32, 0, 0, 0],
            }
        }),
        ({
            let d = attention::kv_row_written(c, k, position, key, value);
            let n = c.ops.len() as int;
            &&& d.ops.len() == n + 3
            &&& d.ops[n] == OpView::Write { buffer: k.key_input_buffer, words: key }
            &&& d.ops[n + 1] == OpView::Write { buffer: k.value_input_buffer, words: value }
            &&& d.ops[n + 2] == OpView::Write {
                buffer: k.position_buffer,
                words: seq![position as u32, 0, 0, 0],
            }
        }),
        attention::kv_row_commands(k, s) == seq![
            GpuCommand::BeginPass,
            GpuCommand::Dispatch(
                GpuDispatch {
                    pipeline: GpuPipeline::KvAppend,
                    group: GpuBindGroup::KvAppend {
                        input: k.key_input_buffer,
                        cache: s.key_cache,
                        params: k.params_buffer,
                        position: k.position_buffer,
                    },
                    workgroups: k.num_heads as u32,
                },
            ),
            GpuCommand::BeginPass,
            GpuCommand::Dispatch(
                GpuDispatch {
                    pipeline: GpuPipeline::KvAppend,
                    group: GpuBindGroup::KvAppend {
                        input: k.value_input_buffer,
                        cache: s.value_cache,
                        params: k.params_buffer,
                        position: k.position_buffer,
                    },
                    workgroups: k.num_heads as u32,
                },
            ),
        ],
        ({
            let all = (k.num_heads * (k.max_len * k.head_dim)) as usize;
            attention::kv_copies(k, s) == seq![
                GpuCommand::Copy { src: s.key_cache, dst: s.key_readback, dst_offset: 0, words: all },
                GpuCommand::Copy {
                    src: s.value_cache,
                    dst: s.value_readback,
                    dst_offset: 0,
                    words: all,
                },
            ]
        }),
{
}

/// Law: resident keys go to the cache of the keys and resident values to that of the values.
pub proof fn law_resident_keys_and_values_are_appended(
    k: GpuKvAppend,
    key: GpuResidentBuffer,
    value: GpuResidentBuffer,
    keys: GpuResidentBuffer,
    values: GpuResidentBuffer,
    position: usize,
)
    ensures
        attention::kv_commands(
            k,
            attention::kv_cache(k, key, value, keys, values, position),
        ) == seq![
            GpuCommand::Dispatch(
                GpuDispatch {
                    pipeline: GpuPipeline::KvAppend,
                    group: GpuBindGroup::KvAppend {
                        input: key.buffer,
                        cache: keys.buffer,
                        params: k.params_buffer,
                        position,
                    },
                    workgroups: k.num_heads as u32,
                },
            ),
            GpuCommand::Dispatch(
                GpuDispatch {
                    pipeline: GpuPipeline::KvAppend,
                    group: GpuBindGroup::KvAppend {
                        input: value.buffer,
                        cache: values.buffer,
                        params: k.params_buffer,
                        position,
                    },
                    workgroups: k.num_heads as u32,
                },
            ),
        ],
{
}

/// Law: an attention is told its heads, how many of them share a key, the width of a head, its room and
/// its scale; it can be made if and only if none of these is zero and the heads share their keys
/// evenly.
pub proof fn law_attention_is_told_its_heads(c: ContextView, f: GpuDecodeGqaAttentionConfig)
    ensures
        attention::attention_error(f) is None <==> f.num_heads > 0 && f.num_kv_heads > 0
            && f.head_dim > 0 && f.max_len > 0 && f.num_heads % f.num_kv_heads == 0,
        ({
            let d = attention::attention_made(c, f);
            let b = c.buffers.len() as int;
            let n = c.ops.len() as int;
            let q = (f.num_heads * f.head_dim) as usize;
            let kv = (f.num_kv_heads * (f.max_len * f.head_dim)) as usize;
            &&& d.buffers.len() == b + 7 && d.ops.len() == n + 2
            &&& d.buffers[b].words == q && d.buffers[b + 3].words == q && d.buffers[b + 4].words
                == q
            &&& d.buffers[b + 1].words == kv && d.buffers[b + 2].words == kv
            &&& d.ops[n] == OpView::Init {
                buffer: (b + 5) as usize,
                words: seq![
                    f.num_heads as u32,
                    f.num_kv_heads as u32,
                    f.head_dim as u32,
                    f.max_len as u32,
                    (f.num_heads / f.num_kv_heads) as u32,
                    f.scale,
                    0,
                ],
            }
            &&& d.ops[n + 1] == OpView::Init {
                buffer: (b + 6) as usize,
                words: seq![0u32, 0, 0, 0],
            }
        }),
{
}

/// Law: an attention reads the query, the keys and the values and writes its output, one workgroup for
/// each head; the kernel in parallel serves the positions whose scores it can hold, and that in
/// series all others.
pub proof fn law_attention_reads_keys_and_values(
    a: GpuDecodeGqaAttention,
    q: GpuResidentBuffer,
    key: GpuResidentBuffer,
    value: GpuResidentBuffer,
    output: GpuResidentBuffer,
    position: usize,
    at: usize,
)
    ensures
        attention::attention_command(
            a,
            attention::attention_cache(a, q, key, value, output, at),
            position,
        ) == GpuCommand::Dispatch(
            GpuDispatch {
                pipeline: if position < 2048 {
                    GpuPipeline::DecodeGqaAttention
                } else {
                    GpuPipeline::DecodeGqaAttentionSerial
                },
                group: GpuBindGroup::DecodeGqaAttention {
                    q: q.buffer,
                    key: key.buffer,
                    value: value.buffer,
                    output: output.buffer,
                    params: a.params_buffer,
                    position: at,
                },
                workgroups: a.num_heads as u32,
            },
        ),
        attention::attention_group(attention::attention_own(a)) == (
        GpuBindGroup::DecodeGqaAttention {
            q: a.q_buffer,
            key: a.key_buffer,
            value: a.value_buffer,
            output: a.output_buffer,
            params: a.params_buffer,
            position: a.position_buffer,
        }),
{
}

/// Law: an attention over its own inputs gets the query, the keys, the values and the last of the
/// positions, and all of its output is read.
pub proof fn law_attention_runs_on_its_inputs(
    c: ContextView,
    a: GpuDecodeGqaAttention,
    q: Seq<u32>,
    key: Seq<u32>,
    value: Seq<u32>,
    len: usize,
)
    requires
        len > 0,
    ensures
        ({
            let r = attention::attention_run(c, a, q, key, value, len);
            let n = c.ops.len() as int;
            &&& r.ops.len() == n + 7
            &&& r.ops[n] == OpView::Write { buffer: a.q_buffer, words: q }
            &&& r.ops[n + 1] == OpView::Write { buffer: a.key_buffer, words: key }
            &&& r.ops[n + 2] == OpView::Write { buffer: a.value_buffer, words: value }
            &&& r.ops[n + 3] == OpView::Write {
                buffer: a.position_buffer,
                words: seq![(len - 1) as usize as u32, 0, 0, 0],
            }
            &&& r.ops[n + 4] matches OpView::Submit(s) && s.len() == 3 && s[2] == (
            GpuCommand::Copy {
                src: a.output_buffer,
                dst: a.readback_buffer,
                dst_offset: 0,
                words: (a.num_heads * a.head_dim) as usize,
            })
            &&& r.ops[n + 5] == OpView::MapRead(a.readback_buffer)
        }),
{
    let c1 = context::written(c, a.q_buffer, q, GpuWrite::Host);
    let c2 = context::written(c1, a.key_buffer, key, GpuWrite::Host);
    let c3 = context::written(c2, a.value_buffer, value, GpuWrite::Host);
    let c4 = context::positioned(c3, a.position_buffer, (len - 1) as usize);
    let commands = seq![
        GpuCommand::BeginPass,
        context::run(
            attention::attention_kernel(len - 1),
            attention::attention_group(attention::attention_own(a)),
            a.num_heads as u32,
        ),
        context::copy(
            a.output_buffer,
            a.readback_buffer,
            0,
            (a.num_heads * a.head_dim) as usize,
        ),
    ];
    lemma_mapped(context::submitted(c4, commands), seq![a.readback_buffer]);
    let r = attention::attention_run(c, a, q, key, value, len);
    let n = c.ops.len() as int;
    assert(r.ops[n + 5 + 0] == OpView::MapRead(seq![a.readback_buffer][0]));
}

/// Law: resident values are read back each through a buffer of its own size, made for it in its order,
/// to which all of it is copied.
pub proof fn law_values_are_read_back_in_order(
    c: ContextView,
    b: Seq<&GpuResidentBuffer>,
    one: &GpuResidentBuffer,
)
    ensures
        resident::readback_ids(c, Seq::empty()).len() == 0,
        resident::readbacks_made(c, Seq::empty()) == c,
        resident::readback_copies(c, Seq::empty()).len() == 0,
        ({
            let d = resident::readbacks_made(c, b);
            let at = d.buffers.len() as usize;
            &&& resident::readbacks_made(c, b.push(one)).buffers == d.buffers.push(
                GpuBufferInfo { words: one.len, usage: GpuUsage::Readback },
            )
            &&& resident::readbacks_made(c, b.push(one)).ops == d.ops
            &&& resident::readback_ids(c, b.push(one)) == resident::readback_ids(c, b).push(at)
            &&& resident::readback_copies(c, b.push(one)) == resident::readback_copies(c, b).push(
                GpuCommand::Copy { src: one.buffer, dst: at, dst_offset: 0, words: one.len },
            )
        }),
{
    assert(b.push(one).drop_last() =~= b);
}

/// Law: what norms and turns queries and keys holds the frequencies, the weight of the queries, the
/// position, and the weight of the keys, in this order.
pub proof fn law_turning_is_made_in_order(c: ContextView, f: GpuQkRmsNormRopeConfig<'_>)
    requires
        c.buffers.len() + 12 <= usize::MAX,
    ensures
        ({
            let d = norm::rope_made(c, f);
            let b = c.buffers.len() as int;
            let n = c.ops.len() as int;
            &&& d.buffers.len() == b + 12 && d.ops.len() == n + 6
            &&& d.ops[n] == OpView::Init { buffer: b as usize, words: f.inv_freq@ }
            &&& d.ops[n + 1] == OpView::Init {
                buffer: (b + 2) as usize,
                words: resident::contiguous(*f.q_weight),
            }
            &&& d.ops[n + 3] == OpView::Init {
                buffer: (b + 6) as usize,
                words: seq![f.pos as u32, 0, 0, 0],
            }
            &&& d.ops[n + 4] == OpView::Init {
                buffer: (b + 8) as usize,
                words: resident::contiguous(*f.k_weight),
            }
        }),
{
}

/// Law: queries and keys that are handed over are each written to their own input, turned in a pass of
/// their own, and read back whole, the queries first.
pub proof fn law_turned_are_read_back(
    c: ContextView,
    r: GpuQkRmsNormRope,
    q: Seq<u32>,
    k: Seq<u32>,
)
    ensures
        ({
            let d = norm::rope_run(c, r, q, k);
            let n = c.ops.len() as int;
            &&& d.ops.len() == n + 6
            &&& d.ops[n] == OpView::Write { buffer: r.q.input_buffer, words: q }
            &&& d.ops[n + 1] == OpView::Write { buffer: r.k.input_buffer, words: k }
            &&& d.ops[n + 2] matches OpView::Submit(s) && {
                &&& s.len() == 6
                &&& s[0] is BeginPass && s[2] is BeginPass
                &&& s[1] == GpuCommand::Dispatch(
                    GpuDispatch {
                        pipeline: GpuPipeline::RmsNormRope,
                        group: GpuBindGroup::RmsNormRope {
                            input: r.q.input_buffer,
                            weight: r.q.weight_buffer,
                            inv_freq: r.inv_freq_buffer,
                            output: r.q.output_buffer,
                            params: r.q.params_buffer,
                            position: r.position_buffer,
                        },
                        workgroups: r.q.rows as u32,
                    },
                )
                &&& s[3] == GpuCommand::Dispatch(
                    GpuDispatch {
                        pipeline: GpuPipeline::RmsNormRope,
                        group: GpuBindGroup::RmsNormRope {
                            input: r.k.input_buffer,
                            weight: r.k.weight_buffer,
                            inv_freq: r.inv_freq_buffer,
                            output: r.k.output_buffer,
                            params: r.k.params_buffer,
                            position: r.position_buffer,
                        },
                        workgroups: r.k.rows as u32,
                    },
                )
                &&& s[4] == (GpuCommand::Copy {
                    src: r.q.output_buffer,
                    dst: r.q.readback_buffer,
                    dst_offset: 0,
                    words: (r.q.rows * r.q.head_dim) as usize,
                })
                &&& s[5] == (GpuCommand::Copy {
                    src: r.k.output_buffer,
                    dst: r.k.readback_buffer,
                    dst_offset: 0,
                    words: (r.k.rows * r.k.head_dim) as usize,
                })
            }
            &&& d.ops[n + 3] == OpView::MapRead(r.q.readback_buffer)
            &&& d.ops[n + 4] == OpView::MapRead(r.k.readback_buffer)
        }),
{
    let b = seq![r.q.readback_buffer, r.k.readback_buffer];
    reveal_with_fuel(context::all_map_asked, 4);
    assert(b.drop_last() =~= seq![r.q.readback_buffer]);
    assert(b.last() == r.k.readback_buffer);
    assert(seq![r.q.readback_buffer].drop_last() =~= Seq::<usize>::empty());
    assert(seq![r.q.readback_buffer].last() == r.q.readback_buffer);
}

/// Law: matrices that take one row are all given it, run, and read, in this order; with none nothing
/// is done.
pub proof fn law_matrices_run_together(c: ContextView, m: Seq<&GpuMatVec>, words: Seq<u32>, i: int)
    requires
        m.len() > 0,
        0 <= i < matvec::many_readbacks(m).len(),
    ensures
        matvec::many_run(c, Seq::empty(), words) == c,
        ({
            let r = matvec::many_run(c, m, words);
            let n = c.ops.len() + m.len();
            &&& r.ops.len() == n + matvec::many_readbacks(m).len() + 2
            &&& r.ops[n as int] == OpView::Submit(matvec::many_commands(m))
            &&& r.ops[n + 1 + i] == OpView::MapRead(matvec::many_readbacks(m)[i])
        }),
{
    lemma_written(c, m, words);
    law_read_back_in_order(
        matvec::many_written(c, m, words),
        matvec::many_commands(m),
        matvec::many_readbacks(m),
        i,
    );
}

proof fn lemma_written(c: ContextView, m: Seq<&GpuMatVec>, words: Seq<u32>)
    ensures
        matvec::many_written(c, m, words).ops.len() == c.ops.len() + m.len(),
    decreases m.len(),
{
    if m.len() > 0 {
        lemma_written(c, m.drop_last(), words);
    }
}

/// Law: each matrix that shares an input is prepared for its own output, in the order of the matrices.
pub proof fn law_batch_is_prepared_in_order(
    c: ContextView,
    b: GpuQ8SameInputBatch,
    m: Seq<&GpuQ8MatVec>,
    outputs: Seq<&GpuResidentBuffer>,
    n: nat,
)
    ensures
        q8_batch::batch_cached(c, b, m, outputs, 0) == (c, Seq::<Seq<GpuQ8Binds>>::empty()),
        ({
            let before = q8_batch::batch_cached(c, b, m, outputs, n);
            let k = n as int;
            let one = q8_batch::chunks_cached(
                before.0,
                b.input_buffer,
                b.in_features,
                m[k].chunks@,
                outputs[k].buffer,
                m[k].chunks@.len(),
            );
            q8_batch::batch_cached(c, b, m, outputs, n + 1) == (one.0, before.1.push(one.1))
        }),
        q8_batch::batch_resident_runs(b, m, q8_batch::bind_lists(b.groups@))
            == q8_batch::batch_runs(
            q8_batch::bind_lists(b.groups@),
            m,
            if b.in_features % 4 == 0 {
                GpuPipeline::Q8MatVecVec4
            } else {
                GpuPipeline::Q8MatVec
            },
            m.len(),
        ),
{
}

/// Law: keys and values that keep buffers of their own have them behind their inputs and parameters, each
/// with a way out of its own; they start empty.
pub proof fn law_keys_and_values_have_their_own(
    before: GpuContext,
    after: GpuContext,
    heads: usize,
    dim: usize,
    max_len: usize,
    only: bool,
    r: Result<GpuKvAppend, String>,
)
    requires
        attention::kv_new(before, after, heads, dim, max_len, only, r),
    ensures
        r is Ok <==> heads > 0 && dim > 0 && max_len > 0,
        r matches Ok(k) ==> {
            let b = before@.buffers.len();
            &&& k.num_heads == heads && k.head_dim == dim && k.max_len == max_len
            &&& k.current_len == 0 && k.context == before@.id
            &&& k.key_input_buffer == b && k.value_input_buffer == b + 1
            &&& k.params_buffer == b + 2 && k.position_buffer == b + 3
            &&& k.standalone is Some <==> !only
            &&& k.standalone matches Some(s) ==> s.key_cache == b + 4 && s.value_cache == b + 5
                && s.key_readback == b + 6 && s.value_readback == b + 7
        },
{
}

} // verus!
