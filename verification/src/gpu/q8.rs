//! Products of a matrix in eight bits with one row.

use vstd::prelude::*;
use vstd::string::*;

use crate::gpu::context;
use crate::gpu::context::{
    bytes_len, tensor_from_words, workgroups_for, GpuBindGroup, GpuCommand, GpuContext, GpuEncoder,
    GpuPipeline, GpuUsage, GpuWrite,
};
use crate::gpu::matvec;
use crate::gpu::matvec::{expects_row, is_row};
use crate::gpu::pack;
use crate::gpu::pack::{pack_rows, words_per_row};
use crate::gpu::resident::{two_sizes, GpuResidentBuffer};
use crate::gpu::rows;
use crate::gpu::rows::{gather, plan_rows, rows_for_chunk, GpuRows};
use crate::tensor::order;
use crate::tensor::order::is_greater;
use crate::tensor::{Q8LinearWeight, Tensor};
use crate::text;

verus! {

/// The buffers with which the largest product of a chunk is found.
#[derive(Clone, Copy, Debug)]
pub struct GpuQ8Argmax {
    pub input: usize,
    pub result: usize,
    pub readback: usize,
    pub params: usize,
}

/// Some rows of a matrix on the device.  A chunk whose own input was given up has none.
#[derive(Clone, Copy, Debug)]
pub struct GpuQ8MatVecChunk {
    pub input_buffer: Option<usize>,
    pub qweight_buffer: usize,
    pub scales_buffer: usize,
    pub output_buffer: usize,
    pub readback_buffer: Option<usize>,
    pub params_buffer: usize,
    pub argmax: Option<GpuQ8Argmax>,
    pub argmax_results: usize,
    pub words_per_row: usize,
    pub rows: GpuRows,
}

/// A matrix on the device.
#[derive(Debug)]
pub struct GpuQ8MatVec {
    pub context: u64,
    pub input_buffer: Option<usize>,
    pub chunks: Vec<GpuQ8MatVecChunk>,
    pub in_features: usize,
    pub out_features: usize,
}

/// The buffers of a product.
#[derive(Clone, Copy, Debug)]
pub struct GpuQ8Binds {
    pub input: usize,
    pub qweight: usize,
    pub scales: usize,
    pub output: usize,
    pub params: usize,
}

/// The buffers of the products with a resident value, chunk by chunk.
#[derive(Debug)]
pub struct GpuQ8MatVecResidentCache {
    pub groups: Vec<GpuQ8Binds>,
}

/// The buffers of a product, for the kernel.
pub open spec fn q8_group(b: GpuQ8Binds) -> GpuBindGroup {
    GpuBindGroup::Q8MatVec {
        input: b.input,
        qweight: b.qweight,
        scales: b.scales,
        output: b.output,
        params: b.params,
    }
}

/// The buffers of the product of a chunk with the given input.
pub open spec fn q8_binds(c: GpuQ8MatVecChunk, input: usize) -> GpuQ8Binds {
    GpuQ8Binds {
        input,
        qweight: c.qweight_buffer,
        scales: c.scales_buffer,
        output: c.output_buffer,
        params: c.params_buffer,
    }
}

/// The kernel for rows of the given length: four numbers at a time where they fill it.
pub open spec fn q8_kernel(in_features: usize) -> GpuPipeline {
    if in_features % 4 == 0 {
        GpuPipeline::Q8MatVecVec4
    } else {
        GpuPipeline::Q8MatVec
    }
}

/// The runs of rows of some chunks.
pub open spec fn q8_rows_of(chunks: Seq<GpuQ8MatVecChunk>) -> Seq<GpuRows> {
    chunks.map_values(|c: GpuQ8MatVecChunk| c.rows)
}

/// Why a weight cannot be put on a device with the given limit.
pub open spec fn q8_weight_error(limit: u64, w: Q8LinearWeight) -> Option<Seq<char>> {
    let expected = w.out_features * w.in_features;
    let row = pack::words_for(w.in_features as nat) * 4;
    if w.qweight@.len() != expected {
        Some(
            "GPU Q8 matvec qweight length mismatch: got "@ + text::dec(w.qweight@.len())
                + ", expected "@ + text::dec(expected as nat),
        )
    } else if w.scales@.len() != w.out_features {
        Some(
            "GPU Q8 matvec scale length mismatch: got "@ + text::dec(w.scales@.len())
                + ", expected "@ + text::dec(w.out_features as nat),
        )
    } else if w.in_features == 0 || w.out_features == 0 {
        Some("GPU Q8 matvec requires non-empty dimensions"@)
    } else if row > limit {
        Some(
            "Q8 matvec row is too large for one GPU storage buffer binding: row="@ + text::dec(row)
                + ", limit="@ + text::dec(limit as nat),
        )
    } else {
        None
    }
}

/// Putting some rows of a weight on the device.
pub open spec fn q8_chunk_made(
    c: context::ContextView,
    input: usize,
    w: Q8LinearWeight,
    r: GpuRows,
    argmax: bool,
) -> (context::ContextView, GpuQ8MatVecChunk) {
    let words = pack::words_for(w.in_features as nat) as usize;
    let results = if argmax {
        context::workgroups(r.out_features as u32) as usize
    } else {
        0
    };
    let c1 = context::filled(
        c,
        pack::packed_rows(
            w.qweight@,
            w.in_features as int,
            r.out_offset as int,
            r.out_features as nat,
        ),
        GpuUsage::Weight,
    );
    let c2 = context::filled(
        c1,
        w.scales@.subrange(r.out_offset as int, r.out_offset + r.out_features),
        GpuUsage::Weight,
    );
    let c3 = context::made(c2, r.out_features, GpuUsage::Output);
    let c4 = context::made(c3, r.out_features, GpuUsage::Readback);
    let c5 = context::filled(
        c4,
        seq![w.in_features as u32, r.out_features as u32, words as u32, 0],
        GpuUsage::Params,
    );
    let c6 = context::made(c5, (2 * results) as usize, GpuUsage::Output);
    let c7 = context::made(c6, (2 * results) as usize, GpuUsage::Readback);
    let c8 = context::filled(
        c7,
        seq![w.in_features as u32, r.out_features as u32, words as u32, r.out_offset as u32],
        GpuUsage::Params,
    );
    let chunk = GpuQ8MatVecChunk {
        input_buffer: Some(input),
        qweight_buffer: context::fresh(c),
        scales_buffer: context::fresh(c1),
        output_buffer: context::fresh(c2),
        readback_buffer: Some(context::fresh(c3)),
        params_buffer: context::fresh(c4),
        argmax: if results > 0 {
            Some(
                GpuQ8Argmax {
                    input,
                    result: context::fresh(c5),
                    readback: context::fresh(c6),
                    params: context::fresh(c7),
                },
            )
        } else {
            None
        },
        argmax_results: results,
        words_per_row: words,
        rows: r,
    };
    (
        if results > 0 {
            c8
        } else {
            c5
        },
        chunk,
    )
}

/// Putting the planned runs of rows on the device in turn.
pub open spec fn q8_chunks_made(
    c: context::ContextView,
    input: usize,
    w: Q8LinearWeight,
    plan: Seq<GpuRows>,
    argmax: bool,
) -> (context::ContextView, Seq<GpuQ8MatVecChunk>)
    decreases plan.len(),
{
    if plan.len() == 0 {
        (c, Seq::empty())
    } else {
        let done = q8_chunks_made(c, input, w, plan.drop_last(), argmax);
        let one = q8_chunk_made(done.0, input, w, plan.last(), argmax);
        (one.0, done.1.push(one.1))
    }
}

/// The runs in which a weight is put on a device.
pub open spec fn q8_plan(limit: u64, w: Q8LinearWeight) -> Seq<GpuRows> {
    rows::planned(
        rows::rows_per_chunk(limit, (pack::words_for(w.in_features as nat) * 4) as u64),
        w.out_features,
        0,
    )
}

/// The message for a chunk that lacks what its own product needs.
pub open spec fn chunk_released(c: GpuQ8MatVecChunk, who: Seq<char>) -> Option<Seq<char>> {
    if c.input_buffer is None {
        Some(who + " bind group was released"@)
    } else if c.readback_buffer is None {
        Some(who + " readback buffer was released"@)
    } else {
        None
    }
}

/// The message for the first of some chunks that lacks something.
pub open spec fn chunks_released(chunks: Seq<GpuQ8MatVecChunk>, who: Seq<char>) -> Option<Seq<char>>
    decreases chunks.len(),
{
    if chunks.len() == 0 {
        None
    } else {
        match chunks_released(chunks.drop_last(), who) {
            Some(e) => Some(e),
            None => chunk_released(chunks.last(), who),
        }
    }
}

/// The message for the first chunk of some matrices that lacks something.
pub open spec fn many_released(m: Seq<&GpuQ8MatVec>) -> Option<Seq<char>>
    decreases m.len(),
{
    if m.len() == 0 {
        None
    } else {
        match many_released(m.drop_last()) {
            Some(e) => Some(e),
            None => chunks_released(m.last().chunks@, "GPU Q8 matvec"@),
        }
    }
}

/// The commands that multiply the rows of a chunk with its own input and copy the products out.
pub open spec fn q8_chunk_commands(c: GpuQ8MatVecChunk, kernel: GpuPipeline) -> Seq<GpuCommand> {
    seq![
        GpuCommand::BeginPass,
        context::run(
            kernel,
            q8_group(q8_binds(c, c.input_buffer->0)),
            c.rows.out_features as u32,
        ),
        context::copy(c.output_buffer, c.readback_buffer->0, 0, c.rows.out_features),
    ]
}

/// The commands of some chunks in turn.
pub open spec fn q8_chunks_commands(chunks: Seq<GpuQ8MatVecChunk>, kernel: GpuPipeline) -> Seq<
    GpuCommand,
>
    decreases chunks.len(),
{
    if chunks.len() == 0 {
        Seq::empty()
    } else {
        q8_chunks_commands(chunks.drop_last(), kernel) + q8_chunk_commands(chunks.last(), kernel)
    }
}

/// The commands of some matrices in turn.
pub open spec fn q8_many_commands(m: Seq<&GpuQ8MatVec>) -> Seq<GpuCommand>
    decreases m.len(),
{
    if m.len() == 0 {
        Seq::empty()
    } else {
        q8_many_commands(m.drop_last()) + q8_chunks_commands(
            m.last().chunks@,
            q8_kernel(m.last().in_features),
        )
    }
}

/// The buffers from which the products of some chunks are read.
pub open spec fn q8_readbacks_of(chunks: Seq<GpuQ8MatVecChunk>) -> Seq<usize> {
    chunks.map_values(|c: GpuQ8MatVecChunk| c.readback_buffer->0)
}

/// The buffers from which the products of some matrices are read.
pub open spec fn q8_many_readbacks(m: Seq<&GpuQ8MatVec>) -> Seq<usize>
    decreases m.len(),
{
    if m.len() == 0 {
        Seq::empty()
    } else {
        q8_many_readbacks(m.drop_last()) + q8_readbacks_of(m.last().chunks@)
    }
}

/// Giving some matrices the same input.
pub open spec fn q8_many_written(c: context::ContextView, m: Seq<&GpuQ8MatVec>, words: Seq<u32>)
    -> context::ContextView
    decreases m.len(),
{
    if m.len() == 0 {
        c
    } else {
        context::written(
            q8_many_written(c, m.drop_last(), words),
            m.last().input_buffer->0,
            words,
            GpuWrite::Uncounted,
        )
    }
}

/// Why some matrices cannot be multiplied with the same numbers, before anything is done.
pub open spec fn q8_raw_error(m: Seq<&GpuQ8MatVec>, len: nat) -> Option<Seq<char>> {
    if m.len() == 0 {
        None
    } else if len != m[0].in_features {
        Some(
            "GPU Q8 matvec raw input expects "@ + text::dec(m[0].in_features as nat)
                + " values, got "@ + text::dec(len),
        )
    } else if exists|i: int| 0 <= i < m.len() && (#[trigger] m[i]).input_buffer is None {
        Some("GPU Q8 matvec batch requires standalone input buffers"@)
    } else {
        None
    }
}

/// Why some matrices cannot be multiplied with the same row, as far as their shapes go.
pub open spec fn q8_many_error(m: Seq<&GpuQ8MatVec>, dims: Seq<usize>) -> Option<Seq<char>> {
    if m.len() == 0 {
        None
    } else if dims != seq![1usize, m[0].in_features] {
        Some(
            "GPU Q8 matvec expects [1, "@ + text::dec(m[0].in_features as nat) + "], got "@
                + text::bracketed(dims),
        )
    } else if exists|i: int|
        0 <= i < m.len() && (#[trigger] m[i]).in_features != m[0].in_features {
        Some("GPU Q8 matvec batch requires the same input width"@)
    } else if exists|i: int| 0 <= i < m.len() && (#[trigger] m[i]).context != m[0].context {
        Some("GPU Q8 matvec batch requires a shared GpuContext"@)
    } else {
        None
    }
}

/// What multiplying some matrices with the same numbers gives.
pub open spec fn q8_raw_result(
    before: context::ContextView,
    after: context::ContextView,
    m: Seq<&GpuQ8MatVec>,
    words: Seq<u32>,
    r: Result<Vec<usize>, String>,
) -> bool {
    let given = q8_many_written(before, m, words);
    match r {
        Ok(buffers) => {
            &&& q8_raw_error(m, words.len()) is None
            &&& many_released(m) is None
            &&& buffers@ == q8_many_readbacks(m)
            &&& after == (if m.len() == 0 {
                before
            } else {
                context::read_back(given, q8_many_commands(m), q8_many_readbacks(m))
            })
        },
        Err(e) => match q8_raw_error(m, words.len()) {
            Some(msg) => e@ == msg && after == before,
            None => many_released(m) == Some(e@) && after == given,
        },
    }
}

/// Whether all matrices are on the device with the given number.
pub open spec fn q8_all_on(id: u64, m: Seq<&GpuQ8MatVec>) -> bool {
    forall|i: int| 0 <= i < m.len() ==> (#[trigger] m[i]).context == id
}

/// No chunk has more results than there are workgroups for the rows that a kernel can count.
pub open spec fn results_fit(chunks: Seq<GpuQ8MatVecChunk>) -> bool {
    forall|i: int|
        0 <= i < chunks.len() ==> (#[trigger] chunks[i]).argmax_results <= 0x0400_0000
}

/// Whether some chunk cannot find its largest product.
pub open spec fn no_argmax(chunks: Seq<GpuQ8MatVecChunk>) -> bool {
    exists|i: int| 0 <= i < chunks.len() && (#[trigger] chunks[i]).argmax is None
}

/// The buffers with which a chunk finds its largest product, for the kernel.
pub open spec fn argmax_group(c: GpuQ8MatVecChunk) -> GpuBindGroup {
    GpuBindGroup::Argmax {
        input: c.argmax->0.input,
        qweight: c.qweight_buffer,
        scales: c.scales_buffer,
        result: c.argmax->0.result,
        params: c.argmax->0.params,
    }
}

/// The commands that find the largest products of some chunks.
pub open spec fn argmax_commands(chunks: Seq<GpuQ8MatVecChunk>) -> Seq<GpuCommand>
    decreases chunks.len(),
{
    if chunks.len() == 0 {
        Seq::empty()
    } else {
        let c = chunks.last();
        argmax_commands(chunks.drop_last()) + seq![
            GpuCommand::BeginPass,
            context::run(GpuPipeline::Argmax, argmax_group(c), c.argmax_results as u32),
            context::copy(
                c.argmax->0.result,
                c.argmax->0.readback,
                0,
                (2 * c.argmax_results) as usize,
            ),
        ]
    }
}

/// The buffers from which the largest products of some chunks are read.
pub open spec fn argmax_readbacks(chunks: Seq<GpuQ8MatVecChunk>) -> Seq<usize> {
    chunks.map_values(|c: GpuQ8MatVecChunk| c.argmax->0.readback)
}

/// The place and the value of the best of the first `n` results, each two words long: the first
/// that no later one is greater than.
pub open spec fn best_result(words: Seq<u32>, n: nat) -> Option<(u32, u32)>
    decreases n,
{
    if n == 0 {
        None
    } else {
        let k = n - 1;
        let one = (words[2 * k], words[2 * k + 1]);
        match best_result(words, k as nat) {
            None => Some(one),
            Some(b) => if order::greater(one.1, b.1) {
                Some(one)
            } else {
                Some(b)
            },
        }
    }
}

/// Law: of the results that a device handed back, none is greater than the one that is kept.
pub proof fn law_best_result(words: Seq<u32>, n: nat, i: int)
    requires
        0 <= i < n,
        2 * n <= words.len(),
    ensures
        best_result(words, n) is Some,
        !order::greater(words[2 * i + 1], (best_result(words, n)->0).1),
        exists|k: int|
            0 <= k < n && best_result(words, n) == Some(
                (words[2 * k], #[trigger] words[2 * k + 1]),
            ),
    decreases n,
{
    let k = n - 1;
    if n > 1 {
        if i < k {
            law_best_result(words, k as nat, i);
        } else {
            law_best_result(words, k as nat, 0);
        }
        let before = best_result(words, k as nat)->0;
        if order::greater(words[2 * k + 1], before.1) {
            assert(best_result(words, n) == Some((words[2 * k], words[2 * k + 1])));
        } else {
            let j = choose|j: int|
                0 <= j < k && best_result(words, k as nat) == Some(
                    (words[2 * j], #[trigger] words[2 * j + 1]),
                );
            assert(best_result(words, n) == Some((words[2 * j], words[2 * j + 1])));
        }
    } else {
        assert(best_result(words, 0) is None);
        assert(best_result(words, n) == Some((words[2 * k], words[2 * k + 1])));
    }
}

/// Why a matrix cannot be multiplied with a resident value.
pub open spec fn q8_cache_error(m: GpuQ8MatVec, input: GpuResidentBuffer, output: GpuResidentBuffer)
    -> Option<Seq<char>> {
    if m.context != input.context || m.context != output.context {
        Some("GPU Q8 matvec resident path requires shared GpuContext"@)
    } else if input.len != m.in_features {
        Some(
            "GPU Q8 matvec resident input length mismatch: got "@ + text::dec(input.len as nat)
                + ", expected "@ + text::dec(m.in_features as nat),
        )
    } else if output.len != m.out_features {
        Some(
            "GPU Q8 matvec resident output length mismatch: got "@ + text::dec(output.len as nat)
                + ", expected "@ + text::dec(m.out_features as nat),
        )
    } else {
        None
    }
}

/// The buffers of the products of some chunks with the given input.
pub open spec fn q8_all_binds(chunks: Seq<GpuQ8MatVecChunk>, input: usize) -> Seq<GpuQ8Binds> {
    chunks.map_values(|c: GpuQ8MatVecChunk| q8_binds(c, input))
}

/// The commands that multiply some chunks with prepared buffers and collect the products.
pub open spec fn q8_resident_commands(
    chunks: Seq<GpuQ8MatVecChunk>,
    groups: Seq<GpuQ8Binds>,
    kernel: GpuPipeline,
    output: usize,
    n: nat,
) -> Seq<GpuCommand>
    decreases n,
{
    if n == 0 {
        Seq::empty()
    } else {
        let k = n - 1;
        let c = chunks[k];
        q8_resident_commands(chunks, groups, kernel, output, k as nat) + seq![
            GpuCommand::BeginPass,
            context::run(kernel, q8_group(groups[k]), c.rows.out_features as u32),
            context::copy(c.output_buffer, output, c.rows.out_offset, c.rows.out_features),
        ]
    }
}

/// A chunk without its own input, and without its own way out unless that is kept.
pub open spec fn stripped(c: GpuQ8MatVecChunk, keep_readback: bool) -> GpuQ8MatVecChunk {
    GpuQ8MatVecChunk {
        input_buffer: None,
        readback_buffer: if keep_readback {
            c.readback_buffer
        } else {
            None
        },
        ..c
    }
}

/// Runs a product kernel.
pub fn dispatch_q8(pass: &mut GpuEncoder, kernel: GpuPipeline, b: GpuQ8Binds, workgroups: u32)
    requires
        kernel is Q8MatVec || kernel is Q8MatVecVec4,
    ensures
        final(pass)@ == old(pass)@.push(context::run(kernel, q8_group(b), workgroups)),
{
    pass.dispatch(
        kernel,
        GpuBindGroup::Q8MatVec {
            input: b.input,
            qweight: b.qweight,
            scales: b.scales,
            output: b.output,
            params: b.params,
        },
        workgroups,
    );
}

/// The kernel for rows of the given length.
pub fn kernel_for_width(in_features: usize) -> (r: GpuPipeline)
    ensures
        r == q8_kernel(in_features),
        r is Q8MatVec || r is Q8MatVecVec4,
{
    if in_features % 4 == 0 {
        GpuPipeline::Q8MatVecVec4
    } else {
        GpuPipeline::Q8MatVec
    }
}

/// The buffers of the product of a chunk with the given input.
pub fn chunk_binds(c: &GpuQ8MatVecChunk, input: usize) -> (r: GpuQ8Binds)
    ensures
        r == q8_binds(*c, input),
{
    GpuQ8Binds {
        input,
        qweight: c.qweight_buffer,
        scales: c.scales_buffer,
        output: c.output_buffer,
        params: c.params_buffer,
    }
}

/// The buffers of the products of some chunks with the given input.
pub fn all_binds(chunks: &[GpuQ8MatVecChunk], input: usize) -> (r: Vec<GpuQ8Binds>)
    ensures
        r@ == q8_all_binds(chunks@, input),
{
    let mut groups: Vec<GpuQ8Binds> = Vec::new();
    let mut i: usize = 0;
    while i < chunks.len()
        invariant
            i <= chunks@.len(),
            groups@ == q8_all_binds(chunks@, input).take(i as int),
        decreases chunks@.len() - i,
    {
        groups.push(chunk_binds(&chunks[i], input));
        i += 1;
        assert(groups@ =~= q8_all_binds(chunks@, input).take(i as int));
    }
    assert(q8_all_binds(chunks@, input).take(chunks@.len() as int) =~= q8_all_binds(
        chunks@,
        input,
    ));
    groups
}

fn create_q8_chunk(
    context: &mut GpuContext,
    input: usize,
    weight: &Q8LinearWeight,
    r: GpuRows,
    enable_argmax: bool,
) -> (chunk: GpuQ8MatVecChunk)
    requires
        weight.well_formed(),
        r.out_offset + r.out_features <= weight.out_features,
        weight.in_features + 3 <= usize::MAX,
    ensures
        (final(context)@, chunk) == q8_chunk_made(
            old(context)@,
            input,
            *weight,
            r,
            enable_argmax,
        ),
{
    let in_features: usize = weight.in_features;
    let n: usize = r.out_features;
    proof {
        let upto = r.out_offset + r.out_features;
        let all = weight.out_features as int;
        let w = in_features as int;
        assert(upto * w <= all * w) by (nonlinear_arith)
            requires
                upto <= all,
                w >= 0,
        ;
    }
    let words: usize = words_per_row(in_features);
    let qweight_buffer: usize = context.create_buffer_init(
        pack_rows(&weight.qweight, in_features, r.out_offset, n),
        GpuUsage::Weight,
    );
    let scales = vstd::slice::slice_to_vec(
        vstd::slice::slice_subrange(weight.scales.as_slice(), r.out_offset, r.out_offset + n),
    );
    let scales_buffer: usize = context.create_buffer_init(scales, GpuUsage::Weight);
    let output_buffer: usize = context.create_buffer(n, GpuUsage::Output);
    let readback_buffer: usize = context.create_buffer(n, GpuUsage::Readback);
    let params: Vec<u32> = vec![in_features as u32, n as u32, words as u32, 0];
    assert(params@ =~= seq![in_features as u32, n as u32, words as u32, 0]);
    let params_buffer: usize = context.create_buffer_init(params, GpuUsage::Params);
    let results: usize = if enable_argmax {
        workgroups_for(n as u32) as usize
    } else {
        0
    };
    let argmax: Option<GpuQ8Argmax> = if results > 0 {
        let result: usize = context.create_buffer(2 * results, GpuUsage::Output);
        let readback: usize = context.create_buffer(2 * results, GpuUsage::Readback);
        let words_of: Vec<u32> = vec![
            in_features as u32,
            n as u32,
            words as u32,
            r.out_offset as u32,
        ];
        assert(words_of@ =~= seq![
            in_features as u32,
            n as u32,
            words as u32,
            r.out_offset as u32,
        ]);
        let params: usize = context.create_buffer_init(words_of, GpuUsage::Params);
        Some(GpuQ8Argmax { input, result, readback, params })
    } else {
        None
    };
    GpuQ8MatVecChunk {
        input_buffer: Some(input),
        qweight_buffer,
        scales_buffer,
        output_buffer,
        readback_buffer: Some(readback_buffer),
        params_buffer,
        argmax,
        argmax_results: results,
        words_per_row: words,
        rows: r,
    }
}

proof fn lemma_q8_chunk_rows(
    c: context::ContextView,
    input: usize,
    w: Q8LinearWeight,
    plan: Seq<GpuRows>,
    argmax: bool,
)
    ensures
        q8_rows_of(q8_chunks_made(c, input, w, plan, argmax).1) == plan,
        results_fit(q8_chunks_made(c, input, w, plan, argmax).1),
        q8_chunks_made(c, input, w, plan, argmax).0.id == c.id,
    decreases plan.len(),
{
    let made = q8_chunks_made(c, input, w, plan, argmax);
    if plan.len() == 0 {
        assert(q8_rows_of(made.1) =~= plan);
    } else {
        lemma_q8_chunk_rows(c, input, w, plan.drop_last(), argmax);
        let done = q8_chunks_made(c, input, w, plan.drop_last(), argmax);
        assert(q8_rows_of(made.1) =~= q8_rows_of(done.1).push(plan.last()));
        assert(plan =~= plan.drop_last().push(plan.last()));
    }
}

/// Appends the commands of some chunks, or says what is missing.
pub fn push_q8_chunks(
    encoder: &mut GpuEncoder,
    buffers: &mut Vec<usize>,
    chunks: &[GpuQ8MatVecChunk],
    kernel: GpuPipeline,
    who: &str,
) -> (r: Option<String>)
    requires
        kernel is Q8MatVec || kernel is Q8MatVecVec4,
    ensures
        match r {
            None => {
                &&& chunks_released(chunks@, who@) is None
                &&& final(encoder)@ == old(encoder)@ + q8_chunks_commands(chunks@, kernel)
                &&& final(buffers)@ == old(buffers)@ + q8_readbacks_of(chunks@)
            },
            Some(e) => chunks_released(chunks@, who@) == Some(e@),
        },
{
    let ghost before = encoder@;
    let ghost list = buffers@;
    let mut i: usize = 0;
    proof {
        assert(chunks@.take(0) =~= Seq::<GpuQ8MatVecChunk>::empty());
        assert(before + q8_chunks_commands(chunks@.take(0), kernel) =~= before);
        assert(list + q8_readbacks_of(chunks@).take(0) =~= list);
    }
    while i < chunks.len()
        invariant
            i <= chunks@.len(),
            kernel is Q8MatVec || kernel is Q8MatVecVec4,
            chunks_released(chunks@.take(i as int), who@) is None,
            encoder@ == before + q8_chunks_commands(chunks@.take(i as int), kernel),
            buffers@ == list + q8_readbacks_of(chunks@).take(i as int),
        decreases chunks@.len() - i,
    {
        let c = chunks[i];
        proof {
            assert(chunks@.take(i + 1).drop_last() =~= chunks@.take(i as int));
            assert(chunks@.take(i + 1).last() == c);
        }
        let ghost so_far = encoder@;
        let input: usize = match c.input_buffer {
            Some(b) => b,
            None => {
                proof {
                    lemma_released(chunks@, i + 1, who@);
                }
                return Some(text::joined(who, " bind group was released"));
            },
        };
        let readback: usize = match c.readback_buffer {
            Some(b) => b,
            None => {
                proof {
                    lemma_released(chunks@, i + 1, who@);
                }
                return Some(text::joined(who, " readback buffer was released"));
            },
        };
        encoder.begin_compute_pass();
        dispatch_q8(encoder, kernel, chunk_binds(&c, input), c.rows.out_features as u32);
        encoder.copy_buffer(c.output_buffer, readback, 0, c.rows.out_features);
        buffers.push(readback);
        proof {
            assert(encoder@ =~= so_far + q8_chunk_commands(c, kernel));
            assert(encoder@ =~= before + q8_chunks_commands(chunks@.take(i + 1), kernel));
            assert(buffers@ =~= list + q8_readbacks_of(chunks@).take(i + 1));
        }
        i += 1;
    }
    proof {
        assert(chunks@.take(chunks@.len() as int) =~= chunks@);
        assert(q8_readbacks_of(chunks@).take(chunks@.len() as int) =~= q8_readbacks_of(chunks@));
    }
    None
}

proof fn lemma_released(chunks: Seq<GpuQ8MatVecChunk>, i: int, who: Seq<char>)
    requires
        0 <= i <= chunks.len(),
        chunks_released(chunks.take(i), who) is Some,
    ensures
        chunks_released(chunks, who) == chunks_released(chunks.take(i), who),
    decreases chunks.len() - i,
{
    if i == chunks.len() {
        assert(chunks.take(i) =~= chunks);
    } else {
        assert(chunks.take(i + 1).drop_last() =~= chunks.take(i));
        lemma_released(chunks, i + 1, who);
    }
}

proof fn lemma_many_released(m: Seq<&GpuQ8MatVec>, i: int)
    requires
        0 <= i <= m.len(),
        many_released(m.take(i)) is Some,
    ensures
        many_released(m) == many_released(m.take(i)),
    decreases m.len() - i,
{
    if i == m.len() {
        assert(m.take(i) =~= m);
    } else {
        assert(m.take(i + 1).drop_last() =~= m.take(i));
        lemma_many_released(m, i + 1);
    }
}

impl GpuQ8MatVec {
    /// The chunks take every row once, and each has at most one result for a workgroup.
    pub open spec fn well_formed(&self) -> bool {
        &&& rows::covers(q8_rows_of(self.chunks@), self.out_features as int)
        &&& results_fit(self.chunks@)
    }

    /// Puts a weight on the device, with what finding the largest product needs.
    pub fn from_q8_weight_with_context(context: &mut GpuContext, weight: &Q8LinearWeight) -> (r:
        Result<GpuQ8MatVec, String>)
        requires
            weight.out_features * weight.in_features <= usize::MAX,
            weight.in_features + 3 <= usize::MAX,
        ensures
            q8_new(old(context)@, final(context)@, *weight, true, r),
    {
        GpuQ8MatVec::from_q8_weight_with_context_and_argmax(context, weight, true)
    }

    /// Puts a weight on the device.
    pub fn from_q8_weight_with_context_and_argmax(
        context: &mut GpuContext,
        weight: &Q8LinearWeight,
        enable_argmax: bool,
    ) -> (r: Result<GpuQ8MatVec, String>)
        requires
            weight.out_features * weight.in_features <= usize::MAX,
            weight.in_features + 3 <= usize::MAX,
        ensures
            q8_new(old(context)@, final(context)@, *weight, enable_argmax, r),
    {
        let out_features: usize = weight.out_features;
        let in_features: usize = weight.in_features;
        let expected: usize = out_features * in_features;
        if weight.qweight.len() != expected {
            return Err(
                two_sizes(
                    "GPU Q8 matvec qweight length mismatch: got ",
                    weight.qweight.len(),
                    ", expected ",
                    expected,
                ),
            );
        }
        if weight.scales.len() != out_features {
            return Err(
                two_sizes(
                    "GPU Q8 matvec scale length mismatch: got ",
                    weight.scales.len(),
                    ", expected ",
                    out_features,
                ),
            );
        }
        if in_features == 0 || out_features == 0 {
            return Err("GPU Q8 matvec requires non-empty dimensions".to_owned());
        }
        let words: usize = words_per_row(in_features);
        let row_bytes: u64 = bytes_len(words);
        let limit: u64 = context.max_chunk_bytes;
        if row_bytes > limit {
            let mut s =
                "Q8 matvec row is too large for one GPU storage buffer binding: row=".to_owned();
            text::push_dec(&mut s, row_bytes as u128);
            s.append(", limit=");
            text::push_dec(&mut s, limit as u128);
            return Err(s);
        }
        let most: usize = rows_for_chunk(limit, row_bytes);
        proof {
            rows::law_chunk_fits(limit, row_bytes, 0);
        }
        let plan = plan_rows(most, out_features);
        let input_buffer: usize = context.create_buffer(in_features, GpuUsage::Input);
        let mut chunks: Vec<GpuQ8MatVecChunk> = Vec::new();
        let ghost start = context@;
        let mut i: usize = 0;
        assert(plan@.take(0) =~= Seq::<GpuRows>::empty());
        while i < plan.len()
            invariant
                i <= plan@.len(),
                weight.well_formed(),
                weight.in_features + 3 <= usize::MAX,
                rows::covers(plan@, weight.out_features as int),
                (context@, chunks@) == q8_chunks_made(
                    start,
                    input_buffer,
                    *weight,
                    plan@.take(i as int),
                    enable_argmax,
                ),
            decreases plan@.len() - i,
        {
            proof {
                rows::lemma_covers_bound(plan@, weight.out_features as int, i as int);
                assert(plan@.take(i + 1).drop_last() =~= plan@.take(i as int));
                assert(plan@.take(i + 1).last() == plan@[i as int]);
            }
            let chunk = create_q8_chunk(context, input_buffer, weight, plan[i], enable_argmax);
            chunks.push(chunk);
            i += 1;
        }
        proof {
            assert(plan@.take(plan@.len() as int) =~= plan@);
            lemma_q8_chunk_rows(start, input_buffer, *weight, plan@, enable_argmax);
        }
        Ok(
            GpuQ8MatVec {
                context: context.id,
                input_buffer: Some(input_buffer),
                chunks,
                in_features,
                out_features,
            },
        )
    }

    /// Whether the largest product can be found on the device.
    pub fn supports_argmax(&self) -> (r: bool)
        ensures
            r == !no_argmax(self.chunks@),
    {
        let mut i: usize = 0;
        while i < self.chunks.len()
            invariant
                i <= self.chunks@.len(),
                forall|j: int| 0 <= j < i ==> (#[trigger] self.chunks@[j]).argmax is Some,
            decreases self.chunks@.len() - i,
        {
            if self.chunks[i].argmax.is_none() {
                assert(self.chunks@[i as int].argmax is None);
                return false;
            }
            i += 1;
        }
        true
    }

    /// Gives up what only the matrix's own products need.
    pub fn release_standalone_forward_resources(&mut self, keep_readback: bool)
        ensures
            final(self).input_buffer is None,
            final(self).context == old(self).context,
            final(self).in_features == old(self).in_features,
            final(self).out_features == old(self).out_features,
            final(self).chunks@ == old(self).chunks@.map_values(
                |c: GpuQ8MatVecChunk| stripped(c, keep_readback),
            ),
            old(self).well_formed() ==> final(self).well_formed(),
    {
        self.input_buffer = None;
        let ghost before = self.chunks@;
        let ghost done = before.map_values(|c: GpuQ8MatVecChunk| stripped(c, keep_readback));
        let mut i: usize = 0;
        while i < self.chunks.len()
            invariant
                i <= self.chunks@.len(),
                self.chunks@.len() == before.len(),
                done == before.map_values(|c: GpuQ8MatVecChunk| stripped(c, keep_readback)),
                self.input_buffer is None,
                self.context == old(self).context,
                self.in_features == old(self).in_features,
                self.out_features == old(self).out_features,
                before == old(self).chunks@,
                forall|j: int| 0 <= j < i ==> self.chunks@[j] == done[j],
                forall|j: int| i <= j < before.len() ==> self.chunks@[j] == before[j],
            decreases self.chunks@.len() - i,
        {
            let mut c = self.chunks[i];
            c.input_buffer = None;
            if !keep_readback {
                c.readback_buffer = None;
            }
            self.chunks.set(i, c);
            i += 1;
        }
        assert(self.chunks@ =~= done);
        assert(q8_rows_of(self.chunks@) =~= q8_rows_of(before));
    }

    /// Multiplies the matrix with a row; the products are read from the buffers returned.
    pub fn forward(&self, context: &mut GpuContext, x: &Tensor) -> (r: Result<Vec<usize>, String>)
        requires
            old(context)@.id == self.context,
        ensures
            match q8_many_error(seq![self], x.dims()) {
                Some(e) => r is Err && r->Err_0@ == e && final(context)@ == old(context)@,
                None => q8_raw_result(
                    old(context)@,
                    final(context)@,
                    seq![self],
                    x.values(),
                    r,
                ),
            },
    {
        let list: Vec<&GpuQ8MatVec> = vec![self];
        assert(list@ =~= seq![self]);
        GpuQ8MatVec::forward_many_same_input(context, &list, x)
    }

    /// Multiplies the matrix with some numbers; the products are read from the buffers returned.
    pub fn forward_raw(&self, context: &mut GpuContext, input: &[u32]) -> (r: Result<
        Vec<usize>,
        String,
    >)
        requires
            old(context)@.id == self.context,
        ensures
            q8_raw_result(old(context)@, final(context)@, seq![self], input@, r),
    {
        let list: Vec<&GpuQ8MatVec> = vec![self];
        assert(list@ =~= seq![self]);
        GpuQ8MatVec::forward_many_same_input_raw(context, &list, input)
    }

    /// The products of the matrix, from what was read.
    pub fn forward_raw_output(&self, parts: &[Vec<u32>]) -> (r: Vec<u32>)
        requires
            self.well_formed(),
            rows::parts_fit(q8_rows_of(self.chunks@), rows::word_lists(parts@)),
        ensures
            r@ == rows::concat(rows::word_lists(parts@)),
            r@.len() == self.out_features,
    {
        let words = gather(parts, 0, parts.len());
        proof {
            let all = rows::word_lists(parts@);
            assert(all.subrange(0, all.len() as int) =~= all);
            rows::law_parts_land(q8_rows_of(self.chunks@), all, self.out_features as int);
        }
        words
    }

    /// The products of the matrix as one row, from what was read.
    pub fn forward_output(&self, parts: &[Vec<u32>]) -> (r: Result<Tensor, String>)
        requires
            self.well_formed(),
            rows::parts_fit(q8_rows_of(self.chunks@), rows::word_lists(parts@)),
        ensures
            match r {
                Ok(t) => {
                    &&& matvec::output_failure(self.out_features) is None
                    &&& t.dims() == seq![1usize, self.out_features]
                    &&& t.values() == rows::concat(rows::word_lists(parts@))
                },
                Err(e) => matvec::output_failure(self.out_features) == Some(e@),
            },
    {
        let words = self.forward_raw_output(parts);
        let shape: Vec<usize> = vec![1, self.out_features];
        assert(shape@ =~= seq![1usize, self.out_features]);
        tensor_from_words(&shape, words)
    }

    /// Finds the largest product of the matrix with a row; the results are read from the buffers
    /// returned.
    pub fn forward_argmax(&self, context: &mut GpuContext, x: &Tensor) -> (r: Result<
        Vec<usize>,
        String,
    >)
        requires
            old(context)@.id == self.context,
            self.well_formed(),
        ensures
            ({
                let given = context::written(
                    old(context)@,
                    self.input_buffer->0,
                    x.values(),
                    GpuWrite::Uncounted,
                );
                match r {
                    Ok(buffers) => {
                        &&& x.dims() == seq![1usize, self.in_features]
                        &&& self.input_buffer is Some
                        &&& !no_argmax(self.chunks@)
                        &&& buffers@ == argmax_readbacks(self.chunks@)
                        &&& final(context)@ == context::read_back(
                            given,
                            argmax_commands(self.chunks@),
                            buffers@,
                        )
                    },
                    Err(e) => if x.dims() != seq![1usize, self.in_features] {
                        &&& e@ == "GPU Q8 argmax expects [1, "@ + text::dec(
                            self.in_features as nat,
                        ) + "], got "@ + text::bracketed(x.dims())
                        &&& final(context)@ == old(context)@
                    } else if self.input_buffer is None {
                        &&& e@ == "GPU Q8 argmax input buffer was released"@
                        &&& final(context)@ == old(context)@
                    } else {
                        &&& no_argmax(self.chunks@)
                        &&& e@ == "GPU Q8 argmax bind group was not attached"@
                        &&& final(context)@ == given
                    },
                }
            }),
    {
        if !is_row(x, self.in_features) {
            return Err(expects_row("GPU Q8 argmax expects [1, ", self.in_features, x.shape()));
        }
        let input: usize = match self.input_buffer {
            Some(b) => b,
            None => {
                return Err("GPU Q8 argmax input buffer was released".to_owned());
            },
        };
        context.write_buffer(input, x.standard_values(), GpuWrite::Uncounted);
        let ghost given = context@;
        let ghost chunks = self.chunks@;
        let mut encoder = context.create_command_encoder();
        let mut buffers: Vec<usize> = Vec::new();
        let mut i: usize = 0;
        assert(chunks.take(0) =~= Seq::<GpuQ8MatVecChunk>::empty());
        while i < self.chunks.len()
            invariant
                i <= chunks.len(),
                chunks == self.chunks@,
                self.input_buffer == Some(input),
                x.dims() == seq![1usize, self.in_features],
                context@ == given,
                given == context::written(
                    old(context)@,
                    input,
                    x.values(),
                    GpuWrite::Uncounted,
                ),
                results_fit(chunks),
                forall|j: int| 0 <= j < i ==> (#[trigger] chunks[j]).argmax is Some,
                encoder@ == argmax_commands(chunks.take(i as int)),
                buffers@ == argmax_readbacks(chunks).take(i as int),
            decreases chunks.len() - i,
        {
            let c = self.chunks[i];
            let a = match c.argmax {
                Some(a) => a,
                None => {
                    assert(chunks[i as int].argmax is None);
                    return Err("GPU Q8 argmax bind group was not attached".to_owned());
                },
            };
            proof {
                assert(chunks.take(i + 1).drop_last() =~= chunks.take(i as int));
                assert(chunks.take(i + 1).last() == c);
                assert(chunks[i as int].argmax_results <= 0x0400_0000);
            }
            encoder.begin_compute_pass();
            encoder.dispatch(
                GpuPipeline::Argmax,
                GpuBindGroup::Argmax {
                    input: a.input,
                    qweight: c.qweight_buffer,
                    scales: c.scales_buffer,
                    result: a.result,
                    params: a.params,
                },
                c.argmax_results as u32,
            );
            encoder.copy_buffer(a.result, a.readback, 0, 2 * c.argmax_results);
            buffers.push(a.readback);
            i += 1;
            assert(encoder@ =~= argmax_commands(chunks.take(i as int)));
            assert(buffers@ =~= argmax_readbacks(chunks).take(i as int));
        }
        assert(chunks.take(chunks.len() as int) =~= chunks);
        assert(argmax_readbacks(chunks).take(chunks.len() as int) =~= argmax_readbacks(chunks));
        context.submit_and_map(encoder, &buffers);
        Ok(buffers)
    }

    /// The place of the largest product, from what was read.
    pub fn forward_argmax_output(&self, parts: &[Vec<u32>]) -> (r: Result<u32, String>)
        ensures
            ({
                let words = rows::concat(rows::word_lists(parts@));
                let best = best_result(words, words.len() / 2);
                match r {
                    Ok(i) => best is Some && (best->0).0 == i,
                    Err(e) => best is None && e@ == "GPU Q8 argmax has no chunks"@,
                }
            }),
    {
        let words = gather(parts, 0, parts.len());
        proof {
            let all = rows::word_lists(parts@);
            assert(all.subrange(0, all.len() as int) =~= all);
        }
        let n: usize = words.len() / 2;
        let mut best: Option<(u32, u32)> = None;
        let mut i: usize = 0;
        while i < n
            invariant
                i <= n,
                n == words@.len() / 2,
                best == best_result(words@, i as nat),
            decreases n - i,
        {
            let index: u32 = words[2 * i];
            let value: u32 = words[2 * i + 1];
            best = match best {
                None => Some((index, value)),
                Some(b) => if is_greater(value, b.1) {
                    Some((index, value))
                } else {
                    Some(b)
                },
            };
            i += 1;
        }
        match best {
            Some(b) => Ok(b.0),
            None => Err("GPU Q8 argmax has no chunks".to_owned()),
        }
    }

    /// Multiplies with a resident value and collects the products in another, in passes of its
    /// own.
    pub fn encode_resident(
        &self,
        encoder: &mut GpuEncoder,
        input: &GpuResidentBuffer,
        output: &GpuResidentBuffer,
    ) -> (r: Result<(), String>)
        ensures
            match r {
                Ok(()) => {
                    &&& q8_cache_error(*self, *input, *output) is None
                    &&& final(encoder)@ == old(encoder)@ + q8_resident_commands(
                        self.chunks@,
                        q8_all_binds(self.chunks@, input.buffer),
                        q8_kernel(self.in_features),
                        output.buffer,
                        self.chunks@.len(),
                    )
                },
                Err(e) => {
                    &&& q8_cache_error(*self, *input, *output) == Some(e@)
                    &&& final(encoder)@ == old(encoder)@
                },
            },
    {
        match self.prepare_resident_cache(input, output) {
            Ok(cache) => self.encode_resident_with_cache(encoder, input, output, &cache),
            Err(e) => Err(e),
        }
    }

    fn check_resident(&self, input: &GpuResidentBuffer, output: &GpuResidentBuffer) -> (r: Option<
        String,
    >)
        ensures
            match r {
                Some(e) => q8_cache_error(*self, *input, *output) == Some(e@),
                None => q8_cache_error(*self, *input, *output) is None,
            },
    {
        if self.context != input.context || self.context != output.context {
            return Some("GPU Q8 matvec resident path requires shared GpuContext".to_owned());
        }
        if input.len != self.in_features {
            return Some(
                two_sizes(
                    "GPU Q8 matvec resident input length mismatch: got ",
                    input.len,
                    ", expected ",
                    self.in_features,
                ),
            );
        }
        if output.len != self.out_features {
            return Some(
                two_sizes(
                    "GPU Q8 matvec resident output length mismatch: got ",
                    output.len,
                    ", expected ",
                    self.out_features,
                ),
            );
        }
        None
    }

    /// The buffers for products with a resident value.
    pub fn prepare_resident_cache(&self, input: &GpuResidentBuffer, output: &GpuResidentBuffer) -> (r:
        Result<GpuQ8MatVecResidentCache, String>)
        ensures
            match r {
                Ok(c) => {
                    &&& q8_cache_error(*self, *input, *output) is None
                    &&& c.groups@ == q8_all_binds(self.chunks@, input.buffer)
                },
                Err(e) => q8_cache_error(*self, *input, *output) == Some(e@),
            },
    {
        match self.check_resident(input, output) {
            Some(e) => Err(e),
            None => Ok(GpuQ8MatVecResidentCache { groups: all_binds(&self.chunks, input.buffer) }),
        }
    }

    /// Multiplies with prepared buffers and collects the products, in passes of its own.
    pub fn encode_resident_with_cache(
        &self,
        encoder: &mut GpuEncoder,
        input: &GpuResidentBuffer,
        output: &GpuResidentBuffer,
        cache: &GpuQ8MatVecResidentCache,
    ) -> (r: Result<(), String>)
        ensures
            match r {
                Ok(()) => {
                    &&& q8_cache_error(*self, *input, *output) is None
                    &&& cache.groups@.len() == self.chunks@.len()
                    &&& final(encoder)@ == old(encoder)@ + q8_resident_commands(
                        self.chunks@,
                        cache.groups@,
                        q8_kernel(self.in_features),
                        output.buffer,
                        self.chunks@.len(),
                    )
                },
                Err(e) => {
                    &&& final(encoder)@ == old(encoder)@
                    &&& match q8_cache_error(*self, *input, *output) {
                        Some(m) => e@ == m,
                        None => {
                            &&& cache.groups@.len() != self.chunks@.len()
                            &&& e@ == "GPU Q8 matvec resident cache chunk layout mismatch"@
                        },
                    }
                },
            },
    {
        match self.check_resident(input, output) {
            Some(e) => {
                return Err(e);
            },
            None => {},
        }
        if cache.groups.len() != self.chunks.len() {
            return Err("GPU Q8 matvec resident cache chunk layout mismatch".to_owned());
        }
        let kernel = kernel_for_width(self.in_features);
        let ghost before = encoder@;
        let mut i: usize = 0;
        assert(before + q8_resident_commands(
            self.chunks@,
            cache.groups@,
            kernel,
            output.buffer,
            0,
        ) =~= before);
        while i < self.chunks.len()
            invariant
                i <= self.chunks@.len(),
                cache.groups@.len() == self.chunks@.len(),
                kernel is Q8MatVec || kernel is Q8MatVecVec4,
                encoder@ == before + q8_resident_commands(
                    self.chunks@,
                    cache.groups@,
                    kernel,
                    output.buffer,
                    i as nat,
                ),
            decreases self.chunks@.len() - i,
        {
            let c = self.chunks[i];
            let ghost so_far = encoder@;
            encoder.begin_compute_pass();
            dispatch_q8(encoder, kernel, cache.groups[i], c.rows.out_features as u32);
            encoder.copy_buffer(
                c.output_buffer,
                output.buffer,
                c.rows.out_offset,
                c.rows.out_features,
            );
            i += 1;
            assert(encoder@ =~= before + q8_resident_commands(
                self.chunks@,
                cache.groups@,
                kernel,
                output.buffer,
                i as nat,
            ));
        }
        Ok(())
    }

    /// Multiplies some matrices with the same row; the products are read from the buffers
    /// returned.
    pub fn forward_many_same_input(context: &mut GpuContext, matvecs: &[&GpuQ8MatVec], x: &Tensor)
        -> (r: Result<Vec<usize>, String>)
        requires
            matvecs@.len() > 0 ==> old(context)@.id == matvecs@[0].context,
        ensures
            match q8_many_error(matvecs@, x.dims()) {
                Some(e) => r is Err && r->Err_0@ == e && final(context)@ == old(context)@,
                None => q8_raw_result(
                    old(context)@,
                    final(context)@,
                    matvecs@,
                    x.values(),
                    r,
                ),
            },
    {
        if matvecs.len() == 0 {
            return Ok(Vec::new());
        }
        let first = matvecs[0];
        if !is_row(x, first.in_features) {
            return Err(expects_row("GPU Q8 matvec expects [1, ", first.in_features, x.shape()));
        }
        let mut i: usize = 0;
        while i < matvecs.len()
            invariant
                i <= matvecs@.len(),
                matvecs@.len() > 0,
                first == matvecs@[0],
                x.dims() == seq![1usize, first.in_features],
                context@ == old(context)@,
                forall|j: int| 0 <= j < i ==> (#[trigger] matvecs@[j]).in_features
                    == first.in_features,
            decreases matvecs@.len() - i,
        {
            if matvecs[i].in_features != first.in_features {
                assert(matvecs@[i as int].in_features != matvecs@[0].in_features);
                return Err("GPU Q8 matvec batch requires the same input width".to_owned());
            }
            i += 1;
        }
        let mut i: usize = 0;
        while i < matvecs.len()
            invariant
                i <= matvecs@.len(),
                matvecs@.len() > 0,
                first == matvecs@[0],
                x.dims() == seq![1usize, first.in_features],
                context@ == old(context)@,
                forall|j: int| 0 <= j < matvecs@.len() ==> (#[trigger] matvecs@[j]).in_features
                    == first.in_features,
                forall|j: int| 0 <= j < i ==> (#[trigger] matvecs@[j]).context == first.context,
            decreases matvecs@.len() - i,
        {
            if matvecs[i].context != first.context {
                assert(matvecs@[i as int].context != matvecs@[0].context);
                return Err("GPU Q8 matvec batch requires a shared GpuContext".to_owned());
            }
            i += 1;
        }
        assert(q8_many_error(matvecs@, x.dims()) is None);
        let input = x.standard_values();
        GpuQ8MatVec::forward_many_same_input_raw(context, matvecs, &input)
    }

    /// Multiplies some matrices with the same numbers; the products are read from the buffers
    /// returned, matrix by matrix and chunk by chunk.
    pub fn forward_many_same_input_raw(
        context: &mut GpuContext,
        matvecs: &[&GpuQ8MatVec],
        input: &[u32],
    ) -> (r: Result<Vec<usize>, String>)
        requires
            q8_all_on(old(context)@.id, matvecs@),
        ensures
            q8_raw_result(old(context)@, final(context)@, matvecs@, input@, r),
    {
        let mut buffers: Vec<usize> = Vec::new();
        if matvecs.len() == 0 {
            return Ok(buffers);
        }
        let first = matvecs[0];
        if input.len() != first.in_features {
            return Err(
                two_sizes(
                    "GPU Q8 matvec raw input expects ",
                    first.in_features,
                    " values, got ",
                    input.len(),
                ),
            );
        }
        let ghost c = context@;
        let ghost m = matvecs@;
        let mut i: usize = 0;
        while i < matvecs.len()
            invariant
                i <= matvecs@.len(),
                m == matvecs@,
                m.len() > 0,
                input@.len() == m[0].in_features,
                context@ == c,
                c == old(context)@,
                forall|j: int| 0 <= j < i ==> (#[trigger] m[j]).input_buffer is Some,
            decreases matvecs@.len() - i,
        {
            if matvecs[i].input_buffer.is_none() {
                assert(m[i as int].input_buffer is None);
                return Err("GPU Q8 matvec batch requires standalone input buffers".to_owned());
            }
            i += 1;
        }
        let mut i: usize = 0;
        assert(m.take(0) =~= Seq::<&GpuQ8MatVec>::empty());
        while i < matvecs.len()
            invariant
                i <= matvecs@.len(),
                m == matvecs@,
                forall|j: int| 0 <= j < m.len() ==> (#[trigger] m[j]).input_buffer is Some,
                context@ == q8_many_written(c, m.take(i as int), input@),
            decreases matvecs@.len() - i,
        {
            proof {
                assert(m.take(i + 1).drop_last() =~= m.take(i as int));
                assert(m.take(i + 1).last() == m[i as int]);
                assert(m[i as int].input_buffer is Some);
            }
            let buffer: usize = match matvecs[i].input_buffer {
                Some(b) => b,
                None => 0,
            };
            context.write_buffer(
                buffer,
                vstd::slice::slice_to_vec(input),
                GpuWrite::Uncounted,
            );
            i += 1;
        }
        assert(m.take(m.len() as int) =~= m);
        let ghost given = context@;
        let mut encoder = context.create_command_encoder();
        let mut i: usize = 0;
        assert(m.take(0) =~= Seq::<&GpuQ8MatVec>::empty());
        while i < matvecs.len()
            invariant
                i <= matvecs@.len(),
                m == matvecs@,
                m.len() > 0,
                c == old(context)@,
                context@ == given,
                given == q8_many_written(c, m, input@),
                q8_raw_error(m, input@.len()) is None,
                many_released(m.take(i as int)) is None,
                encoder@ == q8_many_commands(m.take(i as int)),
                buffers@ == q8_many_readbacks(m.take(i as int)),
            decreases matvecs@.len() - i,
        {
            let matvec = matvecs[i];
            proof {
                assert(m.take(i + 1).drop_last() =~= m.take(i as int));
                assert(m.take(i + 1).last() == m[i as int]);
            }
            let kernel = kernel_for_width(matvec.in_features);
            match push_q8_chunks(
                &mut encoder,
                &mut buffers,
                &matvec.chunks,
                kernel,
                "GPU Q8 matvec",
            ) {
                Some(e) => {
                    proof {
                        lemma_many_released(m, i + 1);
                    }
                    return Err(e);
                },
                None => {},
            }
            i += 1;
        }
        assert(m.take(m.len() as int) =~= m);
        context.submit_and_map(encoder, &buffers);
        Ok(buffers)
    }
}

/// What putting a weight on the device gives.
pub open spec fn q8_new(
    before: context::ContextView,
    after: context::ContextView,
    w: Q8LinearWeight,
    argmax: bool,
    r: Result<GpuQ8MatVec, String>,
) -> bool {
    match r {
        Ok(m) => {
            let all = q8_chunks_made(
                context::made(before, w.in_features, GpuUsage::Input),
                context::fresh(before),
                w,
                q8_plan(before.max_chunk_bytes, w),
                argmax,
            );
            &&& q8_weight_error(before.max_chunk_bytes, w) is None
            &&& m.context == before.id
            &&& m.input_buffer == Some(context::fresh(before))
            &&& m.in_features == w.in_features
            &&& m.out_features == w.out_features
            &&& m.chunks@ == all.1
            &&& after == all.0
            &&& m.well_formed()
        },
        Err(e) => q8_weight_error(before.max_chunk_bytes, w) == Some(e@) && after == before,
    }
}

} // verus!
