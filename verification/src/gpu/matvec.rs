//! Products of a matrix in half precision with one row, and the gated layer built on them.

use vstd::prelude::*;
use vstd::string::*;

use crate::gpu::context;
use crate::gpu::context::{
    bytes_len, tensor_from_words, workgroups_for, GpuBindGroup, GpuCommand, GpuContext, GpuEncoder,
    GpuPipeline, GpuUsage, GpuWrite,
};
use crate::gpu::resident::two_sizes;
use crate::gpu::rows;
use crate::gpu::rows::{gather, plan_rows, rows_for_chunk, GpuRows};
use crate::tensor::dtypes;
use crate::tensor::dtypes::f16_slice_to_f32;
use crate::tensor::Tensor;
use crate::text;

verus! {

/// Some rows of a matrix on the device, with the buffers for their products.
#[derive(Clone, Copy, Debug)]
pub struct GpuMatVecChunk {
    pub input_buffer: usize,
    pub weight_buffer: usize,
    pub output_buffer: usize,
    pub readback_buffer: usize,
    pub params_buffer: usize,
    pub rows: GpuRows,
}

/// A matrix on the device.
#[derive(Debug)]
pub struct GpuMatVec {
    pub context: u64,
    pub input_buffer: usize,
    pub chunks: Vec<GpuMatVecChunk>,
    pub in_features: usize,
    pub out_features: usize,
}

/// The buffers of a chunk, for the kernel.
pub open spec fn chunk_group(c: GpuMatVecChunk) -> GpuBindGroup {
    GpuBindGroup::MatVec {
        input: c.input_buffer,
        weight: c.weight_buffer,
        output: c.output_buffer,
        params: c.params_buffer,
    }
}

/// The runs of rows of some chunks.
pub open spec fn rows_of(chunks: Seq<GpuMatVecChunk>) -> Seq<GpuRows> {
    chunks.map_values(|c: GpuMatVecChunk| c.rows)
}

/// The buffers from which the products of some chunks are read.
pub open spec fn readbacks_of(chunks: Seq<GpuMatVecChunk>) -> Seq<usize> {
    chunks.map_values(|c: GpuMatVecChunk| c.readback_buffer)
}

/// Putting some rows of a matrix on the device.
pub open spec fn chunk_made(
    c: context::ContextView,
    input: usize,
    weight: Seq<u16>,
    in_features: usize,
    r: GpuRows,
) -> (context::ContextView, GpuMatVecChunk) {
    let start = r.out_offset * in_features;
    let end = start + r.out_features * in_features;
    let c1 = context::filled(
        c,
        weight.subrange(start, end).map_values(|h: u16| dtypes::widened(h)),
        GpuUsage::Weight,
    );
    let c2 = context::made(c1, r.out_features, GpuUsage::Output);
    let c3 = context::made(c2, r.out_features, GpuUsage::Readback);
    let c4 = context::filled(
        c3,
        seq![in_features as u32, r.out_features as u32, 0, 0],
        GpuUsage::Params,
    );
    (
        c4,
        GpuMatVecChunk {
            input_buffer: input,
            weight_buffer: context::fresh(c),
            output_buffer: context::fresh(c1),
            readback_buffer: context::fresh(c2),
            params_buffer: context::fresh(c3),
            rows: r,
        },
    )
}

/// Putting the planned runs of rows on the device in turn.
pub open spec fn chunks_made(
    c: context::ContextView,
    input: usize,
    weight: Seq<u16>,
    in_features: usize,
    plan: Seq<GpuRows>,
) -> (context::ContextView, Seq<GpuMatVecChunk>)
    decreases plan.len(),
{
    if plan.len() == 0 {
        (c, Seq::empty())
    } else {
        let done = chunks_made(c, input, weight, in_features, plan.drop_last());
        let one = chunk_made(done.0, input, weight, in_features, plan.last());
        (one.0, done.1.push(one.1))
    }
}

/// Why a matrix cannot be put on a device.
pub open spec fn weight_error(limit: u64, len: nat, out: usize, in_features: usize) -> Option<
    Seq<char>,
> {
    let row = in_features * 4;
    if len != out * in_features {
        Some(
            "GPU matvec weight length mismatch: got "@ + text::dec(len) + ", expected "@
                + text::dec((out * in_features) as nat),
        )
    } else if row == 0 || row > limit {
        Some(
            "lm_head row is too large for one GPU storage buffer binding: row="@ + text::dec(
                row as nat,
            ) + ", limit="@ + text::dec(limit as nat),
        )
    } else {
        None
    }
}

/// The runs in which a matrix is put on a device.
pub open spec fn weight_plan(limit: u64, out: usize, in_features: usize) -> Seq<GpuRows> {
    rows::planned(rows::rows_per_chunk(limit, (in_features * 4) as u64), out, 0)
}

/// The commands that multiply the rows of a chunk, and copy the products out where `copied`.
pub open spec fn chunk_commands(c: GpuMatVecChunk, copied: bool) -> Seq<GpuCommand> {
    let product = seq![
        GpuCommand::BeginPass,
        context::run(
            GpuPipeline::MatVec,
            chunk_group(c),
            context::workgroups(c.rows.out_features as u32),
        ),
    ];
    if copied {
        product.push(
            context::copy(c.output_buffer, c.readback_buffer, 0, c.rows.out_features),
        )
    } else {
        product
    }
}

/// The commands of some chunks in turn.
pub open spec fn chunks_commands(chunks: Seq<GpuMatVecChunk>, copied: bool) -> Seq<GpuCommand>
    decreases chunks.len(),
{
    if chunks.len() == 0 {
        Seq::empty()
    } else {
        chunks_commands(chunks.drop_last(), copied) + chunk_commands(chunks.last(), copied)
    }
}

/// The commands of some matrices in turn.
pub open spec fn many_commands(m: Seq<&GpuMatVec>) -> Seq<GpuCommand>
    decreases m.len(),
{
    if m.len() == 0 {
        Seq::empty()
    } else {
        many_commands(m.drop_last()) + chunks_commands(m.last().chunks@, true)
    }
}

/// The buffers from which the products of some matrices are read.
pub open spec fn many_readbacks(m: Seq<&GpuMatVec>) -> Seq<usize>
    decreases m.len(),
{
    if m.len() == 0 {
        Seq::empty()
    } else {
        many_readbacks(m.drop_last()) + readbacks_of(m.last().chunks@)
    }
}

/// Giving some matrices the same input.
pub open spec fn many_written(c: context::ContextView, m: Seq<&GpuMatVec>, words: Seq<u32>)
    -> context::ContextView
    decreases m.len(),
{
    if m.len() == 0 {
        c
    } else {
        context::written(
            many_written(c, m.drop_last(), words),
            m.last().input_buffer,
            words,
            GpuWrite::Host,
        )
    }
}

/// Why some matrices cannot be multiplied with the same row.
pub open spec fn many_error(m: Seq<&GpuMatVec>, dims: Seq<usize>) -> Option<Seq<char>> {
    if m.len() == 0 {
        None
    } else if dims != seq![1usize, m[0].in_features] {
        Some(
            "GPU matvec expects [1, "@ + text::dec(m[0].in_features as nat) + "], got "@
                + text::bracketed(dims),
        )
    } else if exists|i: int|
        0 <= i < m.len() && (#[trigger] m[i]).in_features != m[0].in_features {
        Some("GPU matvec batch requires the same input width"@)
    } else if exists|i: int| 0 <= i < m.len() && (#[trigger] m[i]).context != m[0].context {
        Some("GPU matvec batch requires a shared GpuContext"@)
    } else {
        None
    }
}

/// What a device does to multiply some matrices with the same row.
pub open spec fn many_run(c: context::ContextView, m: Seq<&GpuMatVec>, words: Seq<u32>)
    -> context::ContextView {
    if m.len() == 0 {
        c
    } else {
        context::read_back(many_written(c, m, words), many_commands(m), many_readbacks(m))
    }
}

/// The number of chunks of some matrices.
pub open spec fn chunk_count(m: Seq<&GpuMatVec>) -> nat
    decreases m.len(),
{
    if m.len() == 0 {
        0
    } else {
        chunk_count(m.drop_last()) + m.last().chunks@.len()
    }
}

/// What was read for the matrix with number `i`.
pub open spec fn own_parts(m: Seq<&GpuMatVec>, parts: Seq<Seq<u32>>, i: int) -> Seq<Seq<u32>> {
    let start = chunk_count(m.take(i)) as int;
    parts.subrange(start, start + m[i].chunks@.len())
}

/// Why a row of `n` products cannot be a tensor.
pub open spec fn output_failure(n: usize) -> Option<Seq<char>> {
    context::tensor_failure(seq![1usize, n], n as nat)
}

/// Whether a tensor holds the products of a matrix, read in the given parts.
pub open spec fn is_output(m: GpuMatVec, parts: Seq<Seq<u32>>, t: Tensor) -> bool {
    &&& output_failure(m.out_features) is None
    &&& t.dims() == seq![1usize, m.out_features]
    &&& t.values() == rows::concat(parts)
}

/// Whether a tensor is one row of `n` numbers.
pub fn is_row(x: &Tensor, n: usize) -> (r: bool)
    ensures
        r == (x.dims() == seq![1usize, n]),
{
    let s = x.shape();
    let r = s.len() == 2 && s[0] == 1 && s[1] == n;
    proof {
        if r {
            assert(x.dims() =~= seq![1usize, n]);
        }
    }
    r
}

/// A message that names a number and a shape.
pub fn expects_row(head: &str, n: usize, dims: &[usize]) -> (r: String)
    ensures
        r@ == head@ + text::dec(n as nat) + "], got "@ + text::bracketed(dims@),
{
    let mut s = head.to_owned();
    text::push_size(&mut s, n);
    s.append("], got ");
    text::push_shape(&mut s, dims);
    s
}

fn create_chunk(
    context: &mut GpuContext,
    input_buffer: usize,
    weight: &[u16],
    in_features: usize,
    r: GpuRows,
) -> (chunk: GpuMatVecChunk)
    requires
        (r.out_offset + r.out_features) * in_features <= weight@.len(),
    ensures
        (final(context)@, chunk) == chunk_made(
            old(context)@,
            input_buffer,
            weight@,
            in_features,
            r,
        ),
{
    let n: usize = weight.len();
    proof {
        let a = r.out_offset as int;
        let b = r.out_features as int;
        let w = in_features as int;
        assert(a * w + b * w == (a + b) * w && a * w >= 0 && b * w >= 0) by (nonlinear_arith)
            requires
                a >= 0,
                b >= 0,
                w >= 0,
        ;
    }
    let start: usize = r.out_offset * in_features;
    let end: usize = start + r.out_features * in_features;
    let words = f16_slice_to_f32(vstd::slice::slice_subrange(weight, start, end));
    let weight_buffer: usize = context.create_buffer_init(words, GpuUsage::Weight);
    let output_buffer: usize = context.create_buffer(r.out_features, GpuUsage::Output);
    let readback_buffer: usize = context.create_buffer(r.out_features, GpuUsage::Readback);
    let params: Vec<u32> = vec![in_features as u32, r.out_features as u32, 0, 0];
    assert(params@ =~= seq![in_features as u32, r.out_features as u32, 0, 0]);
    let params_buffer: usize = context.create_buffer_init(params, GpuUsage::Params);
    GpuMatVecChunk {
        input_buffer,
        weight_buffer,
        output_buffer,
        readback_buffer,
        params_buffer,
        rows: r,
    }
}

proof fn lemma_chunk_rows(
    c: context::ContextView,
    input: usize,
    weight: Seq<u16>,
    in_features: usize,
    plan: Seq<GpuRows>,
)
    ensures
        rows_of(chunks_made(c, input, weight, in_features, plan).1) == plan,
        chunks_made(c, input, weight, in_features, plan).0.id == c.id,
    decreases plan.len(),
{
    let made = chunks_made(c, input, weight, in_features, plan);
    if plan.len() == 0 {
        assert(rows_of(made.1) =~= plan);
    } else {
        lemma_chunk_rows(c, input, weight, in_features, plan.drop_last());
        let done = chunks_made(c, input, weight, in_features, plan.drop_last());
        assert(rows_of(made.1) =~= rows_of(done.1).push(plan.last()));
        assert(plan =~= plan.drop_last().push(plan.last()));
    }
}

/// Appends the commands of some chunks.
pub fn push_chunks(encoder: &mut GpuEncoder, chunks: &[GpuMatVecChunk], copied: bool)
    ensures
        final(encoder)@ == old(encoder)@ + chunks_commands(chunks@, copied),
{
    let ghost before = encoder@;
    let mut i: usize = 0;
    assert(chunks@.take(0) =~= Seq::<GpuMatVecChunk>::empty());
    assert(before + chunks_commands(chunks@.take(0), copied) =~= before);
    while i < chunks.len()
        invariant
            i <= chunks.len(),
            encoder@ == before + chunks_commands(chunks@.take(i as int), copied),
        decreases chunks.len() - i,
    {
        let c = chunks[i];
        let ghost so_far = encoder@;
        encoder.begin_compute_pass();
        encoder.dispatch(
            GpuPipeline::MatVec,
            GpuBindGroup::MatVec {
                input: c.input_buffer,
                weight: c.weight_buffer,
                output: c.output_buffer,
                params: c.params_buffer,
            },
            workgroups_for(c.rows.out_features as u32),
        );
        if copied {
            encoder.copy_buffer(c.output_buffer, c.readback_buffer, 0, c.rows.out_features);
        }
        proof {
            assert(encoder@ =~= so_far + chunk_commands(c, copied));
            assert(chunks@.take(i + 1).drop_last() =~= chunks@.take(i as int));
            assert(chunks@.take(i + 1).last() == c);
            assert(encoder@ =~= before + chunks_commands(chunks@.take(i + 1), copied));
        }
        i += 1;
    }
    assert(chunks@.take(chunks@.len() as int) =~= chunks@);
}

/// Appends the buffers from which the products of some chunks are read.
pub fn push_readbacks(list: &mut Vec<usize>, chunks: &[GpuMatVecChunk])
    ensures
        final(list)@ == old(list)@ + readbacks_of(chunks@),
{
    let ghost before = list@;
    let mut i: usize = 0;
    assert(before + readbacks_of(chunks@).take(0) =~= before);
    while i < chunks.len()
        invariant
            i <= chunks.len(),
            list@ == before + readbacks_of(chunks@).take(i as int),
        decreases chunks.len() - i,
    {
        list.push(chunks[i].readback_buffer);
        i += 1;
        assert(list@ =~= before + readbacks_of(chunks@).take(i as int));
    }
    assert(readbacks_of(chunks@).take(chunks@.len() as int) =~= readbacks_of(chunks@));
}

impl GpuMatVec {
    /// The chunks take every row once.
    pub open spec fn well_formed(&self) -> bool {
        rows::covers(rows_of(self.chunks@), self.out_features as int)
    }

    /// Puts a matrix on the device.
    pub fn from_f16_weight_with_context(
        context: &mut GpuContext,
        weight: &[u16],
        out_features: usize,
        in_features: usize,
    ) -> (r: Result<GpuMatVec, String>)
        requires
            out_features * in_features <= usize::MAX,
            in_features * 4 <= usize::MAX,
        ensures
            match r {
                Ok(m) => {
                    let c = old(context)@;
                    let all = chunks_made(
                        context::made(c, in_features, GpuUsage::Input),
                        context::fresh(c),
                        weight@,
                        in_features,
                        weight_plan(c.max_chunk_bytes, out_features, in_features),
                    );
                    &&& weight_error(c.max_chunk_bytes, weight@.len(), out_features, in_features) is None
                    &&& m.context == c.id
                    &&& m.input_buffer == context::fresh(c)
                    &&& m.in_features == in_features
                    &&& m.out_features == out_features
                    &&& m.chunks@ == all.1
                    &&& final(context)@ == all.0
                    &&& m.well_formed()
                },
                Err(e) => {
                    &&& weight_error(
                        old(context)@.max_chunk_bytes,
                        weight@.len(),
                        out_features,
                        in_features,
                    ) == Some(e@)
                    &&& final(context)@ == old(context)@
                },
            },
    {
        let n: usize = weight.len();
        let expected: usize = out_features * in_features;
        if n != expected {
            return Err(
                two_sizes("GPU matvec weight length mismatch: got ", n, ", expected ", expected),
            );
        }
        let row_bytes: u64 = bytes_len(in_features);
        let limit: u64 = context.max_chunk_bytes;
        if row_bytes == 0 || row_bytes > limit {
            let mut s = "lm_head row is too large for one GPU storage buffer binding: row=".to_owned();
            text::push_dec(&mut s, row_bytes as u128);
            s.append(", limit=");
            text::push_dec(&mut s, limit as u128);
            return Err(s);
        }
        let ghost c = context@;
        let most: usize = rows_for_chunk(limit, row_bytes);
        proof {
            rows::law_chunk_fits(limit, row_bytes, 0);
        }
        let plan = plan_rows(most, out_features);
        let input_buffer: usize = context.create_buffer(in_features, GpuUsage::Input);
        let mut chunks: Vec<GpuMatVecChunk> = Vec::new();
        let ghost start = context@;
        let mut i: usize = 0;
        assert(plan@.take(0) =~= Seq::<GpuRows>::empty());
        while i < plan.len()
            invariant
                i <= plan@.len(),
                n == weight@.len(),
                n == out_features * in_features,
                rows::covers(plan@, out_features as int),
                (context@, chunks@) == chunks_made(
                    start,
                    input_buffer,
                    weight@,
                    in_features,
                    plan@.take(i as int),
                ),
            decreases plan@.len() - i,
        {
            proof {
                rows::lemma_covers_bound(plan@, out_features as int, i as int);
                let upto = plan@[i as int].out_offset + plan@[i as int].out_features;
                assert(upto * in_features <= out_features * in_features) by (nonlinear_arith)
                    requires
                        upto <= out_features,
                        in_features >= 0,
                ;
                assert(plan@.take(i + 1).drop_last() =~= plan@.take(i as int));
                assert(plan@.take(i + 1).last() == plan@[i as int]);
            }
            let chunk = create_chunk(context, input_buffer, weight, in_features, plan[i]);
            chunks.push(chunk);
            i += 1;
        }
        proof {
            assert(plan@.take(plan@.len() as int) =~= plan@);
            lemma_chunk_rows(start, input_buffer, weight@, in_features, plan@);
        }
        Ok(GpuMatVec { context: context.id, input_buffer, chunks, in_features, out_features })
    }

    /// Multiplies the matrix with a row; the products are read from the buffers returned.
    pub fn forward(&self, context: &mut GpuContext, x: &Tensor) -> (r: Result<Vec<usize>, String>)
        requires
            old(context)@.id == self.context,
        ensures
            match r {
                Ok(buffers) => {
                    &&& many_error(seq![self], x.dims()) is None
                    &&& buffers@ == many_readbacks(seq![self])
                    &&& final(context)@ == many_run(old(context)@, seq![self], x.values())
                },
                Err(e) => {
                    &&& many_error(seq![self], x.dims()) == Some(e@)
                    &&& final(context)@ == old(context)@
                },
            },
    {
        let list: Vec<&GpuMatVec> = vec![self];
        assert(list@ =~= seq![self]);
        GpuMatVec::forward_many_same_input(context, &list, x)
    }

    /// The product of the matrix, from what was read.
    pub fn forward_output(&self, parts: &[Vec<u32>]) -> (r: Result<Tensor, String>)
        requires
            self.well_formed(),
            rows::parts_fit(rows_of(self.chunks@), rows::word_lists(parts@)),
        ensures
            match r {
                Ok(t) => is_output(*self, rows::word_lists(parts@), t),
                Err(e) => output_failure(self.out_features) == Some(e@),
            },
    {
        assert(rows::word_lists(parts@).subrange(0, parts@.len() as int) =~= rows::word_lists(
            parts@,
        ));
        self.output_at(parts, 0, parts.len())
    }

    fn output_at(&self, parts: &[Vec<u32>], start: usize, end: usize) -> (r: Result<Tensor, String>)
        requires
            self.well_formed(),
            start <= end <= parts@.len(),
            rows::parts_fit(
                rows_of(self.chunks@),
                rows::word_lists(parts@).subrange(start as int, end as int),
            ),
        ensures
            match r {
                Ok(t) => is_output(
                    *self,
                    rows::word_lists(parts@).subrange(start as int, end as int),
                    t,
                ),
                Err(e) => output_failure(self.out_features) == Some(e@),
            },
    {
        let words = gather(parts, start, end);
        let shape: Vec<usize> = vec![1, self.out_features];
        proof {
            rows::law_parts_land(
                rows_of(self.chunks@),
                rows::word_lists(parts@).subrange(start as int, end as int),
                self.out_features as int,
            );
            assert(shape@ =~= seq![1usize, self.out_features]);
        }
        tensor_from_words(&shape, words)
    }

    /// Multiplies some matrices with the same row; the products are read from the buffers
    /// returned, matrix by matrix and chunk by chunk.
    pub fn forward_many_same_input(context: &mut GpuContext, matvecs: &[&GpuMatVec], x: &Tensor)
        -> (r: Result<Vec<usize>, String>)
        requires
            matvecs@.len() > 0 ==> old(context)@.id == matvecs@[0].context,
        ensures
            match r {
                Ok(buffers) => {
                    &&& many_error(matvecs@, x.dims()) is None
                    &&& buffers@ == many_readbacks(matvecs@)
                    &&& final(context)@ == many_run(old(context)@, matvecs@, x.values())
                },
                Err(e) => {
                    &&& many_error(matvecs@, x.dims()) == Some(e@)
                    &&& final(context)@ == old(context)@
                },
            },
    {
        let mut buffers: Vec<usize> = Vec::new();
        if matvecs.len() == 0 {
            return Ok(buffers);
        }
        let first = matvecs[0];
        if !is_row(x, first.in_features) {
            return Err(expects_row("GPU matvec expects [1, ", first.in_features, x.shape()));
        }
        let mut i: usize = 0;
        while i < matvecs.len()
            invariant
                i <= matvecs@.len(),
                matvecs@.len() > 0,
                first == matvecs@[0],
                x.dims() == seq![1usize, first.in_features],
                context@ == old(context)@,
                forall|j: int| 0 <= j < i ==> (#[trigger] matvecs@[j]).in_features
                    == first.in_features,
            decreases matvecs@.len() - i,
        {
            if matvecs[i].in_features != first.in_features {
                assert(matvecs@[i as int].in_features != matvecs@[0].in_features);
                return Err("GPU matvec batch requires the same input width".to_owned());
            }
            i += 1;
        }
        let mut i: usize = 0;
        while i < matvecs.len()
            invariant
                i <= matvecs@.len(),
                matvecs@.len() > 0,
                first == matvecs@[0],
                x.dims() == seq![1usize, first.in_features],
                context@ == old(context)@,
                forall|j: int| 0 <= j < matvecs@.len() ==> (#[trigger] matvecs@[j]).in_features
                    == first.in_features,
                forall|j: int| 0 <= j < i ==> (#[trigger] matvecs@[j]).context == first.context,
            decreases matvecs@.len() - i,
        {
            if matvecs[i].context != first.context {
                assert(matvecs@[i as int].context != matvecs@[0].context);
                return Err("GPU matvec batch requires a shared GpuContext".to_owned());
            }
            i += 1;
        }
        let ghost c = context@;
        let ghost m = matvecs@;
        assert(many_error(m, x.dims()) is None);
        let mut encoder = context.create_command_encoder();
        let mut i: usize = 0;
        assert(m.take(0) =~= Seq::<&GpuMatVec>::empty());
        while i < matvecs.len()
            invariant
                i <= matvecs@.len(),
                m == matvecs@,
                context@ == many_written(c, m.take(i as int), x.values()),
                encoder@ == many_commands(m.take(i as int)),
                buffers@ == many_readbacks(m.take(i as int)),
            decreases matvecs@.len() - i,
        {
            proof {
                assert(m.take(i + 1).drop_last() =~= m.take(i as int));
                assert(m.take(i + 1).last() == m[i as int]);
            }
            let matvec = matvecs[i];
            context.write_buffer(matvec.input_buffer, x.standard_values(), GpuWrite::Host);
            push_chunks(&mut encoder, &matvec.chunks, true);
            push_readbacks(&mut buffers, &matvec.chunks);
            i += 1;
        }
        assert(m.take(m.len() as int) =~= m);
        context.submit_and_map(encoder, &buffers);
        Ok(buffers)
    }

    /// The products of some matrices, from what was read.
    pub fn forward_many_outputs(matvecs: &[&GpuMatVec], parts: &[Vec<u32>]) -> (r: Result<
        Vec<Tensor>,
        String,
    >)
        requires
            parts@.len() == chunk_count(matvecs@),
            forall|i: int|
                0 <= i < matvecs@.len() ==> {
                    &&& (#[trigger] matvecs@[i]).well_formed()
                    &&& rows::parts_fit(
                        rows_of(matvecs@[i].chunks@),
                        own_parts(matvecs@, rows::word_lists(parts@), i),
                    )
                },
        ensures
            match r {
                Ok(tensors) => {
                    &&& tensors@.len() == matvecs@.len()
                    &&& forall|i: int|
                        0 <= i < matvecs@.len() ==> is_output(
                            *matvecs@[i],
                            own_parts(matvecs@, rows::word_lists(parts@), i),
                            #[trigger] tensors@[i],
                        )
                },
                Err(e) => exists|i: int|
                    {
                        &&& 0 <= i < matvecs@.len()
                        &&& output_failure((#[trigger] matvecs@[i]).out_features) == Some(e@)
                        &&& forall|j: int|
                            0 <= j < i ==> output_failure((#[trigger] matvecs@[j]).out_features)
                                is None
                    },
            },
    {
        let mut tensors: Vec<Tensor> = Vec::new();
        let ghost all = rows::word_lists(parts@);
        let ghost m = matvecs@;
        let mut at: usize = 0;
        let mut i: usize = 0;
        let total: usize = parts.len();
        assert(m.take(0) =~= Seq::<&GpuMatVec>::empty());
        while i < matvecs.len()
            invariant
                i <= matvecs@.len(),
                m == matvecs@,
                all == rows::word_lists(parts@),
                total == parts@.len(),
                total == chunk_count(m),
                at == chunk_count(m.take(i as int)),
                tensors@.len() == i,
                forall|k: int|
                    0 <= k < m.len() ==> {
                        &&& (#[trigger] m[k]).well_formed()
                        &&& rows::parts_fit(rows_of(m[k].chunks@), own_parts(m, all, k))
                    },
                forall|k: int|
                    0 <= k < i ==> is_output(*m[k], own_parts(m, all, k), #[trigger] tensors@[k]),
            decreases matvecs@.len() - i,
        {
            let matvec = matvecs[i];
            let n: usize = matvec.chunks.len();
            proof {
                assert(m.take(i + 1).drop_last() =~= m.take(i as int));
                assert(m.take(i + 1).last() == m[i as int]);
                lemma_chunk_count(m, i + 1);
                assert(m[i as int].well_formed());
            }
            match matvec.output_at(parts, at, at + n) {
                Ok(t) => {
                    tensors.push(t);
                },
                Err(e) => {
                    proof {
                        assert(output_failure(m[i as int].out_features) == Some(e@));
                        assert forall|j: int| 0 <= j < i implies output_failure(
                            (#[trigger] m[j]).out_features,
                        ) is None by {
                            assert(is_output(*m[j], own_parts(m, all, j), tensors@[j]));
                        }
                    }
                    return Err(e);
                },
            }
            at += n;
            i += 1;
        }
        Ok(tensors)
    }
}

proof fn lemma_chunk_count(m: Seq<&GpuMatVec>, i: int)
    requires
        0 <= i <= m.len(),
    ensures
        chunk_count(m.take(i)) <= chunk_count(m),
    decreases m.len() - i,
{
    if i == m.len() {
        assert(m.take(i) =~= m);
    } else {
        lemma_chunk_count(m, i + 1);
        assert(m.take(i + 1).drop_last() =~= m.take(i));
    }
}

} // verus!
