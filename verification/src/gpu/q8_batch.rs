//! Products of several matrices in eight bits with one shared input.

use vstd::prelude::*;
use vstd::string::*;

use crate::gpu::context;
use crate::gpu::context::{
    GpuCommand, GpuContext, GpuEncoder, GpuPipeline, GpuUsage, GpuWrite,
};
use crate::gpu::matvec::{expects_row, is_row};
use crate::gpu::q8;
use crate::gpu::q8::{
    all_binds, dispatch_q8, kernel_for_width, GpuQ8Binds, GpuQ8MatVec, GpuQ8MatVecChunk,
};
use crate::gpu::resident::{three_sizes, two_sizes, GpuResidentBuffer};
use crate::tensor::Tensor;
use crate::text;

verus! {

/// Several matrices with one shared input: the buffers of each of their chunks.
#[derive(Debug)]
pub struct GpuQ8SameInputBatch {
    pub context: u64,
    pub input_buffer: usize,
    pub groups: Vec<Vec<GpuQ8Binds>>,
    pub in_features: usize,
    pub out_features: Vec<usize>,
}

/// The buffers of each chunk where the products go to resident values.
#[derive(Debug)]
pub struct GpuQ8SameInputBatchResidentCache {
    pub groups: Vec<Vec<GpuQ8Binds>>,
}

/// The values of a list of lists of buffers.
pub open spec fn bind_lists(v: Seq<Vec<GpuQ8Binds>>) -> Seq<Seq<GpuQ8Binds>> {
    v.map_values(|w: Vec<GpuQ8Binds>| w@)
}

/// Why some matrices cannot share an input.
pub open spec fn batch_error(m: Seq<&GpuQ8MatVec>) -> Option<Seq<char>> {
    if m.len() == 0 {
        Some("GPU Q8 shared-input batch requires at least one matvec"@)
    } else if exists|i: int|
        0 <= i < m.len() && (#[trigger] m[i]).in_features != m[0].in_features {
        Some("GPU Q8 shared-input batch requires the same input width"@)
    } else if exists|i: int| 0 <= i < m.len() && (#[trigger] m[i]).context != m[0].context {
        Some("GPU Q8 shared-input batch requires a shared GpuContext"@)
    } else {
        None
    }
}

/// The runs of the first `n` chunks.
pub open spec fn chunk_runs(
    groups: Seq<GpuQ8Binds>,
    chunks: Seq<GpuQ8MatVecChunk>,
    kernel: GpuPipeline,
    n: nat,
) -> Seq<GpuCommand>
    decreases n,
{
    if n == 0 {
        Seq::empty()
    } else {
        let k = n - 1;
        chunk_runs(groups, chunks, kernel, k as nat).push(
            context::run(kernel, q8::q8_group(groups[k]), chunks[k].rows.out_features as u32),
        )
    }
}

/// The runs of the first `n` matrices.
pub open spec fn batch_runs(
    groups: Seq<Seq<GpuQ8Binds>>,
    m: Seq<&GpuQ8MatVec>,
    kernel: GpuPipeline,
    n: nat,
) -> Seq<GpuCommand>
    decreases n,
{
    if n == 0 {
        Seq::empty()
    } else {
        let k = n - 1;
        batch_runs(groups, m, kernel, k as nat) + chunk_runs(
            groups[k],
            m[k].chunks@,
            kernel,
            m[k].chunks@.len(),
        )
    }
}

/// The copies of the products of some chunks to where they are read.
pub open spec fn chunk_copies(chunks: Seq<GpuQ8MatVecChunk>) -> Seq<GpuCommand>
    decreases chunks.len(),
{
    if chunks.len() == 0 {
        Seq::empty()
    } else {
        let c = chunks.last();
        chunk_copies(chunks.drop_last()).push(
            context::copy(c.output_buffer, c.readback_buffer->0, 0, c.rows.out_features),
        )
    }
}

/// The copies of the products of some matrices.
pub open spec fn batch_copies(m: Seq<&GpuQ8MatVec>) -> Seq<GpuCommand>
    decreases m.len(),
{
    if m.len() == 0 {
        Seq::empty()
    } else {
        batch_copies(m.drop_last()) + chunk_copies(m.last().chunks@)
    }
}

/// Whether some chunk has no way out.
pub open spec fn unreadable(chunks: Seq<GpuQ8MatVecChunk>) -> bool {
    exists|i: int| 0 <= i < chunks.len() && (#[trigger] chunks[i]).readback_buffer is None
}

/// Whether some matrix has a chunk with no way out.
pub open spec fn any_unreadable(m: Seq<&GpuQ8MatVec>) -> bool {
    exists|i: int| 0 <= i < m.len() && unreadable((#[trigger] m[i]).chunks@)
}

/// Why a batch cannot take some numbers, before anything is done.
pub open spec fn batch_raw_error(b: GpuQ8SameInputBatch, m: nat, len: nat) -> Option<Seq<char>> {
    if m != b.groups@.len() {
        Some(
            "GPU Q8 shared-input batch expected "@ + text::dec(b.groups@.len())
                + " matvecs, got "@ + text::dec(m),
        )
    } else if len != b.in_features {
        Some(
            "GPU Q8 shared-input batch raw input expects "@ + text::dec(b.in_features as nat)
                + " values, got "@ + text::dec(len),
        )
    } else {
        None
    }
}

/// What running a batch gives.
pub open spec fn batch_raw_result(
    before: context::ContextView,
    after: context::ContextView,
    b: GpuQ8SameInputBatch,
    m: Seq<&GpuQ8MatVec>,
    words: Seq<u32>,
    r: Result<Vec<usize>, String>,
) -> bool {
    let given = context::written(before, b.input_buffer, words, GpuWrite::Uncounted);
    match r {
        Ok(buffers) => {
            &&& batch_raw_error(b, m.len(), words.len()) is None
            &&& !any_unreadable(m)
            &&& buffers@ == q8::q8_many_readbacks(m)
            &&& after == context::read_back(
                given,
                seq![GpuCommand::BeginPass] + batch_runs(
                    bind_lists(b.groups@),
                    m,
                    q8::q8_kernel(b.in_features),
                    m.len(),
                ) + batch_copies(m),
                buffers@,
            )
        },
        Err(e) => match batch_raw_error(b, m.len(), words.len()) {
            Some(msg) => e@ == msg && after == before,
            None => {
                &&& any_unreadable(m)
                &&& e@ == "GPU Q8 shared-input batch readback buffer was released"@
                &&& after == given
            },
        },
    }
}

/// Why the matrices from `i` on are not those of a batch.
pub open spec fn batch_match_error(b: GpuQ8SameInputBatch, m: Seq<&GpuQ8MatVec>, i: int) -> Option<
    Seq<char>,
>
    decreases m.len() - i,
{
    if i < 0 || i >= m.len() {
        None
    } else if m[i].in_features != b.in_features || m[i].out_features != b.out_features@[i] {
        Some("GPU Q8 shared-input batch matvec shape mismatch"@)
    } else if m[i].context != b.context {
        Some("GPU Q8 shared-input batch requires the original GpuContext"@)
    } else if m[i].chunks@.len() != b.groups@[i]@.len() {
        Some("GPU Q8 shared-input batch chunk layout mismatch"@)
    } else {
        batch_match_error(b, m, i + 1)
    }
}

/// Why a batch cannot take a row.
pub open spec fn batch_input_error(b: GpuQ8SameInputBatch, m: Seq<&GpuQ8MatVec>, dims: Seq<usize>)
    -> Option<Seq<char>> {
    if m.len() != b.groups@.len() {
        Some(
            "GPU Q8 shared-input batch expected "@ + text::dec(b.groups@.len())
                + " matvecs, got "@ + text::dec(m.len()),
        )
    } else if dims != seq![1usize, b.in_features] {
        Some(
            "GPU Q8 shared-input batch expects [1, "@ + text::dec(b.in_features as nat)
                + "], got "@ + text::bracketed(dims),
        )
    } else {
        batch_match_error(b, m, 0)
    }
}

/// Why a resident value cannot be the shared input.
pub open spec fn batch_copy_error(b: GpuQ8SameInputBatch, input: GpuResidentBuffer) -> Option<
    Seq<char>,
> {
    if b.context != input.context {
        Some("GPU Q8 shared-input resident batch requires the original GpuContext"@)
    } else if input.len != b.in_features {
        Some(
            "GPU Q8 shared-input resident batch input length mismatch: got "@ + text::dec(
                input.len as nat,
            ) + ", expected "@ + text::dec(b.in_features as nat),
        )
    } else {
        None
    }
}

/// Why the matrices and outputs from `i` on do not suit a batch whose chunks have the given
/// buffers.
pub open spec fn batch_outputs_error(
    b: GpuQ8SameInputBatch,
    m: Seq<&GpuQ8MatVec>,
    outputs: Seq<&GpuResidentBuffer>,
    groups: Seq<Seq<GpuQ8Binds>>,
    layout: Seq<char>,
    i: int,
) -> Option<Seq<char>>
    decreases m.len() - i,
{
    if i < 0 || i >= m.len() {
        None
    } else if m[i].in_features != b.in_features || m[i].out_features != b.out_features@[i] {
        Some("GPU Q8 shared-input resident batch matvec shape mismatch"@)
    } else if m[i].context != b.context || outputs[i].context != b.context {
        Some("GPU Q8 shared-input resident batch requires shared GpuContext"@)
    } else if m[i].chunks@.len() != groups[i].len() {
        Some(layout)
    } else if outputs[i].len != m[i].out_features {
        Some(
            "GPU Q8 shared-input resident batch output length mismatch at index "@ + text::dec(
                i as nat,
            ) + ": got "@ + text::dec(outputs[i].len as nat) + ", expected "@ + text::dec(
                m[i].out_features as nat,
            ),
        )
    } else {
        batch_outputs_error(b, m, outputs, groups, layout, i + 1)
    }
}

/// Why a batch cannot work on resident values.
pub open spec fn batch_resident_error(
    b: GpuQ8SameInputBatch,
    m: Seq<&GpuQ8MatVec>,
    input: GpuResidentBuffer,
    outputs: Seq<&GpuResidentBuffer>,
    groups: Seq<Seq<GpuQ8Binds>>,
    layout: Seq<char>,
) -> Option<Seq<char>> {
    if m.len() != b.groups@.len() || outputs.len() != b.groups@.len() {
        Some(
            "GPU Q8 shared-input resident batch expected "@ + text::dec(b.groups@.len())
                + " matvecs/outputs, got "@ + text::dec(m.len()) + "/"@ + text::dec(outputs.len()),
        )
    } else {
        match batch_copy_error(b, input) {
            Some(e) => Some(e),
            None => batch_outputs_error(b, m, outputs, groups, layout, 0),
        }
    }
}

/// The message for chunks that are not those of the batch.
pub open spec fn batch_layout() -> Seq<char> {
    "GPU Q8 shared-input resident batch chunk layout mismatch"@
}

/// The message for chunks that are not those of the prepared buffers.
pub open spec fn cache_layout() -> Seq<char> {
    "GPU Q8 shared-input resident batch cache chunk layout mismatch"@
}

/// Why a batch cannot work with prepared buffers.
pub open spec fn batch_encode_error(
    b: GpuQ8SameInputBatch,
    m: Seq<&GpuQ8MatVec>,
    input: GpuResidentBuffer,
    outputs: Seq<&GpuResidentBuffer>,
    cache: GpuQ8SameInputBatchResidentCache,
) -> Option<Seq<char>> {
    if m.len() != cache.groups@.len() || outputs.len() != cache.groups@.len() {
        Some("GPU Q8 shared-input resident batch cache size mismatch"@)
    } else {
        batch_resident_error(b, m, input, outputs, bind_lists(cache.groups@), cache_layout())
    }
}

/// The words that tell a product where its values go in the whole output.
pub open spec fn placed_params(chunk: GpuQ8MatVecChunk, width: usize) -> Seq<u32> {
    seq![
        width as u32,
        chunk.rows.out_features as u32,
        chunk.words_per_row as u32,
        chunk.rows.out_offset as u32,
    ]
}

/// Preparing the first `n` chunks of a matrix for one resident output, in which the products of each
/// chunk go to the place of its rows.
pub open spec fn chunks_cached(
    c: context::ContextView,
    input: usize,
    width: usize,
    chunks: Seq<GpuQ8MatVecChunk>,
    output: usize,
    n: nat,
) -> (context::ContextView, Seq<GpuQ8Binds>)
    decreases n,
{
    if n == 0 {
        (c, Seq::empty())
    } else {
        let k = n - 1;
        let done = chunks_cached(c, input, width, chunks, output, k as nat);
        let chunk = chunks[k];
        (
            context::filled(done.0, placed_params(chunk, width), GpuUsage::Params),
            done.1.push(
                GpuQ8Binds {
                    input,
                    qweight: chunk.qweight_buffer,
                    scales: chunk.scales_buffer,
                    output,
                    params: context::fresh(done.0),
                },
            ),
        )
    }
}

/// Preparing the first `n` matrices for resident outputs.
pub open spec fn batch_cached(
    c: context::ContextView,
    b: GpuQ8SameInputBatch,
    m: Seq<&GpuQ8MatVec>,
    outputs: Seq<&GpuResidentBuffer>,
    n: nat,
) -> (context::ContextView, Seq<Seq<GpuQ8Binds>>)
    decreases n,
{
    if n == 0 {
        (c, Seq::empty())
    } else {
        let k = n - 1;
        let done = batch_cached(c, b, m, outputs, k as nat);
        let one = chunks_cached(
            done.0,
            b.input_buffer,
            b.in_features,
            m[k].chunks@,
            outputs[k].buffer,
            m[k].chunks@.len(),
        );
        (one.0, done.1.push(one.1))
    }
}

/// The runs of a batch with prepared buffers.
pub open spec fn batch_resident_runs(
    b: GpuQ8SameInputBatch,
    m: Seq<&GpuQ8MatVec>,
    groups: Seq<Seq<GpuQ8Binds>>,
) -> Seq<GpuCommand> {
    batch_runs(groups, m, q8::q8_kernel(b.in_features), m.len())
}

/// Appends the runs of some chunks.
pub fn push_runs(
    encoder: &mut GpuEncoder,
    groups: &[GpuQ8Binds],
    chunks: &[GpuQ8MatVecChunk],
    kernel: GpuPipeline,
)
    requires
        chunks@.len() <= groups@.len(),
        kernel is Q8MatVec || kernel is Q8MatVecVec4,
    ensures
        final(encoder)@ == old(encoder)@ + chunk_runs(groups@, chunks@, kernel, chunks@.len()),
{
    let ghost before = encoder@;
    let mut i: usize = 0;
    assert(before + chunk_runs(groups@, chunks@, kernel, 0) =~= before);
    while i < chunks.len()
        invariant
            i <= chunks@.len(),
            chunks@.len() <= groups@.len(),
            kernel is Q8MatVec || kernel is Q8MatVecVec4,
            encoder@ == before + chunk_runs(groups@, chunks@, kernel, i as nat),
        decreases chunks@.len() - i,
    {
        dispatch_q8(encoder, kernel, groups[i], chunks[i].rows.out_features as u32);
        i += 1;
        assert(encoder@ =~= before + chunk_runs(groups@, chunks@, kernel, i as nat));
    }
}

/// Prepares some chunks for one resident output.
pub fn prepare_chunks(
    context: &mut GpuContext,
    input: usize,
    width: usize,
    chunks: &[GpuQ8MatVecChunk],
    output: usize,
) -> (r: Vec<GpuQ8Binds>)
    ensures
        context::quiet(old(context)@, final(context)@),
        (final(context)@, r@) == chunks_cached(
            old(context)@,
            input,
            width,
            chunks@,
            output,
            chunks@.len(),
        ),
{
    let ghost c = context@;
    let mut groups: Vec<GpuQ8Binds> = Vec::new();
    let mut i: usize = 0;
    while i < chunks.len()
        invariant
            i <= chunks@.len(),
            context::quiet(c, context@),
            (context@, groups@) == chunks_cached(c, input, width, chunks@, output, i as nat),
        decreases chunks@.len() - i,
    {
        let chunk = chunks[i];
        let words: Vec<u32> = vec![
            width as u32,
            chunk.rows.out_features as u32,
            chunk.words_per_row as u32,
            chunk.rows.out_offset as u32,
        ];
        assert(words@ =~= placed_params(chunk, width));
        let params: usize = context.create_buffer_init(words, GpuUsage::Params);
        groups.push(
            GpuQ8Binds {
                input,
                qweight: chunk.qweight_buffer,
                scales: chunk.scales_buffer,
                output,
                params,
            },
        );
        i += 1;
    }
    groups
}

fn push_batch_runs(
    encoder: &mut GpuEncoder,
    groups: &[Vec<GpuQ8Binds>],
    matvecs: &[&GpuQ8MatVec],
    kernel: GpuPipeline,
)
    requires
        matvecs@.len() <= groups@.len(),
        forall|i: int|
            0 <= i < matvecs@.len() ==> (#[trigger] matvecs@[i]).chunks@.len() <= groups@[i]@.len(),
        kernel is Q8MatVec || kernel is Q8MatVecVec4,
    ensures
        final(encoder)@ == old(encoder)@ + batch_runs(
            bind_lists(groups@),
            matvecs@,
            kernel,
            matvecs@.len(),
        ),
{
    let ghost before = encoder@;
    let ghost lists = bind_lists(groups@);
    let mut i: usize = 0;
    assert(before + batch_runs(lists, matvecs@, kernel, 0) =~= before);
    while i < matvecs.len()
        invariant
            i <= matvecs@.len(),
            matvecs@.len() <= groups@.len(),
            lists == bind_lists(groups@),
            forall|j: int|
                0 <= j < matvecs@.len() ==> (#[trigger] matvecs@[j]).chunks@.len()
                    <= groups@[j]@.len(),
            kernel is Q8MatVec || kernel is Q8MatVecVec4,
            encoder@ == before + batch_runs(lists, matvecs@, kernel, i as nat),
        decreases matvecs@.len() - i,
    {
        let matvec = matvecs[i];
        assert(matvecs@[i as int].chunks@.len() <= groups@[i as int]@.len());
        push_runs(encoder, &groups[i], &matvec.chunks, kernel);
        i += 1;
        assert(encoder@ =~= before + batch_runs(lists, matvecs@, kernel, i as nat));
    }
}

fn push_copies(
    encoder: &mut GpuEncoder,
    buffers: &mut Vec<usize>,
    chunks: &[GpuQ8MatVecChunk],
) -> (r: bool)
    ensures
        r == !unreadable(chunks@),
        r ==> final(encoder)@ == old(encoder)@ + chunk_copies(chunks@),
        r ==> final(buffers)@ == old(buffers)@ + q8::q8_readbacks_of(chunks@),
{
    let ghost before = encoder@;
    let ghost list = buffers@;
    let mut i: usize = 0;
    proof {
        assert(chunks@.take(0) =~= Seq::<GpuQ8MatVecChunk>::empty());
        assert(before + chunk_copies(chunks@.take(0)) =~= before);
        assert(list + q8::q8_readbacks_of(chunks@).take(0) =~= list);
    }
    while i < chunks.len()
        invariant
            i <= chunks@.len(),
            forall|j: int| 0 <= j < i ==> (#[trigger] chunks@[j]).readback_buffer is Some,
            encoder@ == before + chunk_copies(chunks@.take(i as int)),
            buffers@ == list + q8::q8_readbacks_of(chunks@).take(i as int),
        decreases chunks@.len() - i,
    {
        let c = chunks[i];
        let readback: usize = match c.readback_buffer {
            Some(b) => b,
            None => {
                assert(chunks@[i as int].readback_buffer is None);
                return false;
            },
        };
        encoder.copy_buffer(c.output_buffer, readback, 0, c.rows.out_features);
        buffers.push(readback);
        proof {
            assert(chunks@.take(i + 1).drop_last() =~= chunks@.take(i as int));
            assert(chunks@.take(i + 1).last() == c);
            assert(encoder@ =~= before + chunk_copies(chunks@.take(i + 1)));
            assert(buffers@ =~= list + q8::q8_readbacks_of(chunks@).take(i + 1));
        }
        i += 1;
    }
    proof {
        assert(chunks@.take(chunks@.len() as int) =~= chunks@);
        assert(q8::q8_readbacks_of(chunks@).take(chunks@.len() as int) =~= q8::q8_readbacks_of(
            chunks@,
        ));
    }
    true
}

impl GpuQ8SameInputBatch {
    /// A list of buffers and a length for each matrix.
    pub open spec fn well_formed(&self) -> bool {
        self.out_features@.len() == self.groups@.len()
    }

    /// Whether the matrices have the chunks that the batch was made for.
    pub open spec fn suits(&self, m: Seq<&GpuQ8MatVec>) -> bool {
        m.len() == self.groups@.len() ==> forall|i: int|
            0 <= i < m.len() ==> (#[trigger] m[i]).chunks@.len() <= self.groups@[i]@.len()
    }

    /// The buffer of the shared input.
    pub fn input_buffer(&self) -> (r: usize)
        ensures
            r == self.input_buffer,
    {
        self.input_buffer
    }

    /// Makes an input that some matrices share.
    pub fn new(context: &mut GpuContext, matvecs: &[&GpuQ8MatVec]) -> (r: Result<
        GpuQ8SameInputBatch,
        String,
    >)
        requires
            matvecs@.len() > 0 ==> old(context)@.id == matvecs@[0].context,
        ensures
            match r {
                Ok(b) => {
                    let m = matvecs@;
                    &&& batch_error(m) is None
                    &&& b.context == old(context)@.id
                    &&& b.input_buffer == context::fresh(old(context)@)
                    &&& b.in_features == m[0].in_features
                    &&& b.out_features@.len() == m.len()
                    &&& b.groups@.len() == m.len()
                    &&& forall|i: int|
                        0 <= i < m.len() ==> (#[trigger] b.groups@[i])@ == q8::q8_all_binds(
                            m[i].chunks@,
                            b.input_buffer,
                        )
                    &&& forall|i: int|
                        0 <= i < m.len() ==> (#[trigger] b.out_features@[i]) == m[i].out_features
                    &&& b.well_formed()
                    &&& b.suits(m)
                    &&& final(context)@ == context::made(
                        old(context)@,
                        b.in_features,
                        GpuUsage::Input,
                    )
                },
                Err(e) => batch_error(matvecs@) == Some(e@) && final(context)@ == old(context)@,
            },
    {
        if matvecs.len() == 0 {
            return Err("GPU Q8 shared-input batch requires at least one matvec".to_owned());
        }
        let first = matvecs[0];
        let mut i: usize = 0;
        while i < matvecs.len()
            invariant
                i <= matvecs@.len(),
                matvecs@.len() > 0,
                first == matvecs@[0],
                context@ == old(context)@,
                forall|j: int| 0 <= j < i ==> (#[trigger] matvecs@[j]).in_features
                    == first.in_features,
            decreases matvecs@.len() - i,
        {
            if matvecs[i].in_features != first.in_features {
                assert(matvecs@[i as int].in_features != matvecs@[0].in_features);
                return Err("GPU Q8 shared-input batch requires the same input width".to_owned());
            }
            i += 1;
        }
        let mut i: usize = 0;
        while i < matvecs.len()
            invariant
                i <= matvecs@.len(),
                matvecs@.len() > 0,
                first == matvecs@[0],
                context@ == old(context)@,
                forall|j: int| 0 <= j < matvecs@.len() ==> (#[trigger] matvecs@[j]).in_features
                    == first.in_features,
                forall|j: int| 0 <= j < i ==> (#[trigger] matvecs@[j]).context == first.context,
            decreases matvecs@.len() - i,
        {
            if matvecs[i].context != first.context {
                assert(matvecs@[i as int].context != matvecs@[0].context);
                return Err("GPU Q8 shared-input batch requires a shared GpuContext".to_owned());
            }
            i += 1;
        }
        assert(batch_error(matvecs@) is None);
        let input_buffer: usize = context.create_buffer(first.in_features, GpuUsage::Input);
        let mut groups: Vec<Vec<GpuQ8Binds>> = Vec::new();
        let mut out_features: Vec<usize> = Vec::new();
        let mut i: usize = 0;
        while i < matvecs.len()
            invariant
                i <= matvecs@.len(),
                groups@.len() == i,
                out_features@.len() == i,
                forall|j: int|
                    0 <= j < i ==> (#[trigger] groups@[j])@ == q8::q8_all_binds(
                        matvecs@[j].chunks@,
                        input_buffer,
                    ),
                forall|j: int|
                    0 <= j < i ==> (#[trigger] out_features@[j]) == matvecs@[j].out_features,
            decreases matvecs@.len() - i,
        {
            groups.push(all_binds(&matvecs[i].chunks, input_buffer));
            out_features.push(matvecs[i].out_features);
            i += 1;
        }
        Ok(
            GpuQ8SameInputBatch {
                context: context.id,
                input_buffer,
                groups,
                in_features: first.in_features,
                out_features,
            },
        )
    }

    /// Runs the batch on a row; the products are read from the buffers returned.
    pub fn forward(&self, context: &mut GpuContext, matvecs: &[&GpuQ8MatVec], x: &Tensor) -> (r:
        Result<Vec<usize>, String>)
        requires
            old(context)@.id == self.context,
            self.well_formed(),
        ensures
            match batch_input_error(*self, matvecs@, x.dims()) {
                Some(e) => r is Err && r->Err_0@ == e && final(context)@ == old(context)@,
                None => batch_raw_result(
                    old(context)@,
                    final(context)@,
                    *self,
                    matvecs@,
                    x.values(),
                    r,
                ),
            },
    {
        if matvecs.len() != self.groups.len() {
            return Err(
                two_sizes(
                    "GPU Q8 shared-input batch expected ",
                    self.groups.len(),
                    " matvecs, got ",
                    matvecs.len(),
                ),
            );
        }
        if !is_row(x, self.in_features) {
            return Err(
                expects_row("GPU Q8 shared-input batch expects [1, ", self.in_features, x.shape()),
            );
        }
        let ghost m = matvecs@;
        let mut i: usize = 0;
        while i < matvecs.len()
            invariant
                i <= matvecs@.len(),
                m == matvecs@,
                m.len() == self.groups@.len(),
                self.well_formed(),
                x.dims() == seq![1usize, self.in_features],
                context@ == old(context)@,
                batch_match_error(*self, m, 0) == batch_match_error(*self, m, i as int),
                forall|j: int|
                    0 <= j < i ==> (#[trigger] m[j]).chunks@.len() == self.groups@[j]@.len(),
            decreases matvecs@.len() - i,
        {
            let matvec = matvecs[i];
            if matvec.in_features != self.in_features || matvec.out_features
                != self.out_features[i] {
                return Err("GPU Q8 shared-input batch matvec shape mismatch".to_owned());
            }
            if matvec.context != self.context {
                return Err(
                    "GPU Q8 shared-input batch requires the original GpuContext".to_owned(),
                );
            }
            if matvec.chunks.len() != self.groups[i].len() {
                return Err("GPU Q8 shared-input batch chunk layout mismatch".to_owned());
            }
            i += 1;
        }
        let input = x.standard_values();
        self.forward_raw(context, matvecs, &input)
    }

    /// Runs the batch on some numbers; the products are read from the buffers returned.
    pub fn forward_raw(&self, context: &mut GpuContext, matvecs: &[&GpuQ8MatVec], input: &[u32]) -> (r:
        Result<Vec<usize>, String>)
        requires
            old(context)@.id == self.context,
            self.suits(matvecs@),
        ensures
            batch_raw_result(old(context)@, final(context)@, *self, matvecs@, input@, r),
    {
        if matvecs.len() != self.groups.len() {
            return Err(
                two_sizes(
                    "GPU Q8 shared-input batch expected ",
                    self.groups.len(),
                    " matvecs, got ",
                    matvecs.len(),
                ),
            );
        }
        if input.len() != self.in_features {
            return Err(
                two_sizes(
                    "GPU Q8 shared-input batch raw input expects ",
                    self.in_features,
                    " values, got ",
                    input.len(),
                ),
            );
        }
        context.write_buffer(
            self.input_buffer,
            vstd::slice::slice_to_vec(input),
            GpuWrite::Uncounted,
        );
        let ghost given = context@;
        let ghost m = matvecs@;
        let kernel = kernel_for_width(self.in_features);
        let mut encoder = context.create_command_encoder();
        let mut buffers: Vec<usize> = Vec::new();
        encoder.begin_compute_pass();
        push_batch_runs(&mut encoder, &self.groups, matvecs, kernel);
        let ghost runs = encoder@;
        assert(runs =~= seq![GpuCommand::BeginPass] + batch_runs(
            bind_lists(self.groups@),
            m,
            kernel,
            m.len(),
        ));
        let mut i: usize = 0;
        proof {
            assert(m.take(0) =~= Seq::<&GpuQ8MatVec>::empty());
            assert(runs + batch_copies(m.take(0)) =~= runs);
        }
        while i < matvecs.len()
            invariant
                i <= matvecs@.len(),
                m == matvecs@,
                context@ == given,
                given == context::written(
                    old(context)@,
                    self.input_buffer,
                    input@,
                    GpuWrite::Uncounted,
                ),
                batch_raw_error(*self, m.len(), input@.len()) is None,
                forall|j: int| 0 <= j < i ==> !unreadable((#[trigger] m[j]).chunks@),
                encoder@ == runs + batch_copies(m.take(i as int)),
                buffers@ == q8::q8_many_readbacks(m.take(i as int)),
            decreases matvecs@.len() - i,
        {
            let matvec = matvecs[i];
            if !push_copies(&mut encoder, &mut buffers, &matvec.chunks) {
                assert(unreadable(m[i as int].chunks@));
                return Err("GPU Q8 shared-input batch readback buffer was released".to_owned());
            }
            proof {
                assert(m.take(i + 1).drop_last() =~= m.take(i as int));
                assert(m.take(i + 1).last() == m[i as int]);
                assert(encoder@ =~= runs + batch_copies(m.take(i + 1)));
            }
            i += 1;
        }
        assert(m.take(m.len() as int) =~= m);
        context.submit_and_map(encoder, &buffers);
        Ok(buffers)
    }

    /// Copies a resident value to the shared input.
    pub fn encode_resident_input_copy(&self, encoder: &mut GpuEncoder, input: &GpuResidentBuffer) -> (r:
        Result<(), String>)
        ensures
            match r {
                Ok(()) => {
                    &&& batch_copy_error(*self, *input) is None
                    &&& final(encoder)@ == old(encoder)@.push(
                        context::copy(input.buffer, self.input_buffer, 0, self.in_features),
                    )
                },
                Err(e) => {
                    &&& batch_copy_error(*self, *input) == Some(e@)
                    &&& final(encoder)@ == old(encoder)@
                },
            },
    {
        match self.check_input(input) {
            Some(e) => {
                return Err(e);
            },
            None => {},
        }
        encoder.copy_buffer(input.buffer, self.input_buffer, 0, self.in_features);
        Ok(())
    }

    fn check_input(&self, input: &GpuResidentBuffer) -> (r: Option<String>)
        ensures
            match r {
                Some(e) => batch_copy_error(*self, *input) == Some(e@),
                None => batch_copy_error(*self, *input) is None,
            },
    {
        if self.context != input.context {
            return Some(
                "GPU Q8 shared-input resident batch requires the original GpuContext".to_owned(),
            );
        }
        if input.len != self.in_features {
            return Some(
                two_sizes(
                    "GPU Q8 shared-input resident batch input length mismatch: got ",
                    input.len,
                    ", expected ",
                    self.in_features,
                ),
            );
        }
        None
    }

    fn check_resident(
        &self,
        matvecs: &[&GpuQ8MatVec],
        input: &GpuResidentBuffer,
        outputs: &[&GpuResidentBuffer],
        groups: &[Vec<GpuQ8Binds>],
        layout: &str,
    ) -> (r: Option<String>)
        requires
            self.well_formed(),
            groups@.len() == self.groups@.len() || groups@.len() == matvecs@.len(),
        ensures
            match r {
                Some(e) => batch_resident_error(
                    *self,
                    matvecs@,
                    *input,
                    outputs@,
                    bind_lists(groups@),
                    layout@,
                ) == Some(e@),
                None => {
                    &&& batch_resident_error(
                        *self,
                        matvecs@,
                        *input,
                        outputs@,
                        bind_lists(groups@),
                        layout@,
                    ) is None
                    &&& matvecs@.len() == groups@.len()
                    &&& forall|i: int|
                        0 <= i < matvecs@.len() ==> (#[trigger] matvecs@[i]).chunks@.len()
                            == groups@[i]@.len()
                },
            },
    {
        if matvecs.len() != self.groups.len() || outputs.len() != self.groups.len() {
            return Some(
                three_sizes(
                    "GPU Q8 shared-input resident batch expected ",
                    self.groups.len(),
                    " matvecs/outputs, got ",
                    matvecs.len(),
                    "/",
                    outputs.len(),
                ),
            );
        }
        match self.check_input(input) {
            Some(e) => {
                return Some(e);
            },
            None => {},
        }
        let ghost m = matvecs@;
        let ghost lists = bind_lists(groups@);
        let mut i: usize = 0;
        while i < matvecs.len()
            invariant
                i <= matvecs@.len(),
                m == matvecs@,
                lists == bind_lists(groups@),
                m.len() == self.groups@.len(),
                m.len() == groups@.len(),
                m.len() == outputs@.len(),
                self.well_formed(),
                batch_copy_error(*self, *input) is None,
                batch_outputs_error(*self, m, outputs@, lists, layout@, 0) == batch_outputs_error(
                    *self,
                    m,
                    outputs@,
                    lists,
                    layout@,
                    i as int,
                ),
                forall|j: int| 0 <= j < i ==> (#[trigger] m[j]).chunks@.len() == groups@[j]@.len(),
            decreases matvecs@.len() - i,
        {
            let matvec = matvecs[i];
            let output = outputs[i];
            assert(lists[i as int] == groups@[i as int]@);
            if matvec.in_features != self.in_features || matvec.out_features
                != self.out_features[i] {
                return Some("GPU Q8 shared-input resident batch matvec shape mismatch".to_owned());
            }
            if matvec.context != self.context || output.context != self.context {
                return Some(
                    "GPU Q8 shared-input resident batch requires shared GpuContext".to_owned(),
                );
            }
            if matvec.chunks.len() != groups[i].len() {
                return Some(layout.to_owned());
            }
            if output.len != matvec.out_features {
                return Some(
                    three_sizes(
                        "GPU Q8 shared-input resident batch output length mismatch at index ",
                        i,
                        ": got ",
                        output.len,
                        ", expected ",
                        matvec.out_features,
                    ),
                );
            }
            i += 1;
        }
        None
    }

    /// The buffers with which the products go to resident values.
    pub fn prepare_resident_cache(
        &self,
        context: &mut GpuContext,
        matvecs: &[&GpuQ8MatVec],
        input: &GpuResidentBuffer,
        outputs: &[&GpuResidentBuffer],
    ) -> (r: Result<GpuQ8SameInputBatchResidentCache, String>)
        requires
            old(context)@.id == self.context,
            self.well_formed(),
        ensures
            context::quiet(old(context)@, final(context)@),
            ({
                let why = batch_resident_error(
                    *self,
                    matvecs@,
                    *input,
                    outputs@,
                    bind_lists(self.groups@),
                    batch_layout(),
                );
                let all = batch_cached(
                    old(context)@,
                    *self,
                    matvecs@,
                    outputs@,
                    matvecs@.len(),
                );
                match r {
                    Ok(c) => {
                        &&& why is None
                        &&& bind_lists(c.groups@) == all.1
                        &&& final(context)@ == all.0
                    },
                    Err(e) => why == Some(e@) && final(context)@ == old(context)@,
                }
            }),
    {
        match self.check_resident(
            matvecs,
            input,
            outputs,
            &self.groups,
            "GPU Q8 shared-input resident batch chunk layout mismatch",
        ) {
            Some(e) => {
                return Err(e);
            },
            None => {},
        }
        let ghost c = context@;
        let mut groups: Vec<Vec<GpuQ8Binds>> = Vec::new();
        let mut i: usize = 0;
        assert(bind_lists(groups@) =~= Seq::<Seq<GpuQ8Binds>>::empty());
        while i < matvecs.len()
            invariant
                i <= matvecs@.len(),
                matvecs@.len() == outputs@.len(),
                context::quiet(c, context@),
                (context@, bind_lists(groups@)) == batch_cached(
                    c,
                    *self,
                    matvecs@,
                    outputs@,
                    i as nat,
                ),
            decreases matvecs@.len() - i,
        {
            let ghost before = bind_lists(groups@);
            let one = prepare_chunks(
                context,
                self.input_buffer,
                self.in_features,
                &matvecs[i].chunks,
                outputs[i].buffer,
            );
            groups.push(one);
            i += 1;
            assert(bind_lists(groups@) =~= before.push(one@));
        }
        Ok(GpuQ8SameInputBatchResidentCache { groups })
    }

    /// Prepares the buffers, copies the input and runs the batch, in a pass of its own.
    pub fn encode_resident(
        &self,
        context: &mut GpuContext,
        matvecs: &[&GpuQ8MatVec],
        encoder: &mut GpuEncoder,
        input: &GpuResidentBuffer,
        outputs: &[&GpuResidentBuffer],
    ) -> (r: Result<(), String>)
        requires
            old(context)@.id == self.context,
            self.well_formed(),
        ensures
            context::quiet(old(context)@, final(context)@),
            final(context)@.id == old(context)@.id,
            ({
                let why = batch_resident_error(
                    *self,
                    matvecs@,
                    *input,
                    outputs@,
                    bind_lists(self.groups@),
                    batch_layout(),
                );
                let all = batch_cached(
                    old(context)@,
                    *self,
                    matvecs@,
                    outputs@,
                    matvecs@.len(),
                );
                match r {
                    Ok(()) => {
                        &&& why is None
                        &&& final(context)@ == all.0
                        &&& final(encoder)@ == old(encoder)@.push(
                            context::copy(input.buffer, self.input_buffer, 0, self.in_features),
                        ).push(GpuCommand::BeginPass) + batch_resident_runs(
                            *self,
                            matvecs@,
                            all.1,
                        )
                    },
                    Err(e) => {
                        &&& why == Some(e@)
                        &&& final(context)@ == old(context)@
                        &&& final(encoder)@ == old(encoder)@
                    },
                }
            }),
    {
        match self.prepare_resident_cache(context, matvecs, input, outputs) {
            Ok(cache) => {
                proof {
                    lemma_cached_lens(
                        old(context)@,
                        *self,
                        matvecs@,
                        outputs@,
                        matvecs@.len(),
                    );
                    lemma_prepared_suits(
                        *self,
                        matvecs@,
                        outputs@,
                        bind_lists(self.groups@),
                        bind_lists(cache.groups@),
                        0,
                    );
                }
                self.encode_resident_with_cache(matvecs, encoder, input, outputs, &cache)
            },
            Err(e) => Err(e),
        }
    }

    /// Copies the input and runs the batch with prepared buffers, in a pass of its own.
    pub fn encode_resident_with_cache(
        &self,
        matvecs: &[&GpuQ8MatVec],
        encoder: &mut GpuEncoder,
        input: &GpuResidentBuffer,
        outputs: &[&GpuResidentBuffer],
        cache: &GpuQ8SameInputBatchResidentCache,
    ) -> (r: Result<(), String>)
        requires
            self.well_formed(),
        ensures
            ({
                let why = batch_encode_error(*self, matvecs@, *input, outputs@, *cache);
                match r {
                    Ok(()) => {
                        &&& why is None
                        &&& final(encoder)@ == old(encoder)@.push(
                            context::copy(input.buffer, self.input_buffer, 0, self.in_features),
                        ).push(GpuCommand::BeginPass) + batch_resident_runs(
                            *self,
                            matvecs@,
                            bind_lists(cache.groups@),
                        )
                    },
                    Err(e) => why == Some(e@) && final(encoder)@ == old(encoder)@,
                }
            }),
    {
        match self.check_cache(matvecs, input, outputs, cache) {
            Some(e) => {
                return Err(e);
            },
            None => {},
        }
        encoder.copy_buffer(input.buffer, self.input_buffer, 0, self.in_features);
        encoder.begin_compute_pass();
        self.encode_resident_with_cache_in_pass(matvecs, input, outputs, cache, encoder)
    }

    fn check_cache(
        &self,
        matvecs: &[&GpuQ8MatVec],
        input: &GpuResidentBuffer,
        outputs: &[&GpuResidentBuffer],
        cache: &GpuQ8SameInputBatchResidentCache,
    ) -> (r: Option<String>)
        requires
            self.well_formed(),
        ensures
            match r {
                Some(e) => batch_encode_error(*self, matvecs@, *input, outputs@, *cache) == Some(
                    e@,
                ),
                None => {
                    &&& batch_encode_error(*self, matvecs@, *input, outputs@, *cache) is None
                    &&& matvecs@.len() == cache.groups@.len()
                    &&& forall|i: int|
                        0 <= i < matvecs@.len() ==> (#[trigger] matvecs@[i]).chunks@.len()
                            == cache.groups@[i]@.len()
                },
            },
    {
        if matvecs.len() != cache.groups.len() || outputs.len() != cache.groups.len() {
            return Some("GPU Q8 shared-input resident batch cache size mismatch".to_owned());
        }
        self.check_resident(
            matvecs,
            input,
            outputs,
            &cache.groups,
            "GPU Q8 shared-input resident batch cache chunk layout mismatch",
        )
    }

    /// Runs the batch with prepared buffers, in the pass that was started.
    pub fn encode_resident_with_cache_in_pass(
        &self,
        matvecs: &[&GpuQ8MatVec],
        input: &GpuResidentBuffer,
        outputs: &[&GpuResidentBuffer],
        cache: &GpuQ8SameInputBatchResidentCache,
        pass: &mut GpuEncoder,
    ) -> (r: Result<(), String>)
        requires
            self.well_formed(),
        ensures
            ({
                let why = batch_encode_error(*self, matvecs@, *input, outputs@, *cache);
                match r {
                    Ok(()) => {
                        &&& why is None
                        &&& final(pass)@ == old(pass)@ + batch_resident_runs(
                            *self,
                            matvecs@,
                            bind_lists(cache.groups@),
                        )
                    },
                    Err(e) => why == Some(e@) && final(pass)@ == old(pass)@,
                }
            }),
    {
        match self.check_cache(matvecs, input, outputs, cache) {
            Some(e) => {
                return Err(e);
            },
            None => {},
        }
        let kernel = kernel_for_width(self.in_features);
        push_batch_runs(pass, &cache.groups, matvecs, kernel);
        Ok(())
    }
}

/// Preparing chunks keeps the device, and gives buffers for each of them.
pub proof fn lemma_chunks_cached_len(
    c: context::ContextView,
    input: usize,
    width: usize,
    chunks: Seq<GpuQ8MatVecChunk>,
    output: usize,
    n: nat,
)
    ensures
        chunks_cached(c, input, width, chunks, output, n).0.id == c.id,
        chunks_cached(c, input, width, chunks, output, n).1.len() == n,
    decreases n,
{
    if n > 0 {
        lemma_chunks_cached_len(c, input, width, chunks, output, (n - 1) as nat);
    }
}

proof fn lemma_cached_lens(
    c: context::ContextView,
    b: GpuQ8SameInputBatch,
    m: Seq<&GpuQ8MatVec>,
    outputs: Seq<&GpuResidentBuffer>,
    n: nat,
)
    requires
        n <= m.len(),
    ensures
        batch_cached(c, b, m, outputs, n).0.id == c.id,
        batch_cached(c, b, m, outputs, n).1.len() == n,
        forall|i: int|
            0 <= i < n ==> (#[trigger] batch_cached(c, b, m, outputs, n).1[i]).len()
                == m[i].chunks@.len(),
    decreases n,
{
    if n > 0 {
        let k = (n - 1) as nat;
        lemma_cached_lens(c, b, m, outputs, k);
        let done = batch_cached(c, b, m, outputs, k);
        lemma_chunks_cached_len(
            done.0,
            b.input_buffer,
            b.in_features,
            m[k as int].chunks@,
            outputs[k as int].buffer,
            m[k as int].chunks@.len(),
        );
        assert forall|i: int| 0 <= i < n implies (#[trigger] batch_cached(c, b, m, outputs, n).1[i]).len()
            == m[i].chunks@.len() by {
            if i < k {
                assert(done.1[i].len() == m[i].chunks@.len());
            }
        }
    }
}

proof fn lemma_prepared_suits(
    b: GpuQ8SameInputBatch,
    m: Seq<&GpuQ8MatVec>,
    outputs: Seq<&GpuResidentBuffer>,
    own: Seq<Seq<GpuQ8Binds>>,
    groups: Seq<Seq<GpuQ8Binds>>,
    i: int,
)
    requires
        0 <= i <= m.len(),
        batch_outputs_error(b, m, outputs, own, batch_layout(), i) is None,
        forall|j: int| 0 <= j < m.len() ==> (#[trigger] groups[j]).len() == m[j].chunks@.len(),
    ensures
        batch_outputs_error(b, m, outputs, groups, cache_layout(), i) is None,
    decreases m.len() - i,
{
    if i < m.len() {
        assert(groups[i].len() == m[i].chunks@.len());
        lemma_prepared_suits(b, m, outputs, own, groups, i + 1);
    }
}

} // verus!
