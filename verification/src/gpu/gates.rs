//! What holds of the runs of the gated layers: every value between the products has its thread, and
//! every product its place.

use vstd::prelude::*;

use crate::gpu::context;
use crate::gpu::context::{GpuCommand, GpuPipeline, OpView};
use crate::gpu::matvec;
use crate::gpu::matvec::{GpuMatVec, GpuMatVecChunk};
use crate::gpu::q8;
use crate::gpu::q8::{GpuQ8Binds, GpuQ8MatVec, GpuQ8MatVecChunk};
use crate::gpu::q8_batch;
use crate::gpu::q8_swiglu;
use crate::gpu::q8_swiglu::{GpuQ8SwiGluDown, GpuQ8SwiGluDownResidentCache};
use crate::gpu::rows;
use crate::gpu::rows::GpuRows;
use crate::gpu::swiglu;
use crate::gpu::swiglu::{GpuSwiGluDown, GpuSwiGluGroup};

verus! {

/// Whether there is one gate for each run of rows: it is run over as many values, and its words
/// name their place and their number.
pub open spec fn gates_match(
    ops: Seq<OpView>,
    groups: Seq<GpuSwiGluGroup>,
    parts: Seq<GpuRows>,
) -> bool {
    &&& groups.len() == parts.len()
    &&& forall|k: int|
        0 <= k < groups.len() ==> {
            &&& (#[trigger] groups[k]).out_features == parts[k].out_features
            &&& ops.contains(
                OpView::Init { buffer: groups[k].params, words: swiglu::gate_params(parts[k]) },
            )
        }
}

proof fn lemma_op_stays(ops: Seq<OpView>, op: OpView, new: OpView)
    ensures
        ops.contains(op) ==> ops.push(new).contains(op),
        ops.push(new).contains(new),
{
    if ops.contains(op) {
        let i = choose|i: int| 0 <= i < ops.len() && ops[i] == op;
        assert(ops.push(new)[i] == op);
    }
    assert(ops.push(new)[ops.len() as int] == new);
}

proof fn lemma_match_grows(
    ops: Seq<OpView>,
    groups: Seq<GpuSwiGluGroup>,
    parts: Seq<GpuRows>,
    g: GpuSwiGluGroup,
    part: GpuRows,
)
    requires
        gates_match(ops, groups, parts),
        g.out_features == part.out_features,
    ensures
        gates_match(
            ops.push(OpView::Init { buffer: g.params, words: swiglu::gate_params(part) }),
            groups.push(g),
            parts.push(part),
        ),
{
    let new = OpView::Init { buffer: g.params, words: swiglu::gate_params(part) };
    lemma_op_stays(ops, new, new);
    assert forall|k: int| 0 <= k < groups.push(g).len() implies {
        &&& (#[trigger] groups.push(g)[k]).out_features == parts.push(part)[k].out_features
        &&& ops.push(new).contains(
            OpView::Init {
                buffer: groups.push(g)[k].params,
                words: swiglu::gate_params(parts.push(part)[k]),
            },
        )
    } by {
        if k < groups.len() {
            assert(groups.push(g)[k] == groups[k]);
            lemma_op_stays(
                ops,
                OpView::Init { buffer: groups[k].params, words: swiglu::gate_params(parts[k]) },
                new,
            );
        }
    }
}

proof fn lemma_q8_gates_match(
    c: context::ContextView,
    gate: Seq<GpuQ8MatVecChunk>,
    up: Seq<GpuQ8MatVecChunk>,
    output: usize,
    n: nat,
)
    requires
        n <= gate.len(),
    ensures
        ({
            let all = q8_swiglu::q8_gates_made(c, gate, up, output, n);
            gates_match(all.0.ops, all.1, q8::q8_rows_of(gate.take(n as int)))
        }),
    decreases n,
{
    if n > 0 {
        let k = n - 1;
        lemma_q8_gates_match(c, gate, up, output, k as nat);
        let done = q8_swiglu::q8_gates_made(c, gate, up, output, k as nat);
        let all = q8_swiglu::q8_gates_made(c, gate, up, output, n);
        let parts = q8::q8_rows_of(gate.take(k));
        lemma_match_grows(done.0.ops, done.1, parts, all.1.last(), gate[k].rows);
        assert(all.1 =~= done.1.push(all.1.last()));
        assert(q8::q8_rows_of(gate.take(n as int)) =~= parts.push(gate[k].rows));
    }
}

proof fn lemma_half_gates_match(
    c: context::ContextView,
    gate: Seq<GpuMatVecChunk>,
    up: Seq<GpuMatVecChunk>,
    output: usize,
    n: nat,
)
    requires
        n <= gate.len(),
    ensures
        ({
            let all = swiglu::gates_made(c, gate, up, output, n);
            gates_match(all.0.ops, all.1, matvec::rows_of(gate.take(n as int)))
        }),
    decreases n,
{
    if n > 0 {
        let k = n - 1;
        lemma_half_gates_match(c, gate, up, output, k as nat);
        let done = swiglu::gates_made(c, gate, up, output, k as nat);
        let all = swiglu::gates_made(c, gate, up, output, n);
        let parts = matvec::rows_of(gate.take(k));
        lemma_match_grows(done.0.ops, done.1, parts, all.1.last(), gate[k].rows);
        assert(all.1 =~= done.1.push(all.1.last()));
        assert(matvec::rows_of(gate.take(n as int)) =~= parts.push(gate[k].rows));
    }
}

/// Whether no command runs a gate.
pub open spec fn no_gates(commands: Seq<GpuCommand>) -> bool {
    forall|i: int| 0 <= i < commands.len() ==> !swiglu::runs_gate(#[trigger] commands[i])
}

proof fn lemma_no_gates_apart(a: Seq<GpuCommand>, b: Seq<GpuCommand>)
    requires
        no_gates(a),
        no_gates(b),
    ensures
        no_gates(a + b),
{
    assert forall|i: int| 0 <= i < (a + b).len() implies !swiglu::runs_gate(
        #[trigger] (a + b)[i],
    ) by {
        if i < a.len() {
            assert((a + b)[i] == a[i]);
        } else {
            assert((a + b)[i] == b[i - a.len()]);
        }
    }
}

proof fn lemma_half_chunks_no_gates(chunks: Seq<GpuMatVecChunk>, copied: bool)
    ensures
        no_gates(matvec::chunks_commands(chunks, copied)),
    decreases chunks.len(),
{
    if chunks.len() > 0 {
        lemma_half_chunks_no_gates(chunks.drop_last(), copied);
        lemma_no_gates_apart(
            matvec::chunks_commands(chunks.drop_last(), copied),
            matvec::chunk_commands(chunks.last(), copied),
        );
    }
}

proof fn lemma_q8_chunks_no_gates(chunks: Seq<GpuQ8MatVecChunk>, kernel: GpuPipeline)
    requires
        !(kernel is SwiGlu),
    ensures
        no_gates(q8::q8_chunks_commands(chunks, kernel)),
    decreases chunks.len(),
{
    if chunks.len() > 0 {
        lemma_q8_chunks_no_gates(chunks.drop_last(), kernel);
        lemma_no_gates_apart(
            q8::q8_chunks_commands(chunks.drop_last(), kernel),
            q8::q8_chunk_commands(chunks.last(), kernel),
        );
    }
}

proof fn lemma_passes_no_gates(
    groups: Seq<GpuQ8Binds>,
    chunks: Seq<GpuQ8MatVecChunk>,
    kernel: GpuPipeline,
    n: nat,
)
    requires
        !(kernel is SwiGlu),
    ensures
        no_gates(q8_swiglu::chunk_passes(groups, chunks, kernel, n)),
        no_gates(q8_batch::chunk_runs(groups, chunks, kernel, n)),
    decreases n,
{
    if n > 0 {
        lemma_passes_no_gates(groups, chunks, kernel, (n - 1) as nat);
    }
}

proof fn lemma_groups_fit(
    ops: Seq<OpView>,
    groups: Seq<GpuSwiGluGroup>,
    parts: Seq<GpuRows>,
    up: Seq<GpuRows>,
    layout: Seq<char>,
    size: Seq<char>,
)
    requires
        gates_match(ops, groups, parts),
        swiglu::pairs_error(parts, up, 0, layout, size) is None,
    ensures
        forall|k: int| 0 <= k < groups.len() ==> (#[trigger] groups[k]).out_features <= u32::MAX,
{
    swiglu::lemma_pairs_fit(parts, up, 0, layout, size);
    assert forall|k: int| 0 <= k < groups.len() implies (#[trigger] groups[k]).out_features
        <= u32::MAX by {
        assert(groups[k].out_features == parts[k].out_features);
    }
}

/// Law: the gated layer in half precision has a gate for each chunk of its gate matrix, and runs
/// each of them, and nothing else as a gate, with a thread for each row of the chunk.
pub proof fn law_half_gates_cover(
    c: context::ContextView,
    s: GpuSwiGluDown,
    gate: GpuMatVec,
    up: GpuMatVec,
    down: GpuMatVec,
)
    requires
        swiglu::swiglu_error(gate, up, down) is None,
        s.groups@ == swiglu::gates_made(
            c,
            gate.chunks@,
            up.chunks@,
            down.input_buffer,
            gate.chunks@.len(),
        ).1,
    ensures
        ({
            let made = swiglu::gates_made(
                c,
                gate.chunks@,
                up.chunks@,
                down.input_buffer,
                gate.chunks@.len(),
            );
            &&& gates_match(made.0.ops, s.groups@, matvec::rows_of(gate.chunks@))
            &&& swiglu::gates_covered(swiglu::swiglu_commands(s, gate, up, down), s.groups@)
        }),
{
    let n = gate.chunks@.len();
    let made = swiglu::gates_made(c, gate.chunks@, up.chunks@, down.input_buffer, n);
    lemma_half_gates_match(c, gate.chunks@, up.chunks@, down.input_buffer, n);
    assert(gate.chunks@.take(n as int) =~= gate.chunks@);
    lemma_groups_fit(
        made.0.ops,
        s.groups@,
        matvec::rows_of(gate.chunks@),
        matvec::rows_of(up.chunks@),
        "GPU fused MLP requires gate/up chunk layout to match"@,
        "GPU fused MLP chunk is too large for u32 shader params"@,
    );
    swiglu::law_gates_are_covered(s.groups@, true);
    lemma_half_chunks_no_gates(gate.chunks@, false);
    lemma_half_chunks_no_gates(up.chunks@, false);
    lemma_half_chunks_no_gates(down.chunks@, true);
    let a = matvec::chunks_commands(gate.chunks@, false);
    let b = matvec::chunks_commands(up.chunks@, false);
    lemma_no_gates_apart(a, b);
    swiglu::lemma_covered_between(
        a + b,
        swiglu::gate_commands(s.groups@, true),
        matvec::chunks_commands(down.chunks@, true),
        s.groups@,
    );
}

/// Law: the gated layer in eight bits has a gate for each chunk of its gate matrix, and runs each
/// of them, and nothing else as a gate, with a thread for each row of the chunk.
pub proof fn law_q8_gates_cover(
    c: context::ContextView,
    s: GpuQ8SwiGluDown,
    gate: GpuQ8MatVec,
    up: GpuQ8MatVec,
    down: GpuQ8MatVec,
    output: usize,
)
    requires
        q8_swiglu::q8_swiglu_error(gate, up, down) is None,
        s.groups@ == q8_swiglu::q8_gates_made(
            c,
            gate.chunks@,
            up.chunks@,
            output,
            gate.chunks@.len(),
        ).1,
    ensures
        ({
            let made = q8_swiglu::q8_gates_made(
                c,
                gate.chunks@,
                up.chunks@,
                output,
                gate.chunks@.len(),
            );
            &&& gates_match(made.0.ops, s.groups@, q8::q8_rows_of(gate.chunks@))
            &&& swiglu::gates_covered(q8_swiglu::q8_swiglu_commands(s, gate, down), s.groups@)
        }),
{
    let kernel = q8::q8_kernel(gate.in_features);
    lemma_q8_groups(c, gate, up, down, output);
    swiglu::law_gates_are_covered(s.groups@, true);
    lemma_passes_no_gates(s.gate_groups@, gate.chunks@, kernel, s.gate_groups@.len());
    lemma_passes_no_gates(s.up_groups@, gate.chunks@, kernel, s.up_groups@.len());
    lemma_q8_chunks_no_gates(down.chunks@, q8::q8_kernel(down.in_features));
    let a = q8_swiglu::chunk_passes(s.gate_groups@, gate.chunks@, kernel, s.gate_groups@.len());
    let b = q8_swiglu::chunk_passes(s.up_groups@, gate.chunks@, kernel, s.up_groups@.len());
    lemma_no_gates_apart(a, b);
    swiglu::lemma_covered_between(
        a + b,
        swiglu::gate_commands(s.groups@, true),
        q8::q8_chunks_commands(down.chunks@, q8::q8_kernel(down.in_features)),
        s.groups@,
    );
}

proof fn lemma_q8_groups(
    c: context::ContextView,
    gate: GpuQ8MatVec,
    up: GpuQ8MatVec,
    down: GpuQ8MatVec,
    output: usize,
)
    requires
        q8_swiglu::q8_swiglu_error(gate, up, down) is None,
    ensures
        ({
            let made = q8_swiglu::q8_gates_made(
                c,
                gate.chunks@,
                up.chunks@,
                output,
                gate.chunks@.len(),
            );
            &&& gates_match(made.0.ops, made.1, q8::q8_rows_of(gate.chunks@))
            &&& forall|k: int|
                0 <= k < made.1.len() ==> (#[trigger] made.1[k]).out_features <= u32::MAX
        }),
{
    let n = gate.chunks@.len();
    let made = q8_swiglu::q8_gates_made(c, gate.chunks@, up.chunks@, output, n);
    lemma_q8_gates_match(c, gate.chunks@, up.chunks@, output, n);
    assert(gate.chunks@.take(n as int) =~= gate.chunks@);
    lemma_groups_fit(
        made.0.ops,
        made.1,
        q8::q8_rows_of(gate.chunks@),
        q8::q8_rows_of(up.chunks@),
        "GPU Q8 fused MLP requires gate/up chunk layout to match"@,
        "GPU Q8 fused MLP chunk is too large for u32 shader params"@,
    );
}

/// Law: with prepared buffers the gated layer in eight bits runs each gate too, and nothing else as
/// a gate, with a thread for each row of its chunk.
pub proof fn law_q8_cache_gates_cover(
    c: context::ContextView,
    gate: GpuQ8MatVec,
    up: GpuQ8MatVec,
    down: GpuQ8MatVec,
    hidden: usize,
    cache: GpuQ8SwiGluDownResidentCache,
)
    requires
        q8_swiglu::q8_swiglu_error(gate, up, down) is None,
        cache.swiglu_groups@ == q8_swiglu::q8_gates_made(
            c,
            gate.chunks@,
            up.chunks@,
            hidden,
            gate.chunks@.len(),
        ).1,
    ensures
        ({
            let made = q8_swiglu::q8_gates_made(
                c,
                gate.chunks@,
                up.chunks@,
                hidden,
                gate.chunks@.len(),
            );
            &&& gates_match(made.0.ops, cache.swiglu_groups@, q8::q8_rows_of(gate.chunks@))
            &&& swiglu::gates_covered(
                q8_swiglu::q8_swiglu_runs(gate, down, cache),
                cache.swiglu_groups@,
            )
        }),
{
    let kernel = q8::q8_kernel(gate.in_features);
    let last = q8::q8_kernel(down.in_features);
    let n = gate.chunks@.len();
    lemma_q8_groups(c, gate, up, down, hidden);
    swiglu::law_gates_are_covered(cache.swiglu_groups@, false);
    lemma_passes_no_gates(cache.gate_groups@, gate.chunks@, kernel, n);
    lemma_passes_no_gates(cache.up_groups@, gate.chunks@, kernel, n);
    lemma_passes_no_gates(cache.down_groups@, down.chunks@, last, down.chunks@.len());
    let a = q8_batch::chunk_runs(cache.gate_groups@, gate.chunks@, kernel, n);
    let b = q8_batch::chunk_runs(cache.up_groups@, gate.chunks@, kernel, n);
    lemma_no_gates_apart(a, b);
    swiglu::lemma_covered_between(
        a + b,
        swiglu::gate_commands(cache.swiglu_groups@, false),
        q8_batch::chunk_runs(cache.down_groups@, down.chunks@, last, down.chunks@.len()),
        cache.swiglu_groups@,
    );
}

/// Whether value `x` is computed by a group: its words name rows among which the value is, and some
/// command runs it with a thread for each of them.
pub open spec fn value_is_gated(
    ops: Seq<OpView>,
    commands: Seq<GpuCommand>,
    g: GpuSwiGluGroup,
    part: GpuRows,
    x: int,
) -> bool {
    &&& part.out_offset <= x < part.out_offset + part.out_features
    &&& ops.contains(OpView::Init { buffer: g.params, words: swiglu::gate_params(part) })
    &&& g.out_features == part.out_features
    &&& swiglu::gate_is_run(commands, g)
}

/// Law: where there is a gate for each run of rows, the runs of rows follow one another and every
/// gate is run over all of its rows, every value between the products is computed by a gate.
pub proof fn law_every_value_is_gated(
    ops: Seq<OpView>,
    commands: Seq<GpuCommand>,
    groups: Seq<GpuSwiGluGroup>,
    parts: Seq<GpuRows>,
    inner: int,
    x: int,
)
    requires
        gates_match(ops, groups, parts),
        swiglu::gates_covered(commands, groups),
        rows::covers(parts, inner),
        0 <= x < inner,
    ensures
        exists|k: int|
            0 <= k < groups.len() && value_is_gated(
                ops,
                commands,
                #[trigger] groups[k],
                parts[k],
                x,
            ),
{
    let k = lemma_row_found(parts, inner, x);
    assert(swiglu::gate_is_run(commands, groups[k]));
    assert(value_is_gated(ops, commands, groups[k], parts[k], x));
}

proof fn lemma_row_found(parts: Seq<GpuRows>, upto: int, x: int) -> (k: int)
    requires
        rows::covers(parts, upto),
        0 <= x < upto,
    ensures
        0 <= k < parts.len(),
        parts[k].out_offset <= x < parts[k].out_offset + parts[k].out_features,
    decreases parts.len(),
{
    if x >= parts.last().out_offset {
        parts.len() - 1
    } else {
        lemma_row_found(parts.drop_last(), parts.last().out_offset as int, x)
    }
}

/// Whether product `x` of a matrix lands in its place of one resident output: the words of a chunk's
/// product name a run of rows that holds it, and a run of that product has a workgroup for each row.
pub open spec fn product_is_placed(
    ops: Seq<OpView>,
    commands: Seq<GpuCommand>,
    b: GpuQ8Binds,
    chunk: GpuQ8MatVecChunk,
    kernel: GpuPipeline,
    width: usize,
    output: usize,
    x: int,
) -> bool {
    let words = q8_batch::placed_params(chunk, width);
    &&& chunk.rows.out_offset <= x < chunk.rows.out_offset + chunk.rows.out_features
    &&& words[1] == chunk.rows.out_features
    &&& words[3] == chunk.rows.out_offset
    &&& b.output == output
    &&& ops.contains(OpView::Init { buffer: b.params, words })
    &&& commands.contains(
        context::run(kernel, q8::q8_group(b), chunk.rows.out_features as u32),
    )
}

/// Law: where the chunks of a matrix follow one another, each of its products lands in its place of
/// the resident output for which they were prepared.
pub proof fn law_every_product_is_placed(
    c: context::ContextView,
    input: usize,
    width: usize,
    chunks: Seq<GpuQ8MatVecChunk>,
    output: usize,
    kernel: GpuPipeline,
    outputs: int,
    x: int,
)
    requires
        rows::covers(q8::q8_rows_of(chunks), outputs),
        outputs <= u32::MAX,
        0 <= x < outputs,
    ensures
        ({
            let made = q8_batch::chunks_cached(c, input, width, chunks, output, chunks.len());
            let commands = q8_batch::chunk_runs(made.1, chunks, kernel, chunks.len());
            exists|k: int|
                0 <= k < chunks.len() && product_is_placed(
                    made.0.ops,
                    commands,
                    #[trigger] made.1[k],
                    chunks[k],
                    kernel,
                    width,
                    output,
                    x,
                )
        }),
{
    let made = q8_batch::chunks_cached(c, input, width, chunks, output, chunks.len());
    let commands = q8_batch::chunk_runs(made.1, chunks, kernel, chunks.len());
    let k = lemma_row_found(q8::q8_rows_of(chunks), outputs, x);
    lemma_rows_end(q8::q8_rows_of(chunks), outputs, k);
    lemma_placed(c, input, width, chunks, output, chunks.len(), k);
    lemma_chunk_is_run(made.1, chunks, kernel, chunks.len(), k);
    assert(product_is_placed(made.0.ops, commands, made.1[k], chunks[k], kernel, width, output, x));
}

proof fn lemma_rows_end(parts: Seq<GpuRows>, upto: int, k: int)
    requires
        rows::covers(parts, upto),
        0 <= k < parts.len(),
    ensures
        parts[k].out_offset + parts[k].out_features <= upto,
    decreases parts.len(),
{
    if k < parts.len() - 1 {
        lemma_rows_end(parts.drop_last(), parts.last().out_offset as int, k);
    }
}

proof fn lemma_placed(
    c: context::ContextView,
    input: usize,
    width: usize,
    chunks: Seq<GpuQ8MatVecChunk>,
    output: usize,
    n: nat,
    k: int,
)
    requires
        0 <= k < n <= chunks.len(),
    ensures
        ({
            let made = q8_batch::chunks_cached(c, input, width, chunks, output, n);
            &&& made.1.len() == n
            &&& made.1[k].output == output
            &&& made.0.ops.contains(
                OpView::Init {
                    buffer: made.1[k].params,
                    words: q8_batch::placed_params(chunks[k], width),
                },
            )
        }),
    decreases n,
{
    let m = (n - 1) as nat;
    let done = q8_batch::chunks_cached(c, input, width, chunks, output, m);
    let all = q8_batch::chunks_cached(c, input, width, chunks, output, n);
    q8_batch::lemma_chunks_cached_len(c, input, width, chunks, output, n);
    q8_batch::lemma_chunks_cached_len(c, input, width, chunks, output, m);
    let new = OpView::Init {
        buffer: all.1[m as int].params,
        words: q8_batch::placed_params(chunks[m as int], width),
    };
    assert(all.0.ops == done.0.ops.push(new));
    if k < m {
        lemma_placed(c, input, width, chunks, output, m, k);
        lemma_op_stays(
            done.0.ops,
            OpView::Init {
                buffer: done.1[k].params,
                words: q8_batch::placed_params(chunks[k], width),
            },
            new,
        );
    } else {
        lemma_op_stays(done.0.ops, new, new);
    }
}

proof fn lemma_chunk_is_run(
    groups: Seq<GpuQ8Binds>,
    chunks: Seq<GpuQ8MatVecChunk>,
    kernel: GpuPipeline,
    n: nat,
    k: int,
)
    requires
        0 <= k < n,
    ensures
        q8_batch::chunk_runs(groups, chunks, kernel, n).contains(
            context::run(kernel, q8::q8_group(groups[k]), chunks[k].rows.out_features as u32),
        ),
    decreases n,
{
    let m = (n - 1) as nat;
    let done = q8_batch::chunk_runs(groups, chunks, kernel, m);
    let all = q8_batch::chunk_runs(groups, chunks, kernel, n);
    let c = context::run(kernel, q8::q8_group(groups[k]), chunks[k].rows.out_features as u32);
    if k < m {
        lemma_chunk_is_run(groups, chunks, kernel, m, k);
        let i = choose|i: int| 0 <= i < done.len() && done[i] == c;
        assert(all[i] == c);
    } else {
        assert(all[done.len() as int] == c);
    }
}

} // verus!
