//! The gated layer on matrices in half precision: two products, a gate, and a third product.

use vstd::prelude::*;
use vstd::string::*;

use crate::gpu::context;
use crate::gpu::context::{
    workgroups_for, GpuBindGroup, GpuCommand, GpuContext, GpuEncoder, GpuPipeline, GpuUsage,
    GpuWrite,
};
use crate::gpu::matvec;
use crate::gpu::matvec::{expects_row, is_row, push_chunks, push_readbacks, GpuMatVec, GpuMatVecChunk};
use crate::gpu::rows::GpuRows;
use crate::tensor::Tensor;
use crate::text;

verus! {

/// What multiplies the products of one pair of chunks.
#[derive(Clone, Copy, Debug)]
pub struct GpuSwiGluGroup {
    pub gate: usize,
    pub up: usize,
    pub output: usize,
    pub params: usize,
    pub out_features: usize,
}

/// The gated layer.
#[derive(Debug)]
pub struct GpuSwiGluDown {
    pub context: u64,
    pub groups: Vec<GpuSwiGluGroup>,
}

/// The buffers of a gate, for the kernel.
pub open spec fn gate_group(g: GpuSwiGluGroup) -> GpuBindGroup {
    GpuBindGroup::SwiGlu { gate: g.gate, up: g.up, output: g.output, params: g.params }
}

/// The words that tell a gate where its values go, and how many there are.
pub open spec fn gate_params(r: GpuRows) -> Seq<u32> {
    seq![r.out_offset as u32, r.out_features as u32, 0, 0]
}

/// Why the pairs of chunks from `i` on cannot share a gate.
pub open spec fn pairs_error(
    gate: Seq<GpuRows>,
    up: Seq<GpuRows>,
    i: int,
    layout: Seq<char>,
    size: Seq<char>,
) -> Option<Seq<char>>
    decreases gate.len() - i,
{
    if i < 0 || i >= gate.len() {
        None
    } else if gate[i] != up[i] {
        Some(layout)
    } else if gate[i].out_offset > u32::MAX || gate[i].out_features > u32::MAX {
        Some(size)
    } else {
        pairs_error(gate, up, i + 1, layout, size)
    }
}

/// Why three matrices do not make a gated layer.
pub open spec fn swiglu_error(gate: GpuMatVec, up: GpuMatVec, down: GpuMatVec) -> Option<
    Seq<char>,
> {
    let pairs = pairs_error(
        matvec::rows_of(gate.chunks@),
        matvec::rows_of(up.chunks@),
        0,
        "GPU fused MLP requires gate/up chunk layout to match"@,
        "GPU fused MLP chunk is too large for u32 shader params"@,
    );
    if gate.in_features != up.in_features {
        Some("GPU fused MLP requires gate/up input width to match"@)
    } else if gate.out_features != up.out_features || gate.out_features != down.in_features {
        Some(
            "GPU fused MLP shape mismatch: gate "@ + text::dec(gate.out_features as nat) + ", up "@
                + text::dec(up.out_features as nat) + ", down input "@ + text::dec(
                down.in_features as nat,
            ),
        )
    } else if gate.chunks@.len() != up.chunks@.len() {
        Some("GPU fused MLP requires gate/up chunk count to match"@)
    } else if pairs is Some {
        pairs
    } else if up.context != gate.context || down.context != gate.context {
        Some("GPU fused MLP requires a shared GpuContext"@)
    } else {
        None
    }
}

/// Why a gated layer cannot take a row.
pub open spec fn swiglu_input_error(
    gate: GpuMatVec,
    up: GpuMatVec,
    down: GpuMatVec,
    dims: Seq<usize>,
) -> Option<Seq<char>> {
    match swiglu_error(gate, up, down) {
        Some(e) => Some(e),
        None => if dims != seq![1usize, gate.in_features] {
            Some(
                "GPU fused MLP expects [1, "@ + text::dec(gate.in_features as nat) + "], got "@
                    + text::bracketed(dims),
            )
        } else {
            None
        },
    }
}

/// Making the gates of the first `n` pairs of chunks.
pub open spec fn gates_made(
    c: context::ContextView,
    gate: Seq<GpuMatVecChunk>,
    up: Seq<GpuMatVecChunk>,
    output: usize,
    n: nat,
) -> (context::ContextView, Seq<GpuSwiGluGroup>)
    decreases n,
{
    if n == 0 {
        (c, Seq::empty())
    } else {
        let k = n - 1;
        let done = gates_made(c, gate, up, output, k as nat);
        (
            context::filled(done.0, gate_params(gate[k].rows), GpuUsage::Params),
            done.1.push(
                GpuSwiGluGroup {
                    gate: gate[k].output_buffer,
                    up: up[k].output_buffer,
                    output,
                    params: context::fresh(done.0),
                    out_features: gate[k].rows.out_features,
                },
            ),
        )
    }
}

/// The commands of some gates in turn, each in a pass of its own where `apart`.
pub open spec fn gate_commands(groups: Seq<GpuSwiGluGroup>, apart: bool) -> Seq<GpuCommand>
    decreases groups.len(),
{
    if groups.len() == 0 {
        Seq::empty()
    } else {
        let g = groups.last();
        let one = context::run(
            GpuPipeline::SwiGlu,
            gate_group(g),
            context::workgroups(g.out_features as u32),
        );
        let before = gate_commands(groups.drop_last(), apart);
        if apart {
            before.push(GpuCommand::BeginPass).push(one)
        } else {
            before.push(one)
        }
    }
}

/// The commands of a gated layer.
pub open spec fn swiglu_commands(
    s: GpuSwiGluDown,
    gate: GpuMatVec,
    up: GpuMatVec,
    down: GpuMatVec,
) -> Seq<GpuCommand> {
    matvec::chunks_commands(gate.chunks@, false) + matvec::chunks_commands(up.chunks@, false)
        + gate_commands(s.groups@, true) + matvec::chunks_commands(down.chunks@, true)
}

/// What a device does to run a gated layer.
pub open spec fn swiglu_run(
    c: context::ContextView,
    s: GpuSwiGluDown,
    gate: GpuMatVec,
    up: GpuMatVec,
    down: GpuMatVec,
    words: Seq<u32>,
) -> context::ContextView {
    let c1 = context::written(c, gate.input_buffer, words, GpuWrite::Host);
    let c2 = context::written(c1, up.input_buffer, words, GpuWrite::Host);
    context::read_back(
        c2,
        swiglu_commands(s, gate, up, down),
        matvec::readbacks_of(down.chunks@),
    )
}

/// Whether two runs are the same.
pub fn same_rows(a: GpuRows, b: GpuRows) -> (r: bool)
    ensures
        r == (a == b),
{
    a.out_offset == b.out_offset && a.out_features == b.out_features
}

fn check_swiglu(gate: &GpuMatVec, up: &GpuMatVec, down: &GpuMatVec) -> (r: Option<String>)
    ensures
        match r {
            Some(e) => swiglu_error(*gate, *up, *down) == Some(e@),
            None => swiglu_error(*gate, *up, *down) is None,
        },
{
    if gate.in_features != up.in_features {
        return Some("GPU fused MLP requires gate/up input width to match".to_owned());
    }
    if gate.out_features != up.out_features || gate.out_features != down.in_features {
        let mut s = "GPU fused MLP shape mismatch: gate ".to_owned();
        text::push_size(&mut s, gate.out_features);
        s.append(", up ");
        text::push_size(&mut s, up.out_features);
        s.append(", down input ");
        text::push_size(&mut s, down.in_features);
        return Some(s);
    }
    if gate.chunks.len() != up.chunks.len() {
        return Some("GPU fused MLP requires gate/up chunk count to match".to_owned());
    }
    let ghost a = matvec::rows_of(gate.chunks@);
    let ghost b = matvec::rows_of(up.chunks@);
    let ghost layout = "GPU fused MLP requires gate/up chunk layout to match"@;
    let ghost size = "GPU fused MLP chunk is too large for u32 shader params"@;
    let mut i: usize = 0;
    while i < gate.chunks.len()
        invariant
            i <= gate.chunks@.len(),
            gate.chunks@.len() == up.chunks@.len(),
            gate.in_features == up.in_features,
            gate.out_features == up.out_features,
            gate.out_features == down.in_features,
            a == matvec::rows_of(gate.chunks@),
            b == matvec::rows_of(up.chunks@),
            layout == "GPU fused MLP requires gate/up chunk layout to match"@,
            size == "GPU fused MLP chunk is too large for u32 shader params"@,
            pairs_error(a, b, 0, layout, size) == pairs_error(a, b, i as int, layout, size),
        decreases gate.chunks@.len() - i,
    {
        let g = gate.chunks[i].rows;
        let u = up.chunks[i].rows;
        assert(a[i as int] == g && b[i as int] == u);
        if !same_rows(g, u) {
            return Some("GPU fused MLP requires gate/up chunk layout to match".to_owned());
        }
        if g.out_offset > u32::MAX as usize || g.out_features > u32::MAX as usize {
            return Some("GPU fused MLP chunk is too large for u32 shader params".to_owned());
        }
        i += 1;
    }
    if up.context != gate.context || down.context != gate.context {
        return Some("GPU fused MLP requires a shared GpuContext".to_owned());
    }
    None
}

/// Appends the commands of some gates.
pub fn push_gates(encoder: &mut GpuEncoder, groups: &[GpuSwiGluGroup], apart: bool)
    ensures
        final(encoder)@ == old(encoder)@ + gate_commands(groups@, apart),
{
    let ghost before = encoder@;
    let mut i: usize = 0;
    assert(groups@.take(0) =~= Seq::<GpuSwiGluGroup>::empty());
    assert(before + gate_commands(groups@.take(0), apart) =~= before);
    while i < groups.len()
        invariant
            i <= groups.len(),
            encoder@ == before + gate_commands(groups@.take(i as int), apart),
        decreases groups.len() - i,
    {
        let g = groups[i];
        if apart {
            encoder.begin_compute_pass();
        }
        encoder.dispatch(
            GpuPipeline::SwiGlu,
            GpuBindGroup::SwiGlu { gate: g.gate, up: g.up, output: g.output, params: g.params },
            workgroups_for(g.out_features as u32),
        );
        proof {
            assert(groups@.take(i + 1).drop_last() =~= groups@.take(i as int));
            assert(groups@.take(i + 1).last() == g);
            assert(encoder@ =~= before + gate_commands(groups@.take(i + 1), apart));
        }
        i += 1;
    }
    assert(groups@.take(groups@.len() as int) =~= groups@);
}

impl GpuSwiGluDown {
    /// Makes the gates between two matrices and a third.
    pub fn new(context: &mut GpuContext, gate: &GpuMatVec, up: &GpuMatVec, down: &GpuMatVec) -> (r:
        Result<GpuSwiGluDown, String>)
        requires
            old(context)@.id == gate.context,
        ensures
            match r {
                Ok(s) => {
                    let all = gates_made(
                        old(context)@,
                        gate.chunks@,
                        up.chunks@,
                        down.input_buffer,
                        gate.chunks@.len(),
                    );
                    &&& swiglu_error(*gate, *up, *down) is None
                    &&& s.context == gate.context
                    &&& s.groups@ == all.1
                    &&& final(context)@ == all.0
                },
                Err(e) => {
                    &&& swiglu_error(*gate, *up, *down) == Some(e@)
                    &&& final(context)@ == old(context)@
                },
            },
    {
        match check_swiglu(gate, up, down) {
            Some(e) => {
                return Err(e);
            },
            None => {},
        }
        let mut groups: Vec<GpuSwiGluGroup> = Vec::new();
        let ghost c = context@;
        let mut i: usize = 0;
        while i < gate.chunks.len()
            invariant
                i <= gate.chunks@.len(),
                gate.chunks@.len() == up.chunks@.len(),
                (context@, groups@) == gates_made(
                    c,
                    gate.chunks@,
                    up.chunks@,
                    down.input_buffer,
                    i as nat,
                ),
            decreases gate.chunks@.len() - i,
        {
            let g = gate.chunks[i];
            let u = up.chunks[i];
            let params: Vec<u32> = vec![g.rows.out_offset as u32, g.rows.out_features as u32, 0, 0];
            assert(params@ =~= gate_params(g.rows));
            let params_buffer: usize = context.create_buffer_init(params, GpuUsage::Params);
            groups.push(
                GpuSwiGluGroup {
                    gate: g.output_buffer,
                    up: u.output_buffer,
                    output: down.input_buffer,
                    params: params_buffer,
                    out_features: g.rows.out_features,
                },
            );
            i += 1;
        }
        Ok(GpuSwiGluDown { context: gate.context, groups })
    }

    /// Runs the layer on a row; the result is read from the buffers returned.
    pub fn forward(
        &self,
        context: &mut GpuContext,
        gate: &GpuMatVec,
        up: &GpuMatVec,
        down: &GpuMatVec,
        x: &Tensor,
    ) -> (r: Result<Vec<usize>, String>)
        requires
            old(context)@.id == self.context,
        ensures
            match r {
                Ok(buffers) => {
                    &&& swiglu_input_error(*gate, *up, *down, x.dims()) is None
                    &&& self.context == gate.context
                    &&& buffers@ == matvec::readbacks_of(down.chunks@)
                    &&& final(context)@ == swiglu_run(
                        old(context)@,
                        *self,
                        *gate,
                        *up,
                        *down,
                        x.values(),
                    )
                },
                Err(e) => {
                    &&& match swiglu_input_error(*gate, *up, *down, x.dims()) {
                        Some(m) => e@ == m,
                        None => self.context != gate.context && e@
                            == "GPU fused MLP cached resources require the original GpuContext"@,
                    }
                    &&& final(context)@ == old(context)@
                },
            },
    {
        match check_swiglu(gate, up, down) {
            Some(e) => {
                return Err(e);
            },
            None => {},
        }
        if !is_row(x, gate.in_features) {
            return Err(expects_row("GPU fused MLP expects [1, ", gate.in_features, x.shape()));
        }
        if self.context != gate.context {
            return Err(
                "GPU fused MLP cached resources require the original GpuContext".to_owned(),
            );
        }
        context.write_buffer(gate.input_buffer, x.standard_values(), GpuWrite::Host);
        context.write_buffer(up.input_buffer, x.standard_values(), GpuWrite::Host);
        let mut encoder = context.create_command_encoder();
        push_chunks(&mut encoder, &gate.chunks, false);
        assert(encoder@ =~= matvec::chunks_commands(gate.chunks@, false));
        push_chunks(&mut encoder, &up.chunks, false);
        push_gates(&mut encoder, &self.groups, true);
        push_chunks(&mut encoder, &down.chunks, true);
        let mut buffers: Vec<usize> = Vec::new();
        push_readbacks(&mut buffers, &down.chunks);
        assert(buffers@ =~= matvec::readbacks_of(down.chunks@));
        context.submit_and_map(encoder, &buffers);
        Ok(buffers)
    }
}

proof fn lemma_gates_keep_id(
    c: context::ContextView,
    gate: Seq<GpuMatVecChunk>,
    up: Seq<GpuMatVecChunk>,
    output: usize,
    n: nat,
)
    ensures
        gates_made(c, gate, up, output, n).0.id == c.id,
    decreases n,
{
    if n > 0 {
        lemma_gates_keep_id(c, gate, up, output, (n - 1) as nat);
    }
}

impl GpuMatVec {
    /// Runs the gated layer on a row, with gates made for this one run; the result is read from the
    /// buffers returned.
    pub fn forward_swiglu_down_same_input(
        context: &mut GpuContext,
        gate: &GpuMatVec,
        up: &GpuMatVec,
        down: &GpuMatVec,
        x: &Tensor,
    ) -> (r: Result<Vec<usize>, String>)
        requires
            old(context)@.id == gate.context,
        ensures
            ({
                let all = gates_made(
                    old(context)@,
                    gate.chunks@,
                    up.chunks@,
                    down.input_buffer,
                    gate.chunks@.len(),
                );
                match r {
                    Ok(buffers) => {
                        &&& swiglu_input_error(*gate, *up, *down, x.dims()) is None
                        &&& buffers@ == matvec::readbacks_of(down.chunks@)
                        &&& exists|s: GpuSwiGluDown|
                            {
                                &&& s.context == gate.context
                                &&& s.groups@ == all.1
                                &&& final(context)@ == #[trigger] swiglu_run(
                                    all.0,
                                    s,
                                    *gate,
                                    *up,
                                    *down,
                                    x.values(),
                                )
                            }
                    },
                    Err(e) => {
                        &&& swiglu_input_error(*gate, *up, *down, x.dims()) == Some(e@)
                        &&& final(context)@ == if swiglu_error(*gate, *up, *down) is Some {
                            old(context)@
                        } else {
                            all.0
                        }
                    },
                }
            }),
    {
        proof {
            lemma_gates_keep_id(
                context@,
                gate.chunks@,
                up.chunks@,
                down.input_buffer,
                gate.chunks@.len(),
            );
        }
        match GpuSwiGluDown::new(context, gate, up, down) {
            Ok(fused) => fused.forward(context, gate, up, down, x),
            Err(e) => Err(e),
        }
    }
}

/// Whether a command runs the given gate with a thread for each of so many values.
pub open spec fn covers_gate(c: GpuCommand, g: GpuSwiGluGroup, rows: usize) -> bool {
    c matches GpuCommand::Dispatch(d) && d.pipeline is SwiGlu && d.group == gate_group(g)
        && d.workgroups * 64 >= rows
}

/// Whether a command runs a gate.
pub open spec fn runs_gate(c: GpuCommand) -> bool {
    c matches GpuCommand::Dispatch(d) && d.pipeline is SwiGlu
}

/// Whether one of some gates is run by a command with a thread for each of its values.
pub open spec fn covers_one(c: GpuCommand, groups: Seq<GpuSwiGluGroup>) -> bool {
    exists|k: int|
        0 <= k < groups.len() && covers_gate(c, #[trigger] groups[k], groups[k].out_features)
}

/// Whether all gates are run, and every run of a gate has a thread for each of its values.
pub open spec fn gates_covered(commands: Seq<GpuCommand>, groups: Seq<GpuSwiGluGroup>) -> bool {
    &&& forall|i: int|
        0 <= i < commands.len() && runs_gate(#[trigger] commands[i]) ==> covers_one(
            commands[i],
            groups,
        )
    &&& forall|k: int|
        0 <= k < groups.len() ==> gate_is_run(commands, #[trigger] groups[k])
}

/// Whether a gate is run, with a thread for each of its values.
pub open spec fn gate_is_run(commands: Seq<GpuCommand>, g: GpuSwiGluGroup) -> bool {
    exists|i: int|
        0 <= i < commands.len() && covers_gate(#[trigger] commands[i], g, g.out_features)
}

/// Law: the commands of some gates run each of them, with a thread for each of its values.
pub proof fn law_gates_are_covered(groups: Seq<GpuSwiGluGroup>, apart: bool)
    requires
        forall|k: int| 0 <= k < groups.len() ==> (#[trigger] groups[k]).out_features <= u32::MAX,
    ensures
        gates_covered(gate_commands(groups, apart), groups),
    decreases groups.len(),
{
    let all = gate_commands(groups, apart);
    if groups.len() > 0 {
        let first = groups.drop_last();
        let before = gate_commands(first, apart);
        let g = groups.last();
        assert forall|k: int| 0 <= k < first.len() implies (#[trigger] first[k]).out_features
            <= u32::MAX by {
            assert(first[k] == groups[k]);
        }
        law_gates_are_covered(first, apart);
        let last = all.len() - 1;
        assert(groups[groups.len() - 1] == g);
        assert(covers_gate(all[last], g, g.out_features));
        assert forall|i: int| 0 <= i < all.len() && runs_gate(#[trigger] all[i]) implies covers_one(
            all[i],
            groups,
        ) by {
            if i < before.len() {
                assert(all[i] == before[i]);
                let k = choose|k: int|
                    0 <= k < first.len() && covers_gate(
                        before[i],
                        #[trigger] first[k],
                        first[k].out_features,
                    );
                assert(groups[k] == first[k]);
            } else {
                assert(covers_gate(all[i], groups[groups.len() - 1], g.out_features));
            }
        }
        assert forall|k: int| 0 <= k < groups.len() implies gate_is_run(
            all,
            #[trigger] groups[k],
        ) by {
            if k < first.len() {
                assert(first[k] == groups[k]);
                assert(gate_is_run(before, first[k]));
                let i = choose|i: int|
                    0 <= i < before.len() && covers_gate(
                        #[trigger] before[i],
                        first[k],
                        first[k].out_features,
                    );
                assert(all[i] == before[i]);
            }
        }
    }
}

/// Commands around those of some gates that run no gate change nothing in that.
pub proof fn lemma_covered_between(
    before: Seq<GpuCommand>,
    gates: Seq<GpuCommand>,
    after: Seq<GpuCommand>,
    groups: Seq<GpuSwiGluGroup>,
)
    requires
        gates_covered(gates, groups),
        forall|i: int| 0 <= i < before.len() ==> !runs_gate(#[trigger] before[i]),
        forall|i: int| 0 <= i < after.len() ==> !runs_gate(#[trigger] after[i]),
    ensures
        gates_covered(before + gates + after, groups),
{
    let all = before + gates + after;
    let at = before.len() as int;
    assert forall|i: int| 0 <= i < all.len() && runs_gate(#[trigger] all[i]) implies covers_one(
        all[i],
        groups,
    ) by {
        if i < at {
            assert(all[i] == before[i]);
        } else if i < at + gates.len() {
            assert(all[i] == gates[i - at]);
        } else {
            assert(all[i] == after[i - at - gates.len()]);
        }
    }
    assert forall|k: int| 0 <= k < groups.len() implies gate_is_run(all, #[trigger] groups[k]) by {
        assert(gate_is_run(gates, groups[k]));
        let i = choose|i: int|
            0 <= i < gates.len() && covers_gate(
                #[trigger] gates[i],
                groups[k],
                groups[k].out_features,
            );
        assert(all[at + i] == gates[i]);
    }
}

/// Rows that may share gates have numbers of 32 bits.
pub proof fn lemma_pairs_fit(
    gate: Seq<GpuRows>,
    up: Seq<GpuRows>,
    i: int,
    layout: Seq<char>,
    size: Seq<char>,
)
    requires
        0 <= i <= gate.len(),
        pairs_error(gate, up, i, layout, size) is None,
    ensures
        forall|k: int|
            i <= k < gate.len() ==> (#[trigger] gate[k]).out_features <= u32::MAX
                && gate[k].out_offset <= u32::MAX,
    decreases gate.len() - i,
{
    if i < gate.len() {
        lemma_pairs_fit(gate, up, i + 1, layout, size);
    }
}

} // verus!
