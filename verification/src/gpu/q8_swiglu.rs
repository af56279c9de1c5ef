//! The gated layer on matrices in eight bits.

use vstd::prelude::*;
use vstd::string::*;

use crate::gpu::context;
use crate::gpu::context::{
    GpuCommand, GpuContext, GpuEncoder, GpuPipeline, GpuUsage, GpuWrite,
};
use crate::gpu::matvec::{expects_row, is_row};
use crate::gpu::q8;
use crate::gpu::q8::{
    all_binds, dispatch_q8, kernel_for_width, push_q8_chunks, GpuQ8Binds, GpuQ8MatVec,
    GpuQ8MatVecChunk,
};
use crate::gpu::q8_batch;
use crate::gpu::q8_batch::{prepare_chunks, push_runs};
use crate::gpu::resident::{two_sizes, GpuResidentBuffer};
use crate::gpu::swiglu;
use crate::gpu::swiglu::{push_gates, same_rows, GpuSwiGluGroup};
use crate::tensor::Tensor;
use crate::text;

verus! {

/// The gated layer with an input of its own.
#[derive(Debug)]
pub struct GpuQ8SwiGluDown {
    pub context: u64,
    pub shared_input_buffer: usize,
    pub gate_groups: Vec<GpuQ8Binds>,
    pub up_groups: Vec<GpuQ8Binds>,
    pub groups: Vec<GpuSwiGluGroup>,
}

/// The buffers of the gated layer over resident values.
#[derive(Debug)]
pub struct GpuQ8SwiGluDownResidentCache {
    pub gate_groups: Vec<GpuQ8Binds>,
    pub up_groups: Vec<GpuQ8Binds>,
    pub swiglu_groups: Vec<GpuSwiGluGroup>,
    pub down_groups: Vec<GpuQ8Binds>,
}

/// Why three matrices do not make a gated layer.
pub open spec fn q8_swiglu_error(gate: GpuQ8MatVec, up: GpuQ8MatVec, down: GpuQ8MatVec) -> Option<
    Seq<char>,
> {
    let pairs = swiglu::pairs_error(
        q8::q8_rows_of(gate.chunks@),
        q8::q8_rows_of(up.chunks@),
        0,
        "GPU Q8 fused MLP requires gate/up chunk layout to match"@,
        "GPU Q8 fused MLP chunk is too large for u32 shader params"@,
    );
    if gate.in_features != up.in_features {
        Some("GPU Q8 fused MLP requires gate/up input width to match"@)
    } else if gate.out_features != up.out_features || gate.out_features != down.in_features {
        Some(
            "GPU Q8 fused MLP shape mismatch: gate "@ + text::dec(gate.out_features as nat)
                + ", up "@ + text::dec(up.out_features as nat) + ", down input "@ + text::dec(
                down.in_features as nat,
            ),
        )
    } else if gate.chunks@.len() != up.chunks@.len() {
        Some("GPU Q8 fused MLP requires gate/up chunk count to match"@)
    } else if pairs is Some {
        pairs
    } else if up.context != gate.context || down.context != gate.context {
        Some("GPU Q8 fused MLP requires a shared GpuContext"@)
    } else {
        None
    }
}

/// Why a gated layer cannot take a row.
pub open spec fn q8_swiglu_input_error(
    gate: GpuQ8MatVec,
    up: GpuQ8MatVec,
    down: GpuQ8MatVec,
    dims: Seq<usize>,
) -> Option<Seq<char>> {
    match q8_swiglu_error(gate, up, down) {
        Some(e) => Some(e),
        None => if dims != seq![1usize, gate.in_features] {
            Some(
                "GPU Q8 fused MLP expects [1, "@ + text::dec(gate.in_features as nat) + "], got "@
                    + text::bracketed(dims),
            )
        } else {
            None
        },
    }
}

/// Making the gates of the first `n` pairs of chunks.
pub open spec fn q8_gates_made(
    c: context::ContextView,
    gate: Seq<GpuQ8MatVecChunk>,
    up: Seq<GpuQ8MatVecChunk>,
    output: usize,
    n: nat,
) -> (context::ContextView, Seq<GpuSwiGluGroup>)
    decreases n,
{
    if n == 0 {
        (c, Seq::empty())
    } else {
        let k = n - 1;
        let done = q8_gates_made(c, gate, up, output, k as nat);
        (
            context::filled(done.0, swiglu::gate_params(gate[k].rows), GpuUsage::Params),
            done.1.push(
                GpuSwiGluGroup {
                    gate: gate[k].output_buffer,
                    up: up[k].output_buffer,
                    output,
                    params: context::fresh(done.0),
                    out_features: gate[k].rows.out_features,
                },
            ),
        )
    }
}

/// The runs of the first `n` chunks, each in a pass of its own.
pub open spec fn chunk_passes(
    groups: Seq<GpuQ8Binds>,
    chunks: Seq<GpuQ8MatVecChunk>,
    kernel: GpuPipeline,
    n: nat,
) -> Seq<GpuCommand>
    decreases n,
{
    if n == 0 {
        Seq::empty()
    } else {
        let k = n - 1;
        chunk_passes(groups, chunks, kernel, k as nat).push(GpuCommand::BeginPass).push(
            context::run(kernel, q8::q8_group(groups[k]), chunks[k].rows.out_features as u32),
        )
    }
}

/// The name of the last product in messages.
pub open spec fn down_name() -> Seq<char> {
    "GPU Q8 fused MLP down"@
}

/// The commands of the gated layer on its own input.
pub open spec fn q8_swiglu_commands(
    s: GpuQ8SwiGluDown,
    gate: GpuQ8MatVec,
    down: GpuQ8MatVec,
) -> Seq<GpuCommand> {
    let kernel = q8::q8_kernel(gate.in_features);
    chunk_passes(s.gate_groups@, gate.chunks@, kernel, s.gate_groups@.len()) + chunk_passes(
        s.up_groups@,
        gate.chunks@,
        kernel,
        s.up_groups@.len(),
    ) + swiglu::gate_commands(s.groups@, true) + q8::q8_chunks_commands(
        down.chunks@,
        q8::q8_kernel(down.in_features),
    )
}

/// Why the gated layer cannot take some numbers, before anything is done.
pub open spec fn q8_swiglu_raw_error(
    s: GpuQ8SwiGluDown,
    gate: GpuQ8MatVec,
    up: GpuQ8MatVec,
    down: GpuQ8MatVec,
    len: nat,
) -> Option<Seq<char>> {
    match q8_swiglu_error(gate, up, down) {
        Some(e) => Some(e),
        None => if s.context != gate.context {
            Some("GPU Q8 fused MLP cached resources require the original GpuContext"@)
        } else if len != gate.in_features {
            Some(
                "GPU Q8 fused MLP raw input expects "@ + text::dec(gate.in_features as nat)
                    + " values, got "@ + text::dec(len),
            )
        } else {
            None
        },
    }
}

/// What running the gated layer gives.
pub open spec fn q8_swiglu_raw_result(
    before: context::ContextView,
    after: context::ContextView,
    s: GpuQ8SwiGluDown,
    gate: GpuQ8MatVec,
    up: GpuQ8MatVec,
    down: GpuQ8MatVec,
    words: Seq<u32>,
    r: Result<Vec<usize>, String>,
) -> bool {
    let why = q8_swiglu_raw_error(s, gate, up, down, words.len());
    let given = context::written(before, s.shared_input_buffer, words, GpuWrite::Host);
    match r {
        Ok(buffers) => {
            &&& why is None
            &&& q8::chunks_released(down.chunks@, down_name()) is None
            &&& buffers@ == q8::q8_readbacks_of(down.chunks@)
            &&& after == context::read_back(given, q8_swiglu_commands(s, gate, down), buffers@)
        },
        Err(e) => match why {
            Some(m) => e@ == m && after == before,
            None => q8::chunks_released(down.chunks@, down_name()) == Some(e@) && after == given,
        },
    }
}

/// The message of a length that is not the one asked for.
pub open spec fn length_message(head: Seq<char>, got: usize, expected: usize) -> Seq<char> {
    head + text::dec(got as nat) + ", expected "@ + text::dec(expected as nat)
}

/// Why the buffers for resident values cannot be prepared.
pub open spec fn q8_swiglu_cache_error(
    s: GpuQ8SwiGluDown,
    gate: GpuQ8MatVec,
    up: GpuQ8MatVec,
    down: GpuQ8MatVec,
    input: GpuResidentBuffer,
    hidden: GpuResidentBuffer,
    output: GpuResidentBuffer,
) -> Option<Seq<char>> {
    match q8_swiglu_error(gate, up, down) {
        Some(e) => Some(e),
        None => if s.context != gate.context || s.context != input.context || s.context
            != hidden.context || s.context != output.context {
            Some("GPU Q8 fused MLP resident cache requires the original shared GpuContext"@)
        } else if hidden.len != gate.out_features {
            Some(
                length_message(
                    "GPU Q8 fused MLP resident cache hidden length mismatch: got "@,
                    hidden.len,
                    gate.out_features,
                ),
            )
        } else if input.len != gate.in_features {
            Some(
                length_message(
                    "GPU Q8 fused MLP resident cache input length mismatch: got "@,
                    input.len,
                    gate.in_features,
                ),
            )
        } else if output.len != down.out_features {
            Some(
                length_message(
                    "GPU Q8 fused MLP resident cache output length mismatch: got "@,
                    output.len,
                    down.out_features,
                ),
            )
        } else {
            None
        },
    }
}

/// Whether prepared buffers are those for the given resident values.
pub open spec fn is_q8_swiglu_cache(
    before: context::ContextView,
    after: context::ContextView,
    gate: GpuQ8MatVec,
    up: GpuQ8MatVec,
    down: GpuQ8MatVec,
    input: GpuResidentBuffer,
    hidden: GpuResidentBuffer,
    output: GpuResidentBuffer,
    c: GpuQ8SwiGluDownResidentCache,
) -> bool {
    let gates = q8_gates_made(
        before,
        gate.chunks@,
        up.chunks@,
        hidden.buffer,
        gate.chunks@.len(),
    );
    let last = q8_batch::chunks_cached(
        gates.0,
        hidden.buffer,
        down.in_features,
        down.chunks@,
        output.buffer,
        down.chunks@.len(),
    );
    &&& c.gate_groups@ == q8::q8_all_binds(gate.chunks@, input.buffer)
    &&& c.up_groups@ == q8::q8_all_binds(up.chunks@, input.buffer)
    &&& c.swiglu_groups@ == gates.1
    &&& c.down_groups@ == last.1
    &&& after == last.0
}

/// Why the gated layer cannot run with prepared buffers.
pub open spec fn q8_swiglu_encode_error(
    s: GpuQ8SwiGluDown,
    gate: GpuQ8MatVec,
    up: GpuQ8MatVec,
    down: GpuQ8MatVec,
    input: GpuResidentBuffer,
    output: GpuResidentBuffer,
    c: GpuQ8SwiGluDownResidentCache,
) -> Option<Seq<char>> {
    match q8_swiglu_error(gate, up, down) {
        Some(e) => Some(e),
        None => if c.gate_groups@.len() != gate.chunks@.len() || c.up_groups@.len()
            != up.chunks@.len() || c.swiglu_groups@.len() != gate.chunks@.len()
            || c.down_groups@.len() != down.chunks@.len() {
            Some("GPU Q8 fused MLP resident cache chunk layout mismatch"@)
        } else if s.context != gate.context || s.context != input.context || s.context
            != output.context {
            Some("GPU Q8 fused MLP resident cache path requires the original shared GpuContext"@)
        } else if input.len != gate.in_features {
            Some(
                length_message(
                    "GPU Q8 fused MLP resident cache input length mismatch: got "@,
                    input.len,
                    gate.in_features,
                ),
            )
        } else if output.len != down.out_features {
            Some(
                length_message(
                    "GPU Q8 fused MLP resident cache output length mismatch: got "@,
                    output.len,
                    down.out_features,
                ),
            )
        } else {
            None
        },
    }
}

/// The runs of the gated layer with prepared buffers.
pub open spec fn q8_swiglu_runs(
    gate: GpuQ8MatVec,
    down: GpuQ8MatVec,
    c: GpuQ8SwiGluDownResidentCache,
) -> Seq<GpuCommand> {
    let kernel = q8::q8_kernel(gate.in_features);
    q8_batch::chunk_runs(c.gate_groups@, gate.chunks@, kernel, gate.chunks@.len())
        + q8_batch::chunk_runs(c.up_groups@, gate.chunks@, kernel, gate.chunks@.len())
        + swiglu::gate_commands(c.swiglu_groups@, false) + q8_batch::chunk_runs(
        c.down_groups@,
        down.chunks@,
        q8::q8_kernel(down.in_features),
        down.chunks@.len(),
    )
}

/// Why the gated layer cannot run over resident values.
pub open spec fn q8_swiglu_hidden_error(
    s: GpuQ8SwiGluDown,
    gate: GpuQ8MatVec,
    up: GpuQ8MatVec,
    down: GpuQ8MatVec,
    input: GpuResidentBuffer,
    hidden: GpuResidentBuffer,
    output: GpuResidentBuffer,
) -> Option<Seq<char>> {
    match q8_swiglu_error(gate, up, down) {
        Some(e) => Some(e),
        None => if s.context != gate.context || s.context != input.context || s.context
            != hidden.context || s.context != output.context {
            Some("GPU Q8 fused MLP resident path requires the original shared GpuContext"@)
        } else if input.len != gate.in_features {
            Some(
                length_message(
                    "GPU Q8 fused MLP resident input length mismatch: got "@,
                    input.len,
                    gate.in_features,
                ),
            )
        } else if output.len != down.out_features {
            Some(
                length_message(
                    "GPU Q8 fused MLP resident output length mismatch: got "@,
                    output.len,
                    down.out_features,
                ),
            )
        } else if hidden.len != gate.out_features {
            Some(
                length_message(
                    "GPU Q8 fused MLP resident hidden length mismatch: got "@,
                    hidden.len,
                    gate.out_features,
                ),
            )
        } else {
            None
        },
    }
}

/// What running the gated layer over resident values gives.
pub open spec fn q8_swiglu_hidden_result(
    before: context::ContextView,
    after: context::ContextView,
    e0: Seq<GpuCommand>,
    e1: Seq<GpuCommand>,
    s: GpuQ8SwiGluDown,
    gate: GpuQ8MatVec,
    up: GpuQ8MatVec,
    down: GpuQ8MatVec,
    input: GpuResidentBuffer,
    hidden: GpuResidentBuffer,
    output: GpuResidentBuffer,
    r: Result<(), String>,
) -> bool {
    let why = q8_swiglu_hidden_error(s, gate, up, down, input, hidden, output);
    let gates = q8_gates_made(
        before,
        gate.chunks@,
        up.chunks@,
        hidden.buffer,
        gate.chunks@.len(),
    );
    let last = q8_batch::chunks_cached(
        gates.0,
        hidden.buffer,
        down.in_features,
        down.chunks@,
        output.buffer,
        down.chunks@.len(),
    );
    match r {
        Ok(()) => {
            let kernel = q8::q8_kernel(gate.in_features);
            &&& why is None
            &&& after == last.0
            &&& e1 == e0.push(GpuCommand::BeginPass) + (q8_batch::chunk_runs(
                q8::q8_all_binds(gate.chunks@, input.buffer),
                gate.chunks@,
                kernel,
                gate.chunks@.len(),
            ) + q8_batch::chunk_runs(
                q8::q8_all_binds(up.chunks@, input.buffer),
                gate.chunks@,
                kernel,
                gate.chunks@.len(),
            ) + swiglu::gate_commands(gates.1, false) + q8_batch::chunk_runs(
                last.1,
                down.chunks@,
                q8::q8_kernel(down.in_features),
                down.chunks@.len(),
            ))
        },
        Err(e) => {
            &&& e1 == e0
            &&& why == Some(e@)
            &&& after == before
        },
    }
}

fn check_q8_swiglu(gate: &GpuQ8MatVec, up: &GpuQ8MatVec, down: &GpuQ8MatVec) -> (r: Option<String>)
    ensures
        match r {
            Some(e) => q8_swiglu_error(*gate, *up, *down) == Some(e@),
            None => q8_swiglu_error(*gate, *up, *down) is None,
        },
{
    if gate.in_features != up.in_features {
        return Some("GPU Q8 fused MLP requires gate/up input width to match".to_owned());
    }
    if gate.out_features != up.out_features || gate.out_features != down.in_features {
        let mut s = "GPU Q8 fused MLP shape mismatch: gate ".to_owned();
        text::push_size(&mut s, gate.out_features);
        s.append(", up ");
        text::push_size(&mut s, up.out_features);
        s.append(", down input ");
        text::push_size(&mut s, down.in_features);
        return Some(s);
    }
    if gate.chunks.len() != up.chunks.len() {
        return Some("GPU Q8 fused MLP requires gate/up chunk count to match".to_owned());
    }
    let ghost a = q8::q8_rows_of(gate.chunks@);
    let ghost b = q8::q8_rows_of(up.chunks@);
    let ghost layout = "GPU Q8 fused MLP requires gate/up chunk layout to match"@;
    let ghost size = "GPU Q8 fused MLP chunk is too large for u32 shader params"@;
    let mut i: usize = 0;
    while i < gate.chunks.len()
        invariant
            i <= gate.chunks@.len(),
            gate.chunks@.len() == up.chunks@.len(),
            gate.in_features == up.in_features,
            gate.out_features == up.out_features,
            gate.out_features == down.in_features,
            a == q8::q8_rows_of(gate.chunks@),
            b == q8::q8_rows_of(up.chunks@),
            layout == "GPU Q8 fused MLP requires gate/up chunk layout to match"@,
            size == "GPU Q8 fused MLP chunk is too large for u32 shader params"@,
            swiglu::pairs_error(a, b, 0, layout, size) == swiglu::pairs_error(
                a,
                b,
                i as int,
                layout,
                size,
            ),
        decreases gate.chunks@.len() - i,
    {
        let g = gate.chunks[i].rows;
        let u = up.chunks[i].rows;
        assert(a[i as int] == g && b[i as int] == u);
        if !same_rows(g, u) {
            return Some("GPU Q8 fused MLP requires gate/up chunk layout to match".to_owned());
        }
        if g.out_offset > u32::MAX as usize || g.out_features > u32::MAX as usize {
            return Some("GPU Q8 fused MLP chunk is too large for u32 shader params".to_owned());
        }
        i += 1;
    }
    if up.context != gate.context || down.context != gate.context {
        return Some("GPU Q8 fused MLP requires a shared GpuContext".to_owned());
    }
    None
}

fn make_gates(
    context: &mut GpuContext,
    gate: &[GpuQ8MatVecChunk],
    up: &[GpuQ8MatVecChunk],
    output: usize,
) -> (r: Vec<GpuSwiGluGroup>)
    requires
        gate@.len() == up@.len(),
    ensures
        context::quiet(old(context)@, final(context)@),
        (final(context)@, r@) == q8_gates_made(
            old(context)@,
            gate@,
            up@,
            output,
            gate@.len(),
        ),
{
    let ghost c = context@;
    let mut groups: Vec<GpuSwiGluGroup> = Vec::new();
    let mut i: usize = 0;
    while i < gate.len()
        invariant
            i <= gate@.len(),
            gate@.len() == up@.len(),
            context::quiet(c, context@),
            (context@, groups@) == q8_gates_made(c, gate@, up@, output, i as nat),
        decreases gate@.len() - i,
    {
        let g = gate[i];
        let words: Vec<u32> = vec![g.rows.out_offset as u32, g.rows.out_features as u32, 0, 0];
        assert(words@ =~= swiglu::gate_params(g.rows));
        let params: usize = context.create_buffer_init(words, GpuUsage::Params);
        groups.push(
            GpuSwiGluGroup {
                gate: g.output_buffer,
                up: up[i].output_buffer,
                output,
                params,
                out_features: g.rows.out_features,
            },
        );
        i += 1;
    }
    groups
}

fn push_passes(
    encoder: &mut GpuEncoder,
    groups: &[GpuQ8Binds],
    chunks: &[GpuQ8MatVecChunk],
    kernel: GpuPipeline,
)
    requires
        groups@.len() <= chunks@.len(),
        kernel is Q8MatVec || kernel is Q8MatVecVec4,
    ensures
        final(encoder)@ == old(encoder)@ + chunk_passes(groups@, chunks@, kernel, groups@.len()),
{
    let ghost before = encoder@;
    let mut i: usize = 0;
    assert(before + chunk_passes(groups@, chunks@, kernel, 0) =~= before);
    while i < groups.len()
        invariant
            i <= groups@.len(),
            groups@.len() <= chunks@.len(),
            kernel is Q8MatVec || kernel is Q8MatVecVec4,
            encoder@ == before + chunk_passes(groups@, chunks@, kernel, i as nat),
        decreases groups@.len() - i,
    {
        encoder.begin_compute_pass();
        dispatch_q8(encoder, kernel, groups[i], chunks[i].rows.out_features as u32);
        i += 1;
        assert(encoder@ =~= before + chunk_passes(groups@, chunks@, kernel, i as nat));
    }
}

impl GpuQ8SwiGluDown {
    /// Whether the layer has no more buffers than a matrix has chunks.
    pub open spec fn suits(&self, gate: GpuQ8MatVec) -> bool {
        &&& self.gate_groups@.len() <= gate.chunks@.len()
        &&& self.up_groups@.len() <= gate.chunks@.len()
    }

    /// Makes a gated layer from three matrices.
    pub fn new(context: &mut GpuContext, gate: &GpuQ8MatVec, up: &GpuQ8MatVec, down: &GpuQ8MatVec) -> (r:
        Result<GpuQ8SwiGluDown, String>)
        requires
            old(context)@.id == gate.context,
        ensures
            match r {
                Ok(s) => {
                    let all = q8_gates_made(
                        context::made(old(context)@, gate.in_features, GpuUsage::Input),
                        gate.chunks@,
                        up.chunks@,
                        down.input_buffer->0,
                        gate.chunks@.len(),
                    );
                    &&& q8_swiglu_error(*gate, *up, *down) is None
                    &&& down.input_buffer is Some
                    &&& s.context == gate.context
                    &&& s.shared_input_buffer == context::fresh(old(context)@)
                    &&& s.gate_groups@ == q8::q8_all_binds(gate.chunks@, s.shared_input_buffer)
                    &&& s.up_groups@ == q8::q8_all_binds(up.chunks@, s.shared_input_buffer)
                    &&& s.groups@ == all.1
                    &&& s.suits(*gate)
                    &&& final(context)@ == all.0
                },
                Err(e) => {
                    &&& match q8_swiglu_error(*gate, *up, *down) {
                        Some(m) => e@ == m,
                        None => down.input_buffer is None && e@
                            == "GPU Q8 fused MLP down input buffer was released"@,
                    }
                    &&& final(context)@ == old(context)@
                },
            },
    {
        match check_q8_swiglu(gate, up, down) {
            Some(e) => {
                return Err(e);
            },
            None => {},
        }
        let down_input: usize = match down.input_buffer {
            Some(b) => b,
            None => {
                return Err("GPU Q8 fused MLP down input buffer was released".to_owned());
            },
        };
        let shared: usize = context.create_buffer(gate.in_features, GpuUsage::Input);
        let gate_groups = all_binds(&gate.chunks, shared);
        let up_groups = all_binds(&up.chunks, shared);
        let groups = make_gates(context, &gate.chunks, &up.chunks, down_input);
        Ok(
            GpuQ8SwiGluDown {
                context: gate.context,
                shared_input_buffer: shared,
                gate_groups,
                up_groups,
                groups,
            },
        )
    }

    /// Runs the layer on a row; the result is read from the buffers returned.
    pub fn forward(
        &self,
        context: &mut GpuContext,
        gate: &GpuQ8MatVec,
        up: &GpuQ8MatVec,
        down: &GpuQ8MatVec,
        x: &Tensor,
    ) -> (r: Result<Vec<usize>, String>)
        requires
            old(context)@.id == self.context,
            self.suits(*gate),
        ensures
            match q8_swiglu_input_error(*gate, *up, *down, x.dims()) {
                Some(e) => r is Err && r->Err_0@ == e && final(context)@ == old(context)@,
                None => q8_swiglu_raw_result(
                    old(context)@,
                    final(context)@,
                    *self,
                    *gate,
                    *up,
                    *down,
                    x.values(),
                    r,
                ),
            },
    {
        match check_q8_swiglu(gate, up, down) {
            Some(e) => {
                return Err(e);
            },
            None => {},
        }
        if !is_row(x, gate.in_features) {
            return Err(expects_row("GPU Q8 fused MLP expects [1, ", gate.in_features, x.shape()));
        }
        let input = x.standard_values();
        self.forward_raw(context, gate, up, down, &input)
    }

    /// Runs the layer on some numbers; the result is read from the buffers returned.
    pub fn forward_raw(
        &self,
        context: &mut GpuContext,
        gate: &GpuQ8MatVec,
        up: &GpuQ8MatVec,
        down: &GpuQ8MatVec,
        input: &[u32],
    ) -> (r: Result<Vec<usize>, String>)
        requires
            old(context)@.id == self.context,
            self.suits(*gate),
        ensures
            q8_swiglu_raw_result(
                old(context)@,
                final(context)@,
                *self,
                *gate,
                *up,
                *down,
                input@,
                r,
            ),
    {
        match check_q8_swiglu(gate, up, down) {
            Some(e) => {
                return Err(e);
            },
            None => {},
        }
        if self.context != gate.context {
            return Err(
                "GPU Q8 fused MLP cached resources require the original GpuContext".to_owned(),
            );
        }
        if input.len() != gate.in_features {
            return Err(
                two_sizes(
                    "GPU Q8 fused MLP raw input expects ",
                    gate.in_features,
                    " values, got ",
                    input.len(),
                ),
            );
        }
        context.write_buffer(
            self.shared_input_buffer,
            vstd::slice::slice_to_vec(input),
            GpuWrite::Host,
        );
        let kernel = kernel_for_width(gate.in_features);
        let down_kernel = kernel_for_width(down.in_features);
        let mut encoder = context.create_command_encoder();
        let mut buffers: Vec<usize> = Vec::new();
        push_passes(&mut encoder, &self.gate_groups, &gate.chunks, kernel);
        assert(encoder@ =~= chunk_passes(
            self.gate_groups@,
            gate.chunks@,
            kernel,
            self.gate_groups@.len(),
        ));
        push_passes(&mut encoder, &self.up_groups, &gate.chunks, kernel);
        push_gates(&mut encoder, &self.groups, true);
        match push_q8_chunks(
            &mut encoder,
            &mut buffers,
            &down.chunks,
            down_kernel,
            "GPU Q8 fused MLP down",
        ) {
            Some(e) => {
                return Err(e);
            },
            None => {},
        }
        assert(buffers@ =~= q8::q8_readbacks_of(down.chunks@));
        context.submit_and_map(encoder, &buffers);
        Ok(buffers)
    }

    /// Runs the layer over resident values, with a value of its own in between.
    pub fn encode_resident(
        &self,
        context: &mut GpuContext,
        gate: &GpuQ8MatVec,
        up: &GpuQ8MatVec,
        down: &GpuQ8MatVec,
        encoder: &mut GpuEncoder,
        input: &GpuResidentBuffer,
        output: &GpuResidentBuffer,
    ) -> (r: Result<(), String>)
        requires
            old(context)@.id == self.context,
            gate.out_features * 4 <= usize::MAX,
        ensures
            if gate.out_features == 0 {
                &&& r is Err && r->Err_0@ == "GPU resident buffer requires non-empty shape"@
                &&& final(context)@ == old(context)@
                &&& final(encoder)@ == old(encoder)@
            } else {
                exists|hidden: GpuResidentBuffer|
                    {
                        &&& hidden.context == old(context)@.id
                        &&& hidden.buffer == context::fresh(old(context)@)
                        &&& hidden.len == gate.out_features
                        &&& #[trigger] q8_swiglu_hidden_result(
                            context::made(
                                old(context)@,
                                gate.out_features,
                                GpuUsage::Resident,
                            ),
                            final(context)@,
                            old(encoder)@,
                            final(encoder)@,
                            *self,
                            *gate,
                            *up,
                            *down,
                            *input,
                            hidden,
                            *output,
                            r,
                        )
                    }
            },
    {
        let shape: Vec<usize> = vec![1, gate.out_features];
        proof {
            let n = gate.out_features;
            assert(shape@ =~= seq![1usize, n]);
            crate::tensor::array::lemma_numel2(1, n);
            assert(shape@.drop_last() =~= seq![1usize]);
            crate::tensor::array::lemma_extent1(1);
        }
        match GpuResidentBuffer::with_context(context, &shape) {
            Ok(hidden) => {
                let r = self.encode_resident_with_hidden(
                    context,
                    gate,
                    up,
                    down,
                    encoder,
                    input,
                    &hidden,
                    output,
                );
                assert(hidden.len == gate.out_features);
                r
            },
            Err(e) => Err(e),
        }
    }

    /// Prepares the buffers and runs the layer over resident values, in a pass of its own.
    pub fn encode_resident_with_hidden(
        &self,
        context: &mut GpuContext,
        gate: &GpuQ8MatVec,
        up: &GpuQ8MatVec,
        down: &GpuQ8MatVec,
        encoder: &mut GpuEncoder,
        input: &GpuResidentBuffer,
        hidden: &GpuResidentBuffer,
        output: &GpuResidentBuffer,
    ) -> (r: Result<(), String>)
        requires
            old(context)@.id == self.context,
        ensures
            context::quiet(old(context)@, final(context)@),
            final(context)@.id == old(context)@.id,
            q8_swiglu_hidden_result(
                old(context)@,
                final(context)@,
                old(encoder)@,
                final(encoder)@,
                *self,
                *gate,
                *up,
                *down,
                *input,
                *hidden,
                *output,
                r,
            ),
    {
        match check_q8_swiglu(gate, up, down) {
            Some(e) => {
                return Err(e);
            },
            None => {},
        }
        if self.context != gate.context || self.context != input.context || self.context
            != hidden.context || self.context != output.context {
            return Err(
                "GPU Q8 fused MLP resident path requires the original shared GpuContext".to_owned(),
            );
        }
        if input.len != gate.in_features {
            return Err(
                two_sizes(
                    "GPU Q8 fused MLP resident input length mismatch: got ",
                    input.len,
                    ", expected ",
                    gate.in_features,
                ),
            );
        }
        if output.len != down.out_features {
            return Err(
                two_sizes(
                    "GPU Q8 fused MLP resident output length mismatch: got ",
                    output.len,
                    ", expected ",
                    down.out_features,
                ),
            );
        }
        if hidden.len != gate.out_features {
            return Err(
                two_sizes(
                    "GPU Q8 fused MLP resident hidden length mismatch: got ",
                    hidden.len,
                    ", expected ",
                    gate.out_features,
                ),
            );
        }
        match self.prepare_resident_cache(context, gate, up, down, input, hidden, output) {
            Ok(cache) => {
                proof {
                    lemma_gates_len(
                        old(context)@,
                        gate.chunks@,
                        up.chunks@,
                        hidden.buffer,
                        gate.chunks@.len(),
                    );
                    let gates = q8_gates_made(
                        old(context)@,
                        gate.chunks@,
                        up.chunks@,
                        hidden.buffer,
                        gate.chunks@.len(),
                    );
                    q8_batch::lemma_chunks_cached_len(
                        gates.0,
                        hidden.buffer,
                        down.in_features,
                        down.chunks@,
                        output.buffer,
                        down.chunks@.len(),
                    );
                }
                self.encode_resident_with_hidden_cache(
                    gate,
                    up,
                    down,
                    encoder,
                    input,
                    output,
                    &cache,
                )
            },
            Err(e) => Err(e),
        }
    }

    /// The buffers of the layer over resident values.
    pub fn prepare_resident_cache(
        &self,
        context: &mut GpuContext,
        gate: &GpuQ8MatVec,
        up: &GpuQ8MatVec,
        down: &GpuQ8MatVec,
        input: &GpuResidentBuffer,
        hidden: &GpuResidentBuffer,
        output: &GpuResidentBuffer,
    ) -> (r: Result<GpuQ8SwiGluDownResidentCache, String>)
        requires
            old(context)@.id == self.context,
        ensures
            context::quiet(old(context)@, final(context)@),
            ({
                let why = q8_swiglu_cache_error(
                    *self,
                    *gate,
                    *up,
                    *down,
                    *input,
                    *hidden,
                    *output,
                );
                match r {
                    Ok(c) => {
                        &&& why is None
                        &&& is_q8_swiglu_cache(
                            old(context)@,
                            final(context)@,
                            *gate,
                            *up,
                            *down,
                            *input,
                            *hidden,
                            *output,
                            c,
                        )
                    },
                    Err(e) => why == Some(e@) && final(context)@ == old(context)@,
                }
            }),
    {
        match check_q8_swiglu(gate, up, down) {
            Some(e) => {
                return Err(e);
            },
            None => {},
        }
        if self.context != gate.context || self.context != input.context || self.context
            != hidden.context || self.context != output.context {
            return Err(
                "GPU Q8 fused MLP resident cache requires the original shared GpuContext".to_owned(),
            );
        }
        if hidden.len != gate.out_features {
            return Err(
                two_sizes(
                    "GPU Q8 fused MLP resident cache hidden length mismatch: got ",
                    hidden.len,
                    ", expected ",
                    gate.out_features,
                ),
            );
        }
        if input.len != gate.in_features {
            return Err(
                two_sizes(
                    "GPU Q8 fused MLP resident cache input length mismatch: got ",
                    input.len,
                    ", expected ",
                    gate.in_features,
                ),
            );
        }
        if output.len != down.out_features {
            return Err(
                two_sizes(
                    "GPU Q8 fused MLP resident cache output length mismatch: got ",
                    output.len,
                    ", expected ",
                    down.out_features,
                ),
            );
        }
        let gate_groups = all_binds(&gate.chunks, input.buffer);
        let up_groups = all_binds(&up.chunks, input.buffer);
        let swiglu_groups = make_gates(context, &gate.chunks, &up.chunks, hidden.buffer);
        let down_groups = prepare_chunks(
            context,
            hidden.buffer,
            down.in_features,
            &down.chunks,
            output.buffer,
        );
        Ok(GpuQ8SwiGluDownResidentCache { gate_groups, up_groups, swiglu_groups, down_groups })
    }

    fn check_cache(
        &self,
        gate: &GpuQ8MatVec,
        up: &GpuQ8MatVec,
        down: &GpuQ8MatVec,
        input: &GpuResidentBuffer,
        output: &GpuResidentBuffer,
        cache: &GpuQ8SwiGluDownResidentCache,
    ) -> (r: Option<String>)
        ensures
            ({
                let why = q8_swiglu_encode_error(
                    *self,
                    *gate,
                    *up,
                    *down,
                    *input,
                    *output,
                    *cache,
                );
                match r {
                    Some(e) => why == Some(e@),
                    None => why is None,
                }
            }),
    {
        match check_q8_swiglu(gate, up, down) {
            Some(e) => {
                return Some(e);
            },
            None => {},
        }
        if cache.gate_groups.len() != gate.chunks.len() || cache.up_groups.len() != up.chunks.len()
            || cache.swiglu_groups.len() != gate.chunks.len() || cache.down_groups.len()
            != down.chunks.len() {
            return Some("GPU Q8 fused MLP resident cache chunk layout mismatch".to_owned());
        }
        if self.context != gate.context || self.context != input.context || self.context
            != output.context {
            return Some(
                "GPU Q8 fused MLP resident cache path requires the original shared GpuContext".to_owned(),
            );
        }
        if input.len != gate.in_features {
            return Some(
                two_sizes(
                    "GPU Q8 fused MLP resident cache input length mismatch: got ",
                    input.len,
                    ", expected ",
                    gate.in_features,
                ),
            );
        }
        if output.len != down.out_features {
            return Some(
                two_sizes(
                    "GPU Q8 fused MLP resident cache output length mismatch: got ",
                    output.len,
                    ", expected ",
                    down.out_features,
                ),
            );
        }
        None
    }

    /// Runs the layer with prepared buffers, in a pass of its own.
    pub fn encode_resident_with_hidden_cache(
        &self,
        gate: &GpuQ8MatVec,
        up: &GpuQ8MatVec,
        down: &GpuQ8MatVec,
        encoder: &mut GpuEncoder,
        input: &GpuResidentBuffer,
        output: &GpuResidentBuffer,
        cache: &GpuQ8SwiGluDownResidentCache,
    ) -> (r: Result<(), String>)
        ensures
            ({
                let why = q8_swiglu_encode_error(
                    *self,
                    *gate,
                    *up,
                    *down,
                    *input,
                    *output,
                    *cache,
                );
                match r {
                    Ok(()) => {
                        &&& why is None
                        &&& final(encoder)@ == old(encoder)@.push(GpuCommand::BeginPass)
                            + q8_swiglu_runs(*gate, *down, *cache)
                    },
                    Err(e) => why == Some(e@) && final(encoder)@ == old(encoder)@,
                }
            }),
    {
        match self.check_cache(gate, up, down, input, output, cache) {
            Some(e) => {
                return Err(e);
            },
            None => {},
        }
        encoder.begin_compute_pass();
        self.encode_resident_with_hidden_cache_in_pass(
            gate,
            up,
            down,
            encoder,
            input,
            output,
            cache,
        )
    }

    /// Runs the layer with prepared buffers, in the pass that was started.
    pub fn encode_resident_with_hidden_cache_in_pass(
        &self,
        gate: &GpuQ8MatVec,
        up: &GpuQ8MatVec,
        down: &GpuQ8MatVec,
        pass: &mut GpuEncoder,
        input: &GpuResidentBuffer,
        output: &GpuResidentBuffer,
        cache: &GpuQ8SwiGluDownResidentCache,
    ) -> (r: Result<(), String>)
        ensures
            ({
                let why = q8_swiglu_encode_error(
                    *self,
                    *gate,
                    *up,
                    *down,
                    *input,
                    *output,
                    *cache,
                );
                match r {
                    Ok(()) => {
                        &&& why is None
                        &&& final(pass)@ == old(pass)@ + q8_swiglu_runs(*gate, *down, *cache)
                    },
                    Err(e) => why == Some(e@) && final(pass)@ == old(pass)@,
                }
            }),
    {
        match self.check_cache(gate, up, down, input, output, cache) {
            Some(e) => {
                return Err(e);
            },
            None => {},
        }
        let ghost before = pass@;
        let kernel = kernel_for_width(gate.in_features);
        let down_kernel = kernel_for_width(down.in_features);
        push_runs(pass, &cache.gate_groups, &gate.chunks, kernel);
        push_runs(pass, &cache.up_groups, &gate.chunks, kernel);
        push_gates(pass, &cache.swiglu_groups, false);
        push_runs(pass, &cache.down_groups, &down.chunks, down_kernel);
        assert(pass@ =~= before + q8_swiglu_runs(*gate, *down, *cache));
        Ok(())
    }
}

/// Making gates keeps the device, and gives one for each pair of chunks.
pub proof fn lemma_gates_len(
    c: context::ContextView,
    gate: Seq<GpuQ8MatVecChunk>,
    up: Seq<GpuQ8MatVecChunk>,
    output: usize,
    n: nat,
)
    ensures
        q8_gates_made(c, gate, up, output, n).0.id == c.id,
        q8_gates_made(c, gate, up, output, n).1.len() == n,
    decreases n,
{
    if n > 0 {
        lemma_gates_len(c, gate, up, output, (n - 1) as nat);
    }
}

} // verus!
