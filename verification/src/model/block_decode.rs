//! One token through a block on a device.

use vstd::prelude::*;

use crate::engine::KVCache;
use crate::error::RsinferError;
use crate::gpu::chain;
use crate::gpu::context;
use crate::gpu::norm;
use crate::gpu::resident;
use crate::gpu::{GpuCommand, GpuContext, GpuEncoder, GpuResidentBuffer};
use crate::model::attention;
use crate::model::attention_sync;
use crate::model::block;
use crate::model::block_state;
use crate::model::block_state::{
    block_error, ResidentTransformerBlockIoCaches, ResidentTransformerBlockRuntimeState,
};
use crate::model::{Mlp, TransformerBlock};

verus! {

/// The commands behind the attention of a block.
fn encode_post(
    m: &Mlp,
    state: &ResidentTransformerBlockRuntimeState,
    io: &ResidentTransformerBlockIoCaches,
    pass: &mut GpuEncoder,
    input: &GpuResidentBuffer,
    output: &GpuResidentBuffer,
) -> (r: Result<(), RsinferError>)
    ensures
        forall|b: TransformerBlock|
            b.mlp == *m ==> {
                let steps = #[trigger] block::post_steps(b, *state, *input, *output, *io);
                let done = chain::encoded(steps, 0, old(pass)@);
                &&& final(pass)@ == done.1
                &&& match r {
                    Ok(()) => done.0 is None,
                    Err(e) => done.0 is Some && e@ == block::post_failure(
                        chain::failing(steps, 0),
                        done.0->0,
                    ),
                }
            },
{
    let ghost start = pass@;
    let ghost whole = TransformerBlock { mlp: *m, ..arbitrary() };
    let ghost steps = block::post_steps(whole, *state, *input, *output, *io);
    proof {
        reveal_with_fuel(chain::encoded, 5);
        reveal_with_fuel(chain::failing, 5);
        assert(steps.len() == 4);
        assert forall|b: TransformerBlock| b.mlp == *m implies #[trigger] block::post_steps(
            b,
            *state,
            *input,
            *output,
            *io,
        ) == steps by {
            assert(block::post_steps(b, *state, *input, *output, *io) =~= steps);
        }
    }
    match state.gpu_add.encode_resident_with_cache_in_pass(
        pass,
        input,
        &state.resident_attn,
        &state.resident_hidden,
        &io.input_residual_cache,
    ) {
        Ok(()) => {},
        Err(e) => {
            return Err(block_error(e.as_str()));
        },
    }
    assert(pass@ =~= start + steps[0].commands);
    let ghost e1 = pass@;
    match state.gpu_post_norm.encode_resident_with_cache_in_pass(
        pass,
        &state.resident_hidden,
        &state.resident_norm2,
        &state.gpu_post_norm_cache,
    ) {
        Ok(()) => {},
        Err(e) => {
            return Err(block_error(e.as_str()));
        },
    }
    assert(pass@ =~= e1 + steps[1].commands);
    let ghost e2 = pass@;
    let cache = match &state.resident_mlp_q8_cache {
        Some(k) => Some(k),
        None => None,
    };
    assert(cache == block::mlp_cache_of(*state));
    match m.encode_resident_in_pass(
        pass,
        &state.resident_norm2,
        &state.resident_mlp_output,
        cache,
    ) {
        Ok(()) => {},
        Err(e) => {
            return Err(e);
        },
    }
    assert(pass@ =~= e2 + steps[2].commands);
    let ghost e3 = pass@;
    match state.gpu_add.encode_resident_with_cache_in_pass(
        pass,
        &state.resident_hidden,
        &state.resident_mlp_output,
        output,
        &io.output_residual_cache,
    ) {
        Ok(()) => {},
        Err(e) => {
            return Err(block_error(e.as_str()));
        },
    }
    assert(pass@ =~= e3 + steps[3].commands);
    Ok(())
}

impl TransformerBlock {
    /// The commands of a prepared block.
    fn encode_prepared(
        &mut self,
        context: &mut GpuContext,
        encoder: &mut GpuEncoder,
        input: &GpuResidentBuffer,
        output: &GpuResidentBuffer,
        layer: usize,
        position: usize,
    ) -> (r: Result<(), RsinferError>)
        requires
            old(self).attention.well_formed(old(context)@.id),
            old(self).resident_runtime_state is Some,
            (old(self).resident_runtime_state->0).slot_caches is Some,
        ensures
            context::quiet(old(context)@, final(context)@),
            block::is_encoded(
                *old(self),
                *final(self),
                old(context)@,
                final(context)@,
                old(encoder)@,
                final(encoder)@,
                *input,
                *output,
                layer,
                position,
                r,
            ),
            final(self).attention.well_formed(old(context)@.id),
            final(context)@.id == old(context)@.id,
    {
        let ghost a = *self;
        let ghost c = context@;
        let ghost start = encoder@;
        match &self.resident_runtime_state {
            Some(state) => match &state.slot_caches {
                Some(slots) => {
                    let io = if layer % 2 == 0 {
                        slots.even
                    } else {
                        slots.odd
                    };
                    assert(io == block::io_of(*state, layer));
                    match state.gpu_input_norm.encode_resident_with_cache(
                        encoder,
                        input,
                        &state.resident_norm1,
                        &io.input_norm_cache,
                    ) {
                        Ok(()) => {},
                        Err(e) => {
                            return Err(block_error(e.as_str()));
                        },
                    }
                    assert(encoder@ =~= start + seq![
                        GpuCommand::BeginPass,
                        norm::norm_command(state.gpu_input_norm, io.input_norm_cache),
                    ]);
                    proof {
                        lemma_decode_stays(c, a.attention, a.attention.resident_runtime_state->0);
                    }
                    match self.attention.encode_decode_one_resident_runtime(
                        context,
                        encoder,
                        &state.resident_norm1,
                        &state.resident_attn,
                        position,
                    ) {
                        Ok(()) => {},
                        Err(e) => {
                            return Err(e);
                        },
                    }
                    encoder.begin_compute_pass();
                    encode_post(&self.mlp, state, &io, encoder, input, output)
                },
                None => Ok(()),
            },
            None => Ok(()),
        }
    }

    /// One token through a block on a device: it is prepared, brought up to date with the cache,
    /// and its commands are written.
    pub fn encode_decode_one_resident_runtime_with_slot_cache(
        &mut self,
        context: &mut GpuContext,
        encoder: &mut GpuEncoder,
        input: &GpuResidentBuffer,
        output: &GpuResidentBuffer,
        slot0: &GpuResidentBuffer,
        slot1: &GpuResidentBuffer,
        kv_cache: &KVCache,
        cache_id: u64,
        revision: u64,
        layer: usize,
        position: usize,
        position_buffer: usize,
    ) -> (r: Result<(), RsinferError>)
        requires
            old(self).well_formed(old(context)@.id),
            resident::shape_fits(block_state::row(input.len)),
            resident::shape_fits(block_state::row(old(self).mlp.gate_proj.out_features)),
            kv_cache@.well_formed(),
            block::strides_fit(kv_cache@),
            block::rooms_fit(old(self).attention, kv_cache@.max_len),
            position < usize::MAX,
        ensures
            context::quiet(old(context)@, final(context)@),
            block::is_layer_run(
                *old(self),
                *final(self),
                old(context)@,
                final(context)@,
                old(encoder)@,
                final(encoder)@,
                *input,
                *output,
                *slot0,
                *slot1,
                kv_cache@,
                cache_id,
                revision,
                layer,
                position,
                position_buffer,
                r,
            ),
            final(context)@.id == old(context)@.id,
    {
        let ghost a = *self;
        let ghost c = context@;
        if self.attention.q_proj.q8_gpu_matvec.is_none() {
            return Err(block_error("missing attention q_proj Q8 GPU matvec"));
        }
        let cached = if position == 0 {
            None
        } else {
            match kv_cache.get_cached(layer) {
                Ok(k) => Some(k),
                Err(e) => {
                    return Err(e);
                },
            }
        };
        assert(block::is_prefix(kv_cache@, layer, position, cached));
        let kv_max: usize = kv_cache.max_len();
        let r1 = self.ensure_resident_runtime_state_with_slots(context, input.len, slot0, slot1);
        let ghost b1 = *self;
        let ghost c1 = context@;
        assert(block::is_prepared(a, b1, c, c1, input.len, *slot0, *slot1, r1));
        proof {
            lemma_prepared_stays(a, b1, c, c1, input.len, *slot0, *slot1, r1);
        }
        match r1 {
            Ok(()) => {},
            Err(e) => {
                return Err(e);
            },
        }
        proof {
            attention_sync::law_room_suffices(
                attention_sync::capacity_of(cached),
                position,
                kv_max,
            );
            assert(attention_sync::room_fits(
                a.attention,
                attention_sync::wanted_len(attention_sync::capacity_of(cached), position, kv_max),
            ));
        }
        let r2 = self.attention.ensure_resident_runtime_state(
            context,
            kv_max,
            cache_id,
            revision,
            cached,
            position,
            position_buffer,
        );
        let ghost b2 = *self;
        let ghost c2 = context@;
        assert(block::is_updated(
            b1,
            b2,
            c1,
            c2,
            kv_cache@,
            cache_id,
            revision,
            cached,
            layer,
            position,
            position_buffer,
            r2,
        ));
        match r2 {
            Ok(()) => {},
            Err(e) => {
                return Err(e);
            },
        }
        self.encode_prepared(context, encoder, input, output, layer, position)
    }
}

proof fn lemma_decode_stays(
    c: context::ContextView,
    a: crate::model::Attention,
    s: crate::model::attention_state::ResidentAttentionRuntimeState,
)
    ensures
        forall|failed: int| (#[trigger] attention::decode_after(c, a, s, failed)).id == c.id,
{
    let m = attention::qkv_q8(attention::projections(a));
    lemma_batch_stays(c, a.q8_qkv_batch->0, m, attention::qkv_outputs(s), 3);
}

proof fn lemma_batch_stays(
    c: context::ContextView,
    b: crate::gpu::GpuQ8SameInputBatch,
    m: Seq<&crate::gpu::GpuQ8MatVec>,
    outputs: Seq<&GpuResidentBuffer>,
    n: nat,
)
    ensures
        crate::gpu::q8_batch::batch_cached(c, b, m, outputs, n).0.id == c.id,
    decreases n,
{
    if n > 0 {
        lemma_batch_stays(c, b, m, outputs, (n - 1) as nat);
        let done = crate::gpu::q8_batch::batch_cached(c, b, m, outputs, (n - 1) as nat);
        crate::gpu::q8_batch::lemma_chunks_cached_len(
            done.0,
            b.input_buffer,
            b.in_features,
            m[n - 1].chunks@,
            outputs[n - 1].buffer,
            m[n - 1].chunks@.len(),
        );
    }
}

proof fn lemma_prepared_stays(
    a: TransformerBlock,
    b: TransformerBlock,
    c: context::ContextView,
    after: context::ContextView,
    hidden: usize,
    slot0: GpuResidentBuffer,
    slot1: GpuResidentBuffer,
    r: Result<(), RsinferError>,
)
    requires
        block::is_prepared(a, b, c, after, hidden, slot0, slot1, r),
    ensures
        after.id == c.id,
{
    reveal_with_fuel(block_state::rows_made, 9);
    let why = block_state::block_state_error(
        c,
        a.input_layernorm,
        a.post_attention_layernorm,
        a.mlp,
        hidden,
    );
    if a.resident_runtime_state is None && why is None {
        let s = choose|s: ResidentTransformerBlockRuntimeState| #[trigger]
            block_state::is_block_state(
                c,
                after,
                a.input_layernorm,
                a.post_attention_layernorm,
                a.mlp,
                hidden,
                s,
            ) && block_state::is_slotted(s, b.resident_runtime_state->0, slot0, slot1, r);
        let inner = a.mlp.gate_proj.out_features;
        let k = block_state::kernels_made(
            c,
            a.input_layernorm,
            a.post_attention_layernorm,
            hidden,
            3,
        );
        let p = block_state::position_made(k, hidden, inner);
        assert(p.id == c.id);
        let gate = a.mlp.gate_proj.q8_gpu_matvec->0;
        let up = a.mlp.up_proj.q8_gpu_matvec->0;
        let down = a.mlp.down_proj.q8_gpu_matvec->0;
        let inside = s.resident_mlp_hidden.buffer;
        crate::gpu::q8_swiglu::lemma_gates_len(
            p,
            gate.chunks@,
            up.chunks@,
            inside,
            gate.chunks@.len(),
        );
        let gates = crate::gpu::q8_swiglu::q8_gates_made(
            p,
            gate.chunks@,
            up.chunks@,
            inside,
            gate.chunks@.len(),
        );
        crate::gpu::q8_batch::lemma_chunks_cached_len(
            gates.0,
            inside,
            down.in_features,
            down.chunks@,
            s.resident_mlp_output.buffer,
            down.chunks@.len(),
        );
    }
}

} // verus!
