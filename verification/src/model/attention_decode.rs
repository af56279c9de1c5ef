//! The attention of one token on a device: its commands.

use vstd::prelude::*;
use vstd::string::*;

use crate::error::RsinferError;
use crate::gpu::attention as gpu_attention;
use crate::gpu::chain;
use crate::gpu::context;
use crate::gpu::q8_batch;
use crate::gpu::{GpuContext, GpuEncoder, GpuResidentBuffer};
use crate::model::attention;
use crate::model::attention_state::ResidentAttentionRuntimeState;
use crate::model::Attention;
use crate::text;

verus! {

/// The error of an attention on a device that fails.
pub fn attention_error(why: &str) -> (r: RsinferError)
    ensures
        r@ == attention::attention_failure(why@),
{
    RsinferError::DimensionError(text::joined("GPU resident attention prototype failed: ", why))
}

impl Attention {
    /// The commands that find query, key and value of a token.
    fn encode_qkv(
        &self,
        context: &mut GpuContext,
        encoder: &mut GpuEncoder,
        hidden: &GpuResidentBuffer,
        state: &mut ResidentAttentionRuntimeState,
    ) -> (r: Result<(), String>)
        requires
            self.well_formed(old(context)@.id),
            attention::missing_projection(*self) is None,
        ensures
            context::quiet(old(context)@, final(context)@),
            ({
                let c = old(context)@;
                let s = *old(state);
                let steps = attention::qkv_steps(c, *self, s, *hidden);
                let failed = chain::failing(steps, 0);
                let done = chain::encoded(steps, 0, old(encoder)@);
                let used = self.q8_qkv_batch is Some && s.qkv_batch_cache is None && failed > 0;
                &&& final(encoder)@ == done.1
                &&& match r {
                    Ok(()) => done.0 is None && failed == 4,
                    Err(e) => done.0 == Some(e@) && failed < 4,
                }
                &&& final(context)@ == attention::decode_after(c, *self, s, failed)
                &&& *final(state) == (ResidentAttentionRuntimeState {
                    qkv_batch_cache: final(state).qkv_batch_cache,
                    ..s
                })
                &&& if used {
                    &&& final(state).qkv_batch_cache matches Some(k)
                    &&& q8_batch::bind_lists(k.groups@) == attention::qkv_groups(c, *self, s)
                } else {
                    final(state).qkv_batch_cache == s.qkv_batch_cache
                }
            }),
    {
        let ghost c = context@;
        let ghost s = *state;
        let ghost start = encoder@;
        let ghost steps = attention::qkv_steps(c, *self, s, *hidden);
        let ghost m = attention::qkv_q8(attention::projections(*self));
        proof {
            reveal_with_fuel(chain::encoded, 5);
            reveal_with_fuel(chain::failing, 5);
            assert(steps.len() == 4);
        }
        match (
            &self.q_proj.q8_gpu_matvec,
            &self.k_proj.q8_gpu_matvec,
            &self.v_proj.q8_gpu_matvec,
        ) {
            (Some(q), Some(k), Some(v)) => {
                match &self.q8_qkv_batch {
                    Some(batch) => {
                        let list = vec![q, k, v];
                        assert(list@ =~= m);
                        if state.qkv_batch_cache.is_none() {
                            let outputs = vec![
                                &state.resident_q_pre,
                                &state.resident_k_pre,
                                &state.resident_v,
                            ];
                            assert(outputs@ =~= attention::qkv_outputs(s));
                            match batch.prepare_resident_cache(context, &list, hidden, &outputs) {
                                Ok(cache) => {
                                    state.qkv_batch_cache = Some(cache);
                                },
                                Err(e) => {
                                    return Err(e);
                                },
                            }
                        }
                        assert(start + steps[0].commands =~= start);
                        match batch.encode_resident_input_copy(encoder, hidden) {
                            Ok(()) => {},
                            Err(e) => {
                                return Err(e);
                            },
                        }
                        assert(encoder@ =~= start + steps[1].commands);
                        let ghost e1 = encoder@;
                        encoder.begin_compute_pass();
                        assert(encoder@ =~= e1 + steps[2].commands);
                        let outputs = vec![
                            &state.resident_q_pre,
                            &state.resident_k_pre,
                            &state.resident_v,
                        ];
                        assert(outputs@ =~= attention::qkv_outputs(s));
                        match &state.qkv_batch_cache {
                            Some(cache) => {
                                assert(q8_batch::bind_lists(cache.groups@)
                                    == attention::qkv_groups(c, *self, s));
                                batch.encode_resident_with_cache_in_pass(
                                    &list,
                                    hidden,
                                    &outputs,
                                    cache,
                                    encoder,
                                )
                            },
                            None => Ok(()),
                        }
                    },
                    None => {
                        match q.encode_resident(encoder, hidden, &state.resident_q_pre) {
                            Ok(()) => {},
                            Err(e) => {
                                return Err(e);
                            },
                        }
                        match k.encode_resident(encoder, hidden, &state.resident_k_pre) {
                            Ok(()) => {},
                            Err(e) => {
                                return Err(e);
                            },
                        }
                        match v.encode_resident(encoder, hidden, &state.resident_v) {
                            Ok(()) => {},
                            Err(e) => {
                                return Err(e);
                            },
                        }
                        let ghost e1 = encoder@;
                        encoder.begin_compute_pass();
                        assert(encoder@ =~= e1 + steps[3].commands);
                        Ok(())
                    },
                }
            },
            _ => Ok(()),
        }
    }

    /// The commands behind query, key and value of a token.
    fn encode_attend(
        &self,
        encoder: &mut GpuEncoder,
        output: &GpuResidentBuffer,
        position: usize,
        state: &mut ResidentAttentionRuntimeState,
    ) -> (r: Result<(), String>)
        requires
            self.o_proj.q8_gpu_matvec is Some,
        ensures
            ({
                let s = *old(state);
                let steps = attention::attend_steps(*self, s, *output, position);
                let failed = chain::failing(steps, 0);
                let done = chain::encoded(steps, 0, old(encoder)@);
                &&& final(encoder)@ == done.1
                &&& match r {
                    Ok(()) => done.0 is None && failed == 5,
                    Err(e) => done.0 == Some(e@) && failed < 5,
                }
                &&& *final(state) == (ResidentAttentionRuntimeState {
                    kv_gpu: if failed > 1 {
                        gpu_attention::reached(s.kv_gpu, position)
                    } else {
                        s.kv_gpu
                    },
                    o_proj_gpu_cache: final(state).o_proj_gpu_cache,
                    ..s
                })
                &&& if s.o_proj_gpu_cache is None && failed > 3 {
                    &&& final(state).o_proj_gpu_cache matches Some(k)
                    &&& k.groups@ == attention::o_groups(*self, s)
                } else {
                    final(state).o_proj_gpu_cache == s.o_proj_gpu_cache
                }
            }),
    {
        let ghost s = *state;
        let ghost start = encoder@;
        let ghost steps = attention::attend_steps(*self, s, *output, position);
        proof {
            reveal_with_fuel(chain::encoded, 6);
            reveal_with_fuel(chain::failing, 6);
            assert(steps.len() == 5);
        }
        match state.qk_gpu.encode_resident_in_pass_cached(
            encoder,
            &state.resident_q_pre,
            &state.resident_k_pre,
            &state.resident_q,
            &state.resident_k,
            &state.qk_gpu_cache,
        ) {
            Ok(()) => {},
            Err(e) => {
                return Err(e);
            },
        }
        let ghost e1 = encoder@;
        match state.kv_gpu.encode_resident_in_pass_current_position(
            encoder,
            position,
            &state.resident_k,
            &state.resident_v,
            &state.resident_key_cache,
            &state.resident_value_cache,
            &state.kv_gpu_cache,
        ) {
            Ok(()) => {},
            Err(e) => {
                return Err(e);
            },
        }
        let ghost e2 = encoder@;
        match state.attn_gpu.encode_resident_in_pass_current_position(
            encoder,
            &state.resident_q,
            &state.resident_key_cache,
            &state.resident_value_cache,
            &state.resident_attention,
            position,
            &state.attn_gpu_cache,
        ) {
            Ok(()) => {},
            Err(e) => {
                return Err(e);
            },
        }
        let ghost e3 = encoder@;
        assert(e3 =~= e2 + steps[2].commands);
        assert(e3 + steps[3].commands =~= e3);
        match &self.o_proj.q8_gpu_matvec {
            Some(o) => {
                if state.o_proj_gpu_cache.is_none() {
                    match o.prepare_resident_cache(&state.resident_attention, output) {
                        Ok(cache) => {
                            state.o_proj_gpu_cache = Some(cache);
                        },
                        Err(e) => {
                            return Err(e);
                        },
                    }
                }
                match &state.o_proj_gpu_cache {
                    Some(cache) => {
                        assert(cache.groups@ == attention::o_groups(*self, s));
                        o.encode_resident_with_cache(
                            encoder,
                            &state.resident_attention,
                            output,
                            cache,
                        )
                    },
                    None => Ok(()),
                }
            },
            None => Ok(()),
        }
    }

    /// The commands that decode one token with what is kept on the device.
    pub fn encode_decode_one_resident_runtime(
        &mut self,
        context: &mut GpuContext,
        encoder: &mut GpuEncoder,
        hidden: &GpuResidentBuffer,
        output: &GpuResidentBuffer,
        position: usize,
    ) -> (r: Result<(), RsinferError>)
        requires
            old(self).well_formed(old(context)@.id),
        ensures
            context::quiet(old(context)@, final(context)@),
            ({
                let a = *old(self);
                let c = old(context)@;
                let s = a.resident_runtime_state->0;
                let steps = attention::decode_steps(c, a, s, *hidden, *output, position);
                let failed = chain::failing(steps, 0);
                let done = chain::encoded(steps, 0, old(encoder)@);
                &&& if decode_refused(a) is Some {
                    &&& r matches Err(e) && e@ == attention::attention_failure(decode_refused(a)->0)
                    &&& final(encoder)@ == old(encoder)@
                    &&& final(context)@ == c
                    &&& *final(self) == a
                } else {
                    &&& match r {
                        Ok(()) => done.0 is None,
                        Err(e) => done.0 is Some && e@ == attention::attention_failure(done.0->0),
                    }
                    &&& final(encoder)@ == done.1
                    &&& final(context)@ == attention::decode_after(c, a, s, failed)
                    &&& *final(self) == (Attention {
                        resident_runtime_state: final(self).resident_runtime_state,
                        ..a
                    })
                    &&& final(self).resident_runtime_state is Some
                    &&& attention::is_decoded(
                        c,
                        a,
                        s,
                        final(self).resident_runtime_state->0,
                        position,
                        failed,
                    )
                }
                &&& final(self).well_formed(c.id)
            }),
    {
        let ghost a = *self;
        let ghost c = context@;
        if self.q_proj.q8_gpu_matvec.is_none() {
            return Err(attention_error("missing q_proj Q8 GPU matvec"));
        }
        if self.k_proj.q8_gpu_matvec.is_none() {
            return Err(attention_error("missing k_proj Q8 GPU matvec"));
        }
        if self.v_proj.q8_gpu_matvec.is_none() {
            return Err(attention_error("missing v_proj Q8 GPU matvec"));
        }
        if self.o_proj.q8_gpu_matvec.is_none() {
            return Err(attention_error("missing o_proj Q8 GPU matvec"));
        }
        let mut taken: Option<ResidentAttentionRuntimeState> = None;
        std::mem::swap(&mut taken, &mut self.resident_runtime_state);
        match taken {
            None => {
                assert(a.resident_runtime_state is None);
                assert(*self == a);
                Err(attention_error("resident runtime state should be initialized"))
            },
            Some(kept) => {
                let mut state = kept;
                let ghost s = state;
                let ghost first = attention::qkv_steps(c, a, s, *hidden);
                let ghost second = attention::attend_steps(a, s, *output, position);
                proof {
                    assert(attention::projections(*self) == attention::projections(a));
                    assert(attention::qkv_groups(c, *self, s) == attention::qkv_groups(c, a, s));
                    assert(attention::qkv_steps(c, *self, s, *hidden) =~= first);
                    chain::lemma_behind(first, second, 0, encoder@);
                }
                let start = self.encode_qkv(context, encoder, hidden, &mut state);
                let ended = match start {
                    Ok(()) => {
                        proof {
                            assert(attention::o_groups(*self, s) == attention::o_groups(a, s));
                            assert(attention::attend_steps(*self, state, *output, position)
                                =~= second);
                        }
                        self.encode_attend(encoder, output, position, &mut state)
                    },
                    Err(e) => Err(e),
                };
                self.resident_runtime_state = Some(state);
                let ghost steps = attention::decode_steps(c, a, s, *hidden, *output, position);
                let ghost failed = chain::failing(steps, 0);
                assert(steps =~= first + second);
                assert(self.well_formed(c.id));
                assert(context@ == attention::decode_after(c, a, s, failed));
                assert(attention::is_decoded(c, a, s, state, position, failed));
                match ended {
                    Ok(()) => Ok(()),
                    Err(e) => Err(attention_error(e.as_str())),
                }
            },
        }
    }
}

/// Why a token is not decoded at all.
pub open spec fn decode_refused(a: Attention) -> Option<Seq<char>> {
    match attention::missing_projection(a) {
        Some(e) => Some(e),
        None => if a.resident_runtime_state is None {
            Some("resident runtime state should be initialized"@)
        } else {
            None
        },
    }
}

} // verus!
