//! Tokens into the model: their embedding, and one token through the blocks on a device.

use vstd::prelude::*;
use vstd::string::*;

use crate::engine::cache;
use crate::engine::KVCache;
use crate::error::{ErrorView, RsinferError};
use crate::gpu::context;
use crate::gpu::resident;
use crate::gpu::{GpuCommand, GpuContext, GpuEncoder, GpuPositionUniform, GpuResidentBuffer, GpuUsage};
use crate::model::attention_state;
use crate::model::attention_state::shape2;
use crate::model::block;
use crate::model::block_state;
use crate::model::qwen3::ResidentQwen3RuntimeState;
use crate::model::{Qwen3Model, TransformerBlock};
use crate::runtime::LayerDevice;
use crate::tensor::array;
use crate::tensor::Tensor;
use crate::text;

verus! {

/// How many of the first layers, from `i` on, are meant for a device.
pub open spec fn leading(s: Seq<LayerDevice>, i: int) -> int
    decreases s.len() - i,
{
    if 0 <= i < s.len() && s[i] == LayerDevice::Gpu {
        leading(s, i + 1)
    } else {
        i
    }
}

/// How many blocks run one token on a device from end to end: those that are meant for it from the
/// first on, where that is asked for.
pub open spec fn prefix_len(m: Qwen3Model, tokens: nat) -> int {
    if !m.resident_decode_prototype || tokens != 1 {
        0
    } else {
        leading(m.runtime_plan@.layer_devices, 0)
    }
}

proof fn lemma_leading(s: Seq<LayerDevice>, i: int)
    requires
        0 <= i <= s.len(),
    ensures
        i <= leading(s, i) <= s.len(),
        forall|k: int| i <= k < leading(s, i) ==> s[k] == LayerDevice::Gpu,
    decreases s.len() - i,
{
    if i < s.len() && s[i] == LayerDevice::Gpu {
        lemma_leading(s, i + 1);
    }
}

/// The rows of an embedding for some tokens.
pub open spec fn embedded(values: Seq<u32>, hidden: nat, ids: Seq<u32>) -> Seq<u32>
    decreases ids.len(),
{
    if ids.len() == 0 {
        Seq::empty()
    } else {
        embedded(values, hidden, ids.drop_last()) + values.subrange(
            ids.last() * hidden,
            (ids.last() + 1) * hidden,
        )
    }
}

/// The message for a token that there is not.
pub open spec fn unknown_token(id: u32, vocab: usize) -> ErrorView {
    ErrorView::DimensionError(
        "token id "@ + text::dec(id as nat) + " 越界 (vocab_size "@ + text::dec(vocab as nat)
            + ")"@,
    )
}

/// The error of the first token from `i` on that there is not.
pub open spec fn embed_error(ids: Seq<u32>, vocab: usize, i: int) -> Option<ErrorView>
    decreases ids.len() - i,
{
    if i < 0 || i >= ids.len() {
        None
    } else if ids[i] >= vocab {
        Some(unknown_token(ids[i], vocab))
    } else {
        embed_error(ids, vocab, i + 1)
    }
}

/// Law: the row of a token stands in its place, whatever the other tokens are.
pub proof fn law_embedding_rows(values: Seq<u32>, hidden: nat, ids: Seq<u32>, i: int, k: int)
    requires
        0 <= i < ids.len(),
        0 <= k < hidden,
        forall|j: int| 0 <= j < ids.len() ==> (#[trigger] ids[j] + 1) * hidden <= values.len(),
    ensures
        embedded(values, hidden, ids).len() == ids.len() * hidden,
        embedded(values, hidden, ids)[i * hidden + k] == values[ids[i] * hidden + k],
    decreases ids.len(),
{
    let front = ids.drop_last();
    lemma_embedded_len(values, hidden, ids);
    lemma_embedded_len(values, hidden, front);
    let last = ids.last();
    assert(last * hidden + hidden == (last + 1) * hidden) by (nonlinear_arith);
    if i < ids.len() - 1 {
        law_embedding_rows(values, hidden, front, i, k);
        assert(i * hidden + k < front.len() * hidden) by (nonlinear_arith)
            requires
                0 <= i < front.len(),
                0 <= k < hidden,
        ;
        assert(0 <= i * hidden) by (nonlinear_arith)
            requires
                0 <= i,
        ;
    } else {
        assert(0 <= last * hidden) by (nonlinear_arith);
    }
}

proof fn lemma_embedded_len(values: Seq<u32>, hidden: nat, ids: Seq<u32>)
    requires
        forall|j: int| 0 <= j < ids.len() ==> (#[trigger] ids[j] + 1) * hidden <= values.len(),
    ensures
        embedded(values, hidden, ids).len() == ids.len() * hidden,
    decreases ids.len(),
{
    if ids.len() > 0 {
        let front = ids.drop_last();
        assert forall|j: int| 0 <= j < front.len() implies (#[trigger] front[j] + 1) * hidden
            <= values.len() by {
            assert(front[j] == ids[j]);
        }
        lemma_embedded_len(values, hidden, front);
        let last = ids.last();
        assert((ids[ids.len() - 1] + 1) * hidden <= values.len());
        assert(last * hidden + hidden == (last + 1) * hidden) by (nonlinear_arith);
        assert(0 <= last * hidden) by (nonlinear_arith);
        assert(front.len() * hidden + hidden == ids.len() * hidden) by (nonlinear_arith)
            requires
                front.len() + 1 == ids.len(),
        ;
    }
}

/// What making the two values of a model ready leaves.
pub open spec fn is_ready(
    a: Option<ResidentQwen3RuntimeState>,
    b: Option<ResidentQwen3RuntimeState>,
    c: context::ContextView,
    after: context::ContextView,
    hidden: usize,
    r: Result<(), RsinferError>,
) -> bool {
    let shape = block_state::row(hidden);
    let c1 = attention_state::with_buffer(c, shape);
    let c2 = attention_state::with_buffer(c1, shape);
    if a matches Some(s) && s.hidden_size == hidden {
        r is Ok && b == a && after == c
    } else if hidden == 0 {
        &&& r matches Err(e) && e@ == ErrorView::DimensionError(
            "GPU resident buffer requires non-empty shape"@,
        )
        &&& b == a
        &&& after == c
    } else {
        &&& r is Ok
        &&& b matches Some(s)
        &&& attention_state::is_buffer(c, s.resident_hidden_a, shape)
        &&& attention_state::is_buffer(c1, s.resident_hidden_b, shape)
        &&& s.resident_position.context == c.id
        &&& s.resident_position.buffer == context::fresh(c2)
        &&& s.hidden_size == hidden
        &&& after == context::filled(c2, context::position_words(0), GpuUsage::MutableParams)
    }
}

/// The value that the block of the given number reads.
pub open spec fn slot(s: ResidentQwen3RuntimeState, i: int) -> GpuResidentBuffer {
    if i % 2 == 0 {
        s.resident_hidden_a
    } else {
        s.resident_hidden_b
    }
}

/// Whether the first `n` of some blocks wrote their commands for one token, one after the other.
pub open spec fn blocks_ran(
    ls: Seq<TransformerBlock>,
    ms: Seq<TransformerBlock>,
    s: ResidentQwen3RuntimeState,
    cs: Seq<context::ContextView>,
    es: Seq<Seq<GpuCommand>>,
    kv: cache::CacheView,
    cache_id: u64,
    revision: u64,
    position: usize,
    n: nat,
) -> bool {
    &&& ms.len() == ls.len()
    &&& n <= ls.len()
    &&& cs.len() == n + 1
    &&& es.len() == n + 1
    &&& forall|i: int|
        0 <= i < n ==> #[trigger] block_ran(
            ls[i],
            ms[i],
            s,
            cs[i],
            cs[i + 1],
            es[i],
            es[i + 1],
            kv,
            cache_id,
            revision,
            i as usize,
            position,
            Ok::<(), RsinferError>(()),
        )
}

/// Whether one block ran, from the value that it reads to the one that the next reads.
#[verifier::opaque]
pub open spec fn block_ran(
    l: TransformerBlock,
    m: TransformerBlock,
    s: ResidentQwen3RuntimeState,
    c: context::ContextView,
    after: context::ContextView,
    start: Seq<GpuCommand>,
    end: Seq<GpuCommand>,
    kv: cache::CacheView,
    cache_id: u64,
    revision: u64,
    i: usize,
    position: usize,
    r: Result<(), RsinferError>,
) -> bool {
    block::is_layer_run(
        l,
        m,
        c,
        after,
        start,
        end,
        slot(s, i as int),
        slot(s, i + 1),
        s.resident_hidden_a,
        s.resident_hidden_b,
        kv,
        cache_id,
        revision,
        i,
        position,
        s.resident_position.buffer,
        r,
    )
}

/// What running the first `n` blocks of a model on a device leaves, where its two values are ready.
pub open spec fn is_run(
    ls: Seq<TransformerBlock>,
    ms: Seq<TransformerBlock>,
    s: ResidentQwen3RuntimeState,
    c: context::ContextView,
    after: context::ContextView,
    kv: cache::CacheView,
    cache_id: u64,
    revision: u64,
    position: usize,
    n: nat,
    r: Result<GpuEncoder, RsinferError>,
) -> bool {
    match r {
        Ok(e) => exists|cs: Seq<context::ContextView>, es: Seq<Seq<GpuCommand>>| #[trigger]
            blocks_ran(ls, ms, s, cs, es, kv, cache_id, revision, position, n) && cs[0] == c
                && cs.last() == after && es[0].len() == 0 && es.last() == e@ && forall|i: int|
                n <= i < ls.len() ==> #[trigger] ms[i] == ls[i],
        Err(e) => exists|
            k: nat,
            cs: Seq<context::ContextView>,
            es: Seq<Seq<GpuCommand>>,
            end: Seq<GpuCommand>,
        | #[trigger]
            blocks_failed(
                ls,
                ms,
                s,
                cs,
                es,
                kv,
                cache_id,
                revision,
                position,
                k,
                end,
                after,
                e@,
            ) && k < n && cs[0] == c && es[0].len() == 0,
    }
}

/// Whether the block of the given number is the first that fails, with the given error.
pub open spec fn blocks_failed(
    ls: Seq<TransformerBlock>,
    ms: Seq<TransformerBlock>,
    s: ResidentQwen3RuntimeState,
    cs: Seq<context::ContextView>,
    es: Seq<Seq<GpuCommand>>,
    kv: cache::CacheView,
    cache_id: u64,
    revision: u64,
    position: usize,
    k: nat,
    end: Seq<GpuCommand>,
    after: context::ContextView,
    why: ErrorView,
) -> bool {
    &&& blocks_ran(ls, ms, s, cs, es, kv, cache_id, revision, position, k)
    &&& k < ls.len()
    &&& exists|r: Result<(), RsinferError>| #[trigger]
        block_ran(
            ls[k as int],
            ms[k as int],
            s,
            cs[k as int],
            after,
            es[k as int],
            end,
            kv,
            cache_id,
            revision,
            k as usize,
            position,
            r,
        ) && r is Err && r->Err_0@ == why
    &&& forall|i: int| k < i < ls.len() ==> #[trigger] ms[i] == ls[i]
}

impl Qwen3Model {
    /// How many blocks run one token on a device from end to end.
    pub fn resident_gpu_prefix_len(&self, tokens: usize) -> (r: usize)
        ensures
            r == prefix_len(*self, tokens as nat),
            r <= self.runtime_plan@.layer_devices.len(),
    {
        if !self.resident_decode_prototype || tokens != 1 {
            return 0;
        }
        let n: usize = self.runtime_plan.layer_devices.len();
        let ghost s = self.runtime_plan@.layer_devices;
        let mut i: usize = 0;
        while i < n && self.runtime_plan.layer_devices[i] == LayerDevice::Gpu
            invariant
                i <= n,
                n == s.len(),
                s == self.runtime_plan.layer_devices@,
                leading(s, 0) == leading(s, i as int),
            decreases n - i,
        {
            i += 1;
        }
        i
    }

    /// How many blocks run on a device from end to end where there is one, and may be none.
    pub fn device_prefix_len(&self, tokens: usize, has_device: bool) -> (r: usize)
        ensures
            r == (if !has_device {
                0int
            } else if prefix_len(*self, tokens as nat) < self.layers@.len() {
                prefix_len(*self, tokens as nat)
            } else {
                self.layers@.len() as int
            }),
    {
        if !has_device {
            return 0;
        }
        let planned: usize = self.resident_gpu_prefix_len(tokens);
        if planned < self.layers.len() {
            planned
        } else {
            self.layers.len()
        }
    }

    /// The rows of the embedding for some tokens.
    pub fn embedding(&self, input_ids: &[u32]) -> (r: Result<Tensor, RsinferError>)
        requires
            self.embed_tokens.dims().len() == 2,
            self.embed_tokens.dims()[1] == self.config.hidden_size,
            forall|i: int|
                0 <= i < input_ids@.len() && (#[trigger] input_ids@[i]) < self.config.vocab_size
                    ==> input_ids@[i] < self.embed_tokens.dims()[0],
            array::extent(seq![input_ids@.len() as usize, self.config.hidden_size]) <= isize::MAX,
        ensures
            match r {
                Ok(t) => {
                    &&& embed_error(input_ids@, self.config.vocab_size, 0) is None
                    &&& t.dims() == seq![input_ids@.len() as usize, self.config.hidden_size]
                    &&& t.values() == embedded(
                        self.embed_tokens.values(),
                        self.config.hidden_size as nat,
                        input_ids@,
                    )
                    &&& t.row_major()
                },
                Err(e) => embed_error(input_ids@, self.config.vocab_size, 0) == Some(e@),
            },
    {
        let hidden: usize = self.config.hidden_size;
        let vocab: usize = self.config.vocab_size;
        let rows: usize = self.embed_tokens.shape()[0];
        let values = self.embed_tokens.standard_values();
        proof {
            assert(self.embed_tokens.dims() =~= seq![rows, hidden]);
            array::lemma_numel2(rows, hidden);
            assert(values@.len() == rows * hidden);
        }
        let total: usize = values.len();
        let n: usize = input_ids.len();
        let mut out: Vec<u32> = Vec::new();
        let mut i: usize = 0;
        assert(input_ids@.take(0) =~= Seq::<u32>::empty());
        assert(out@ =~= embedded(values@, hidden as nat, input_ids@.take(0)));
        while i < n
            invariant
                i <= n,
                n == input_ids@.len(),
                hidden == self.config.hidden_size,
                vocab == self.config.vocab_size,
                forall|j: int|
                    0 <= j < n && (#[trigger] input_ids@[j]) < vocab ==> input_ids@[j] < rows,
                values@.len() == total,
                total == rows * hidden,
                out@ == embedded(values@, hidden as nat, input_ids@.take(i as int)),
                out@.len() == i * hidden,
                embed_error(input_ids@, vocab, 0) == embed_error(input_ids@, vocab, i as int),
            decreases n - i,
        {
            let id: usize = input_ids[i] as usize;
            if id >= vocab {
                let mut s = "token id ".to_owned();
                text::push_size(&mut s, id);
                s.append(" 越界 (vocab_size ");
                text::push_size(&mut s, vocab);
                s.append(")");
                return Err(RsinferError::DimensionError(s));
            }
            proof {
                assert((id + 1) * hidden <= rows * hidden) by (nonlinear_arith)
                    requires
                        id + 1 <= rows,
                ;
                assert(id * hidden + hidden == (id + 1) * hidden) by (nonlinear_arith);
                assert(input_ids@.take(i + 1).drop_last() =~= input_ids@.take(i as int));
                assert(i * hidden + hidden == (i + 1) * hidden) by (nonlinear_arith);
            }
            let start: usize = id * hidden;
            let mut row = vstd::slice::slice_to_vec(
                vstd::slice::slice_subrange(values.as_slice(), start, start + hidden),
            );
            out.append(&mut row);
            i += 1;
        }
        assert(input_ids@.take(n as int) =~= input_ids@);
        let shape = shape2(n, hidden);
        proof {
            array::lemma_numel2(n, hidden);
        }
        Tensor::from_f32_vec(&shape, out)
    }

    /// Makes the two values of a model ready for the given width.
    pub fn ensure_resident_runtime_state(&mut self, context: &mut GpuContext, hidden: usize) -> (r:
        Result<(), RsinferError>)
        requires
            resident::shape_fits(block_state::row(hidden)),
        ensures
            context::quiet(old(context)@, final(context)@),
            is_ready(
                old(self).resident_runtime_state,
                final(self).resident_runtime_state,
                old(context)@,
                final(context)@,
                hidden,
                r,
            ),
            *final(self) == (Qwen3Model {
                resident_runtime_state: final(self).resident_runtime_state,
                ..*old(self)
            }),
            final(context)@.id == old(context)@.id,
    {
        let rebuild = match &self.resident_runtime_state {
            Some(s) => s.hidden_size != hidden,
            None => true,
        };
        if rebuild {
            let shape = shape2(1, hidden);
            proof {
                array::lemma_numel2(1, hidden);
            }
            let resident_hidden_a = match GpuResidentBuffer::with_context(context, &shape) {
                Ok(b) => b,
                Err(e) => {
                    return Err(RsinferError::DimensionError(e));
                },
            };
            let resident_hidden_b = match GpuResidentBuffer::with_context(context, &shape) {
                Ok(b) => b,
                Err(e) => {
                    return Err(RsinferError::DimensionError(e));
                },
            };
            let resident_position = GpuPositionUniform::with_context(context, 0);
            self.resident_runtime_state = Some(
                ResidentQwen3RuntimeState {
                    resident_hidden_a,
                    resident_hidden_b,
                    resident_position,
                    hidden_size: hidden,
                },
            );
        }
        Ok(())
    }

    /// The commands with which one token goes through one block on a device.
    fn encode_one(
        &mut self,
        context: &mut GpuContext,
        encoder: &mut GpuEncoder,
        state: &ResidentQwen3RuntimeState,
        kv_cache: &KVCache,
        cache_id: u64,
        revision: u64,
        position: usize,
        i: usize,
    ) -> (r: Result<(), RsinferError>)
        requires
            i < old(self).layers@.len(),
            old(self).layers@[i as int].well_formed(old(context)@.id),
            block::rooms_fit(old(self).layers@[i as int].attention, kv_cache@.max_len),
            resident::shape_fits(
                block_state::row(old(self).layers@[i as int].mlp.gate_proj.out_features),
            ),
            kv_cache@.well_formed(),
            block::strides_fit(kv_cache@),
            resident::shape_fits(block_state::row(state.resident_hidden_a.len)),
            resident::shape_fits(block_state::row(state.resident_hidden_b.len)),
            position < usize::MAX,
        ensures
            context::quiet(old(context)@, final(context)@),
            final(self).layers@ == old(self).layers@.update(
                i as int,
                final(self).layers@[i as int],
            ),
            *final(self) == (Qwen3Model { layers: final(self).layers, ..*old(self) }),
            final(context)@.id == old(context)@.id,
            block_ran(
                old(self).layers@[i as int],
                final(self).layers@[i as int],
                *state,
                old(context)@,
                final(context)@,
                old(encoder)@,
                final(encoder)@,
                kv_cache@,
                cache_id,
                revision,
                i,
                position,
                r,
            ),
    {
        let even = i % 2 == 0;
        let input = if even {
            &state.resident_hidden_a
        } else {
            &state.resident_hidden_b
        };
        let output = if even {
            &state.resident_hidden_b
        } else {
            &state.resident_hidden_a
        };
        proof {
            assert(*input == slot(*state, i as int));
            assert(*output == slot(*state, i + 1));
            reveal(block_ran);
        }
        let layer = &mut self.layers[i];
        layer.encode_decode_one_resident_runtime_with_slot_cache(
            context,
            encoder,
            input,
            output,
            &state.resident_hidden_a,
            &state.resident_hidden_b,
            kv_cache,
            cache_id,
            revision,
            i,
            position,
            state.resident_position.buffer,
        )
    }

    /// The commands with which one token goes through the first `n` blocks on a device.
    fn encode_prefix(
        &mut self,
        context: &mut GpuContext,
        state: &ResidentQwen3RuntimeState,
        kv_cache: &KVCache,
        cache_id: u64,
        revision: u64,
        position: usize,
        n: usize,
    ) -> (r: Result<GpuEncoder, RsinferError>)
        requires
            n <= old(self).layers@.len(),
            prefix_fits(*old(self), old(context)@.id, kv_cache@),
            resident::shape_fits(block_state::row(state.resident_hidden_a.len)),
            resident::shape_fits(block_state::row(state.resident_hidden_b.len)),
            position < usize::MAX,
        ensures
            context::quiet(old(context)@, final(context)@),
            is_run(
                old(self).layers@,
                final(self).layers@,
                *state,
                old(context)@,
                final(context)@,
                kv_cache@,
                cache_id,
                revision,
                position,
                n as nat,
                r,
            ),
            *final(self) == (Qwen3Model { layers: final(self).layers, ..*old(self) }),
            final(context)@.id == old(context)@.id,
    {
        let ghost first = *self;
        let ghost ls = self.layers@;
        let ghost id = context@.id;
        let ghost kv = kv_cache@;
        let mut encoder = context.create_command_encoder();
        let ghost mut cs: Seq<context::ContextView> = seq![context@];
        let ghost mut es: Seq<Seq<GpuCommand>> = seq![encoder@];
        let total: usize = self.layers.len();
        let mut i: usize = 0;
        while i < n
            invariant
                i <= n,
                n <= total,
                total == ls.len(),
                self.layers@.len() == total,
                ls == first.layers@,
                first == *old(self),
                *self == (Qwen3Model { layers: self.layers, ..first }),
                prefix_fits(first, id, kv),
                id == old(context)@.id,
                kv == kv_cache@,
                resident::shape_fits(block_state::row(state.resident_hidden_a.len)),
                resident::shape_fits(block_state::row(state.resident_hidden_b.len)),
                position < usize::MAX,
                context@.id == id,
                context::quiet(old(context)@, context@),
                cs.len() == i + 1,
                cs[0] == old(context)@,
                cs[i as int] == context@,
                es.len() == i + 1,
                es[0].len() == 0,
                es[i as int] == encoder@,
                blocks_ran(
                    ls,
                    self.layers@,
                    *state,
                    cs,
                    es,
                    kv,
                    cache_id,
                    revision,
                    position,
                    i as nat,
                ),
                forall|k: int| i <= k < total ==> #[trigger] self.layers@[k] == ls[k],
            decreases n - i,
        {
            let ghost before = self.layers@;
            assert(self.layers@[i as int] == ls[i as int]);
            assert(first.layers@[i as int].well_formed(id));
            let ran = self.encode_one(
                context,
                &mut encoder,
                state,
                kv_cache,
                cache_id,
                revision,
                position,
                i,
            );
            let ghost done = ran;
            proof {
                assert forall|k: int| i < k < total implies #[trigger] self.layers@[k] == ls[k] by {
                    assert(before[k] == ls[k]);
                }
            }
            match ran {
                Ok(()) => {},
                Err(e) => {
                    proof {
                        lemma_blocks_kept(
                            ls,
                            before,
                            self.layers@,
                            *state,
                            cs,
                            es,
                            kv,
                            cache_id,
                            revision,
                            position,
                            i as nat,
                        );
                        assert(done is Err && done->Err_0@ == e@);
                        assert(block_ran(
                            ls[i as int],
                            self.layers@[i as int],
                            *state,
                            cs[i as int],
                            context@,
                            es[i as int],
                            encoder@,
                            kv,
                            cache_id,
                            revision,
                            i,
                            position,
                            done,
                        ));
                        assert(i as nat as usize == i);
                        assert(blocks_failed(
                            ls,
                            self.layers@,
                            *state,
                            cs,
                            es,
                            kv,
                            cache_id,
                            revision,
                            position,
                            i as nat,
                            encoder@,
                            context@,
                            e@,
                        ));
                    }
                    return Err(e);
                },
            }
            proof {
                assert(done->Ok_0 == ());
                assert(done == Ok::<(), RsinferError>(()));
                lemma_blocks_more(
                    ls,
                    before,
                    self.layers@,
                    *state,
                    cs,
                    es,
                    kv,
                    cache_id,
                    revision,
                    position,
                    i as nat,
                    context@,
                    encoder@,
                );
                cs = cs.push(context@);
                es = es.push(encoder@);
            }
            i += 1;
        }
        proof {
            assert(cs.last() == context@);
            assert(es.last() == encoder@);
            assert(blocks_ran(
                ls,
                self.layers@,
                *state,
                cs,
                es,
                kv,
                cache_id,
                revision,
                position,
                n as nat,
            ));
        }
        Ok(encoder)
    }
}

/// A device after a token and its position were handed over.
pub open spec fn handed_over(
    c: context::ContextView,
    s: ResidentQwen3RuntimeState,
    hidden: Tensor,
    position: usize,
) -> context::ContextView {
    context::positioned(
        context::written(
            c,
            s.resident_hidden_a.buffer,
            resident::contiguous(hidden),
            crate::gpu::GpuWrite::Uncounted,
        ),
        s.resident_position.buffer,
        position,
    )
}

/// What asking for the result of the first `n` blocks leaves.
pub open spec fn is_asked(
    s: ResidentQwen3RuntimeState,
    c: context::ContextView,
    after: context::ContextView,
    kv: cache::CacheView,
    kv_after: cache::CacheView,
    commands: Seq<GpuCommand>,
    position: usize,
    n: int,
    r: Result<usize, RsinferError>,
) -> bool {
    let sent = context::submitted(c, commands);
    let out = slot(s, n);
    if position + 1 > kv.max_len {
        &&& r matches Err(e) && e@ == ErrorView::DimensionError(
            "KV cache length "@ + text::dec((position + 1) as nat) + " exceeds max_len "@
                + text::dec(kv.max_len as nat),
        )
        &&& after == sent
        &&& kv_after == kv
    } else {
        &&& r matches Ok(id)
        &&& id == context::fresh(sent)
        &&& after == context::read_back(
            context::made(sent, out.len, GpuUsage::Readback),
            seq![context::copy(out.buffer, id, 0, out.len)],
            seq![id],
        )
        &&& kv_after == (cache::CacheView { current_len: (position + 1) as usize, ..kv })
    }
}

/// What sending one token through the first blocks on a device leaves, where its two values are
/// ready.
pub open spec fn is_sent(
    ls: Seq<TransformerBlock>,
    ms: Seq<TransformerBlock>,
    s: ResidentQwen3RuntimeState,
    c: context::ContextView,
    after: context::ContextView,
    kv: cache::CacheView,
    kv_after: cache::CacheView,
    hidden: Tensor,
    cache_id: u64,
    revision: u64,
    position: usize,
    n: int,
    r: Result<usize, RsinferError>,
) -> bool {
    match resident::upload_error(s.resident_hidden_a.shape@, s.resident_hidden_a.len, hidden) {
        Some(e) => {
            &&& r matches Err(f) && f@ == ErrorView::DimensionError(e)
            &&& after == c && kv_after == kv && ms == ls
        },
        None => exists|c3: context::ContextView, run: Result<GpuEncoder, RsinferError>| #[trigger]
            is_outcome(
                ls,
                ms,
                s,
                handed_over(c, s, hidden, position),
                c3,
                after,
                kv,
                kv_after,
                cache_id,
                revision,
                position,
                n,
                run,
                r,
            ),
    }
}

/// What comes of the first `n` blocks of a model, where `run` came of writing their commands.
pub open spec fn is_outcome(
    ls: Seq<TransformerBlock>,
    ms: Seq<TransformerBlock>,
    s: ResidentQwen3RuntimeState,
    c: context::ContextView,
    c3: context::ContextView,
    after: context::ContextView,
    kv: cache::CacheView,
    kv_after: cache::CacheView,
    cache_id: u64,
    revision: u64,
    position: usize,
    n: int,
    run: Result<GpuEncoder, RsinferError>,
    r: Result<usize, RsinferError>,
) -> bool {
    &&& is_run(ls, ms, s, c, c3, kv, cache_id, revision, position, n as nat, run)
    &&& match run {
        Err(e) => {
            &&& r matches Err(f) && f@ == e@
            &&& after == c3 && kv_after == kv
        },
        Ok(encoder) => is_asked(s, c3, after, kv, kv_after, encoder@, position, n, r),
    }
}

/// What sending one token through the first blocks of a model on a device leaves.
pub open spec fn is_started(
    a: Qwen3Model,
    b: Qwen3Model,
    c: context::ContextView,
    after: context::ContextView,
    kv: cache::CacheView,
    kv_after: cache::CacheView,
    hidden: Tensor,
    cache_id: u64,
    revision: u64,
    position: usize,
    r: Result<usize, RsinferError>,
) -> bool {
    let n = prefix_len(a, 1);
    &&& b == (Qwen3Model {
        layers: b.layers,
        resident_runtime_state: b.resident_runtime_state,
        ..a
    })
    &&& if a.layers@[0].attention.q_proj.q8_gpu_matvec is None {
        &&& r matches Err(e) && e@ == ErrorView::DimensionError(
            "missing first resident q_proj Q8 GPU matvec"@,
        )
        &&& b == a && after == c && kv_after == kv
    } else {
        exists|c1: context::ContextView, r1: Result<(), RsinferError>| #[trigger]
            is_ready(
                a.resident_runtime_state,
                b.resident_runtime_state,
                c,
                c1,
                hidden.dims()[1],
                r1,
            ) && match r1 {
                Err(e) => {
                    &&& r matches Err(f) && f@ == e@
                    &&& b.layers@ == a.layers@ && after == c1 && kv_after == kv
                },
                Ok(()) => is_sent(
                    a.layers@,
                    b.layers@,
                    b.resident_runtime_state->0,
                    c1,
                    after,
                    kv,
                    kv_after,
                    hidden,
                    cache_id,
                    revision,
                    position,
                    n,
                    r,
                ),
            }
    }
}

/// Whether the two values of a model are on the given device, and can be held.
pub open spec fn values_fit(s: Option<ResidentQwen3RuntimeState>, id: u64) -> bool {
    s matches Some(v) ==> {
        &&& v.resident_hidden_a.context == id
        &&& v.resident_hidden_b.context == id
        &&& v.resident_position.context == id
        &&& resident::shape_fits(block_state::row(v.resident_hidden_a.len))
        &&& resident::shape_fits(block_state::row(v.resident_hidden_b.len))
    }
}

impl Qwen3Model {
    fn send_token(
        &mut self,
        context: &mut GpuContext,
        state: &ResidentQwen3RuntimeState,
        hidden: &Tensor,
        kv_cache: &mut KVCache,
        cache_id: u64,
        revision: u64,
        position: usize,
        n: usize,
    ) -> (r: Result<usize, RsinferError>)
        requires
            n <= old(self).layers@.len(),
            prefix_fits(*old(self), old(context)@.id, old(kv_cache)@),
            values_fit(Some(*state), old(context)@.id),
            position < usize::MAX,
        ensures
            r is Ok ==> context::costs_one_readback(old(context)@, final(context)@),
            is_sent(
                old(self).layers@,
                final(self).layers@,
                *state,
                old(context)@,
                final(context)@,
                old(kv_cache)@,
                final(kv_cache)@,
                *hidden,
                cache_id,
                revision,
                position,
                n as int,
                r,
            ),
            *final(self) == (Qwen3Model { layers: final(self).layers, ..*old(self) }),
    {
        let ghost ls = self.layers@;
        let ghost c = context@;
        let ghost kv = kv_cache@;
        match state.resident_hidden_a.upload(context, hidden) {
            Ok(()) => {},
            Err(e) => {
                return Err(RsinferError::DimensionError(e));
            },
        }
        state.resident_position.write_position(context, position);
        assert(context@ == handed_over(c, *state, *hidden, position));
        let ran = self.encode_prefix(
            context,
            state,
            &*kv_cache,
            cache_id,
            revision,
            position,
            n,
        );
        let ghost c3 = context@;
        let ghost run = ran;
        assert(is_run(
            ls,
            self.layers@,
            *state,
            handed_over(c, *state, *hidden, position),
            c3,
            kv,
            cache_id,
            revision,
            position,
            n as nat,
            run,
        ));
        let encoder = match ran {
            Ok(e) => e,
            Err(e) => {
                assert(is_outcome(
                    ls,
                    self.layers@,
                    *state,
                    handed_over(c, *state, *hidden, position),
                    c3,
                    context@,
                    kv,
                    kv_cache@,
                    cache_id,
                    revision,
                    position,
                    n as int,
                    run,
                    Err::<usize, RsinferError>(e),
                ));
                return Err(e);
            },
        };
        context.submit(encoder);
        match kv_cache.set_current_len(position + 1) {
            Ok(()) => {},
            Err(e) => {
                assert(is_outcome(
                    ls,
                    self.layers@,
                    *state,
                    handed_over(c, *state, *hidden, position),
                    c3,
                    context@,
                    kv,
                    kv_cache@,
                    cache_id,
                    revision,
                    position,
                    n as int,
                    run,
                    Err::<usize, RsinferError>(e),
                ));
                return Err(e);
            },
        }
        let output = if n % 2 == 0 {
            &state.resident_hidden_a
        } else {
            &state.resident_hidden_b
        };
        assert(*output == slot(*state, n as int));
        let ghost told = context@;
        let id: usize = output.read_back(context);
        proof {
            reveal_with_fuel(context::advanced, 2);
            context::law_read_back_costs(
                context::made(told, output.len, GpuUsage::Readback),
                seq![context::copy(output.buffer, id, 0, output.len)],
                seq![id],
            );
        }
        assert(is_outcome(
            ls,
            self.layers@,
            *state,
            handed_over(c, *state, *hidden, position),
            c3,
            context@,
            kv,
            kv_cache@,
            cache_id,
            revision,
            position,
            n as int,
            run,
            Ok::<usize, RsinferError>(id),
        ));
        Ok(id)
    }

    /// Sends one token through the first blocks of a model on a device; the buffer from which its
    /// result comes.
    pub fn start_prefix(
        &mut self,
        context: &mut GpuContext,
        hidden: &Tensor,
        kv_cache: &mut KVCache,
        cache_id: u64,
        revision: u64,
        position: usize,
    ) -> (r: Result<usize, RsinferError>)
        requires
            prefix_len(*old(self), 1) > 0,
            old(self).runtime_plan@.layer_devices.len() <= old(self).layers@.len(),
            hidden.dims().len() >= 2,
            resident::shape_fits(block_state::row(hidden.dims()[1])),
            prefix_fits(*old(self), old(context)@.id, old(kv_cache)@),
            values_fit(old(self).resident_runtime_state, old(context)@.id),
            position < usize::MAX,
        ensures
            r is Ok ==> context::costs_one_readback(old(context)@, final(context)@),
            is_started(
                *old(self),
                *final(self),
                old(context)@,
                final(context)@,
                old(kv_cache)@,
                final(kv_cache)@,
                *hidden,
                cache_id,
                revision,
                position,
                r,
            ),
    {
        let ghost a = *self;
        let ghost c = context@;
        let n: usize = self.resident_gpu_prefix_len(1);
        if self.layers[0].attention.q_proj.q8_gpu_matvec.is_none() {
            return Err(
                RsinferError::DimensionError(
                    "missing first resident q_proj Q8 GPU matvec".to_owned(),
                ),
            );
        }
        let width: usize = hidden.shape()[1];
        let r1 = self.ensure_resident_runtime_state(context, width);
        let ghost ready = self.resident_runtime_state;
        let ghost c1 = context@;
        assert(is_ready(a.resident_runtime_state, ready, c, c1, width, r1));
        match r1 {
            Ok(()) => {},
            Err(e) => {
                return Err(e);
            },
        }
        proof {
            array::lemma_numel2(1, width);
            array::lemma_numel_extent(block_state::row(width));
            assert(1 * (width as nat) == width) by (nonlinear_arith);
        }
        let mut taken: Option<ResidentQwen3RuntimeState> = None;
        std::mem::swap(&mut taken, &mut self.resident_runtime_state);
        match taken {
            Some(state) => {
                let r = self.send_token(
                    context,
                    &state,
                    hidden,
                    kv_cache,
                    cache_id,
                    revision,
                    position,
                    n,
                );
                self.resident_runtime_state = Some(state);
                assert(self.resident_runtime_state == ready);
                r
            },
            None => Err(
                RsinferError::DimensionError(
                    "missing first resident q_proj Q8 GPU matvec".to_owned(),
                ),
            ),
        }
    }

    /// The result of the first blocks of a model out of the words that a device handed back.
    pub fn finish_prefix(&self, context: &mut GpuContext, n: usize, readback: usize, words: Vec<u32>)
        -> (r: Result<Tensor, RsinferError>)
        requires
            self.resident_runtime_state is Some,
        ensures
            ({
                let out = slot(self.resident_runtime_state->0, n as int);
                let why = context::tensor_failure(out.shape@, words@.len());
                &&& final(context)@ == context::with_op(
                    old(context)@,
                    context::OpView::Release(readback),
                )
                &&& match r {
                    Ok(t) => why is None && t.dims() == out.shape@ && t.values() == words@,
                    Err(e) => why is Some && e@ == ErrorView::DimensionError(why->0),
                }
            }),
    {
        match &self.resident_runtime_state {
            Some(state) => {
                let output = if n % 2 == 0 {
                    &state.resident_hidden_a
                } else {
                    &state.resident_hidden_b
                };
                assert(*output == slot(*state, n as int));
                match output.read_back_output(context, readback, words) {
                    Ok(t) => Ok(t),
                    Err(e) => Err(RsinferError::DimensionError(e)),
                }
            },
            None => Err(RsinferError::DimensionError("".to_owned())),
        }
    }
}

proof fn lemma_blocks_kept(
    ls: Seq<TransformerBlock>,
    before: Seq<TransformerBlock>,
    ms: Seq<TransformerBlock>,
    s: ResidentQwen3RuntimeState,
    cs: Seq<context::ContextView>,
    es: Seq<Seq<GpuCommand>>,
    kv: cache::CacheView,
    cache_id: u64,
    revision: u64,
    position: usize,
    n: nat,
)
    requires
        blocks_ran(ls, before, s, cs, es, kv, cache_id, revision, position, n),
        n < ls.len(),
        ms == before.update(n as int, ms[n as int]),
    ensures
        blocks_ran(ls, ms, s, cs, es, kv, cache_id, revision, position, n),
{
    assert forall|i: int| 0 <= i < n implies #[trigger] block_ran(
        ls[i],
        ms[i],
        s,
        cs[i],
        cs[i + 1],
        es[i],
        es[i + 1],
        kv,
        cache_id,
        revision,
        i as usize,
        position,
        Ok::<(), RsinferError>(()),
    ) by {
        assert(ms[i] == before[i]);
    }
}

proof fn lemma_blocks_more(
    ls: Seq<TransformerBlock>,
    before: Seq<TransformerBlock>,
    ms: Seq<TransformerBlock>,
    s: ResidentQwen3RuntimeState,
    cs: Seq<context::ContextView>,
    es: Seq<Seq<GpuCommand>>,
    kv: cache::CacheView,
    cache_id: u64,
    revision: u64,
    position: usize,
    n: nat,
    c: context::ContextView,
    e: Seq<GpuCommand>,
)
    requires
        blocks_ran(ls, before, s, cs, es, kv, cache_id, revision, position, n),
        n < ls.len() <= usize::MAX,
        ms == before.update(n as int, ms[n as int]),
        block_ran(
            ls[n as int],
            ms[n as int],
            s,
            cs[n as int],
            c,
            es[n as int],
            e,
            kv,
            cache_id,
            revision,
            n as usize,
            position,
            Ok::<(), RsinferError>(()),
        ),
    ensures
        blocks_ran(
            ls,
            ms,
            s,
            cs.push(c),
            es.push(e),
            kv,
            cache_id,
            revision,
            position,
            n + 1,
        ),
{
    let ds = cs.push(c);
    let fs = es.push(e);
    assert forall|i: int| 0 <= i < n + 1 implies #[trigger] block_ran(
        ls[i],
        ms[i],
        s,
        ds[i],
        ds[i + 1],
        fs[i],
        fs[i + 1],
        kv,
        cache_id,
        revision,
        i as usize,
        position,
        Ok::<(), RsinferError>(()),
    ) by {
        if i < n {
            assert(ms[i] == before[i]);
            assert(block_ran(
                ls[i],
                before[i],
                s,
                cs[i],
                cs[i + 1],
                es[i],
                es[i + 1],
                kv,
                cache_id,
                revision,
                i as usize,
                position,
                Ok::<(), RsinferError>(()),
            ));
        }
    }
}

/// Whether all blocks of a model can be kept on a device beside a cache.
pub open spec fn prefix_fits(m: Qwen3Model, id: u64, kv: cache::CacheView) -> bool {
    &&& kv.well_formed()
    &&& block::strides_fit(kv)
    &&& forall|i: int|
        0 <= i < m.layers@.len() ==> {
            &&& (#[trigger] m.layers@[i]).well_formed(id)
            &&& block::rooms_fit(m.layers@[i].attention, kv.max_len)
            &&& resident::shape_fits(block_state::row(m.layers@[i].mlp.gate_proj.out_features))
        }
}

} // verus!
