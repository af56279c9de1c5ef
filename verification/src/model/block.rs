//! A block: attention and feed-forward part, with a normalization before each and what came in added
//! behind each.

use vstd::prelude::*;

use crate::engine::cache;
use crate::engine::CachedKV;
use crate::error::{ErrorView, RsinferError};
use crate::gpu::chain;
use crate::gpu::context;
use crate::gpu::norm;
use crate::gpu::q8_swiglu;
use crate::gpu::resident;
use crate::gpu::{GpuCommand, GpuContext, GpuResidentBuffer};
use crate::model::attention;
use crate::model::attention_decode;
use crate::model::attention_sync;
use crate::model::block_state;
use crate::model::block_state::{
    ResidentTransformerBlockIoCaches, ResidentTransformerBlockRuntimeState,
};
use crate::model::group;
use crate::model::mlp;
use crate::model::{Attention, Linear, Mlp, RmsNorm};
use crate::runtime;

verus! {

/// A block.
#[derive(Debug)]
pub struct TransformerBlock {
    pub input_layernorm: RmsNorm,
    pub attention: Attention,
    pub post_attention_layernorm: RmsNorm,
    pub mlp: Mlp,
    pub resident_runtime_state: Option<ResidentTransformerBlockRuntimeState>,
}

/// What becomes of an attention that is put on a device, in eight bits or in half precision.
pub open spec fn attention_enabled(
    c: context::ContextView,
    after: context::ContextView,
    a: Attention,
    b: Attention,
    q8: bool,
    n: nat,
    errors: Seq<Seq<char>>,
) -> bool {
    let ls = attention::projections(a);
    let listed = group::group_errors(
        c,
        ls,
        "attention."@,
        attention::projection_names(),
        q8,
        4,
    );
    &&& n == group::group_count(c, ls, q8, 4)
    &&& if q8 {
        exists|mid: Seq<Linear>| #[trigger]
            group::group_became(c, ls, mid, true) && attention::batched(
                group::group_after(c, ls, true, 4),
                after,
                a,
                mid,
                b,
                listed,
                errors,
            )
    } else {
        &&& group::group_became(c, ls, attention::projections(b), false)
        &&& b == attention::with_projections(a, attention::projections(b))
        &&& after == group::group_after(c, ls, false, 4)
        &&& errors == listed
    }
}

/// What becomes of a feed-forward part that is put on a device, in eight bits or in half precision.
pub open spec fn mlp_enabled(
    c: context::ContextView,
    after: context::ContextView,
    a: Mlp,
    b: Mlp,
    q8: bool,
    n: nat,
    errors: Seq<Seq<char>>,
) -> bool {
    let ls = mlp::mlp_parts(a);
    let mid_c = group::group_after(c, ls, q8, 3);
    let listed = group::group_errors(c, ls, "mlp."@, mlp::mlp_names(), q8, 3);
    &&& n == group::group_count(c, ls, q8, 3)
    &&& exists|mid: Seq<Linear>| #[trigger]
        group::group_became(c, ls, mid, q8) && if q8 {
            mlp::q8_fused(mid_c, after, a, mid, b, listed, errors)
        } else {
            mlp::fused(mid_c, after, a, mid, b, listed, errors)
        }
}

/// What becomes of a block that is put on a device, in eight bits or in half precision: how many of
/// its layers are there then, and what could not be done.
pub open spec fn block_enabled(
    c: context::ContextView,
    after: context::ContextView,
    a: TransformerBlock,
    b: TransformerBlock,
    q8: bool,
    n: nat,
    errors: Seq<Seq<char>>,
) -> bool {
    &&& b == (TransformerBlock { attention: b.attention, mlp: b.mlp, ..a })
    &&& exists|mid: context::ContextView, n1: nat, n2: nat, e1: Seq<Seq<char>>, e2: Seq<Seq<char>>|
        #[trigger]
        attention_enabled(c, mid, a.attention, b.attention, q8, n1, e1) && #[trigger] mlp_enabled(
            mid,
            after,
            a.mlp,
            b.mlp,
            q8,
            n2,
            e2,
        ) && n == n1 + n2 && errors == e1 + e2
}

/// What preparing a block for two values leaves.
pub open spec fn is_prepared(
    a: TransformerBlock,
    b: TransformerBlock,
    c: context::ContextView,
    after: context::ContextView,
    hidden: usize,
    slot0: GpuResidentBuffer,
    slot1: GpuResidentBuffer,
    r: Result<(), RsinferError>,
) -> bool {
    let why = block_state::block_state_error(
        c,
        a.input_layernorm,
        a.post_attention_layernorm,
        a.mlp,
        hidden,
    );
    &&& b == (TransformerBlock { resident_runtime_state: b.resident_runtime_state, ..a })
    &&& match a.resident_runtime_state {
        Some(s) => {
            &&& after == c
            &&& b.resident_runtime_state is Some
            &&& block_state::is_slotted(s, b.resident_runtime_state->0, slot0, slot1, r)
        },
        None => match why {
            Some(p) => {
                &&& r matches Err(e) && e@ == block_state::block_failure(p.0)
                &&& after == p.1
                &&& b.resident_runtime_state is None
            },
            None => {
                &&& b.resident_runtime_state is Some
                &&& exists|s: ResidentTransformerBlockRuntimeState| #[trigger]
                    block_state::is_block_state(
                        c,
                        after,
                        a.input_layernorm,
                        a.post_attention_layernorm,
                        a.mlp,
                        hidden,
                        s,
                    ) && block_state::is_slotted(
                        s,
                        b.resident_runtime_state->0,
                        slot0,
                        slot1,
                        r,
                    )
            },
        },
    }
}

/// The buffers with which the layer of the given number reads and writes.
pub open spec fn io_of(s: ResidentTransformerBlockRuntimeState, layer: usize)
    -> ResidentTransformerBlockIoCaches {
    if layer % 2 == 0 {
        (s.slot_caches->0).even
    } else {
        (s.slot_caches->0).odd
    }
}

/// The steps behind the attention.
pub open spec fn post_steps(
    b: TransformerBlock,
    s: ResidentTransformerBlockRuntimeState,
    input: GpuResidentBuffer,
    output: GpuResidentBuffer,
    io: ResidentTransformerBlockIoCaches,
) -> Seq<chain::EncodeStep> {
    let unshared = "GPU residual add resident path requires shared GpuContext"@;
    seq![
        chain::step(
            if resident::residual_shared(s.gpu_add, input, s.resident_attn, s.resident_hidden) {
                None
            } else {
                Some(unshared)
            },
            seq![resident::residual_command(s.gpu_add, io.input_residual_cache)],
        ),
        chain::step(
            norm::norm_cache_error(s.gpu_post_norm, s.resident_hidden, s.resident_norm2),
            seq![norm::norm_command(s.gpu_post_norm, s.gpu_post_norm_cache)],
        ),
        chain::step(
            mlp::encode_error(
                b.mlp,
                s.resident_norm2,
                s.resident_mlp_output,
                mlp_cache_of(s),
            ),
            q8_swiglu::q8_swiglu_runs(
                b.mlp.gate_proj.q8_gpu_matvec->0,
                b.mlp.down_proj.q8_gpu_matvec->0,
                s.resident_mlp_q8_cache->0,
            ),
        ),
        chain::step(
            if resident::residual_shared(
                s.gpu_add,
                s.resident_hidden,
                s.resident_mlp_output,
                output,
            ) {
                None
            } else {
                Some(unshared)
            },
            seq![resident::residual_command(s.gpu_add, io.output_residual_cache)],
        ),
    ]
}

/// The buffers of the feed-forward part, if there are any.
pub open spec fn mlp_cache_of<'a>(s: ResidentTransformerBlockRuntimeState) -> Option<
    &'a crate::gpu::GpuQ8SwiGluDownResidentCache,
> {
    match s.resident_mlp_q8_cache {
        Some(k) => Some(&k),
        None => None,
    }
}

/// The error of the step behind the attention that fails.
pub open spec fn post_failure(failed: int, why: Seq<char>) -> ErrorView {
    if failed == 2 {
        mlp::mlp_failure(why)
    } else {
        block_state::block_failure(why)
    }
}

/// What writing the commands of a prepared block leaves.
pub open spec fn is_encoded(
    a: TransformerBlock,
    b: TransformerBlock,
    c: context::ContextView,
    after: context::ContextView,
    start: Seq<GpuCommand>,
    end: Seq<GpuCommand>,
    input: GpuResidentBuffer,
    output: GpuResidentBuffer,
    layer: usize,
    position: usize,
    r: Result<(), RsinferError>,
) -> bool {
    let s = a.resident_runtime_state->0;
    let io = io_of(s, layer);
    let first = start + seq![
        GpuCommand::BeginPass,
        norm::norm_command(s.gpu_input_norm, io.input_norm_cache),
    ];
    let att = a.attention;
    let kept = att.resident_runtime_state->0;
    let steps = attention::decode_steps(
        c,
        att,
        kept,
        s.resident_norm1,
        s.resident_attn,
        position,
    );
    let failed = chain::failing(steps, 0);
    let done = chain::encoded(steps, 0, first);
    let behind = post_steps(a, s, input, output, io);
    let last = chain::encoded(behind, 0, done.1.push(GpuCommand::BeginPass));
    &&& b == (TransformerBlock { attention: b.attention, ..a })
    &&& match norm::norm_cache_error(s.gpu_input_norm, input, s.resident_norm1) {
        Some(e) => {
            &&& r matches Err(f) && f@ == block_state::block_failure(e)
            &&& end == start
            &&& after == c
            &&& b == a
        },
        None => match attention_decode::decode_refused(att) {
            Some(e) => {
                &&& r matches Err(f) && f@ == attention::attention_failure(e)
                &&& end == first
                &&& after == c
                &&& b == a
            },
            None => {
                &&& after == attention::decode_after(c, att, kept, failed)
                &&& b.attention == (Attention {
                    resident_runtime_state: b.attention.resident_runtime_state,
                    ..att
                })
                &&& b.attention.resident_runtime_state is Some
                &&& attention::is_decoded(
                    c,
                    att,
                    kept,
                    b.attention.resident_runtime_state->0,
                    position,
                    failed,
                )
                &&& match done.0 {
                    Some(e) => {
                        &&& r matches Err(f) && f@ == attention::attention_failure(e)
                        &&& end == done.1
                    },
                    None => {
                        &&& end == last.1
                        &&& match last.0 {
                            Some(e) => r matches Err(f) && f@ == post_failure(
                                chain::failing(behind, 0),
                                e,
                            ),
                            None => r is Ok,
                        }
                    },
                }
            },
        },
    }
}

/// Whether the rows of every layer of a cache can be held.
pub open spec fn strides_fit(c: cache::CacheView) -> bool {
    forall|i: int|
        0 <= i < c.layers.len() ==> match #[trigger] c.layers[i] {
            Some(l) => l.capacity * l.head_dim <= usize::MAX,
            None => true,
        }
}

/// Whether an attention can be kept on a device with any room that a cache may have.
pub open spec fn rooms_fit(a: Attention, kv_max: usize) -> bool {
    forall|n: usize| n <= kv_max ==> #[trigger] attention_sync::room_fits(a, n)
}

/// Whether cached keys and values are those of a layer, none at the first position.
pub open spec fn is_prefix(
    c: cache::CacheView,
    layer: usize,
    position: usize,
    cached: Option<CachedKV<'_>>,
) -> bool {
    match cached {
        None => position == 0,
        Some(k) => {
            &&& position != 0
            &&& layer < c.layers.len()
            &&& c.layers[layer as int] == Some(
                cache::LayerView {
                    num_heads: k.num_heads,
                    head_dim: k.head_dim,
                    len: k.seq_len,
                    capacity: k.capacity_len,
                    key: k.key@,
                    value: k.value@,
                },
            )
        },
    }
}

/// What the decoding of one token by a block leaves: it is refused, or prepared, brought up to date
/// with the cache and written, up to the first of these that fails.
pub open spec fn is_layer_run(
    a: TransformerBlock,
    b: TransformerBlock,
    c: context::ContextView,
    after: context::ContextView,
    start: Seq<GpuCommand>,
    end: Seq<GpuCommand>,
    input: GpuResidentBuffer,
    output: GpuResidentBuffer,
    slot0: GpuResidentBuffer,
    slot1: GpuResidentBuffer,
    kv: cache::CacheView,
    cache_id: u64,
    revision: u64,
    layer: usize,
    position: usize,
    position_buffer: usize,
    r: Result<(), RsinferError>,
) -> bool {
    if a.attention.q_proj.q8_gpu_matvec is None {
        &&& r matches Err(e) && e@ == block_state::block_failure(
            "missing attention q_proj Q8 GPU matvec"@,
        )
        &&& b == a && after == c && end == start
    } else if position != 0 && (layer >= kv.layers.len() || kv.layers[layer as int] is None) {
        &&& r matches Err(e) && e@ == cache::no_cache_error(layer as nat)
        &&& b == a && after == c && end == start
    } else {
        exists|b1: TransformerBlock, c1: context::ContextView, r1: Result<(), RsinferError>|
            #[trigger]
            is_prepared(a, b1, c, c1, input.len, slot0, slot1, r1) && match r1 {
                Err(e) => {
                    &&& r matches Err(f) && f@ == e@
                    &&& b == b1 && after == c1 && end == start
                },
                Ok(()) => exists|
                    b2: TransformerBlock,
                    c2: context::ContextView,
                    r2: Result<(), RsinferError>,
                    cached: Option<CachedKV<'_>>,
                | #[trigger]
                    is_updated(
                        b1,
                        b2,
                        c1,
                        c2,
                        kv,
                        cache_id,
                        revision,
                        cached,
                        layer,
                        position,
                        position_buffer,
                        r2,
                    ) && match r2 {
                        Err(e) => {
                            &&& r matches Err(f) && f@ == e@
                            &&& b == b2 && after == c2 && end == start
                        },
                        Ok(()) => is_encoded(
                            b2,
                            b,
                            c2,
                            after,
                            start,
                            end,
                            input,
                            output,
                            layer,
                            position,
                            r,
                        ),
                    },
            }
    }
}

/// What bringing the attention of a block up to date with a cache leaves.
pub open spec fn is_updated(
    a: TransformerBlock,
    b: TransformerBlock,
    c: context::ContextView,
    after: context::ContextView,
    kv: cache::CacheView,
    cache_id: u64,
    revision: u64,
    cached: Option<CachedKV<'_>>,
    layer: usize,
    position: usize,
    position_buffer: usize,
    r: Result<(), RsinferError>,
) -> bool {
    &&& is_prefix(kv, layer, position, cached)
    &&& b == (TransformerBlock { attention: b.attention, ..a })
    &&& attention_sync::is_ensured(
        a.attention,
        b.attention,
        c,
        after,
        kv.max_len,
        cache_id,
        revision,
        cached,
        position,
        position_buffer,
        r,
    )
}

impl TransformerBlock {
    /// The layers can be put on a device, and what is there is on the given one.
    pub open spec fn well_formed(&self, id: u64) -> bool {
        &&& self.attention.well_formed(id)
        &&& self.mlp.well_formed(id)
        &&& self.attention.resident_runtime_state matches Some(s) ==> attention_sync::suits(
            s,
            self.attention,
            id,
        )
    }

    /// A block of which nothing is kept on a device.
    pub fn new(
        input_layernorm: RmsNorm,
        attention: Attention,
        post_attention_layernorm: RmsNorm,
        mlp: Mlp,
    ) -> (r: TransformerBlock)
        ensures
            r == (TransformerBlock {
                input_layernorm,
                attention,
                post_attention_layernorm,
                mlp,
                resident_runtime_state: None,
            }),
    {
        TransformerBlock {
            input_layernorm,
            attention,
            post_attention_layernorm,
            mlp,
            resident_runtime_state: None,
        }
    }

    /// Puts the layers of a block on a device in half precision.
    pub fn try_enable_gpu_matvecs(&mut self, context: &mut GpuContext) -> (r: (usize, Vec<String>))
        requires
            old(self).well_formed(old(context)@.id),
        ensures
            block_enabled(
                old(context)@,
                final(context)@,
                *old(self),
                *final(self),
                false,
                r.0 as nat,
                runtime::texts(r.1@),
            ),
            final(context)@.id == old(context)@.id,
            final(self).attention.well_formed(old(context)@.id),
            final(self).mlp.well_formed(old(context)@.id),
            r.0 <= 7,
    {
        let ghost c = context@;
        let ghost first = *self;
        let (attention_count, attention_errors) = self.attention.try_enable_gpu_matvecs(context);
        let ghost mid = context@;
        proof {
            lemma_counts(c, attention::projections(first.attention), false, 4);
            lemma_counts(mid, mlp::mlp_parts(first.mlp), false, 3);
            assert(attention_enabled(
                c,
                mid,
                first.attention,
                self.attention,
                false,
                attention_count as nat,
                runtime::texts(attention_errors@),
            ));
        }
        let (mlp_count, mlp_errors) = self.mlp.try_enable_gpu_matvecs(context);
        proof {
            assert(mlp_enabled(
                mid,
                context@,
                first.mlp,
                self.mlp,
                false,
                mlp_count as nat,
                runtime::texts(mlp_errors@),
            ));
        }
        let errors = joined_errors(attention_errors, mlp_errors);
        (attention_count + mlp_count, errors)
    }

    /// Puts the layers of a block on a device in eight bits.
    pub fn try_enable_q8_gpu_matvecs(&mut self, context: &mut GpuContext) -> (r: (
        usize,
        Vec<String>,
    ))
        requires
            old(self).well_formed(old(context)@.id),
        ensures
            block_enabled(
                old(context)@,
                final(context)@,
                *old(self),
                *final(self),
                true,
                r.0 as nat,
                runtime::texts(r.1@),
            ),
            final(context)@.id == old(context)@.id,
            final(self).attention.well_formed(old(context)@.id),
            final(self).mlp.well_formed(old(context)@.id),
            r.0 <= 7,
    {
        let ghost c = context@;
        let ghost first = *self;
        let (attention_count, attention_errors) = self.attention.try_enable_q8_gpu_matvecs(context);
        let ghost mid = context@;
        proof {
            lemma_counts(c, attention::projections(first.attention), true, 4);
            lemma_counts(mid, mlp::mlp_parts(first.mlp), true, 3);
            assert(attention_enabled(
                c,
                mid,
                first.attention,
                self.attention,
                true,
                attention_count as nat,
                runtime::texts(attention_errors@),
            ));
        }
        let (mlp_count, mlp_errors) = self.mlp.try_enable_q8_gpu_matvecs(context);
        proof {
            assert(mlp_enabled(
                mid,
                context@,
                first.mlp,
                self.mlp,
                true,
                mlp_count as nat,
                runtime::texts(mlp_errors@),
            ));
        }
        let errors = joined_errors(attention_errors, mlp_errors);
        (attention_count + mlp_count, errors)
    }

    /// Makes what a block keeps on a device where it is not there yet, and prepares it for two
    /// values.
    pub fn ensure_resident_runtime_state_with_slots(
        &mut self,
        context: &mut GpuContext,
        hidden: usize,
        slot0: &GpuResidentBuffer,
        slot1: &GpuResidentBuffer,
    ) -> (r: Result<(), RsinferError>)
        requires
            resident::shape_fits(block_state::row(hidden)),
            resident::shape_fits(block_state::row(old(self).mlp.gate_proj.out_features)),
            old(self).mlp.well_formed(old(context)@.id),
        ensures
            context::quiet(old(context)@, final(context)@),
            is_prepared(
                *old(self),
                *final(self),
                old(context)@,
                final(context)@,
                hidden,
                *slot0,
                *slot1,
                r,
            ),
            r is Ok ==> {
                &&& final(self).resident_runtime_state is Some
                &&& (final(self).resident_runtime_state->0).slot_caches is Some
            },
    {
        let ghost first = *self;
        let mut taken: Option<ResidentTransformerBlockRuntimeState> = None;
        std::mem::swap(&mut taken, &mut self.resident_runtime_state);
        let mut state = match taken {
            Some(s) => s,
            None => {
                match ResidentTransformerBlockRuntimeState::new(
                    context,
                    &self.input_layernorm,
                    &self.post_attention_layernorm,
                    &self.mlp,
                    hidden,
                ) {
                    Ok(s) => s,
                    Err(e) => {
                        return Err(e);
                    },
                }
            },
        };
        let r = state.ensure_slot_caches(slot0, slot1);
        self.resident_runtime_state = Some(state);
        r
    }
}

fn joined_errors(a: Vec<String>, b: Vec<String>) -> (r: Vec<String>)
    ensures
        runtime::texts(r@) == runtime::texts(a@) + runtime::texts(b@),
{
    let ghost first = a@;
    let mut out = a;
    let mut i: usize = 0;
    assert(runtime::texts(out@) =~= runtime::texts(first) + runtime::texts(b@).take(0));
    while i < b.len()
        invariant
            i <= b@.len(),
            runtime::texts(out@) == runtime::texts(first) + runtime::texts(b@).take(i as int),
        decreases b@.len() - i,
    {
        let ghost before = out@;
        out.push(b[i].clone());
        proof {
            assert(runtime::texts(out@) =~= runtime::texts(before).push(b@[i as int]@));
            assert(runtime::texts(b@).take(i + 1) =~= runtime::texts(b@).take(i as int).push(
                b@[i as int]@,
            ));
            assert(runtime::texts(out@) =~= runtime::texts(first) + runtime::texts(b@).take(
                i + 1,
            ));
        }
        i += 1;
    }
    assert(runtime::texts(b@).take(b@.len() as int) =~= runtime::texts(b@));
    out
}

proof fn lemma_counts(c: context::ContextView, ls: Seq<Linear>, q8: bool, n: nat)
    ensures
        group::group_count(c, ls, q8, n) <= n,
    decreases n,
{
    if n > 0 {
        lemma_counts(c, ls, q8, (n - 1) as nat);
    }
}

} // verus!
