//! The attention of one token on a device where nothing is kept between tokens.

use vstd::prelude::*;
use vstd::string::*;

use crate::engine::CachedKV;
use crate::error::{ErrorView, RsinferError};
use crate::gpu::attention as gpu_attention;
use crate::gpu::chain;
use crate::gpu::context;
use crate::gpu::norm;
use crate::gpu::q8;
use crate::gpu::q8_batch;
use crate::gpu::resident;
use crate::gpu::resident::same_shape;
use crate::gpu::{
    GpuCommand, GpuContext, GpuDecodeGqaAttention, GpuDecodeGqaAttentionConfig, GpuEncoder,
    GpuKvAppend, GpuQ8MatVec, GpuQkRmsNormRope, GpuQkRmsNormRopeConfig, GpuResidentBuffer, GpuUsage,
    GpuWrite,
};
use crate::model::attention;
use crate::model::attention_decode::attention_error;
use crate::model::attention_state;
use crate::model::attention_state::{shape2, shape3, AttentionShape};
use crate::model::attention_sync;
use crate::model::block_state;
use crate::model::Attention;
use crate::tensor::array;
use crate::tensor::Tensor;
use crate::text;

verus! {

/// What the attention of one token needs on a device.
#[derive(Debug)]
pub struct AttentionOnce {
    pub q_pre: GpuResidentBuffer,
    pub k_pre: GpuResidentBuffer,
    pub q: GpuResidentBuffer,
    pub own_k: Option<GpuResidentBuffer>,
    pub own_v: Option<GpuResidentBuffer>,
    pub key_cache: GpuResidentBuffer,
    pub value_cache: GpuResidentBuffer,
    pub attention: GpuResidentBuffer,
    pub qk_gpu: GpuQkRmsNormRope,
    pub kv_gpu: GpuKvAppend,
    pub attn_gpu: GpuDecodeGqaAttention,
}

/// A device after `n` of the values of a token are made: the query and the key before they are
/// turned, the query, and a key and a value where the caller brings none.
pub open spec fn values_made(
    c: context::ContextView,
    a: AttentionShape<'_>,
    own_k: bool,
    own_v: bool,
    n: nat,
) -> context::ContextView
    decreases n,
{
    if n == 0 {
        c
    } else {
        let before = values_made(c, a, own_k, own_v, (n - 1) as nat);
        if n == 4 && !own_k || n == 5 && !own_v {
            before
        } else if n == 1 || n == 3 {
            attention_state::with_buffer(before, attention_state::q_shape(a))
        } else {
            attention_state::with_buffer(before, attention_state::k_shape(a))
        }
    }
}

/// A device with one more value, and what it holds.
pub open spec fn with_value(c: context::ContextView, shape: Seq<usize>, words: Seq<u32>)
    -> context::ContextView {
    context::written(
        attention_state::with_buffer(c, shape),
        context::fresh(c),
        words,
        GpuWrite::Uncounted,
    )
}

/// A device after the keys of earlier positions are written behind the values of a token.
pub open spec fn keys_put(
    c: context::ContextView,
    a: AttentionShape<'_>,
    max_len: usize,
    own_k: bool,
    own_v: bool,
    keys: Seq<u32>,
) -> context::ContextView {
    with_value(
        values_made(c, a, own_k, own_v, 5),
        attention_state::cache_shape(a, max_len),
        keys,
    )
}

/// A device after all values of a token are made, and the keys and values of earlier positions
/// are written.
pub open spec fn all_put(
    c: context::ContextView,
    a: AttentionShape<'_>,
    max_len: usize,
    own_k: bool,
    own_v: bool,
    keys: Seq<u32>,
    values: Seq<u32>,
) -> context::ContextView {
    attention_state::with_buffer(
        with_value(
            keys_put(c, a, max_len, own_k, own_v, keys),
            attention_state::cache_shape(a, max_len),
            values,
        ),
        attention_state::q_shape(a),
    )
}

/// A device after what turns queries and keys at a position is made.
pub open spec fn turn_made_at(c: context::ContextView, a: AttentionShape<'_>, position: usize)
    -> context::ContextView {
    let c1 = context::filled(c, a.inv_freq@, GpuUsage::Weight);
    let c2 = norm::side_made(
        c1,
        resident::contiguous(*a.q_weight),
        attention_state::q_shape(a),
        a.q_eps,
    );
    let c3 = context::filled(c2, context::position_words(position), GpuUsage::MutableParams);
    norm::side_made(
        c3,
        resident::contiguous(*a.k_weight),
        attention_state::k_shape(a),
        a.k_eps,
    )
}

/// A device after what keeps keys and values is made, behind what turns them.
pub open spec fn keeper_made(
    c: context::ContextView,
    a: AttentionShape<'_>,
    max_len: usize,
    position: usize,
) -> context::ContextView {
    gpu_attention::kv_made(
        turn_made_at(c, a, position),
        a.num_kv_heads,
        a.head_dim,
        max_len,
        false,
    )
}

/// Why the attention of one token cannot be made on a device, and what is made there before that
/// is found.
#[verifier::opaque]
pub open spec fn once_error(
    c: context::ContextView,
    a: AttentionShape<'_>,
    max_len: usize,
    position: usize,
    own_k: bool,
    own_v: bool,
    keys: Seq<u32>,
    values: Seq<u32>,
) -> Option<(Seq<char>, context::ContextView)> {
    let room = all_put(c, a, max_len, own_k, own_v, keys, values);
    if a.num_heads == 0 || a.head_dim == 0 {
        Some(("GPU resident buffer requires non-empty shape"@, c))
    } else if a.num_kv_heads == 0 {
        Some(
            (
                "GPU resident buffer requires non-empty shape"@,
                values_made(c, a, own_k, own_v, 1),
            ),
        )
    } else {
        match attention_state::turn_error(a) {
            Some(e) => Some((e, room)),
            None => match gpu_attention::attention_error(
                attention_state::kernel_config(a, max_len),
            ) {
                Some(e) => Some((e, keeper_made(room, a, max_len, position))),
                None => None,
            },
        }
    }
}

/// A device after all that the attention of one token needs is made.
#[verifier::opaque]
pub open spec fn once_made(
    c: context::ContextView,
    a: AttentionShape<'_>,
    max_len: usize,
    position: usize,
    own_k: bool,
    own_v: bool,
    keys: Seq<u32>,
    values: Seq<u32>,
) -> context::ContextView {
    gpu_attention::attention_made(
        keeper_made(all_put(c, a, max_len, own_k, own_v, keys, values), a, max_len, position),
        attention_state::kernel_config(a, max_len),
    )
}

/// Whether a value that the caller may bring was made, or not.
pub open spec fn is_own(
    c: context::ContextView,
    b: Option<GpuResidentBuffer>,
    own: bool,
    shape: Seq<usize>,
) -> bool {
    match b {
        Some(v) => own && attention_state::is_buffer(c, v, shape),
        None => !own,
    }
}

/// Whether keys and values are kept by what a device makes next, from a position on.
pub open spec fn is_keeper(
    c: context::ContextView,
    a: AttentionShape<'_>,
    max_len: usize,
    position: usize,
    k: GpuKvAppend,
) -> bool {
    let first = c.buffers.len();
    &&& k.context == c.id
    &&& k.key_input_buffer == first && k.value_input_buffer == first + 1
    &&& k.params_buffer == first + 2 && k.position_buffer == first + 3
    &&& k.standalone matches Some(s) && {
        &&& s.key_cache == first + 4 && s.value_cache == first + 5
        &&& s.key_readback == first + 6 && s.value_readback == first + 7
    }
    &&& k.num_heads == a.num_kv_heads && k.head_dim == a.head_dim
    &&& k.max_len == max_len && k.current_len == position
}

/// Whether an attention is the one that is made on a device for one token.
#[verifier::opaque]
pub open spec fn is_once(
    c: context::ContextView,
    a: AttentionShape<'_>,
    max_len: usize,
    position: usize,
    own_k: bool,
    own_v: bool,
    keys: Seq<u32>,
    values: Seq<u32>,
    s: AttentionOnce,
) -> bool {
    let cache = attention_state::cache_shape(a, max_len);
    let q = attention_state::q_shape(a);
    let k = attention_state::k_shape(a);
    let put = keys_put(c, a, max_len, own_k, own_v, keys);
    let turned = all_put(c, a, max_len, own_k, own_v, keys, values);
    let kernel = keeper_made(turned, a, max_len, position);
    &&& attention_state::is_buffer(c, s.q_pre, q)
    &&& attention_state::is_buffer(values_made(c, a, own_k, own_v, 1), s.k_pre, k)
    &&& attention_state::is_buffer(values_made(c, a, own_k, own_v, 2), s.q, q)
    &&& is_own(values_made(c, a, own_k, own_v, 3), s.own_k, own_k, k)
    &&& is_own(values_made(c, a, own_k, own_v, 4), s.own_v, own_v, k)
    &&& attention_state::is_buffer(values_made(c, a, own_k, own_v, 5), s.key_cache, cache)
    &&& attention_state::is_buffer(put, s.value_cache, cache)
    &&& attention_state::is_buffer(with_value(put, cache, values), s.attention, q)
    &&& s.qk_gpu.context == c.id
    &&& s.qk_gpu.inv_freq_buffer == turned.buffers.len()
    &&& norm::is_side(s.qk_gpu.q, turned.buffers.len() + 1, q)
    &&& s.qk_gpu.position_buffer == turned.buffers.len() + 6
    &&& norm::is_side(s.qk_gpu.k, turned.buffers.len() + 7, k)
    &&& is_keeper(turn_made_at(turned, a, position), a, max_len, position, s.kv_gpu)
    &&& s.attn_gpu == (GpuDecodeGqaAttention {
        context: c.id,
        q_buffer: kernel.buffers.len() as usize,
        key_buffer: (kernel.buffers.len() + 1) as usize,
        value_buffer: (kernel.buffers.len() + 2) as usize,
        output_buffer: (kernel.buffers.len() + 3) as usize,
        readback_buffer: (kernel.buffers.len() + 4) as usize,
        params_buffer: (kernel.buffers.len() + 5) as usize,
        position_buffer: (kernel.buffers.len() + 6) as usize,
        num_heads: a.num_heads,
        num_kv_heads: a.num_kv_heads,
        head_dim: a.head_dim,
        max_len,
    })
}

/// Makes a value unless the caller brings one.
fn own_value(context: &mut GpuContext, own: bool, shape: &[usize]) -> (r: Result<
    Option<GpuResidentBuffer>,
    String,
>)
    requires
        resident::shape_fits(shape@),
        array::numel(shape@) > 0,
    ensures
        r matches Ok(b) && is_own(old(context)@, b, own, shape@),
        final(context)@ == (if own {
            attention_state::with_buffer(old(context)@, shape@)
        } else {
            old(context)@
        }),
{
    if !own {
        return Ok(None);
    }
    match GpuResidentBuffer::with_context(context, shape) {
        Ok(b) => Ok(Some(b)),
        Err(e) => Err(e),
    }
}

impl AttentionOnce {
    /// Makes what the attention of one token needs on a device: the keys and values of earlier
    /// positions are written there, and a key or a value is made where the caller brings none.
    pub fn new(
        context: &mut GpuContext,
        a: AttentionShape<'_>,
        key: &Tensor,
        value: &Tensor,
        max_len: usize,
        position: usize,
        own_k: bool,
        own_v: bool,
    ) -> (r: Result<AttentionOnce, String>)
        requires
            attention_state::sizes_fit(a, max_len),
            key.dims() == attention_state::cache_shape(a, max_len) && key.row_major(),
            value.dims() == attention_state::cache_shape(a, max_len) && value.row_major(),
            position < max_len,
        ensures
            context::quiet(old(context)@, final(context)@),
            final(context)@.id == old(context)@.id,
            ({
                let c = old(context)@;
                let keys = key.values();
                let values = value.values();
                let why = once_error(c, a, max_len, position, own_k, own_v, keys, values);
                match r {
                    Ok(s) => {
                        &&& why is None
                        &&& is_once(c, a, max_len, position, own_k, own_v, keys, values, s)
                        &&& s.kv_gpu.well_formed() && s.kv_gpu.context == c.id
                        &&& s.attn_gpu.well_formed() && s.attn_gpu.context == c.id
                        &&& s.own_k is Some <==> own_k
                        &&& s.own_v is Some <==> own_v
                        &&& final(context)@ == once_made(
                            c,
                            a,
                            max_len,
                            position,
                            own_k,
                            own_v,
                            keys,
                            values,
                        )
                    },
                    Err(e) => why == Some((e@, final(context)@)),
                }
            }),
    {
        let ghost c = context@;
        let ghost keys = key.values();
        let ghost values = value.values();
        let cache_shape = shape3(a.num_kv_heads, max_len, a.head_dim);
        let row_shape = shape3(1, a.num_kv_heads, a.head_dim);
        let head_shape = shape3(1, a.num_heads, a.head_dim);
        proof {
            reveal(once_error);
            reveal(once_made);
            reveal(is_once);
            reveal_with_fuel(values_made, 6);
            array::lemma_numel3(a.num_kv_heads, max_len, a.head_dim);
            array::lemma_numel3(1, a.num_heads, a.head_dim);
            array::lemma_numel3(1, a.num_kv_heads, a.head_dim);
            attention_state::lemma_positive(
                a.num_kv_heads as nat,
                max_len as nat,
                a.head_dim as nat,
            );
            attention_state::lemma_positive(1, a.num_kv_heads as nat, a.head_dim as nat);
            attention_state::lemma_positive(1, a.num_heads as nat, a.head_dim as nat);
        }
        let q_pre = match GpuResidentBuffer::with_context(context, &head_shape) {
            Ok(b) => b,
            Err(e) => {
                return Err(e);
            },
        };
        assert(context@ == values_made(c, a, own_k, own_v, 1));
        let k_pre = match GpuResidentBuffer::with_context(context, &row_shape) {
            Ok(b) => b,
            Err(e) => {
                return Err(e);
            },
        };
        assert(context@ == values_made(c, a, own_k, own_v, 2));
        let q = match GpuResidentBuffer::with_context(context, &head_shape) {
            Ok(b) => b,
            Err(e) => {
                return Err(e);
            },
        };
        assert(context@ == values_made(c, a, own_k, own_v, 3));
        let own_key = match own_value(context, own_k, &row_shape) {
            Ok(b) => b,
            Err(e) => {
                return Err(e);
            },
        };
        assert(context@ == values_made(c, a, own_k, own_v, 4));
        let own_val = match own_value(context, own_v, &row_shape) {
            Ok(b) => b,
            Err(e) => {
                return Err(e);
            },
        };
        assert(context@ == values_made(c, a, own_k, own_v, 5));
        let key_cache = match GpuResidentBuffer::from_tensor(context, key) {
            Ok(b) => b,
            Err(e) => {
                return Err(e);
            },
        };
        assert(context@ == keys_put(c, a, max_len, own_k, own_v, keys));
        let value_cache = match GpuResidentBuffer::from_tensor(context, value) {
            Ok(b) => b,
            Err(e) => {
                return Err(e);
            },
        };
        let attention = match GpuResidentBuffer::with_context(context, &head_shape) {
            Ok(b) => b,
            Err(e) => {
                return Err(e);
            },
        };
        let ghost turned = context@;
        assert(turned == all_put(c, a, max_len, own_k, own_v, keys, values));
        let config = GpuQkRmsNormRopeConfig {
            q_weight: a.q_weight,
            k_weight: a.k_weight,
            q_shape: &head_shape,
            k_shape: &row_shape,
            pos: position,
            inv_freq: a.inv_freq,
            q_eps: a.q_eps,
            k_eps: a.k_eps,
        };
        proof {
            let first = GpuQkRmsNormRopeConfig { pos: 0, ..config };
            assert(attention_state::is_rope_config(first, a));
            attention_state::lemma_one_rope(first, a);
            assert(norm::rope_error(config) == attention_state::turn_error(a));
        }
        let qk_gpu = match GpuQkRmsNormRope::with_context(context, config) {
            Ok(g) => g,
            Err(e) => {
                return Err(e);
            },
        };
        assert(context@ == turn_made_at(turned, a, position));
        let mut kv_gpu = match GpuKvAppend::with_context(
            context,
            a.num_kv_heads,
            a.head_dim,
            max_len,
        ) {
            Ok(k) => k,
            Err(e) => {
                return Err(e);
            },
        };
        assert(context@ == keeper_made(turned, a, max_len, position));
        match kv_gpu.restore_len(position) {
            Ok(()) => {},
            Err(e) => {
                return Err(e);
            },
        }
        let attn_gpu = match GpuDecodeGqaAttention::with_context(
            context,
            GpuDecodeGqaAttentionConfig {
                num_heads: a.num_heads,
                num_kv_heads: a.num_kv_heads,
                head_dim: a.head_dim,
                max_len,
                scale: a.scale,
            },
        ) {
            Ok(g) => g,
            Err(e) => {
                return Err(e);
            },
        };
        Ok(
            AttentionOnce {
                q_pre,
                k_pre,
                q,
                own_k: own_key,
                own_v: own_val,
                key_cache,
                value_cache,
                attention,
                qk_gpu,
                kv_gpu,
                attn_gpu,
            },
        )
    }
}

/// The value that the caller brings, or the one that was made.
pub open spec fn chosen(brought: Option<&GpuResidentBuffer>, own: Option<GpuResidentBuffer>)
    -> GpuResidentBuffer {
    match brought {
        Some(b) => *b,
        None => own->0,
    }
}

/// The value that the caller brings, or the one that was made.
fn choose_value<'a>(
    brought: Option<&'a GpuResidentBuffer>,
    own: &'a Option<GpuResidentBuffer>,
) -> (r: &'a GpuResidentBuffer)
    requires
        brought is Some || own is Some,
    ensures
        *r == chosen(brought, *own),
{
    match brought {
        Some(b) => b,
        None => own.as_ref().unwrap(),
    }
}

/// The values that query, key and value of a token are written to.
pub open spec fn once_outputs<'a>(s: AttentionOnce, v: GpuResidentBuffer) -> Seq<
    &'a GpuResidentBuffer,
> {
    seq![&s.q_pre, &s.k_pre, &v]
}

/// The batch that finds query, key and value together, and the device with its buffers.
pub open spec fn once_cached(
    c: context::ContextView,
    a: Attention,
    s: AttentionOnce,
    v: GpuResidentBuffer,
) -> (context::ContextView, Seq<Seq<q8::GpuQ8Binds>>) {
    q8_batch::batch_cached(
        c,
        a.q8_qkv_batch->0,
        attention::qkv_q8(attention::projections(a)),
        once_outputs(s, v),
        3,
    )
}

/// The steps that find query, key and value of a token.
pub open spec fn once_qkv_steps(
    c: context::ContextView,
    a: Attention,
    s: AttentionOnce,
    v: GpuResidentBuffer,
    hidden: GpuResidentBuffer,
) -> Seq<chain::EncodeStep> {
    let m = attention::qkv_q8(attention::projections(a));
    match a.q8_qkv_batch {
        Some(b) => seq![
            chain::step(
                q8_batch::batch_resident_error(
                    b,
                    m,
                    hidden,
                    once_outputs(s, v),
                    q8_batch::bind_lists(b.groups@),
                    q8_batch::batch_layout(),
                ),
                seq![
                    context::copy(hidden.buffer, b.input_buffer, 0, b.in_features),
                    GpuCommand::BeginPass,
                ] + q8_batch::batch_resident_runs(b, m, once_cached(c, a, s, v).1),
            ),
        ],
        None => seq![
            attention::q8_step(*m[0], hidden, s.q_pre),
            attention::q8_step(*m[1], hidden, s.k_pre),
            attention::q8_step(*m[2], hidden, v),
        ],
    }
}

/// The steps behind query, key and value of a token: turning them, keeping key and value at
/// `slot`, attending, and projecting the result. Each has a pass of its own.
pub open spec fn once_attend_steps(
    a: Attention,
    s: AttentionOnce,
    k: GpuResidentBuffer,
    v: GpuResidentBuffer,
    output: GpuResidentBuffer,
    slot: usize,
    position: usize,
) -> Seq<chain::EncodeStep> {
    let begin = seq![GpuCommand::BeginPass];
    seq![
        chain::step(
            norm::rope_cache_error(s.qk_gpu, s.q_pre, s.k_pre, s.q, k),
            begin + norm::rope_commands(
                s.qk_gpu,
                norm::rope_cache(s.qk_gpu, s.q_pre, s.k_pre, s.q, k, s.qk_gpu.position_buffer),
            ),
        ),
        chain::step(
            match gpu_attention::kv_cache_error(s.kv_gpu, k, v, s.key_cache, s.value_cache) {
                Some(e) => Some(e),
                None => if slot >= s.kv_gpu.max_len {
                    Some(gpu_attention::kv_position_error(slot, s.kv_gpu.max_len))
                } else {
                    None
                },
            },
            begin + gpu_attention::kv_commands(
                s.kv_gpu,
                gpu_attention::kv_cache(
                    s.kv_gpu,
                    k,
                    v,
                    s.key_cache,
                    s.value_cache,
                    s.kv_gpu.position_buffer,
                ),
            ),
        ),
        chain::step(
            match gpu_attention::attention_cache_error(
                s.attn_gpu,
                s.q,
                s.key_cache,
                s.value_cache,
                s.attention,
            ) {
                Some(e) => Some(e),
                None => gpu_attention::attention_encode_error(
                    s.attn_gpu,
                    s.q,
                    s.key_cache,
                    s.value_cache,
                    s.attention,
                    position,
                ),
            },
            begin.push(
                gpu_attention::attention_command(
                    s.attn_gpu,
                    gpu_attention::attention_cache(
                        s.attn_gpu,
                        s.q,
                        s.key_cache,
                        s.value_cache,
                        s.attention,
                        s.attn_gpu.position_buffer,
                    ),
                    position,
                ),
            ),
        ),
        attention::q8_step(a.o_proj.q8_gpu_matvec->0, s.attention, output),
    ]
}

/// A device after query, key and value of a token were to be found, where step `failed` is the
/// first that fails.
pub open spec fn once_found(
    c: context::ContextView,
    a: Attention,
    s: AttentionOnce,
    v: GpuResidentBuffer,
    failed: int,
) -> context::ContextView {
    if a.q8_qkv_batch is Some && failed > 0 {
        once_cached(c, a, s, v).0
    } else {
        c
    }
}

/// A device after the steps behind them: each of the kernels that needs its position has it.
pub open spec fn once_attended(
    c: context::ContextView,
    s: AttentionOnce,
    slot: usize,
    position: usize,
    failed: int,
) -> context::ContextView {
    let c1 = if failed > 1 {
        context::positioned(c, s.kv_gpu.position_buffer, slot)
    } else {
        c
    };
    if failed > 2 {
        context::positioned(c1, s.attn_gpu.position_buffer, position)
    } else {
        c1
    }
}

impl Attention {
    fn encode_once_qkv(
        &self,
        context: &mut GpuContext,
        encoder: &mut GpuEncoder,
        hidden: &GpuResidentBuffer,
        once: &AttentionOnce,
        v: &GpuResidentBuffer,
    ) -> (r: Result<(), String>)
        requires
            self.well_formed(old(context)@.id),
            attention::missing_projection(*self) is None,
        ensures
            context::quiet(old(context)@, final(context)@),
            final(context)@.id == old(context)@.id,
            ({
                let c = old(context)@;
                let steps = once_qkv_steps(c, *self, *once, *v, *hidden);
                let failed = chain::failing(steps, 0);
                let done = chain::encoded(steps, 0, old(encoder)@);
                &&& final(encoder)@ == done.1
                &&& match r {
                    Ok(()) => done.0 is None && failed == steps.len(),
                    Err(e) => done.0 == Some(e@) && failed < steps.len(),
                }
                &&& final(context)@ == once_found(c, *self, *once, *v, failed)
            }),
    {
        let ghost c = context@;
        let ghost start = encoder@;
        let ghost steps = once_qkv_steps(c, *self, *once, *v, *hidden);
        proof {
            reveal_with_fuel(chain::encoded, 4);
            reveal_with_fuel(chain::failing, 4);
        }
        match (&self.q_proj.q8_gpu_matvec, &self.k_proj.q8_gpu_matvec, &self.v_proj.q8_gpu_matvec) {
            (Some(q), Some(k), Some(w)) => match &self.q8_qkv_batch {
                Some(batch) => {
                    let list: Vec<&GpuQ8MatVec> = vec![q, k, w];
                    let outputs: Vec<&GpuResidentBuffer> = vec![&once.q_pre, &once.k_pre, v];
                    proof {
                        assert(list@ =~= attention::qkv_q8(attention::projections(*self)));
                        assert(outputs@ =~= once_outputs(*once, *v));
                    }
                    let r = batch.encode_resident(context, &list, encoder, hidden, &outputs);
                    assert(steps.len() == 1);
                    assert(r is Ok ==> encoder@ =~= start + steps[0].commands);
                    r
                },
                None => {
                    assert(steps.len() == 3);
                    match q.encode_resident(encoder, hidden, &once.q_pre) {
                        Ok(()) => {},
                        Err(e) => {
                            return Err(e);
                        },
                    }
                    match k.encode_resident(encoder, hidden, &once.k_pre) {
                        Ok(()) => {},
                        Err(e) => {
                            return Err(e);
                        },
                    }
                    w.encode_resident(encoder, hidden, v)
                },
            },
            _ => Ok(()),
        }
    }

    fn encode_once_attend(
        &self,
        context: &mut GpuContext,
        encoder: &mut GpuEncoder,
        output: &GpuResidentBuffer,
        once: AttentionOnce,
        brought_k: Option<&GpuResidentBuffer>,
        brought_v: Option<&GpuResidentBuffer>,
        slot: usize,
        position: usize,
    ) -> (r: Result<(), String>)
        requires
            self.o_proj.q8_gpu_matvec is Some,
            once.kv_gpu.well_formed() && once.kv_gpu.context == old(context)@.id,
            once.attn_gpu.well_formed() && once.attn_gpu.context == old(context)@.id,
            brought_k is Some || once.own_k is Some,
            brought_v is Some || once.own_v is Some,
        ensures
            context::quiet(old(context)@, final(context)@),
            final(context)@.id == old(context)@.id,
            ({
                let k = chosen(brought_k, once.own_k);
                let v = chosen(brought_v, once.own_v);
                let steps = once_attend_steps(*self, once, k, v, *output, slot, position);
                let failed = chain::failing(steps, 0);
                let done = chain::encoded(steps, 0, old(encoder)@);
                &&& final(encoder)@ == done.1
                &&& match r {
                    Ok(()) => done.0 is None && failed == 4,
                    Err(e) => done.0 == Some(e@) && failed < 4,
                }
                &&& final(context)@ == once_attended(old(context)@, once, slot, position, failed)
            }),
    {
        let ghost start = encoder@;
        let k = choose_value(brought_k, &once.own_k);
        let v = choose_value(brought_v, &once.own_v);
        let ghost steps = once_attend_steps(*self, once, *k, *v, *output, slot, position);
        proof {
            reveal_with_fuel(chain::encoded, 5);
            reveal_with_fuel(chain::failing, 5);
            assert(steps.len() == 4);
        }
        match once.qk_gpu.encode_resident(encoder, &once.q_pre, &once.k_pre, &once.q, k) {
            Ok(()) => {},
            Err(e) => {
                return Err(e);
            },
        }
        let ghost e1 = encoder@;
        assert(e1 =~= start + steps[0].commands);
        let mut kv_gpu = once.kv_gpu;
        match kv_gpu.encode_resident(
            context,
            encoder,
            slot,
            k,
            v,
            &once.key_cache,
            &once.value_cache,
        ) {
            Ok(()) => {},
            Err(e) => {
                return Err(e);
            },
        }
        let ghost e2 = encoder@;
        assert(e2 =~= e1 + steps[1].commands);
        match once.attn_gpu.encode_resident(
            context,
            encoder,
            &once.q,
            &once.key_cache,
            &once.value_cache,
            &once.attention,
            position,
        ) {
            Ok(()) => {},
            Err(e) => {
                return Err(e);
            },
        }
        let ghost e3 = encoder@;
        assert(e3 =~= e2 + steps[2].commands);
        match &self.o_proj.q8_gpu_matvec {
            Some(o) => o.encode_resident(encoder, &once.attention, output),
            None => Ok(()),
        }
    }
}

impl Attention {
    fn encode_once(
        &self,
        context: &mut GpuContext,
        encoder: &mut GpuEncoder,
        hidden: &GpuResidentBuffer,
        output: &GpuResidentBuffer,
        once: AttentionOnce,
        brought_k: Option<&GpuResidentBuffer>,
        brought_v: Option<&GpuResidentBuffer>,
        slot: usize,
        position: usize,
    ) -> (r: Result<(), String>)
        requires
            self.well_formed(old(context)@.id),
            attention::missing_projection(*self) is None,
            once.kv_gpu.well_formed() && once.kv_gpu.context == old(context)@.id,
            once.attn_gpu.well_formed() && once.attn_gpu.context == old(context)@.id,
            brought_k is Some || once.own_k is Some,
            brought_v is Some || once.own_v is Some,
        ensures
            context::quiet(old(context)@, final(context)@),
            final(context)@.id == old(context)@.id,
            ({
                let c = old(context)@;
                let k = chosen(brought_k, once.own_k);
                let v = chosen(brought_v, once.own_v);
                let first = once_qkv_steps(c, *self, once, v, *hidden);
                let second = once_attend_steps(*self, once, k, v, *output, slot, position);
                let failed = chain::failing(first + second, 0);
                let done = chain::encoded(first + second, 0, old(encoder)@);
                &&& final(encoder)@ == done.1
                &&& match r {
                    Ok(()) => done.0 is None,
                    Err(e) => done.0 == Some(e@),
                }
                &&& final(context)@ == once_attended(
                    once_found(c, *self, once, v, failed),
                    once,
                    slot,
                    position,
                    failed - first.len(),
                )
            }),
    {
        let ghost c = context@;
        let v = choose_value(brought_v, &once.own_v);
        let ghost k = chosen(brought_k, once.own_k);
        let ghost first = once_qkv_steps(c, *self, once, *v, *hidden);
        let ghost second = once_attend_steps(*self, once, k, *v, *output, slot, position);
        proof {
            chain::lemma_behind(first, second, 0, encoder@);
        }
        match self.encode_once_qkv(context, encoder, hidden, &once, v) {
            Ok(()) => self.encode_once_attend(
                context,
                encoder,
                output,
                once,
                brought_k,
                brought_v,
                slot,
                position,
            ),
            Err(e) => Err(e),
        }
    }
}

/// The room for keys and values: what the cache has, and enough for the position.
pub open spec fn once_room(cached: Option<CachedKV<'_>>, position: usize) -> usize {
    match cached {
        Some(k) if k.capacity_len > position => k.capacity_len,
        _ => (position + 1) as usize,
    }
}

/// The positions that a cache holds.
pub open spec fn prefix_len(cached: Option<CachedKV<'_>>) -> usize {
    match cached {
        Some(k) => k.seq_len,
        None => 0,
    }
}

/// Where the key and the value of a token are kept: behind what the cache holds, and not before
/// the position.
pub open spec fn once_slot(cached: Option<CachedKV<'_>>, position: usize) -> usize {
    if prefix_len(cached) > position {
        prefix_len(cached)
    } else {
        position
    }
}

/// Whether the cached keys and values are those of an attention.
pub open spec fn prefix_of(cached: Option<CachedKV<'_>>, a: Attention) -> bool {
    cached matches Some(k) ==> {
        &&& attention_sync::cached_ok(k)
        &&& k.num_heads == a.num_kv_heads && k.head_dim == a.head_dim
        &&& k.capacity_len * k.head_dim <= usize::MAX
    }
}

/// What decoding one token with values made for it alone leaves: it is not made at all, for a
/// reason that goes with what stands on the device then, or its steps write their commands up to
/// the first that fails.
pub open spec fn is_encoded_once(
    a: Attention,
    shape: AttentionShape<'_>,
    s: AttentionOnce,
    c: context::ContextView,
    after: context::ContextView,
    e: Seq<GpuCommand>,
    f: Seq<GpuCommand>,
    hidden: GpuResidentBuffer,
    output: GpuResidentBuffer,
    cached: Option<CachedKV<'_>>,
    position: usize,
    brought_k: Option<&GpuResidentBuffer>,
    brought_v: Option<&GpuResidentBuffer>,
    r: Result<(), RsinferError>,
) -> bool {
    let room = once_room(cached, position);
    let slot = once_slot(cached, position);
    let keys = attention_sync::device_keys(cached, a, room);
    let values = attention_sync::device_values(cached, a, room);
    let own_k = brought_k is None;
    let own_v = brought_v is None;
    let made = once_made(c, shape, room, position, own_k, own_v, keys, values);
    let k = chosen(brought_k, s.own_k);
    let v = chosen(brought_v, s.own_v);
    let first = once_qkv_steps(made, a, s, v, hidden);
    let second = once_attend_steps(a, s, k, v, output, slot, position);
    let failed = chain::failing(first + second, 0);
    let done = chain::encoded(first + second, 0, e);
    &&& a.has_shape(shape)
    &&& match once_error(c, shape, room, position, own_k, own_v, keys, values) {
        Some(p) => {
            &&& r matches Err(x) && x@ == attention::attention_failure(p.0)
            &&& after == p.1
            &&& f == e
        },
        None => {
            &&& is_once(c, shape, room, position, own_k, own_v, keys, values, s)
            &&& match r {
                Ok(()) => done.0 is None,
                Err(x) => done.0 is Some && x@ == attention::attention_failure(done.0->0),
            }
            &&& f == done.1
            &&& after == once_attended(
                once_found(made, a, s, v, failed),
                s,
                slot,
                position,
                failed - first.len(),
            )
        },
    }
}

impl Attention {
    /// The commands that decode one token with values made for it alone. The key and the value
    /// of the token are written to the ones that the caller brings, where there are any.
    pub fn encode_decode_one_resident_prototype(
        &self,
        context: &mut GpuContext,
        encoder: &mut GpuEncoder,
        hidden: &GpuResidentBuffer,
        output: &GpuResidentBuffer,
        cached: Option<CachedKV<'_>>,
        position: usize,
        brought_k: Option<&GpuResidentBuffer>,
        brought_v: Option<&GpuResidentBuffer>,
    ) -> (r: Result<(), RsinferError>)
        requires
            self.well_formed(old(context)@.id),
            prefix_of(cached, *self),
            position < usize::MAX,
            attention_sync::room_fits(*self, once_room(cached, position)),
        ensures
            context::quiet(old(context)@, final(context)@),
            final(context)@.id == old(context)@.id,
            match attention::missing_projection(*self) {
                Some(why) => {
                    &&& r matches Err(e) && e@ == attention::attention_failure(why)
                    &&& final(context)@ == old(context)@
                    &&& final(encoder)@ == old(encoder)@
                },
                None => exists|shape: AttentionShape<'_>, s: AttentionOnce| #[trigger]
                    is_encoded_once(
                        *self,
                        shape,
                        s,
                        old(context)@,
                        final(context)@,
                        old(encoder)@,
                        final(encoder)@,
                        *hidden,
                        *output,
                        cached,
                        position,
                        brought_k,
                        brought_v,
                        r,
                    ),
            },
    {
        let ghost c = context@;
        let ghost e0 = encoder@;
        if self.q_proj.q8_gpu_matvec.is_none() {
            return Err(attention_error("missing q_proj Q8 GPU matvec"));
        }
        if self.k_proj.q8_gpu_matvec.is_none() {
            return Err(attention_error("missing k_proj Q8 GPU matvec"));
        }
        if self.v_proj.q8_gpu_matvec.is_none() {
            return Err(attention_error("missing v_proj Q8 GPU matvec"));
        }
        if self.o_proj.q8_gpu_matvec.is_none() {
            return Err(attention_error("missing o_proj Q8 GPU matvec"));
        }
        let held: usize = match &cached {
            Some(k) => k.seq_len,
            None => 0,
        };
        let room: usize = match &cached {
            Some(k) => if k.capacity_len > position {
                k.capacity_len
            } else {
                position + 1
            },
            None => position + 1,
        };
        let slot: usize = if held > position {
            held
        } else {
            position
        };
        assert(room == once_room(cached, position));
        assert(slot == once_slot(cached, position));
        let shape = self.shape();
        assert(attention_state::sizes_fit(shape, room));
        let (key, value) = match self.build_resident_cache_tensors(cached, room) {
            Ok(p) => p,
            Err(e) => {
                return Err(e);
            },
        };
        let made = AttentionOnce::new(
            context,
            shape,
            &key,
            &value,
            room,
            position,
            brought_k.is_none(),
            brought_v.is_none(),
        );
        match made {
            Ok(once) => {
                let ghost s = once;
                let ended = self.encode_once(
                    context,
                    encoder,
                    hidden,
                    output,
                    once,
                    brought_k,
                    brought_v,
                    slot,
                    position,
                );
                let r = match ended {
                    Ok(()) => Ok(()),
                    Err(e) => Err(attention_error(e.as_str())),
                };
                assert(is_encoded_once(
                    *self,
                    shape,
                    s,
                    c,
                    context@,
                    e0,
                    encoder@,
                    *hidden,
                    *output,
                    cached,
                    position,
                    brought_k,
                    brought_v,
                    r,
                ));
                r
            },
            Err(e) => {
                let r = Err(attention_error(e.as_str()));
                let ghost s: AttentionOnce = arbitrary();
                assert(is_encoded_once(
                    *self,
                    shape,
                    s,
                    c,
                    context@,
                    e0,
                    encoder@,
                    *hidden,
                    *output,
                    cached,
                    position,
                    brought_k,
                    brought_v,
                    r,
                ));
                r
            },
        }
    }
}

/// Why a token is not decoded with values made for it alone, before anything is made.
pub open spec fn once_refused(
    a: Attention,
    dims: Seq<usize>,
    cached: Option<CachedKV<'_>>,
    position: usize,
) -> Option<ErrorView> {
    let width = (a.num_heads * a.head_dim) as usize;
    if dims != block_state::row(width) {
        Some(
            ErrorView::DimensionError(
                "resident decode-one attention prototype expects [1, "@ + text::dec(width as nat)
                    + "], got "@ + text::bracketed(dims),
            ),
        )
    } else if a.q_proj.q8_gpu_matvec is None {
        Some(attention::attention_failure("missing q_proj Q8 GPU matvec"@))
    } else if prefix_len(cached) != position {
        Some(
            ErrorView::DimensionError(
                "resident decode-one attention prototype expects cached prefix len "@ + text::dec(
                    prefix_len(cached) as nat,
                ) + " to equal position_offset "@ + text::dec(position as nat),
            ),
        )
    } else {
        match cached {
            Some(k) if k.num_heads != a.num_kv_heads || k.head_dim != a.head_dim => Some(
                ErrorView::DimensionError(
                    "resident decode-one attention prototype cached prefix shape mismatch: got heads="@
                        + text::dec(k.num_heads as nat) + ", head_dim="@ + text::dec(
                        k.head_dim as nat,
                    ) + ", expected heads="@ + text::dec(a.num_kv_heads as nat) + ", head_dim="@
                        + text::dec(a.head_dim as nat),
                ),
            ),
            _ => None,
        }
    }
}

/// Why the values that a token comes from and goes to cannot be made, and what is made there
/// before that is found.
pub open spec fn ends_error(c: context::ContextView, hidden: Tensor) -> Option<
    (Seq<char>, context::ContextView),
> {
    let n = array::numel(hidden.dims());
    let c1 = attention_state::with_buffer(c, hidden.dims());
    if n == 0 {
        Some(("GPU resident buffer requires non-empty shape"@, c))
    } else if !hidden.row_major() {
        Some(
            (
                "GPU resident buffer upload length mismatch: got "@ + text::dec(0) + ", expected "@
                    + text::dec(n),
                attention_state::with_buffer(c1, hidden.dims()),
            ),
        )
    } else {
        None
    }
}

/// What sending one token through an attention leaves, where it is not refused.
pub open spec fn is_sent_once(
    a: Attention,
    c: context::ContextView,
    after: context::ContextView,
    hidden: Tensor,
    cached: Option<CachedKV<'_>>,
    position: usize,
    r: Result<(GpuResidentBuffer, usize), RsinferError>,
) -> bool {
    match ends_error(c, hidden) {
        Some(p) => {
            &&& r matches Err(e) && e@ == attention::attention_failure(p.0)
            &&& after == p.1
        },
        None => exists|
            input: GpuResidentBuffer,
            output: GpuResidentBuffer,
            c3: context::ContextView,
            f: Seq<GpuCommand>,
            done: Result<(), RsinferError>,
        | #[trigger]
            is_outcome_once(
                a,
                c,
                after,
                hidden,
                cached,
                position,
                r,
                input,
                output,
                c3,
                f,
                done,
            ),
    }
}

/// What sending one token through an attention leaves, where writing its commands `f` leaves `c3`
/// of the device: they are submitted and the result is asked for, unless that failed.
pub open spec fn is_outcome_once(
    a: Attention,
    c: context::ContextView,
    after: context::ContextView,
    hidden: Tensor,
    cached: Option<CachedKV<'_>>,
    position: usize,
    r: Result<(GpuResidentBuffer, usize), RsinferError>,
    input: GpuResidentBuffer,
    output: GpuResidentBuffer,
    c3: context::ContextView,
    f: Seq<GpuCommand>,
    done: Result<(), RsinferError>,
) -> bool {
    let c1 = attention_state::with_buffer(c, hidden.dims());
    let c2 = with_value(c1, hidden.dims(), hidden.values());
    &&& attention_state::is_buffer(c, output, hidden.dims())
    &&& attention_state::is_buffer(c1, input, hidden.dims())
    &&& is_run_once(a, c2, c3, input, output, cached, position, Seq::empty(), f, done)
    &&& match done {
        Err(e) => after == c3 && (r matches Err(x) && x@ == e@),
        Ok(()) => {
            let told = context::submitted(c3, f);
            let id = context::fresh(told);
            &&& r matches Ok(p) && p.0 == output && p.1 == id
            &&& after == context::read_back(
                context::made(told, output.len, GpuUsage::Readback),
                seq![context::copy(output.buffer, id, 0, output.len)],
                seq![id],
            )
        },
    }
}

/// What writing the commands of one token behind `e` leaves.
pub open spec fn is_run_once(
    a: Attention,
    c: context::ContextView,
    after: context::ContextView,
    input: GpuResidentBuffer,
    output: GpuResidentBuffer,
    cached: Option<CachedKV<'_>>,
    position: usize,
    e: Seq<GpuCommand>,
    f: Seq<GpuCommand>,
    r: Result<(), RsinferError>,
) -> bool {
    match attention::missing_projection(a) {
        Some(why) => {
            &&& r matches Err(x) && x@ == attention::attention_failure(why)
            &&& after == c
            &&& f == e
        },
        None => exists|shape: AttentionShape<'_>, s: AttentionOnce| #[trigger]
            is_encoded_once(
                a,
                shape,
                s,
                c,
                after,
                e,
                f,
                input,
                output,
                cached,
                position,
                None,
                None,
                r,
            ),
    }
}

impl Attention {
    /// Sends one token through the attention on a device, with values made for it alone: the
    /// value that its result stands in, and the buffer from which that comes.
    pub fn forward_decode_one_resident_prototype(
        &self,
        context: &mut GpuContext,
        hidden: &Tensor,
        cached: Option<CachedKV<'_>>,
        position: usize,
    ) -> (r: Result<(GpuResidentBuffer, usize), RsinferError>)
        requires
            self.well_formed(old(context)@.id),
            cached matches Some(k) ==> attention_sync::cached_ok(k) && k.capacity_len * k.head_dim
                <= usize::MAX,
            position < usize::MAX,
            attention_sync::room_fits(*self, once_room(cached, position)),
            self.num_heads * self.head_dim <= usize::MAX,
            resident::shape_fits(block_state::row((self.num_heads * self.head_dim) as usize)),
        ensures
            r is Ok ==> context::costs_one_readback(old(context)@, final(context)@),
            match once_refused(*self, hidden.dims(), cached, position) {
                Some(e) => (r matches Err(x) && x@ == e) && final(context)@ == old(context)@,
                None => is_sent_once(
                    *self,
                    old(context)@,
                    final(context)@,
                    *hidden,
                    cached,
                    position,
                    r,
                ),
            },
    {
        let ghost c = context@;
        let width: usize = self.num_heads * self.head_dim;
        let row = shape2(1, width);
        if !same_shape(hidden.shape(), &row) {
            let mut s = "resident decode-one attention prototype expects [1, ".to_owned();
            text::push_size(&mut s, width);
            s.append("], got ");
            text::push_shape(&mut s, hidden.shape());
            return Err(RsinferError::DimensionError(s));
        }
        if self.q_proj.q8_gpu_matvec.is_none() {
            return Err(attention_error("missing q_proj Q8 GPU matvec"));
        }
        let held: usize = match &cached {
            Some(k) => k.seq_len,
            None => 0,
        };
        if held != position {
            let mut s =
                "resident decode-one attention prototype expects cached prefix len ".to_owned();
            text::push_size(&mut s, held);
            s.append(" to equal position_offset ");
            text::push_size(&mut s, position);
            return Err(RsinferError::DimensionError(s));
        }
        match &cached {
            Some(k) => {
                if k.num_heads != self.num_kv_heads || k.head_dim != self.head_dim {
                    let mut s =
                        "resident decode-one attention prototype cached prefix shape mismatch: got heads=".to_owned();
                    text::push_size(&mut s, k.num_heads);
                    s.append(", head_dim=");
                    text::push_size(&mut s, k.head_dim);
                    s.append(", expected heads=");
                    text::push_size(&mut s, self.num_kv_heads);
                    s.append(", head_dim=");
                    text::push_size(&mut s, self.head_dim);
                    return Err(RsinferError::DimensionError(s));
                }
            },
            None => {},
        }
        assert(once_refused(*self, hidden.dims(), cached, position) is None);
        let output = match GpuResidentBuffer::with_context(context, &row) {
            Ok(b) => b,
            Err(e) => {
                return Err(attention_error(e.as_str()));
            },
        };
        let ghost c1 = context@;
        let input = match GpuResidentBuffer::from_tensor(context, hidden) {
            Ok(b) => b,
            Err(e) => {
                return Err(attention_error(e.as_str()));
            },
        };
        let ghost c2 = context@;
        assert(c2 == with_value(c1, hidden.dims(), hidden.values()));
        let mut encoder = context.create_command_encoder();
        let done = self.encode_decode_one_resident_prototype(
            context,
            &mut encoder,
            &input,
            &output,
            cached,
            position,
            None,
            None,
        );
        let ghost c3 = context@;
        let ghost f = encoder@;
        let ghost outcome = done;
        proof {
            assert(row@ == hidden.dims());
            assert(ends_error(c, *hidden) is None);
            assert(is_run_once(
                *self,
                c2,
                c3,
                input,
                output,
                cached,
                position,
                Seq::empty(),
                f,
                outcome,
            ));
        }
        match done {
            Ok(()) => {},
            Err(e) => {
                assert(is_outcome_once(
                    *self,
                    c,
                    context@,
                    *hidden,
                    cached,
                    position,
                    Err::<(GpuResidentBuffer, usize), RsinferError>(e),
                    input,
                    output,
                    c3,
                    f,
                    outcome,
                ));
                return Err(e);
            },
        }
        context.submit(encoder);
        let ghost told = context@;
        let id: usize = output.read_back(context);
        proof {
            reveal_with_fuel(context::advanced, 2);
            context::law_read_back_costs(
                context::made(told, output.len, GpuUsage::Readback),
                seq![context::copy(output.buffer, id, 0, output.len)],
                seq![id],
            );
        }
        let ghost value = output;
        let r = Ok((output, id));
        assert(is_outcome_once(
            *self,
            c,
            context@,
            *hidden,
            cached,
            position,
            r,
            input,
            value,
            c3,
            f,
            outcome,
        ));
        r
    }
}

} // verus!
