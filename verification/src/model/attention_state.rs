//! What the attention of a layer keeps on a device between tokens.

use vstd::prelude::*;

use crate::gpu::attention as gpu_attention;
use crate::gpu::context;
use crate::gpu::norm;
use crate::gpu::resident;
use crate::gpu::{
    GpuContext, GpuDecodeGqaAttention, GpuDecodeGqaAttentionConfig, GpuDecodeGqaAttentionResidentCache,
    GpuKvAppend, GpuKvAppendResidentCache, GpuQ8MatVecResidentCache,
    GpuQ8SameInputBatchResidentCache, GpuQkRmsNormRope, GpuQkRmsNormRopeConfig,
    GpuQkRmsNormRopeResidentCache, GpuResidentBuffer, GpuUsage,
};
use crate::tensor::array;
use crate::tensor::Tensor;

verus! {

/// What the attention of a layer keeps on a device between tokens.
#[derive(Debug)]
pub struct ResidentAttentionRuntimeState {
    pub kv_gpu: GpuKvAppend,
    pub resident_key_cache: GpuResidentBuffer,
    pub resident_value_cache: GpuResidentBuffer,
    pub resident_q_pre: GpuResidentBuffer,
    pub resident_k_pre: GpuResidentBuffer,
    pub resident_q: GpuResidentBuffer,
    pub resident_k: GpuResidentBuffer,
    pub resident_v: GpuResidentBuffer,
    pub resident_attention: GpuResidentBuffer,
    pub qk_gpu: GpuQkRmsNormRope,
    pub attn_gpu: GpuDecodeGqaAttention,
    pub o_proj_gpu_cache: Option<GpuQ8MatVecResidentCache>,
    pub qkv_batch_cache: Option<GpuQ8SameInputBatchResidentCache>,
    pub qk_gpu_cache: GpuQkRmsNormRopeResidentCache,
    pub kv_gpu_cache: GpuKvAppendResidentCache,
    pub attn_gpu_cache: GpuDecodeGqaAttentionResidentCache,
    pub synced_cache_id: u64,
    pub synced_cache_revision: u64,
    pub max_len: usize,
}

/// The sizes and numbers of an attention.
#[derive(Clone, Copy)]
pub struct AttentionShape<'a> {
    pub num_heads: usize,
    pub num_kv_heads: usize,
    pub head_dim: usize,
    pub q_weight: &'a Tensor,
    pub k_weight: &'a Tensor,
    pub inv_freq: &'a [u32],
    pub q_eps: u32,
    pub k_eps: u32,
    pub scale: u32,
}

/// The shape of the keys, and of the values, of `max_len` positions.
pub open spec fn cache_shape(a: AttentionShape<'_>, max_len: usize) -> Seq<usize> {
    seq![a.num_kv_heads, max_len, a.head_dim]
}

/// The shape of a query.
pub open spec fn q_shape(a: AttentionShape<'_>) -> Seq<usize> {
    seq![1usize, a.num_heads, a.head_dim]
}

/// The shape of a key, and of a value.
pub open spec fn k_shape(a: AttentionShape<'_>) -> Seq<usize> {
    seq![1usize, a.num_kv_heads, a.head_dim]
}

/// Sizes whose products can be held.
pub open spec fn sizes_fit(a: AttentionShape<'_>, max_len: usize) -> bool {
    &&& resident::shape_fits(cache_shape(a, max_len))
    &&& resident::shape_fits(q_shape(a))
    &&& resident::shape_fits(k_shape(a))
    &&& a.num_heads * a.head_dim <= usize::MAX
    &&& a.num_kv_heads * (max_len * a.head_dim) <= usize::MAX
}

/// Whether a value is the one that a device makes next.
pub open spec fn is_buffer(c: context::ContextView, b: GpuResidentBuffer, shape: Seq<usize>) -> bool {
    &&& b.context == c.id
    &&& b.buffer == context::fresh(c)
    &&& b.shape@ == shape
    &&& b.len == array::numel(shape)
}

/// A device with one more value of the given shape.
pub open spec fn with_buffer(c: context::ContextView, shape: Seq<usize>) -> context::ContextView {
    context::made(c, array::numel(shape) as usize, GpuUsage::Resident)
}

/// A device after `n` of the values of an attention are made: the keys and values, the query and
/// the key before and after they are turned, the value and the result.
pub open spec fn buffers_made(
    c: context::ContextView,
    a: AttentionShape<'_>,
    max_len: usize,
    n: nat,
) -> context::ContextView
    decreases n,
{
    if n == 0 {
        gpu_attention::kv_made(c, a.num_kv_heads, a.head_dim, max_len, true)
    } else {
        with_buffer(
            buffers_made(c, a, max_len, (n - 1) as nat),
            if n <= 2 {
                cache_shape(a, max_len)
            } else if n == 3 || n == 5 || n == 8 {
                q_shape(a)
            } else {
                k_shape(a)
            },
        )
    }
}

/// Whether a configuration is that of an attention.
pub open spec fn is_rope_config(f: GpuQkRmsNormRopeConfig<'_>, a: AttentionShape<'_>) -> bool {
    &&& f.q_weight == a.q_weight
    &&& f.k_weight == a.k_weight
    &&& f.q_shape@ == q_shape(a)
    &&& f.k_shape@ == k_shape(a)
    &&& f.pos == 0
    &&& f.inv_freq@ == a.inv_freq@
    &&& f.q_eps == a.q_eps
    &&& f.k_eps == a.k_eps
}

/// Why queries and keys cannot be turned.
pub open spec fn turn_error(a: AttentionShape<'_>) -> Option<Seq<char>> {
    let f = choose|f: GpuQkRmsNormRopeConfig<'_>| #[trigger] is_rope_config(f, a);
    norm::rope_error(f)
}

/// A device after what turns queries and keys is made.
pub open spec fn turn_made(c: context::ContextView, a: AttentionShape<'_>) -> context::ContextView {
    let c1 = context::filled(c, a.inv_freq@, GpuUsage::Weight);
    let c2 = norm::side_made(c1, resident::contiguous(*a.q_weight), q_shape(a), a.q_eps);
    let c3 = context::filled(c2, context::position_words(0), GpuUsage::MutableParams);
    norm::side_made(c3, resident::contiguous(*a.k_weight), k_shape(a), a.k_eps)
}

/// The configuration of the attention kernel.
pub open spec fn kernel_config(a: AttentionShape<'_>, max_len: usize) -> GpuDecodeGqaAttentionConfig {
    GpuDecodeGqaAttentionConfig {
        num_heads: a.num_heads,
        num_kv_heads: a.num_kv_heads,
        head_dim: a.head_dim,
        max_len,
        scale: a.scale,
    }
}

/// Why an attention cannot be kept on a device, and what is made there before that is found.
pub open spec fn state_error(c: context::ContextView, a: AttentionShape<'_>, max_len: usize) -> Option<
    (Seq<char>, context::ContextView),
> {
    if a.num_kv_heads == 0 || a.head_dim == 0 || max_len == 0 {
        Some(("GPU KV append requires num_heads/head_dim/max_len > 0"@, c))
    } else if a.num_heads == 0 {
        Some(("GPU resident buffer requires non-empty shape"@, buffers_made(c, a, max_len, 2)))
    } else {
        match turn_error(a) {
            Some(e) => Some((e, buffers_made(c, a, max_len, 8))),
            None => match gpu_attention::attention_error(kernel_config(a, max_len)) {
                Some(e) => Some((e, turn_made(buffers_made(c, a, max_len, 8), a))),
                None => None,
            },
        }
    }
}

/// A device after all that an attention keeps there is made.
pub open spec fn state_made(c: context::ContextView, a: AttentionShape<'_>, max_len: usize)
    -> context::ContextView {
    gpu_attention::attention_made(
        turn_made(buffers_made(c, a, max_len, 8), a),
        kernel_config(a, max_len),
    )
}

/// Whether a state is the one that is made on a device for an attention.
pub open spec fn is_state(
    c: context::ContextView,
    a: AttentionShape<'_>,
    max_len: usize,
    position_buffer: usize,
    s: ResidentAttentionRuntimeState,
) -> bool {
    let turned = buffers_made(c, a, max_len, 8);
    let kernel = turn_made(turned, a);
    &&& s.kv_gpu == (GpuKvAppend {
        context: c.id,
        key_input_buffer: c.buffers.len() as usize,
        value_input_buffer: (c.buffers.len() + 1) as usize,
        params_buffer: (c.buffers.len() + 2) as usize,
        position_buffer: (c.buffers.len() + 3) as usize,
        standalone: None,
        num_heads: a.num_kv_heads,
        head_dim: a.head_dim,
        max_len,
        current_len: 0,
    })
    &&& is_buffer(buffers_made(c, a, max_len, 0), s.resident_key_cache, cache_shape(a, max_len))
    &&& is_buffer(buffers_made(c, a, max_len, 1), s.resident_value_cache, cache_shape(a, max_len))
    &&& is_buffer(buffers_made(c, a, max_len, 2), s.resident_q_pre, q_shape(a))
    &&& is_buffer(buffers_made(c, a, max_len, 3), s.resident_k_pre, k_shape(a))
    &&& is_buffer(buffers_made(c, a, max_len, 4), s.resident_q, q_shape(a))
    &&& is_buffer(buffers_made(c, a, max_len, 5), s.resident_k, k_shape(a))
    &&& is_buffer(buffers_made(c, a, max_len, 6), s.resident_v, k_shape(a))
    &&& is_buffer(buffers_made(c, a, max_len, 7), s.resident_attention, q_shape(a))
    &&& s.qk_gpu.context == c.id
    &&& s.qk_gpu.inv_freq_buffer == turned.buffers.len()
    &&& norm::is_side(s.qk_gpu.q, turned.buffers.len() + 1, q_shape(a))
    &&& s.qk_gpu.position_buffer == turned.buffers.len() + 6
    &&& norm::is_side(s.qk_gpu.k, turned.buffers.len() + 7, k_shape(a))
    &&& s.attn_gpu == (GpuDecodeGqaAttention {
        context: c.id,
        q_buffer: kernel.buffers.len() as usize,
        key_buffer: (kernel.buffers.len() + 1) as usize,
        value_buffer: (kernel.buffers.len() + 2) as usize,
        output_buffer: (kernel.buffers.len() + 3) as usize,
        readback_buffer: (kernel.buffers.len() + 4) as usize,
        params_buffer: (kernel.buffers.len() + 5) as usize,
        position_buffer: (kernel.buffers.len() + 6) as usize,
        num_heads: a.num_heads,
        num_kv_heads: a.num_kv_heads,
        head_dim: a.head_dim,
        max_len,
    })
    &&& s.o_proj_gpu_cache is None
    &&& s.qkv_batch_cache is None
    &&& s.qk_gpu_cache == norm::rope_cache(
        s.qk_gpu,
        s.resident_q_pre,
        s.resident_k_pre,
        s.resident_q,
        s.resident_k,
        position_buffer,
    )
    &&& s.kv_gpu_cache == gpu_attention::kv_cache(
        s.kv_gpu,
        s.resident_k,
        s.resident_v,
        s.resident_key_cache,
        s.resident_value_cache,
        position_buffer,
    )
    &&& s.attn_gpu_cache == gpu_attention::attention_cache(
        s.attn_gpu,
        s.resident_q,
        s.resident_key_cache,
        s.resident_value_cache,
        s.resident_attention,
        position_buffer,
    )
    &&& s.synced_cache_id == 0
    &&& s.synced_cache_revision == 0
    &&& s.max_len == max_len
}

/// The shape of three axes.
pub fn shape3(a: usize, b: usize, c: usize) -> (r: Vec<usize>)
    ensures
        r@ == seq![a, b, c],
{
    let v = vec![a, b, c];
    assert(v@ =~= seq![a, b, c]);
    v
}

/// The shape of two axes.
pub fn shape2(a: usize, b: usize) -> (r: Vec<usize>)
    ensures
        r@ == seq![a, b],
{
    let v = vec![a, b];
    assert(v@ =~= seq![a, b]);
    v
}

/// What is wrong with a configuration does not depend on the one that is chosen.
pub proof fn lemma_one_rope(f: GpuQkRmsNormRopeConfig<'_>, a: AttentionShape<'_>)
    requires
        is_rope_config(f, a),
    ensures
        norm::rope_error(f) == turn_error(a),
{
    let g = choose|g: GpuQkRmsNormRopeConfig<'_>| #[trigger] is_rope_config(g, a);
    assert(is_rope_config(g, a));
}

impl ResidentAttentionRuntimeState {
    /// Makes what an attention keeps on a device for `max_len` positions.
    pub fn new(
        context: &mut GpuContext,
        a: AttentionShape<'_>,
        max_len: usize,
        position_buffer: usize,
    ) -> (r: Result<ResidentAttentionRuntimeState, String>)
        requires
            sizes_fit(a, max_len),
        ensures
            context::quiet(old(context)@, final(context)@),
            match r {
                Ok(s) => {
                    &&& state_error(old(context)@, a, max_len) is None
                    &&& is_state(old(context)@, a, max_len, position_buffer, s)
                    &&& s.kv_gpu.well_formed() && s.attn_gpu.well_formed()
                    &&& s.qk_gpu.well_formed()
                    &&& final(context)@ == state_made(old(context)@, a, max_len)
                },
                Err(e) => state_error(old(context)@, a, max_len) == Some((e@, final(context)@)),
            },
    {
        let ghost c = context@;
        let kv_gpu = match GpuKvAppend::with_context_resident_only(
            context,
            a.num_kv_heads,
            a.head_dim,
            max_len,
        ) {
            Ok(k) => k,
            Err(e) => {
                return Err(e);
            },
        };
        proof {
            reveal_with_fuel(buffers_made, 9);
            array::lemma_numel3(a.num_kv_heads, max_len, a.head_dim);
            array::lemma_numel3(1, a.num_heads, a.head_dim);
            array::lemma_numel3(1, a.num_kv_heads, a.head_dim);
            lemma_positive(a.num_kv_heads as nat, max_len as nat, a.head_dim as nat);
            lemma_positive(1, a.num_kv_heads as nat, a.head_dim as nat);
            lemma_positive(1, a.num_heads as nat, a.head_dim as nat);
            assert(context@ == buffers_made(c, a, max_len, 0));
        }
        let kv_shape = shape3(a.num_kv_heads, max_len, a.head_dim);
        let row_shape = shape3(1, a.num_kv_heads, a.head_dim);
        let head_shape = shape3(1, a.num_heads, a.head_dim);
        let resident_key_cache = match GpuResidentBuffer::with_context(context, &kv_shape) {
            Ok(b) => b,
            Err(e) => {
                return Err(e);
            },
        };
        assert(context@ == buffers_made(c, a, max_len, 1));
        let resident_value_cache = match GpuResidentBuffer::with_context(context, &kv_shape) {
            Ok(b) => b,
            Err(e) => {
                return Err(e);
            },
        };
        assert(context@ == buffers_made(c, a, max_len, 2));
        let resident_q_pre = match GpuResidentBuffer::with_context(context, &head_shape) {
            Ok(b) => b,
            Err(e) => {
                return Err(e);
            },
        };
        assert(context@ == buffers_made(c, a, max_len, 3));
        let resident_k_pre = match GpuResidentBuffer::with_context(context, &row_shape) {
            Ok(b) => b,
            Err(e) => {
                return Err(e);
            },
        };
        assert(context@ == buffers_made(c, a, max_len, 4));
        let resident_q = match GpuResidentBuffer::with_context(context, &head_shape) {
            Ok(b) => b,
            Err(e) => {
                return Err(e);
            },
        };
        assert(context@ == buffers_made(c, a, max_len, 5));
        let resident_k = match GpuResidentBuffer::with_context(context, &row_shape) {
            Ok(b) => b,
            Err(e) => {
                return Err(e);
            },
        };
        assert(context@ == buffers_made(c, a, max_len, 6));
        let resident_v = match GpuResidentBuffer::with_context(context, &row_shape) {
            Ok(b) => b,
            Err(e) => {
                return Err(e);
            },
        };
        assert(context@ == buffers_made(c, a, max_len, 7));
        let resident_attention = match GpuResidentBuffer::with_context(context, &head_shape) {
            Ok(b) => b,
            Err(e) => {
                return Err(e);
            },
        };
        let ghost turned = context@;
        assert(turned == buffers_made(c, a, max_len, 8));
        let config = GpuQkRmsNormRopeConfig {
            q_weight: a.q_weight,
            k_weight: a.k_weight,
            q_shape: &head_shape,
            k_shape: &row_shape,
            pos: 0,
            inv_freq: a.inv_freq,
            q_eps: a.q_eps,
            k_eps: a.k_eps,
        };
        proof {
            assert(is_rope_config(config, a));
            lemma_one_rope(config, a);
        }
        let qk_gpu = match GpuQkRmsNormRope::with_context(context, config) {
            Ok(q) => q,
            Err(e) => {
                return Err(e);
            },
        };
        assert(context@ == turn_made(turned, a));
        let attn_gpu = match GpuDecodeGqaAttention::with_context(
            context,
            GpuDecodeGqaAttentionConfig {
                num_heads: a.num_heads,
                num_kv_heads: a.num_kv_heads,
                head_dim: a.head_dim,
                max_len,
                scale: a.scale,
            },
        ) {
            Ok(g) => g,
            Err(e) => {
                return Err(e);
            },
        };
        let qk_gpu_cache = match qk_gpu.prepare_resident_cache_with_position_buffer(
            &resident_q_pre,
            &resident_k_pre,
            &resident_q,
            &resident_k,
            position_buffer,
        ) {
            Ok(k) => k,
            Err(e) => {
                return Err(e);
            },
        };
        let kv_gpu_cache = match kv_gpu.prepare_resident_cache_with_position_buffer(
            &resident_k,
            &resident_v,
            &resident_key_cache,
            &resident_value_cache,
            position_buffer,
        ) {
            Ok(k) => k,
            Err(e) => {
                return Err(e);
            },
        };
        proof {
            assert(a.num_kv_heads * max_len * a.head_dim == a.num_kv_heads * (max_len
                * a.head_dim)) by (nonlinear_arith);
        }
        let attn_gpu_cache = match attn_gpu.prepare_resident_cache_with_position_buffer(
            &resident_q,
            &resident_key_cache,
            &resident_value_cache,
            &resident_attention,
            position_buffer,
        ) {
            Ok(k) => k,
            Err(e) => {
                return Err(e);
            },
        };
        Ok(
            ResidentAttentionRuntimeState {
                kv_gpu,
                resident_key_cache,
                resident_value_cache,
                resident_q_pre,
                resident_k_pre,
                resident_q,
                resident_k,
                resident_v,
                resident_attention,
                qk_gpu,
                attn_gpu,
                o_proj_gpu_cache: None,
                qkv_batch_cache: None,
                qk_gpu_cache,
                kv_gpu_cache,
                attn_gpu_cache,
                synced_cache_id: 0,
                synced_cache_revision: 0,
                max_len,
            },
        )
    }
}

/// A product is zero where a factor is.
pub proof fn lemma_positive(a: nat, b: nat, c: nat)
    ensures
        a > 0 && b > 0 && c > 0 ==> a * b * c > 0,
        a == 0 || b == 0 || c == 0 ==> a * b * c == 0,
{
    assert(a > 0 && b > 0 ==> a * b > 0) by (nonlinear_arith);
    let d = a * b;
    assert(d > 0 && c > 0 ==> d * c > 0) by (nonlinear_arith);
    assert(a == 0 || b == 0 ==> a * b == 0) by (nonlinear_arith);
    assert(d == 0 || c == 0 ==> d * c == 0) by (nonlinear_arith);
}

} // verus!
