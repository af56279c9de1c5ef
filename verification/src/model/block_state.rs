//! What a block keeps on a device between tokens.

use vstd::prelude::*;

use crate::error::{ErrorView, RsinferError};
use crate::gpu::context;
use crate::gpu::norm;
use crate::gpu::q8_swiglu;
use crate::gpu::resident;
use crate::gpu::{
    GpuContext, GpuPositionUniform, GpuQ8SwiGluDownResidentCache, GpuResidentBuffer, GpuResidualAdd,
    GpuResidualAddResidentCache, GpuRmsNorm, GpuRmsNormResidentCache, GpuUsage,
};
use crate::model::attention_state;
use crate::model::attention_state::shape2;
use crate::model::mlp;
use crate::model::{Mlp, RmsNorm};
use crate::tensor::array;
use crate::text;

verus! {

/// The buffers with which a block reads one value and writes another.
#[derive(Clone, Copy, Debug)]
pub struct ResidentTransformerBlockIoCaches {
    pub input_norm_cache: GpuRmsNormResidentCache,
    pub input_residual_cache: GpuResidualAddResidentCache,
    pub output_residual_cache: GpuResidualAddResidentCache,
}

/// The buffers with which a block goes from the first of two values to the second, and back.
#[derive(Clone, Copy, Debug)]
pub struct ResidentTransformerBlockSlotCaches {
    pub even: ResidentTransformerBlockIoCaches,
    pub odd: ResidentTransformerBlockIoCaches,
}

/// What a block keeps on a device between tokens.
#[derive(Debug)]
pub struct ResidentTransformerBlockRuntimeState {
    pub resident_input: GpuResidentBuffer,
    pub resident_norm1: GpuResidentBuffer,
    pub resident_attn: GpuResidentBuffer,
    pub resident_hidden: GpuResidentBuffer,
    pub resident_norm2: GpuResidentBuffer,
    pub resident_mlp_output: GpuResidentBuffer,
    pub resident_mlp_hidden: GpuResidentBuffer,
    pub resident_output: GpuResidentBuffer,
    pub resident_position: GpuPositionUniform,
    pub resident_mlp_q8_cache: Option<GpuQ8SwiGluDownResidentCache>,
    pub gpu_input_norm: GpuRmsNorm,
    pub gpu_post_norm: GpuRmsNorm,
    pub gpu_add: GpuResidualAdd,
    pub gpu_input_norm_cache: GpuRmsNormResidentCache,
    pub gpu_post_norm_cache: GpuRmsNormResidentCache,
    pub gpu_input_residual_cache: GpuResidualAddResidentCache,
    pub gpu_output_residual_cache: GpuResidualAddResidentCache,
    pub slot_caches: Option<ResidentTransformerBlockSlotCaches>,
}

/// The message of a block on a device that fails.
pub open spec fn block_failure(why: Seq<char>) -> ErrorView {
    ErrorView::DimensionError("GPU resident transformer block prototype failed: "@ + why)
}

/// The error of a block on a device that fails.
pub fn block_error(why: &str) -> (r: RsinferError)
    ensures
        r@ == block_failure(why@),
{
    RsinferError::DimensionError(
        text::joined("GPU resident transformer block prototype failed: ", why),
    )
}

/// The shape of one row.
pub open spec fn row(n: usize) -> Seq<usize> {
    seq![1usize, n]
}

/// A device after the two normalizations and the addition of a block are made, or the first `n` of
/// them.
pub open spec fn kernels_made(
    c: context::ContextView,
    first: RmsNorm,
    second: RmsNorm,
    hidden: usize,
    n: nat,
) -> context::ContextView {
    let c1 = norm::norm_made(c, resident::contiguous(first.weight), row(hidden), first.eps);
    let c2 = norm::norm_made(c1, resident::contiguous(second.weight), row(hidden), second.eps);
    if n == 0 {
        c
    } else if n == 1 {
        c1
    } else if n == 2 {
        c2
    } else {
        resident::residual_made(c2, hidden)
    }
}

/// A device after `n` of the values of a block are made.
pub open spec fn rows_made(c: context::ContextView, hidden: usize, inner: usize, n: nat)
    -> context::ContextView
    decreases n,
{
    if n == 0 {
        c
    } else {
        attention_state::with_buffer(
            rows_made(c, hidden, inner, (n - 1) as nat),
            if n == 7 {
                row(inner)
            } else {
                row(hidden)
            },
        )
    }
}

/// A device after the values of a block and its position are made.
pub open spec fn position_made(c: context::ContextView, hidden: usize, inner: usize)
    -> context::ContextView {
    context::filled(
        rows_made(c, hidden, inner, 8),
        context::position_words(0),
        GpuUsage::MutableParams,
    )
}

/// A value of the given shape that a device makes next.
pub open spec fn next_buffer(c: context::ContextView, shape: Seq<usize>) -> GpuResidentBuffer {
    choose|b: GpuResidentBuffer| #[trigger] attention_state::is_buffer(c, b, shape)
}

/// Why the feed-forward part of a block cannot be kept on a device behind `c`.
pub open spec fn mlp_cache_error(c: context::ContextView, m: Mlp, hidden: usize) -> Option<Seq<char>> {
    let inner = m.gate_proj.out_features;
    if m.q8_gpu_swiglu_down is Some && mlp::all_q8(mlp::mlp_parts(m)) {
        q8_swiglu::q8_swiglu_cache_error(
            m.q8_gpu_swiglu_down->0,
            m.gate_proj.q8_gpu_matvec->0,
            m.up_proj.q8_gpu_matvec->0,
            m.down_proj.q8_gpu_matvec->0,
            next_buffer(rows_made(c, hidden, inner, 4), row(hidden)),
            next_buffer(rows_made(c, hidden, inner, 6), row(inner)),
            next_buffer(rows_made(c, hidden, inner, 5), row(hidden)),
        )
    } else {
        None
    }
}

/// Why a block cannot be kept on a device, and what is made there before that is found.
pub open spec fn block_state_error(
    c: context::ContextView,
    first: RmsNorm,
    second: RmsNorm,
    m: Mlp,
    hidden: usize,
) -> Option<(Seq<char>, context::ContextView)> {
    let inner = m.gate_proj.out_features;
    let k = kernels_made(c, first, second, hidden, 3);
    match norm::norm_error(first.weight, row(hidden)) {
        Some(e) => Some((e, c)),
        None => match norm::norm_error(second.weight, row(hidden)) {
            Some(e) => Some((e, kernels_made(c, first, second, hidden, 1))),
            None => if hidden == 0 {
                Some(
                    (
                        "GPU residual add requires non-empty shape"@,
                        kernels_made(c, first, second, hidden, 2),
                    ),
                )
            } else if inner == 0 {
                Some(
                    (
                        "GPU resident buffer requires non-empty shape"@,
                        rows_made(k, hidden, inner, 6),
                    ),
                )
            } else {
                match mlp_cache_error(k, m, hidden) {
                    Some(e) => Some((e, position_made(k, hidden, inner))),
                    None => None,
                }
            },
        },
    }
}

/// The buffers with which a block reads `input` and writes `output`.
pub open spec fn io_caches(
    s: ResidentTransformerBlockRuntimeState,
    input: GpuResidentBuffer,
    output: GpuResidentBuffer,
) -> ResidentTransformerBlockIoCaches {
    ResidentTransformerBlockIoCaches {
        input_norm_cache: norm::norm_cache(s.gpu_input_norm, input, s.resident_norm1),
        input_residual_cache: resident::residual_cache(
            s.gpu_add,
            input,
            s.resident_attn,
            s.resident_hidden,
        ),
        output_residual_cache: resident::residual_cache(
            s.gpu_add,
            s.resident_hidden,
            s.resident_mlp_output,
            output,
        ),
    }
}

/// Whether a normalization is the one that a device makes next.
pub open spec fn is_norm(c: context::ContextView, n: GpuRmsNorm, hidden: usize) -> bool {
    &&& n.context == c.id
    &&& n.shape@ == row(hidden)
    &&& n.well_formed()
    &&& n.input_buffer == c.buffers.len() && n.weight_buffer == c.buffers.len() + 1
    &&& n.output_buffer == c.buffers.len() + 2 && n.readback_buffer == c.buffers.len() + 3
    &&& n.params_buffer == c.buffers.len() + 4
}

/// Whether a state is the one that is made on a device for a block.
pub open spec fn is_block_state(
    c: context::ContextView,
    after: context::ContextView,
    first: RmsNorm,
    second: RmsNorm,
    m: Mlp,
    hidden: usize,
    s: ResidentTransformerBlockRuntimeState,
) -> bool {
    let inner = m.gate_proj.out_features;
    let c1 = kernels_made(c, first, second, hidden, 1);
    let c2 = kernels_made(c, first, second, hidden, 2);
    let k = kernels_made(c, first, second, hidden, 3);
    let p = position_made(k, hidden, inner);
    &&& is_norm(c, s.gpu_input_norm, hidden)
    &&& is_norm(c1, s.gpu_post_norm, hidden)
    &&& s.gpu_add.context == c.id
    &&& s.gpu_add.shape@ == row(hidden)
    &&& s.gpu_add.len == hidden
    &&& s.gpu_add.params_buffer == c2.buffers.len() + 4
    &&& attention_state::is_buffer(rows_made(k, hidden, inner, 0), s.resident_input, row(hidden))
    &&& attention_state::is_buffer(rows_made(k, hidden, inner, 1), s.resident_norm1, row(hidden))
    &&& attention_state::is_buffer(rows_made(k, hidden, inner, 2), s.resident_attn, row(hidden))
    &&& attention_state::is_buffer(rows_made(k, hidden, inner, 3), s.resident_hidden, row(hidden))
    &&& attention_state::is_buffer(rows_made(k, hidden, inner, 4), s.resident_norm2, row(hidden))
    &&& attention_state::is_buffer(
        rows_made(k, hidden, inner, 5),
        s.resident_mlp_output,
        row(hidden),
    )
    &&& attention_state::is_buffer(
        rows_made(k, hidden, inner, 6),
        s.resident_mlp_hidden,
        row(inner),
    )
    &&& attention_state::is_buffer(rows_made(k, hidden, inner, 7), s.resident_output, row(hidden))
    &&& s.resident_position.context == c.id
    &&& s.resident_position.buffer == context::fresh(rows_made(k, hidden, inner, 8))
    &&& if m.q8_gpu_swiglu_down is Some && mlp::all_q8(mlp::mlp_parts(m)) {
        &&& s.resident_mlp_q8_cache matches Some(kept)
        &&& q8_swiglu::is_q8_swiglu_cache(
            p,
            after,
            m.gate_proj.q8_gpu_matvec->0,
            m.up_proj.q8_gpu_matvec->0,
            m.down_proj.q8_gpu_matvec->0,
            s.resident_norm2,
            s.resident_mlp_hidden,
            s.resident_mlp_output,
            kept,
        )
    } else {
        s.resident_mlp_q8_cache is None && after == p
    }
    &&& s.gpu_input_norm_cache == io_caches(s, s.resident_input, s.resident_output).input_norm_cache
    &&& s.gpu_post_norm_cache == norm::norm_cache(
        s.gpu_post_norm,
        s.resident_hidden,
        s.resident_norm2,
    )
    &&& s.gpu_input_residual_cache == io_caches(
        s,
        s.resident_input,
        s.resident_output,
    ).input_residual_cache
    &&& s.gpu_output_residual_cache == io_caches(
        s,
        s.resident_input,
        s.resident_output,
    ).output_residual_cache
    &&& s.slot_caches is None
}

proof fn lemma_same_cache_error(
    c: context::ContextView,
    m: Mlp,
    hidden: usize,
    input: GpuResidentBuffer,
    inner_row: GpuResidentBuffer,
    output: GpuResidentBuffer,
)
    requires
        m.q8_gpu_swiglu_down is Some && mlp::all_q8(mlp::mlp_parts(m)),
        attention_state::is_buffer(
            rows_made(c, hidden, m.gate_proj.out_features, 4),
            input,
            row(hidden),
        ),
        attention_state::is_buffer(
            rows_made(c, hidden, m.gate_proj.out_features, 6),
            inner_row,
            row(m.gate_proj.out_features),
        ),
        attention_state::is_buffer(
            rows_made(c, hidden, m.gate_proj.out_features, 5),
            output,
            row(hidden),
        ),
    ensures
        mlp_cache_error(c, m, hidden) == q8_swiglu::q8_swiglu_cache_error(
            m.q8_gpu_swiglu_down->0,
            m.gate_proj.q8_gpu_matvec->0,
            m.up_proj.q8_gpu_matvec->0,
            m.down_proj.q8_gpu_matvec->0,
            input,
            inner_row,
            output,
        ),
{
    let inner = m.gate_proj.out_features;
    let a = next_buffer(rows_made(c, hidden, inner, 4), row(hidden));
    let b = next_buffer(rows_made(c, hidden, inner, 6), row(inner));
    let d = next_buffer(rows_made(c, hidden, inner, 5), row(hidden));
    assert(attention_state::is_buffer(rows_made(c, hidden, inner, 4), a, row(hidden)));
    assert(attention_state::is_buffer(rows_made(c, hidden, inner, 6), b, row(inner)));
    assert(attention_state::is_buffer(rows_made(c, hidden, inner, 5), d, row(hidden)));
}

/// Makes a value of one row on a device.
pub fn row_buffer(context: &mut GpuContext, n: usize) -> (r: Result<GpuResidentBuffer, String>)
    requires
        resident::shape_fits(row(n)),
    ensures
        match r {
            Ok(b) => {
                &&& n > 0
                &&& attention_state::is_buffer(old(context)@, b, row(n))
                &&& final(context)@ == attention_state::with_buffer(old(context)@, row(n))
            },
            Err(e) => {
                &&& n == 0
                &&& e@ == "GPU resident buffer requires non-empty shape"@
                &&& final(context)@ == old(context)@
            },
        },
{
    let shape = shape2(1, n);
    proof {
        array::lemma_numel2(1, n);
    }
    GpuResidentBuffer::with_context(context, &shape)
}

impl ResidentTransformerBlockRuntimeState {
    /// Makes what a block keeps on a device.
    pub fn new(
        context: &mut GpuContext,
        first: &RmsNorm,
        second: &RmsNorm,
        m: &Mlp,
        hidden: usize,
    ) -> (r: Result<ResidentTransformerBlockRuntimeState, RsinferError>)
        requires
            resident::shape_fits(row(hidden)),
            resident::shape_fits(row(m.gate_proj.out_features)),
            m.well_formed(old(context)@.id),
        ensures
            context::quiet(old(context)@, final(context)@),
            match r {
                Ok(s) => {
                    &&& block_state_error(old(context)@, *first, *second, *m, hidden) is None
                    &&& is_block_state(
                        old(context)@,
                        final(context)@,
                        *first,
                        *second,
                        *m,
                        hidden,
                        s,
                    )
                },
                Err(e) => {
                    let why = block_state_error(old(context)@, *first, *second, *m, hidden);
                    why is Some && e@ == block_failure((why->0).0) && final(context)@ == (why->0).1
                },
            },
    {
        let ghost c = context@;
        let inner: usize = m.gate_proj.out_features;
        let shape = shape2(1, hidden);
        proof {
            array::lemma_numel2(1, hidden);
            array::lemma_numel2(1, inner);
            reveal_with_fuel(rows_made, 9);
        }
        let gpu_input_norm = match GpuRmsNorm::with_context(
            context,
            &first.weight,
            &shape,
            first.eps,
        ) {
            Ok(n) => n,
            Err(e) => {
                return Err(block_error(e.as_str()));
            },
        };
        let gpu_post_norm = match GpuRmsNorm::with_context(
            context,
            &second.weight,
            &shape,
            second.eps,
        ) {
            Ok(n) => n,
            Err(e) => {
                return Err(block_error(e.as_str()));
            },
        };
        let gpu_add = match GpuResidualAdd::with_context(context, &shape) {
            Ok(n) => n,
            Err(e) => {
                return Err(block_error(e.as_str()));
            },
        };
        let ghost k = context@;
        assert(k == kernels_made(c, *first, *second, hidden, 3));
        let resident_input = match row_buffer(context, hidden) {
            Ok(b) => b,
            Err(e) => {
                return Err(block_error(e.as_str()));
            },
        };
        assert(context@ == rows_made(k, hidden, inner, 1));
        let resident_norm1 = match row_buffer(context, hidden) {
            Ok(b) => b,
            Err(e) => {
                return Err(block_error(e.as_str()));
            },
        };
        assert(context@ == rows_made(k, hidden, inner, 2));
        let resident_attn = match row_buffer(context, hidden) {
            Ok(b) => b,
            Err(e) => {
                return Err(block_error(e.as_str()));
            },
        };
        assert(context@ == rows_made(k, hidden, inner, 3));
        let resident_hidden = match row_buffer(context, hidden) {
            Ok(b) => b,
            Err(e) => {
                return Err(block_error(e.as_str()));
            },
        };
        assert(context@ == rows_made(k, hidden, inner, 4));
        let resident_norm2 = match row_buffer(context, hidden) {
            Ok(b) => b,
            Err(e) => {
                return Err(block_error(e.as_str()));
            },
        };
        assert(context@ == rows_made(k, hidden, inner, 5));
        let resident_mlp_output = match row_buffer(context, hidden) {
            Ok(b) => b,
            Err(e) => {
                return Err(block_error(e.as_str()));
            },
        };
        assert(context@ == rows_made(k, hidden, inner, 6));
        let resident_mlp_hidden = match row_buffer(context, inner) {
            Ok(b) => b,
            Err(e) => {
                return Err(block_error(e.as_str()));
            },
        };
        assert(context@ == rows_made(k, hidden, inner, 7));
        let resident_output = match row_buffer(context, hidden) {
            Ok(b) => b,
            Err(e) => {
                return Err(block_error(e.as_str()));
            },
        };
        assert(context@ == rows_made(k, hidden, inner, 8));
        let resident_position = GpuPositionUniform::with_context(context, 0);
        assert(context@ == position_made(k, hidden, inner));
        let resident_mlp_q8_cache = match (
            &m.q8_gpu_swiglu_down,
            &m.gate_proj.q8_gpu_matvec,
            &m.up_proj.q8_gpu_matvec,
            &m.down_proj.q8_gpu_matvec,
        ) {
            (Some(f), Some(gate), Some(up), Some(down)) => {
                proof {
                    lemma_same_cache_error(
                        k,
                        *m,
                        hidden,
                        resident_norm2,
                        resident_mlp_hidden,
                        resident_mlp_output,
                    );
                }
                match f.prepare_resident_cache(
                    context,
                    gate,
                    up,
                    down,
                    &resident_norm2,
                    &resident_mlp_hidden,
                    &resident_mlp_output,
                ) {
                    Ok(kept) => Some(kept),
                    Err(e) => {
                        return Err(block_error(e.as_str()));
                    },
                }
            },
            _ => None,
        };
        let gpu_input_norm_cache = match gpu_input_norm.prepare_resident_cache(
            &resident_input,
            &resident_norm1,
        ) {
            Ok(kept) => kept,
            Err(e) => {
                return Err(block_error(e.as_str()));
            },
        };
        let gpu_post_norm_cache = match gpu_post_norm.prepare_resident_cache(
            &resident_hidden,
            &resident_norm2,
        ) {
            Ok(kept) => kept,
            Err(e) => {
                return Err(block_error(e.as_str()));
            },
        };
        let gpu_input_residual_cache = match gpu_add.prepare_resident_cache(
            &resident_input,
            &resident_attn,
            &resident_hidden,
        ) {
            Ok(kept) => kept,
            Err(e) => {
                return Err(block_error(e.as_str()));
            },
        };
        let gpu_output_residual_cache = match gpu_add.prepare_resident_cache(
            &resident_hidden,
            &resident_mlp_output,
            &resident_output,
        ) {
            Ok(kept) => kept,
            Err(e) => {
                return Err(block_error(e.as_str()));
            },
        };
        Ok(
            ResidentTransformerBlockRuntimeState {
                resident_input,
                resident_norm1,
                resident_attn,
                resident_hidden,
                resident_norm2,
                resident_mlp_output,
                resident_mlp_hidden,
                resident_output,
                resident_position,
                resident_mlp_q8_cache,
                gpu_input_norm,
                gpu_post_norm,
                gpu_add,
                gpu_input_norm_cache,
                gpu_post_norm_cache,
                gpu_input_residual_cache,
                gpu_output_residual_cache,
                slot_caches: None,
            },
        )
    }

    fn prepare_io(&self, input: &GpuResidentBuffer, output: &GpuResidentBuffer) -> (r: Result<
        ResidentTransformerBlockIoCaches,
        RsinferError,
    >)
        ensures
            match r {
                Ok(k) => io_error(*self, *input, *output) is None && k == io_caches(
                    *self,
                    *input,
                    *output,
                ),
                Err(e) => {
                    &&& io_error(*self, *input, *output) is Some
                    &&& e@ == block_failure(io_error(*self, *input, *output)->0)
                },
            },
    {
        let input_norm_cache = match self.gpu_input_norm.prepare_resident_cache(
            input,
            &self.resident_norm1,
        ) {
            Ok(k) => k,
            Err(e) => {
                return Err(block_error(e.as_str()));
            },
        };
        let input_residual_cache = match self.gpu_add.prepare_resident_cache(
            input,
            &self.resident_attn,
            &self.resident_hidden,
        ) {
            Ok(k) => k,
            Err(e) => {
                return Err(block_error(e.as_str()));
            },
        };
        let output_residual_cache = match self.gpu_add.prepare_resident_cache(
            &self.resident_hidden,
            &self.resident_mlp_output,
            output,
        ) {
            Ok(k) => k,
            Err(e) => {
                return Err(block_error(e.as_str()));
            },
        };
        Ok(
            ResidentTransformerBlockIoCaches {
                input_norm_cache,
                input_residual_cache,
                output_residual_cache,
            },
        )
    }

    /// Prepares the buffers with which a block goes from the first of two values to the second and
    /// back, where they are not there yet.
    pub fn ensure_slot_caches(&mut self, slot0: &GpuResidentBuffer, slot1: &GpuResidentBuffer) -> (r:
        Result<(), RsinferError>)
        ensures
            is_slotted(*old(self), *final(self), *slot0, *slot1, r),
    {
        if self.slot_caches.is_some() {
            return Ok(());
        }
        let even = match self.prepare_io(slot0, slot1) {
            Ok(k) => k,
            Err(e) => {
                return Err(e);
            },
        };
        let odd = match self.prepare_io(slot1, slot0) {
            Ok(k) => k,
            Err(e) => {
                return Err(e);
            },
        };
        self.slot_caches = Some(ResidentTransformerBlockSlotCaches { even, odd });
        Ok(())
    }
}

/// Why a block cannot read `input` and write `output`.
pub open spec fn io_error(
    s: ResidentTransformerBlockRuntimeState,
    input: GpuResidentBuffer,
    output: GpuResidentBuffer,
) -> Option<Seq<char>> {
    match norm::norm_cache_error(s.gpu_input_norm, input, s.resident_norm1) {
        Some(e) => Some(e),
        None => match resident::residual_cache_error(
            s.gpu_add,
            input,
            s.resident_attn,
            s.resident_hidden,
        ) {
            Some(e) => Some(e),
            None => resident::residual_cache_error(
                s.gpu_add,
                s.resident_hidden,
                s.resident_mlp_output,
                output,
            ),
        },
    }
}

/// What preparing a block for two values leaves.
pub open spec fn is_slotted(
    s: ResidentTransformerBlockRuntimeState,
    t: ResidentTransformerBlockRuntimeState,
    slot0: GpuResidentBuffer,
    slot1: GpuResidentBuffer,
    r: Result<(), RsinferError>,
) -> bool {
    if s.slot_caches is Some {
        r is Ok && t == s
    } else {
        let why = match io_error(s, slot0, slot1) {
            Some(e) => Some(e),
            None => io_error(s, slot1, slot0),
        };
        match why {
            Some(e) => {
                &&& r matches Err(f) && f@ == block_failure(e)
                &&& t == s
            },
            None => {
                &&& r is Ok
                &&& t == (ResidentTransformerBlockRuntimeState {
                    slot_caches: Some(
                        ResidentTransformerBlockSlotCaches {
                            even: io_caches(s, slot0, slot1),
                            odd: io_caches(s, slot1, slot0),
                        },
                    ),
                    ..s
                })
            },
        }
    }
}

} // verus!
