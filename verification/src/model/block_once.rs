//! One token through a block on a device where nothing is kept between tokens.

use vstd::prelude::*;
use vstd::string::*;

use crate::engine::CachedKV;
use crate::error::{ErrorView, RsinferError};
use crate::gpu::context;
use crate::gpu::norm;
use crate::gpu::q8_swiglu;
use crate::gpu::resident;
use crate::gpu::{
    GpuCommand, GpuContext, GpuEncoder, GpuResidentBuffer, GpuResidualAdd, GpuRmsNorm, GpuUsage,
};
use crate::model::attention_once;
use crate::model::attention_state;
use crate::model::attention_state::shape2;
use crate::model::attention_sync;
use crate::model::block_state;
use crate::model::block_state::{block_error, row_buffer};
use crate::model::mlp;
use crate::model::mlp::mlp_error;
use crate::model::{Mlp, RmsNorm, TransformerBlock};
use crate::tensor::array;
use crate::tensor::Tensor;
use crate::text;

verus! {

/// The message that a feed-forward part is not on the device, if a layer of it is not.
pub open spec fn mlp_missing(m: Mlp) -> Option<Seq<char>> {
    if m.gate_proj.q8_gpu_matvec is None {
        Some("missing gate_proj Q8 GPU matvec"@)
    } else if m.up_proj.q8_gpu_matvec is None {
        Some("missing up_proj Q8 GPU matvec"@)
    } else if m.down_proj.q8_gpu_matvec is None {
        Some("missing down_proj Q8 GPU matvec"@)
    } else if m.q8_gpu_swiglu_down is None {
        Some("missing fused Q8 SwiGLU helper"@)
    } else {
        None
    }
}

/// What writing the commands of a feed-forward part leaves, with a value for what stands between
/// its layers.
pub open spec fn is_mlp_hidden(
    m: Mlp,
    c: context::ContextView,
    after: context::ContextView,
    e: Seq<GpuCommand>,
    f: Seq<GpuCommand>,
    input: GpuResidentBuffer,
    hidden: GpuResidentBuffer,
    output: GpuResidentBuffer,
    r: Result<(), RsinferError>,
) -> bool {
    match mlp_missing(m) {
        Some(why) => {
            &&& r matches Err(x) && x@ == mlp::mlp_failure(why)
            &&& after == c
            &&& f == e
        },
        None => exists|x: Result<(), String>| #[trigger]
            q8_swiglu::q8_swiglu_hidden_result(
                c,
                after,
                e,
                f,
                m.q8_gpu_swiglu_down->0,
                m.gate_proj.q8_gpu_matvec->0,
                m.up_proj.q8_gpu_matvec->0,
                m.down_proj.q8_gpu_matvec->0,
                input,
                hidden,
                output,
                x,
            ) && match x {
                Ok(()) => r is Ok,
                Err(why) => r matches Err(y) && y@ == mlp::mlp_failure(why@),
            },
    }
}

/// What writing the commands of a feed-forward part leaves: the value for what stands between its
/// layers is made first.
pub open spec fn is_mlp_once(
    m: Mlp,
    c: context::ContextView,
    after: context::ContextView,
    e: Seq<GpuCommand>,
    f: Seq<GpuCommand>,
    input: GpuResidentBuffer,
    output: GpuResidentBuffer,
    r: Result<(), RsinferError>,
) -> bool {
    let shape = block_state::row(m.gate_proj.out_features);
    if m.gate_proj.q8_gpu_matvec is None {
        &&& r matches Err(x) && x@ == mlp::mlp_failure("missing gate_proj Q8 GPU matvec"@)
        &&& after == c
        &&& f == e
    } else if m.gate_proj.out_features == 0 {
        &&& r matches Err(x) && x@ == mlp::mlp_failure(
            "GPU resident buffer requires non-empty shape"@,
        )
        &&& after == c
        &&& f == e
    } else {
        exists|hidden: GpuResidentBuffer| #[trigger]
            attention_state::is_buffer(c, hidden, shape) && is_mlp_hidden(
                m,
                attention_state::with_buffer(c, shape),
                after,
                e,
                f,
                input,
                hidden,
                output,
                r,
            )
    }
}

impl Mlp {
    /// The commands that run a feed-forward part, with a value for what stands between its layers.
    pub fn encode_resident_prototype_with_hidden(
        &self,
        context: &mut GpuContext,
        encoder: &mut GpuEncoder,
        input: &GpuResidentBuffer,
        hidden: &GpuResidentBuffer,
        output: &GpuResidentBuffer,
    ) -> (r: Result<(), RsinferError>)
        requires
            self.well_formed(old(context)@.id),
        ensures
            context::quiet(old(context)@, final(context)@),
            final(context)@.id == old(context)@.id,
            is_mlp_hidden(
                *self,
                old(context)@,
                final(context)@,
                old(encoder)@,
                final(encoder)@,
                *input,
                *hidden,
                *output,
                r,
            ),
    {
        let gate = match &self.gate_proj.q8_gpu_matvec {
            Some(m) => m,
            None => {
                return Err(mlp_error("missing gate_proj Q8 GPU matvec"));
            },
        };
        let up = match &self.up_proj.q8_gpu_matvec {
            Some(m) => m,
            None => {
                return Err(mlp_error("missing up_proj Q8 GPU matvec"));
            },
        };
        let down = match &self.down_proj.q8_gpu_matvec {
            Some(m) => m,
            None => {
                return Err(mlp_error("missing down_proj Q8 GPU matvec"));
            },
        };
        let fused = match &self.q8_gpu_swiglu_down {
            Some(f) => f,
            None => {
                return Err(mlp_error("missing fused Q8 SwiGLU helper"));
            },
        };
        let done = fused.encode_resident_with_hidden(
            context,
            gate,
            up,
            down,
            encoder,
            input,
            hidden,
            output,
        );
        match done {
            Ok(()) => Ok(()),
            Err(e) => Err(mlp_error(e.as_str())),
        }
    }

    /// The commands that run a feed-forward part.
    pub fn encode_resident_prototype(
        &self,
        context: &mut GpuContext,
        encoder: &mut GpuEncoder,
        input: &GpuResidentBuffer,
        output: &GpuResidentBuffer,
    ) -> (r: Result<(), RsinferError>)
        requires
            self.well_formed(old(context)@.id),
            resident::shape_fits(block_state::row(self.gate_proj.out_features)),
        ensures
            context::quiet(old(context)@, final(context)@),
            final(context)@.id == old(context)@.id,
            is_mlp_once(
                *self,
                old(context)@,
                final(context)@,
                old(encoder)@,
                final(encoder)@,
                *input,
                *output,
                r,
            ),
    {
        if self.gate_proj.q8_gpu_matvec.is_none() {
            return Err(mlp_error("missing gate_proj Q8 GPU matvec"));
        }
        match row_buffer(context, self.gate_proj.out_features) {
            Ok(hidden) => self.encode_resident_prototype_with_hidden(
                context,
                encoder,
                input,
                &hidden,
                output,
            ),
            Err(e) => Err(mlp_error(e.as_str())),
        }
    }
}

/// What one token through a block needs on a device.
#[derive(Debug)]
pub struct BlockOnce {
    pub input: GpuResidentBuffer,
    pub norm1: GpuResidentBuffer,
    pub attn: GpuResidentBuffer,
    pub hidden: GpuResidentBuffer,
    pub norm2: GpuResidentBuffer,
    pub mlp: GpuResidentBuffer,
    pub output: GpuResidentBuffer,
    pub gpu_input_norm: GpuRmsNorm,
    pub gpu_post_norm: GpuRmsNorm,
    pub gpu_add: GpuResidualAdd,
}

/// A device after the row of a token is written and `n` more rows are made.
pub open spec fn token_put(c: context::ContextView, x: Tensor, n: nat) -> context::ContextView {
    block_state::rows_made(
        attention_once::with_value(c, x.dims(), x.values()),
        x.dims()[1],
        0,
        n,
    )
}

/// Why one token through a block cannot be made on a device, and what is made there before that
/// is found.
pub open spec fn block_once_error(
    c: context::ContextView,
    first: RmsNorm,
    second: RmsNorm,
    x: Tensor,
) -> Option<(Seq<char>, context::ContextView)> {
    let n = x.dims()[1];
    let rows = token_put(c, x, 6);
    if n == 0 {
        Some(("GPU resident buffer requires non-empty shape"@, c))
    } else if !x.row_major() {
        Some(
            (
                "GPU resident buffer upload length mismatch: got "@ + text::dec(0) + ", expected "@
                    + text::dec(n as nat),
                attention_state::with_buffer(c, x.dims()),
            ),
        )
    } else {
        match norm::norm_error(first.weight, block_state::row(n)) {
            Some(e) => Some((e, rows)),
            None => match norm::norm_error(second.weight, block_state::row(n)) {
                Some(e) => Some((e, block_state::kernels_made(rows, first, second, n, 1))),
                None => None,
            },
        }
    }
}

/// Whether some values and kernels are those that are made on a device for one token.
pub open spec fn is_block_once(
    c: context::ContextView,
    first: RmsNorm,
    second: RmsNorm,
    x: Tensor,
    s: BlockOnce,
) -> bool {
    let n = x.dims()[1];
    let row = block_state::row(n);
    let rows = token_put(c, x, 6);
    let k2 = block_state::kernels_made(rows, first, second, n, 2);
    &&& attention_state::is_buffer(c, s.input, row)
    &&& attention_state::is_buffer(token_put(c, x, 0), s.norm1, row)
    &&& attention_state::is_buffer(token_put(c, x, 1), s.attn, row)
    &&& attention_state::is_buffer(token_put(c, x, 2), s.hidden, row)
    &&& attention_state::is_buffer(token_put(c, x, 3), s.norm2, row)
    &&& attention_state::is_buffer(token_put(c, x, 4), s.mlp, row)
    &&& attention_state::is_buffer(token_put(c, x, 5), s.output, row)
    &&& block_state::is_norm(rows, s.gpu_input_norm, n)
    &&& block_state::is_norm(
        block_state::kernels_made(rows, first, second, n, 1),
        s.gpu_post_norm,
        n,
    )
    &&& s.gpu_add.context == c.id
    &&& s.gpu_add.shape@ == row
    &&& s.gpu_add.len == n
    &&& s.gpu_add.params_buffer == k2.buffers.len() + 4
}

impl BlockOnce {
    /// Makes what one token through a block needs on a device.
    pub fn new(context: &mut GpuContext, first: &RmsNorm, second: &RmsNorm, x: &Tensor) -> (r:
        Result<BlockOnce, String>)
        requires
            x.dims().len() == 2 && x.dims()[0] == 1,
            resident::shape_fits(x.dims()),
        ensures
            context::quiet(old(context)@, final(context)@),
            final(context)@.id == old(context)@.id,
            match r {
                Ok(s) => {
                    &&& block_once_error(old(context)@, *first, *second, *x) is None
                    &&& is_block_once(old(context)@, *first, *second, *x, s)
                    &&& final(context)@ == block_state::kernels_made(
                        token_put(old(context)@, *x, 6),
                        *first,
                        *second,
                        x.dims()[1],
                        3,
                    )
                },
                Err(e) => block_once_error(old(context)@, *first, *second, *x) == Some(
                    (e@, final(context)@),
                ),
            },
    {
        let ghost c = context@;
        let n: usize = x.shape()[1];
        let shape = shape2(1, n);
        proof {
            assert(x.dims() =~= block_state::row(n));
            array::lemma_numel2(1, n);
            assert(1 * (n as nat) == n) by (nonlinear_arith);
            reveal_with_fuel(block_state::rows_made, 7);
        }
        let input = match GpuResidentBuffer::from_tensor(context, x) {
            Ok(b) => b,
            Err(e) => {
                return Err(e);
            },
        };
        assert(context@ == token_put(c, *x, 0));
        let norm1 = match row_buffer(context, n) {
            Ok(b) => b,
            Err(e) => {
                return Err(e);
            },
        };
        assert(context@ == token_put(c, *x, 1));
        let attn = match row_buffer(context, n) {
            Ok(b) => b,
            Err(e) => {
                return Err(e);
            },
        };
        assert(context@ == token_put(c, *x, 2));
        let hidden = match row_buffer(context, n) {
            Ok(b) => b,
            Err(e) => {
                return Err(e);
            },
        };
        assert(context@ == token_put(c, *x, 3));
        let norm2 = match row_buffer(context, n) {
            Ok(b) => b,
            Err(e) => {
                return Err(e);
            },
        };
        assert(context@ == token_put(c, *x, 4));
        let mlp = match row_buffer(context, n) {
            Ok(b) => b,
            Err(e) => {
                return Err(e);
            },
        };
        assert(context@ == token_put(c, *x, 5));
        let output = match row_buffer(context, n) {
            Ok(b) => b,
            Err(e) => {
                return Err(e);
            },
        };
        assert(context@ == token_put(c, *x, 6));
        let gpu_input_norm = match GpuRmsNorm::with_context(
            context,
            &first.weight,
            &shape,
            first.eps,
        ) {
            Ok(g) => g,
            Err(e) => {
                return Err(e);
            },
        };
        let gpu_post_norm = match GpuRmsNorm::with_context(
            context,
            &second.weight,
            &shape,
            second.eps,
        ) {
            Ok(g) => g,
            Err(e) => {
                return Err(e);
            },
        };
        let gpu_add = match GpuResidualAdd::with_context(context, &shape) {
            Ok(g) => g,
            Err(e) => {
                return Err(e);
            },
        };
        Ok(
            BlockOnce {
                input,
                norm1,
                attn,
                hidden,
                norm2,
                mlp,
                output,
                gpu_input_norm,
                gpu_post_norm,
                gpu_add,
            },
        )
    }
}

/// The commands of a normalization, in a pass of its own.
pub open spec fn norm_pass(g: GpuRmsNorm, input: GpuResidentBuffer, output: GpuResidentBuffer)
    -> Seq<GpuCommand> {
    seq![GpuCommand::BeginPass, norm::norm_command(g, norm::norm_cache(g, input, output))]
}

/// The commands of an addition, in a pass of its own.
pub open spec fn add_pass(
    g: GpuResidualAdd,
    lhs: GpuResidentBuffer,
    rhs: GpuResidentBuffer,
    output: GpuResidentBuffer,
) -> Seq<GpuCommand> {
    seq![
        GpuCommand::BeginPass,
        resident::residual_command(g, resident::residual_cache(g, lhs, rhs, output)),
    ]
}

/// Whether the parts of a block were run one behind the other on a device that holds what they
/// need: each part leaves the device and the commands to the next, up to one that fails.
pub open spec fn is_block_run(
    b: TransformerBlock,
    s: BlockOnce,
    c: context::ContextView,
    mid: context::ContextView,
    after: context::ContextView,
    e: Seq<GpuCommand>,
    f: Seq<GpuCommand>,
    cached: Option<CachedKV<'_>>,
    position: usize,
    ran: Result<(), RsinferError>,
    fed: Result<(), RsinferError>,
    r: Result<(), RsinferError>,
) -> bool {
    let before = norm_pass(s.gpu_input_norm, s.input, s.norm1);
    let between = e + add_pass(s.gpu_add, s.input, s.attn, s.hidden) + norm_pass(
        s.gpu_post_norm,
        s.hidden,
        s.norm2,
    );
    &&& attention_once::is_run_once(
        b.attention,
        c,
        mid,
        s.norm1,
        s.attn,
        cached,
        position,
        before,
        e,
        ran,
    )
    &&& match ran {
        Err(x) => after == mid && (r matches Err(y) && y@ == x@),
        Ok(()) => exists|g: Seq<GpuCommand>| #[trigger]
            is_mlp_once(b.mlp, mid, after, between, g, s.norm2, s.mlp, fed) && match fed {
                Err(x) => r matches Err(y) && y@ == x@,
                Ok(()) => r is Ok && f == g + add_pass(s.gpu_add, s.hidden, s.mlp, s.output),
            },
    }
}

impl TransformerBlock {
    fn encode_once(
        &self,
        context: &mut GpuContext,
        encoder: &mut GpuEncoder,
        once: &BlockOnce,
        cached: Option<CachedKV<'_>>,
        position: usize,
    ) -> (r: Result<(), RsinferError>)
        requires
            self.well_formed(old(context)@.id),
            attention_once::prefix_of(cached, self.attention),
            position < usize::MAX,
            attention_sync::room_fits(
                self.attention,
                attention_once::once_room(cached, position),
            ),
            resident::shape_fits(block_state::row(self.mlp.gate_proj.out_features)),
            old(encoder)@.len() == 0,
            all_share(*once),
        ensures
            context::quiet(old(context)@, final(context)@),
            final(context)@.id == old(context)@.id,
            exists|
                mid: context::ContextView,
                e: Seq<GpuCommand>,
                ran: Result<(), RsinferError>,
                fed: Result<(), RsinferError>,
            | #[trigger]
                is_block_run(
                    *self,
                    *once,
                    old(context)@,
                    mid,
                    final(context)@,
                    e,
                    final(encoder)@,
                    cached,
                    position,
                    ran,
                    fed,
                    r,
                ),
    {
        let ghost c = context@;
        match once.gpu_input_norm.encode_resident(encoder, &once.input, &once.norm1) {
            Ok(()) => {},
            Err(e) => {
                return Err(block_error(e.as_str()));
            },
        }
        assert(encoder@ =~= norm_pass(once.gpu_input_norm, once.input, once.norm1));
        let ran = self.attention.encode_decode_one_resident_prototype(
            context,
            encoder,
            &once.norm1,
            &once.attn,
            cached,
            position,
            None,
            None,
        );
        let ghost mid = context@;
        let ghost e = encoder@;
        let ghost ran_so = ran;
        assert(attention_once::is_run_once(
            self.attention,
            c,
            mid,
            once.norm1,
            once.attn,
            cached,
            position,
            norm_pass(once.gpu_input_norm, once.input, once.norm1),
            e,
            ran_so,
        ));
        match ran {
            Ok(()) => {},
            Err(x) => {
                let ghost fed: Result<(), RsinferError> = Ok(());
                assert(is_block_run(
                    *self,
                    *once,
                    c,
                    mid,
                    context@,
                    e,
                    encoder@,
                    cached,
                    position,
                    ran_so,
                    fed,
                    Err::<(), RsinferError>(x),
                ));
                return Err(x);
            },
        }
        match once.gpu_add.encode_resident(encoder, &once.input, &once.attn, &once.hidden) {
            Ok(()) => {},
            Err(x) => {
                return Err(block_error(x.as_str()));
            },
        }
        match once.gpu_post_norm.encode_resident(encoder, &once.hidden, &once.norm2) {
            Ok(()) => {},
            Err(x) => {
                return Err(block_error(x.as_str()));
            },
        }
        let ghost between = e + add_pass(once.gpu_add, once.input, once.attn, once.hidden)
            + norm_pass(once.gpu_post_norm, once.hidden, once.norm2);
        assert(encoder@ =~= between);
        let fed = self.mlp.encode_resident_prototype(context, encoder, &once.norm2, &once.mlp);
        let ghost g = encoder@;
        let ghost fed_so = fed;
        assert(is_mlp_once(self.mlp, mid, context@, between, g, once.norm2, once.mlp, fed_so));
        match fed {
            Ok(()) => {},
            Err(x) => {
                assert(is_block_run(
                    *self,
                    *once,
                    c,
                    mid,
                    context@,
                    e,
                    encoder@,
                    cached,
                    position,
                    ran_so,
                    fed_so,
                    Err::<(), RsinferError>(x),
                ));
                return Err(x);
            },
        }
        match once.gpu_add.encode_resident(encoder, &once.hidden, &once.mlp, &once.output) {
            Ok(()) => {},
            Err(x) => {
                return Err(block_error(x.as_str()));
            },
        }
        assert(encoder@ =~= g + add_pass(once.gpu_add, once.hidden, once.mlp, once.output));
        assert(is_block_run(
            *self,
            *once,
            c,
            mid,
            context@,
            e,
            encoder@,
            cached,
            position,
            ran_so,
            fed_so,
            Ok::<(), RsinferError>(()),
        ));
        Ok(())
    }
}

/// Whether the values and kernels of one token stand on one device and have one width.
pub open spec fn all_share(s: BlockOnce) -> bool {
    let id = s.gpu_add.context;
    let n = s.gpu_add.len;
    let row = block_state::row(n);
    &&& s.gpu_input_norm.context == id && s.gpu_input_norm.shape@ == row
    &&& s.gpu_post_norm.context == id && s.gpu_post_norm.shape@ == row
    &&& s.gpu_add.shape@ == row
    &&& is_row(s.input, id, n) && is_row(s.norm1, id, n) && is_row(s.attn, id, n)
    &&& is_row(s.hidden, id, n) && is_row(s.norm2, id, n) && is_row(s.mlp, id, n)
    &&& is_row(s.output, id, n)
}

/// Whether a value is a row on a device.
pub open spec fn is_row(b: GpuResidentBuffer, id: u64, n: usize) -> bool {
    b.context == id && b.shape@ == block_state::row(n) && b.len == n
}

/// Why a token is not sent through a block, before anything is made.
pub open spec fn block_refused(b: TransformerBlock, dims: Seq<usize>) -> Option<ErrorView> {
    if dims.len() != 2 || dims[0] != 1 {
        Some(
            block_state::block_failure(
                "resident transformer block prototype expects [1, hidden], got "@
                    + text::bracketed(dims),
            ),
        )
    } else if b.attention.q_proj.q8_gpu_matvec is None {
        Some(block_state::block_failure("missing attention q_proj Q8 GPU matvec"@))
    } else {
        None
    }
}

/// What sending one token through a block leaves, where writing its commands `f` leaves `c3` of
/// the device: they are submitted and the result is asked for, unless that failed.
pub open spec fn is_block_outcome(
    b: TransformerBlock,
    c: context::ContextView,
    after: context::ContextView,
    x: Tensor,
    cached: Option<CachedKV<'_>>,
    position: usize,
    r: Result<(GpuResidentBuffer, usize), RsinferError>,
    s: BlockOnce,
    mid: context::ContextView,
    c3: context::ContextView,
    e: Seq<GpuCommand>,
    f: Seq<GpuCommand>,
    ran: Result<(), RsinferError>,
    fed: Result<(), RsinferError>,
    done: Result<(), RsinferError>,
) -> bool {
    let ready = block_state::kernels_made(
        token_put(c, x, 6),
        b.input_layernorm,
        b.post_attention_layernorm,
        x.dims()[1],
        3,
    );
    &&& is_block_once(c, b.input_layernorm, b.post_attention_layernorm, x, s)
    &&& is_block_run(b, s, ready, mid, c3, e, f, cached, position, ran, fed, done)
    &&& match done {
        Err(y) => after == c3 && (r matches Err(z) && z@ == y@),
        Ok(()) => {
            let told = context::submitted(c3, f);
            let id = context::fresh(told);
            &&& r matches Ok(p) && p.0 == s.output && p.1 == id
            &&& after == context::read_back(
                context::made(told, s.output.len, GpuUsage::Readback),
                seq![context::copy(s.output.buffer, id, 0, s.output.len)],
                seq![id],
            )
        },
    }
}

/// What sending one token through a block leaves, where it is not refused.
pub open spec fn is_block_sent(
    b: TransformerBlock,
    c: context::ContextView,
    after: context::ContextView,
    x: Tensor,
    cached: Option<CachedKV<'_>>,
    position: usize,
    r: Result<(GpuResidentBuffer, usize), RsinferError>,
) -> bool {
    match block_once_error(c, b.input_layernorm, b.post_attention_layernorm, x) {
        Some(p) => {
            &&& r matches Err(e) && e@ == block_state::block_failure(p.0)
            &&& after == p.1
        },
        None => exists|
            s: BlockOnce,
            mid: context::ContextView,
            c3: context::ContextView,
            e: Seq<GpuCommand>,
            f: Seq<GpuCommand>,
            ran: Result<(), RsinferError>,
            fed: Result<(), RsinferError>,
            done: Result<(), RsinferError>,
        | #[trigger]
            is_block_outcome(
                b,
                c,
                after,
                x,
                cached,
                position,
                r,
                s,
                mid,
                c3,
                e,
                f,
                ran,
                fed,
                done,
            ),
    }
}

impl TransformerBlock {
    /// Sends one token through a block on a device, with values made for it alone: the value that
    /// its result stands in, and the buffer from which that comes.
    pub fn forward_decode_one_resident_prototype(
        &self,
        context: &mut GpuContext,
        x: &Tensor,
        cached: Option<CachedKV<'_>>,
        position: usize,
    ) -> (r: Result<(GpuResidentBuffer, usize), RsinferError>)
        requires
            self.well_formed(old(context)@.id),
            attention_once::prefix_of(cached, self.attention),
            position < usize::MAX,
            attention_sync::room_fits(
                self.attention,
                attention_once::once_room(cached, position),
            ),
            resident::shape_fits(x.dims()),
            resident::shape_fits(block_state::row(self.mlp.gate_proj.out_features)),
        ensures
            r is Ok ==> context::costs_one_readback(old(context)@, final(context)@),
            match block_refused(*self, x.dims()) {
                Some(e) => (r matches Err(y) && y@ == e) && final(context)@ == old(context)@,
                None => is_block_sent(
                    *self,
                    old(context)@,
                    final(context)@,
                    *x,
                    cached,
                    position,
                    r,
                ),
            },
    {
        let ghost c = context@;
        if x.shape().len() != 2 || x.shape()[0] != 1 {
            let mut s =
                "resident transformer block prototype expects [1, hidden], got ".to_owned();
            text::push_shape(&mut s, x.shape());
            return Err(block_error(s.as_str()));
        }
        if self.attention.q_proj.q8_gpu_matvec.is_none() {
            return Err(block_error("missing attention q_proj Q8 GPU matvec"));
        }
        let once = match BlockOnce::new(
            context,
            &self.input_layernorm,
            &self.post_attention_layernorm,
            x,
        ) {
            Ok(s) => s,
            Err(e) => {
                return Err(block_error(e.as_str()));
            },
        };
        proof {
            array::lemma_numel2(1, x.dims()[1]);
            assert(1 * (x.dims()[1] as nat) == x.dims()[1]) by (nonlinear_arith);
            lemma_rows_id(attention_once::with_value(c, x.dims(), x.values()), x.dims()[1], 6);
            assert(all_share(once));
        }
        let ghost ready = context@;
        let mut encoder = context.create_command_encoder();
        let done = self.encode_once(context, &mut encoder, &once, cached, position);
        let ghost c3 = context@;
        let ghost f = encoder@;
        let ghost done_so = done;
        let ghost (mid, e, ran, fed) = choose|
            mid: context::ContextView,
            e: Seq<GpuCommand>,
            ran: Result<(), RsinferError>,
            fed: Result<(), RsinferError>,
        | #[trigger]
            is_block_run(
                *self,
                once,
                ready,
                mid,
                c3,
                e,
                f,
                cached,
                position,
                ran,
                fed,
                done_so,
            );
        match done {
            Ok(()) => {},
            Err(y) => {
                assert(is_block_outcome(
                    *self,
                    c,
                    context@,
                    *x,
                    cached,
                    position,
                    Err::<(GpuResidentBuffer, usize), RsinferError>(y),
                    once,
                    mid,
                    c3,
                    e,
                    f,
                    ran,
                    fed,
                    done_so,
                ));
                return Err(y);
            },
        }
        context.submit(encoder);
        let ghost told = context@;
        let id: usize = once.output.read_back(context);
        proof {
            reveal_with_fuel(context::advanced, 2);
            context::law_read_back_costs(
                context::made(told, once.output.len, GpuUsage::Readback),
                seq![context::copy(once.output.buffer, id, 0, once.output.len)],
                seq![id],
            );
        }
        let ghost s = once;
        let r = Ok((once.output, id));
        assert(is_block_outcome(
            *self,
            c,
            context@,
            *x,
            cached,
            position,
            r,
            s,
            mid,
            c3,
            e,
            f,
            ran,
            fed,
            done_so,
        ));
        r
    }
}

proof fn lemma_rows_id(c: context::ContextView, hidden: usize, n: nat)
    ensures
        forall|k: nat|
            k <= n ==> (#[trigger] block_state::rows_made(c, hidden, 0, k)).id == c.id,
    decreases n,
{
    if n > 0 {
        lemma_rows_id(c, hidden, (n - 1) as nat);
        assert(block_state::rows_made(c, hidden, 0, (n - 1) as nat).id == c.id);
    }
    assert(block_state::rows_made(c, hidden, 0, n).id == c.id);
}

} // verus!
