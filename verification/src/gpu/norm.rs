//! Norms of rows, alone and with the rotation of queries and keys.

use vstd::prelude::*;
use vstd::string::*;

use crate::gpu::context;
use crate::gpu::context::{
    tensor_from_words, GpuBindGroup, GpuCommand, GpuContext, GpuEncoder, GpuPipeline, GpuUsage,
    GpuWrite,
};
use crate::gpu::resident;
use crate::gpu::resident::{
    same_shape, shape_numel, three_shapes, two_shapes, two_sizes, GpuResidentBuffer,
};
use crate::tensor::array;
use crate::tensor::Tensor;
use crate::text;

verus! {

/// A norm over the last axis.
#[derive(Debug)]
pub struct GpuRmsNorm {
    pub context: u64,
    pub input_buffer: usize,
    pub weight_buffer: usize,
    pub output_buffer: usize,
    pub readback_buffer: usize,
    pub params_buffer: usize,
    pub shape: Vec<usize>,
    pub last_dim: usize,
    pub rows: usize,
}

/// The buffers of a norm of a resident value.
#[derive(Clone, Copy, Debug)]
pub struct GpuRmsNormResidentCache {
    pub input: usize,
    pub weight: usize,
    pub output: usize,
    pub params: usize,
}

/// The rows of a shape: the product of all axes but the last, and at least one.
pub open spec fn rows_in(shape: Seq<usize>) -> nat {
    if array::numel(shape.drop_last()) == 0 {
        1
    } else {
        array::numel(shape.drop_last())
    }
}

/// The rows of a shape.
pub fn leading_rows(shape: &[usize]) -> (r: usize)
    requires
        shape@.len() > 0,
        resident::shape_fits(shape@),
    ensures
        r == rows_in(shape@),
        r * shape@.last() <= usize::MAX,
{
    let n: usize = shape.len();
    let prefix = vstd::slice::slice_subrange(shape, 0, n - 1);
    proof {
        let p = shape@.drop_last();
        assert(prefix@ =~= p);
        array::lemma_numel_extent(p);
        let last = shape@.last() as nat;
        let e = array::extent(p);
        assert(last > 0 ==> e <= e * last) by (nonlinear_arith);
    }
    let rows: usize = shape_numel(prefix);
    let r: usize = if rows == 0 {
        1
    } else {
        rows
    };
    proof {
        let last = shape@.last() as nat;
        let e = array::extent(shape@.drop_last());
        assert(r * last <= e * last) by (nonlinear_arith)
            requires
                r <= e,
                last >= 0,
        ;
    }
    r
}

/// Whether a weight has one number for each place of a row.
pub open spec fn weight_fits(weight: Tensor, n: usize) -> bool {
    weight.dims() == seq![n] && resident::contiguous(weight).len() == n
}

/// Whether a weight has one number for each place of a row.
pub fn check_weight(weight: &Tensor, n: usize) -> (r: bool)
    ensures
        r == weight_fits(*weight, n),
{
    let s = weight.shape();
    let same = s.len() == 1 && s[0] == n;
    proof {
        if same {
            assert(weight.dims() =~= seq![n]);
        }
    }
    same && weight.as_slice().len() == n
}

/// A message that names a shape and a length in brackets.
fn shape_and_len(head: &str, dims: &[usize], n: usize) -> (r: String)
    ensures
        r@ == head@ + text::bracketed(dims@) + ", expected ["@ + text::dec(n as nat) + "]"@,
{
    let mut s = head.to_owned();
    text::push_shape(&mut s, dims);
    s.append(", expected [");
    text::push_size(&mut s, n);
    s.append("]");
    s
}

/// Why a norm cannot be made.
pub open spec fn norm_error(weight: Tensor, shape: Seq<usize>) -> Option<Seq<char>> {
    if shape.len() == 0 {
        Some("GPU RMSNorm expects at least 1D shape"@)
    } else if !weight_fits(weight, shape.last()) {
        Some(
            "GPU RMSNorm weight shape mismatch: got "@ + text::bracketed(weight.dims())
                + ", expected ["@ + text::dec(shape.last() as nat) + "]"@,
        )
    } else {
        None
    }
}

/// Making what a norm needs.
pub open spec fn norm_made(c: context::ContextView, weight: Seq<u32>, shape: Seq<usize>, eps: u32)
    -> context::ContextView {
    let n = array::numel(shape) as usize;
    let c1 = context::made(c, n, GpuUsage::Input);
    let c2 = context::filled(c1, weight, GpuUsage::Weight);
    let c3 = context::made(c2, n, GpuUsage::Output);
    let c4 = context::made(c3, n, GpuUsage::Readback);
    context::filled(
        c4,
        seq![shape.last() as u32, rows_in(shape) as u32, eps, 0],
        GpuUsage::Params,
    )
}

/// Why a tensor has no norm here.
pub open spec fn norm_input_error(n: GpuRmsNorm, x: Tensor) -> Option<Seq<char>> {
    let len = resident::contiguous(x).len();
    if x.dims() != n.shape@ {
        Some(
            "GPU RMSNorm input shape mismatch: got "@ + text::bracketed(x.dims()) + ", expected "@
                + text::bracketed(n.shape@),
        )
    } else if len != n.rows * n.last_dim {
        Some(
            "GPU RMSNorm input length mismatch: got "@ + text::dec(len) + ", expected "@ + text::dec(
                (n.rows * n.last_dim) as nat,
            ),
        )
    } else {
        None
    }
}

/// The buffers of a norm of its own input, for the kernel.
pub open spec fn norm_group(n: GpuRmsNorm) -> GpuBindGroup {
    GpuBindGroup::RmsNorm {
        input: n.input_buffer,
        weight: n.weight_buffer,
        output: n.output_buffer,
        params: n.params_buffer,
    }
}

/// What a device does to norm a tensor.
pub open spec fn norm_run(c: context::ContextView, n: GpuRmsNorm, words: Seq<u32>)
    -> context::ContextView {
    context::read_back(
        context::written(c, n.input_buffer, words, GpuWrite::Uncounted),
        seq![
            GpuCommand::BeginPass,
            context::run(GpuPipeline::RmsNorm, norm_group(n), n.rows as u32),
            context::copy(n.output_buffer, n.readback_buffer, 0, (n.rows * n.last_dim) as usize),
        ],
        seq![n.readback_buffer],
    )
}

/// Why a resident value has no norm here.
pub open spec fn norm_cache_error(n: GpuRmsNorm, input: GpuResidentBuffer, output: GpuResidentBuffer)
    -> Option<Seq<char>> {
    if n.context != input.context || n.context != output.context {
        Some("GPU RMSNorm resident path requires shared GpuContext"@)
    } else if input.shape@ != n.shape@ || output.shape@ != n.shape@ {
        Some(
            "GPU RMSNorm resident shape mismatch: input="@ + text::bracketed(input.shape@)
                + ", output="@ + text::bracketed(output.shape@) + ", expected "@ + text::bracketed(
                n.shape@,
            ),
        )
    } else {
        None
    }
}

/// The buffers of a norm of a resident value.
pub open spec fn norm_cache(n: GpuRmsNorm, input: GpuResidentBuffer, output: GpuResidentBuffer)
    -> GpuRmsNormResidentCache {
    GpuRmsNormResidentCache {
        input: input.buffer,
        weight: n.weight_buffer,
        output: output.buffer,
        params: n.params_buffer,
    }
}

/// The run of a norm of a resident value.
pub open spec fn norm_command(n: GpuRmsNorm, c: GpuRmsNormResidentCache) -> GpuCommand {
    context::run(
        GpuPipeline::RmsNorm,
        GpuBindGroup::RmsNorm {
            input: c.input,
            weight: c.weight,
            output: c.output,
            params: c.params,
        },
        n.rows as u32,
    )
}

impl GpuRmsNorm {
    /// The rows and their length are those of the shape.
    pub open spec fn well_formed(&self) -> bool {
        &&& self.shape@.len() > 0
        &&& self.last_dim == self.shape@.last()
        &&& self.rows == rows_in(self.shape@)
        &&& self.rows * self.last_dim <= usize::MAX
    }

    /// Makes a norm over the last axis of values of the given shape.
    pub fn with_context(context: &mut GpuContext, weight: &Tensor, shape: &[usize], eps: u32) -> (r:
        Result<GpuRmsNorm, String>)
        requires
            resident::shape_fits(shape@),
        ensures
            match r {
                Ok(n) => {
                    let first = old(context)@.buffers.len();
                    &&& norm_error(*weight, shape@) is None
                    &&& n.context == old(context)@.id
                    &&& n.shape@ == shape@
                    &&& n.well_formed()
                    &&& n.input_buffer == first && n.weight_buffer == first + 1
                    &&& n.output_buffer == first + 2 && n.readback_buffer == first + 3
                    &&& n.params_buffer == first + 4
                    &&& final(context)@ == norm_made(
                        old(context)@,
                        resident::contiguous(*weight),
                        shape@,
                        eps,
                    )
                },
                Err(e) => {
                    &&& norm_error(*weight, shape@) == Some(e@)
                    &&& final(context)@ == old(context)@
                },
            },
    {
        if shape.len() == 0 {
            return Err("GPU RMSNorm expects at least 1D shape".to_owned());
        }
        let last_dim: usize = shape[shape.len() - 1];
        let rows: usize = leading_rows(shape);
        if !check_weight(weight, last_dim) {
            return Err(
                shape_and_len(
                    "GPU RMSNorm weight shape mismatch: got ",
                    weight.shape(),
                    last_dim,
                ),
            );
        }
        let numel: usize = shape_numel(shape);
        let input_buffer: usize = context.create_buffer(numel, GpuUsage::Input);
        let weight_buffer: usize = context.create_buffer_init(
            vstd::slice::slice_to_vec(weight.as_slice()),
            GpuUsage::Weight,
        );
        let output_buffer: usize = context.create_buffer(numel, GpuUsage::Output);
        let readback_buffer: usize = context.create_buffer(numel, GpuUsage::Readback);
        let params: Vec<u32> = vec![last_dim as u32, rows as u32, eps, 0];
        assert(params@ =~= seq![shape@.last() as u32, rows_in(shape@) as u32, eps, 0]);
        let params_buffer: usize = context.create_buffer_init(params, GpuUsage::Params);
        Ok(
            GpuRmsNorm {
                context: context.id,
                input_buffer,
                weight_buffer,
                output_buffer,
                readback_buffer,
                params_buffer,
                shape: vstd::slice::slice_to_vec(shape),
                last_dim,
                rows,
            },
        )
    }

    /// Norms a tensor; the result is read from the buffer returned.
    pub fn forward(&self, context: &mut GpuContext, x: &Tensor) -> (r: Result<usize, String>)
        requires
            old(context)@.id == self.context,
            self.well_formed(),
        ensures
            match r {
                Ok(b) => {
                    &&& norm_input_error(*self, *x) is None
                    &&& b == self.readback_buffer
                    &&& final(context)@ == norm_run(
                        old(context)@,
                        *self,
                        resident::contiguous(*x),
                    )
                },
                Err(e) => {
                    &&& norm_input_error(*self, *x) == Some(e@)
                    &&& final(context)@ == old(context)@
                },
            },
    {
        if !same_shape(x.shape(), &self.shape) {
            return Err(
                two_shapes(
                    "GPU RMSNorm input shape mismatch: got ",
                    x.shape(),
                    ", expected ",
                    &self.shape,
                ),
            );
        }
        let words = x.as_slice();
        let expected: usize = self.rows * self.last_dim;
        if words.len() != expected {
            return Err(
                two_sizes(
                    "GPU RMSNorm input length mismatch: got ",
                    words.len(),
                    ", expected ",
                    expected,
                ),
            );
        }
        context.write_buffer(
            self.input_buffer,
            vstd::slice::slice_to_vec(words),
            GpuWrite::Uncounted,
        );
        let mut encoder = context.create_command_encoder();
        encoder.begin_compute_pass();
        encoder.dispatch(
            GpuPipeline::RmsNorm,
            GpuBindGroup::RmsNorm {
                input: self.input_buffer,
                weight: self.weight_buffer,
                output: self.output_buffer,
                params: self.params_buffer,
            },
            self.rows as u32,
        );
        encoder.copy_buffer(self.output_buffer, self.readback_buffer, 0, expected);
        let list: Vec<usize> = vec![self.readback_buffer];
        proof {
            assert(list@ =~= seq![self.readback_buffer]);
            assert(encoder@ =~= seq![
                GpuCommand::BeginPass,
                context::run(GpuPipeline::RmsNorm, norm_group(*self), self.rows as u32),
                context::copy(self.output_buffer, self.readback_buffer, 0, expected),
            ]);
        }
        context.submit_and_map(encoder, &list);
        Ok(self.readback_buffer)
    }

    /// The normed tensor, from what was read.
    pub fn forward_output(&self, words: Vec<u32>) -> (r: Result<Tensor, String>)
        ensures
            match r {
                Ok(t) => {
                    &&& context::tensor_failure(self.shape@, words@.len()) is None
                    &&& t.dims() == self.shape@
                    &&& t.values() == words@
                },
                Err(e) => context::tensor_failure(self.shape@, words@.len()) == Some(e@),
            },
    {
        tensor_from_words(&self.shape, words)
    }

    /// Norms a resident value, in a pass of its own.
    pub fn encode_resident(
        &self,
        encoder: &mut GpuEncoder,
        input: &GpuResidentBuffer,
        output: &GpuResidentBuffer,
    ) -> (r: Result<(), String>)
        ensures
            match r {
                Ok(()) => {
                    &&& norm_cache_error(*self, *input, *output) is None
                    &&& final(encoder)@ == old(encoder)@.push(GpuCommand::BeginPass).push(
                        norm_command(*self, norm_cache(*self, *input, *output)),
                    )
                },
                Err(e) => {
                    &&& norm_cache_error(*self, *input, *output) == Some(e@)
                    &&& final(encoder)@ == old(encoder)@
                },
            },
    {
        match self.prepare_resident_cache(input, output) {
            Ok(cache) => self.encode_resident_with_cache(encoder, input, output, &cache),
            Err(e) => Err(e),
        }
    }

    /// The buffers for the norm of a resident value.
    pub fn prepare_resident_cache(&self, input: &GpuResidentBuffer, output: &GpuResidentBuffer) -> (r:
        Result<GpuRmsNormResidentCache, String>)
        ensures
            match r {
                Ok(c) => {
                    &&& norm_cache_error(*self, *input, *output) is None
                    &&& c == norm_cache(*self, *input, *output)
                },
                Err(e) => norm_cache_error(*self, *input, *output) == Some(e@),
            },
    {
        if self.context != input.context || self.context != output.context {
            return Err("GPU RMSNorm resident path requires shared GpuContext".to_owned());
        }
        if !same_shape(&input.shape, &self.shape) || !same_shape(&output.shape, &self.shape) {
            return Err(
                three_shapes(
                    "GPU RMSNorm resident shape mismatch: input=",
                    &input.shape,
                    ", output=",
                    &output.shape,
                    ", expected ",
                    &self.shape,
                ),
            );
        }
        Ok(
            GpuRmsNormResidentCache {
                input: input.buffer,
                weight: self.weight_buffer,
                output: output.buffer,
                params: self.params_buffer,
            },
        )
    }

    /// Norms a resident value with prepared buffers, in a pass of its own.
    pub fn encode_resident_with_cache(
        &self,
        encoder: &mut GpuEncoder,
        input: &GpuResidentBuffer,
        output: &GpuResidentBuffer,
        cache: &GpuRmsNormResidentCache,
    ) -> (r: Result<(), String>)
        ensures
            match r {
                Ok(()) => {
                    &&& norm_cache_error(*self, *input, *output) is None
                    &&& final(encoder)@ == old(encoder)@.push(GpuCommand::BeginPass).push(
                        norm_command(*self, *cache),
                    )
                },
                Err(e) => {
                    &&& norm_cache_error(*self, *input, *output) == Some(e@)
                    &&& final(encoder)@ == old(encoder)@
                },
            },
    {
        match self.prepare_resident_cache(input, output) {
            Ok(_) => {},
            Err(e) => {
                return Err(e);
            },
        }
        encoder.begin_compute_pass();
        self.encode_resident_with_cache_in_pass(encoder, input, output, cache)
    }

    /// Norms a resident value with prepared buffers, in the pass that was started.
    pub fn encode_resident_with_cache_in_pass(
        &self,
        pass: &mut GpuEncoder,
        input: &GpuResidentBuffer,
        output: &GpuResidentBuffer,
        cache: &GpuRmsNormResidentCache,
    ) -> (r: Result<(), String>)
        ensures
            match r {
                Ok(()) => {
                    &&& norm_cache_error(*self, *input, *output) is None
                    &&& final(pass)@ == old(pass)@.push(norm_command(*self, *cache))
                },
                Err(e) => {
                    &&& norm_cache_error(*self, *input, *output) == Some(e@)
                    &&& final(pass)@ == old(pass)@
                },
            },
    {
        match self.prepare_resident_cache(input, output) {
            Ok(_) => {},
            Err(e) => {
                return Err(e);
            },
        }
        pass.dispatch(
            GpuPipeline::RmsNorm,
            GpuBindGroup::RmsNorm {
                input: cache.input,
                weight: cache.weight,
                output: cache.output,
                params: cache.params,
            },
            self.rows as u32,
        );
        Ok(())
    }
}

/// What a norm with rotation is made from.
pub struct GpuQkRmsNormRopeConfig<'a> {
    pub q_weight: &'a Tensor,
    pub k_weight: &'a Tensor,
    pub q_shape: &'a [usize],
    pub k_shape: &'a [usize],
    pub pos: usize,
    pub inv_freq: &'a [u32],
    pub q_eps: u32,
    pub k_eps: u32,
}

/// The queries' or the keys' half of a norm with rotation.
#[derive(Debug)]
pub struct GpuRopeSide {
    pub input_buffer: usize,
    pub weight_buffer: usize,
    pub output_buffer: usize,
    pub readback_buffer: usize,
    pub params_buffer: usize,
    pub shape: Vec<usize>,
    pub rows: usize,
    pub head_dim: usize,
}

/// Norms of queries and keys over the last axis, with the rotation for a position.
#[derive(Debug)]
pub struct GpuQkRmsNormRope {
    pub context: u64,
    pub inv_freq_buffer: usize,
    pub position_buffer: usize,
    pub q: GpuRopeSide,
    pub k: GpuRopeSide,
}

/// The buffers of one side for resident values.
#[derive(Clone, Copy, Debug)]
pub struct GpuRopeBinds {
    pub input: usize,
    pub weight: usize,
    pub inv_freq: usize,
    pub output: usize,
    pub params: usize,
    pub position: usize,
}

/// The buffers of both sides for resident values.
#[derive(Clone, Copy, Debug)]
pub struct GpuQkRmsNormRopeResidentCache {
    pub q: GpuRopeBinds,
    pub k: GpuRopeBinds,
    pub position_buffer: usize,
}

/// The buffers of one side, for the kernel.
pub open spec fn rope_group(b: GpuRopeBinds) -> GpuBindGroup {
    GpuBindGroup::RmsNormRope {
        input: b.input,
        weight: b.weight,
        inv_freq: b.inv_freq,
        output: b.output,
        params: b.params,
        position: b.position,
    }
}

/// The buffers of one side of its own inputs.
pub open spec fn side_binds(r: GpuQkRmsNormRope, s: GpuRopeSide) -> GpuRopeBinds {
    GpuRopeBinds {
        input: s.input_buffer,
        weight: s.weight_buffer,
        inv_freq: r.inv_freq_buffer,
        output: s.output_buffer,
        params: s.params_buffer,
        position: r.position_buffer,
    }
}

/// Why a norm with rotation cannot be made.
pub open spec fn rope_error(c: GpuQkRmsNormRopeConfig<'_>) -> Option<Seq<char>> {
    let q = c.q_shape@;
    let k = c.k_shape@;
    if q.len() == 0 {
        Some("GPU Q RMSNorm+RoPE expects at least 1D shape"@)
    } else if k.len() == 0 {
        Some("GPU K RMSNorm+RoPE expects at least 1D shape"@)
    } else if q.last() != k.last() {
        Some(
            "GPU Q/K RMSNorm+RoPE head_dim mismatch: q="@ + text::dec(q.last() as nat) + ", k="@
                + text::dec(k.last() as nat),
        )
    } else if q.last() % 2 != 0 {
        Some(
            "GPU Q/K RMSNorm+RoPE requires even head_dim, got "@ + text::dec(q.last() as nat),
        )
    } else if c.inv_freq@.len() != q.last() / 2 {
        Some(
            "GPU Q/K RMSNorm+RoPE inv_freq length mismatch: got "@ + text::dec(c.inv_freq@.len())
                + ", expected "@ + text::dec((q.last() / 2) as nat),
        )
    } else if !weight_fits(*c.q_weight, q.last()) {
        Some(
            "GPU Q RMSNorm+RoPE weight shape mismatch: got "@ + text::bracketed(c.q_weight.dims())
                + ", expected ["@ + text::dec(q.last() as nat) + "]"@,
        )
    } else if !weight_fits(*c.k_weight, k.last()) {
        Some(
            "GPU K RMSNorm+RoPE weight shape mismatch: got "@ + text::bracketed(c.k_weight.dims())
                + ", expected ["@ + text::dec(k.last() as nat) + "]"@,
        )
    } else {
        None
    }
}

/// Making what one side needs.
pub open spec fn side_made(c: context::ContextView, weight: Seq<u32>, shape: Seq<usize>, eps: u32)
    -> context::ContextView {
    let n = array::numel(shape) as usize;
    let c1 = context::made(c, n, GpuUsage::Input);
    let c2 = context::filled(c1, weight, GpuUsage::Weight);
    let c3 = context::made(c2, n, GpuUsage::Output);
    let c4 = context::made(c3, n, GpuUsage::Readback);
    context::filled(
        c4,
        seq![
            shape.last() as u32,
            rows_in(shape) as u32,
            (shape.last() / 2) as u32,
            eps,
        ],
        GpuUsage::MutableParams,
    )
}

/// Whether a side is the one made on a device for values of the given shape.
pub open spec fn is_side(s: GpuRopeSide, first: nat, shape: Seq<usize>) -> bool {
    &&& s.input_buffer == first && s.weight_buffer == first + 1 && s.output_buffer == first + 2
    &&& s.readback_buffer == first + 3 && s.params_buffer == first + 4
    &&& s.shape@ == shape
    &&& s.well_formed()
}

/// Making what a norm with rotation needs.
pub open spec fn rope_made(c: context::ContextView, f: GpuQkRmsNormRopeConfig<'_>)
    -> context::ContextView {
    let c1 = context::filled(c, f.inv_freq@, GpuUsage::Weight);
    let c2 = side_made(c1, resident::contiguous(*f.q_weight), f.q_shape@, f.q_eps);
    let c3 = context::filled(c2, context::position_words(f.pos), GpuUsage::MutableParams);
    side_made(c3, resident::contiguous(*f.k_weight), f.k_shape@, f.k_eps)
}

/// Why queries and keys cannot be normed and rotated.
pub open spec fn rope_input_error(r: GpuQkRmsNormRope, q: Tensor, k: Tensor) -> Option<Seq<char>> {
    let ql = resident::contiguous(q).len();
    let kl = resident::contiguous(k).len();
    if q.dims() != r.q.shape@ {
        Some(
            "GPU Q RMSNorm+RoPE input shape mismatch: got "@ + text::bracketed(q.dims())
                + ", expected "@ + text::bracketed(r.q.shape@),
        )
    } else if k.dims() != r.k.shape@ {
        Some(
            "GPU K RMSNorm+RoPE input shape mismatch: got "@ + text::bracketed(k.dims())
                + ", expected "@ + text::bracketed(r.k.shape@),
        )
    } else if ql != r.q.rows * r.q.head_dim {
        Some(
            "GPU Q RMSNorm+RoPE input length mismatch: got "@ + text::dec(ql) + ", expected "@
                + text::dec((r.q.rows * r.q.head_dim) as nat),
        )
    } else if kl != r.k.rows * r.k.head_dim {
        Some(
            "GPU K RMSNorm+RoPE input length mismatch: got "@ + text::dec(kl) + ", expected "@
                + text::dec((r.k.rows * r.k.head_dim) as nat),
        )
    } else {
        None
    }
}

/// What a device does to norm and rotate queries and keys.
pub open spec fn rope_run(c: context::ContextView, r: GpuQkRmsNormRope, q: Seq<u32>, k: Seq<u32>)
    -> context::ContextView {
    let c1 = context::written(c, r.q.input_buffer, q, GpuWrite::Host);
    let c2 = context::written(c1, r.k.input_buffer, k, GpuWrite::Host);
    context::read_back(
        c2,
        seq![
            GpuCommand::BeginPass,
            context::run(
                GpuPipeline::RmsNormRope,
                rope_group(side_binds(r, r.q)),
                r.q.rows as u32,
            ),
            GpuCommand::BeginPass,
            context::run(
                GpuPipeline::RmsNormRope,
                rope_group(side_binds(r, r.k)),
                r.k.rows as u32,
            ),
            context::copy(
                r.q.output_buffer,
                r.q.readback_buffer,
                0,
                (r.q.rows * r.q.head_dim) as usize,
            ),
            context::copy(
                r.k.output_buffer,
                r.k.readback_buffer,
                0,
                (r.k.rows * r.k.head_dim) as usize,
            ),
        ],
        seq![r.q.readback_buffer, r.k.readback_buffer],
    )
}

/// Whether four values are on the device of a norm with rotation.
pub open spec fn rope_shared(
    r: GpuQkRmsNormRope,
    q_input: GpuResidentBuffer,
    k_input: GpuResidentBuffer,
    q_output: GpuResidentBuffer,
    k_output: GpuResidentBuffer,
) -> bool {
    &&& r.context == q_input.context
    &&& r.context == k_input.context
    &&& r.context == q_output.context
    &&& r.context == k_output.context
}

/// The message where they are not.
pub open spec fn rope_unshared() -> Seq<char> {
    "GPU Q/K RMSNorm+RoPE resident path requires shared GpuContext"@
}

/// Why resident queries and keys cannot be normed and rotated.
pub open spec fn rope_cache_error(
    r: GpuQkRmsNormRope,
    q_input: GpuResidentBuffer,
    k_input: GpuResidentBuffer,
    q_output: GpuResidentBuffer,
    k_output: GpuResidentBuffer,
) -> Option<Seq<char>> {
    if !rope_shared(r, q_input, k_input, q_output, k_output) {
        Some(rope_unshared())
    } else if q_input.shape@ != r.q.shape@ || q_output.shape@ != r.q.shape@ {
        Some(
            "GPU Q RMSNorm+RoPE resident shape mismatch: input="@ + text::bracketed(q_input.shape@)
                + ", output="@ + text::bracketed(q_output.shape@) + ", expected "@
                + text::bracketed(r.q.shape@),
        )
    } else if k_input.shape@ != r.k.shape@ || k_output.shape@ != r.k.shape@ {
        Some(
            "GPU K RMSNorm+RoPE resident shape mismatch: input="@ + text::bracketed(k_input.shape@)
                + ", output="@ + text::bracketed(k_output.shape@) + ", expected "@
                + text::bracketed(r.k.shape@),
        )
    } else {
        None
    }
}

/// The buffers for resident queries and keys.
pub open spec fn rope_cache(
    r: GpuQkRmsNormRope,
    q_input: GpuResidentBuffer,
    k_input: GpuResidentBuffer,
    q_output: GpuResidentBuffer,
    k_output: GpuResidentBuffer,
    position: usize,
) -> GpuQkRmsNormRopeResidentCache {
    GpuQkRmsNormRopeResidentCache {
        q: GpuRopeBinds {
            input: q_input.buffer,
            weight: r.q.weight_buffer,
            inv_freq: r.inv_freq_buffer,
            output: q_output.buffer,
            params: r.q.params_buffer,
            position,
        },
        k: GpuRopeBinds {
            input: k_input.buffer,
            weight: r.k.weight_buffer,
            inv_freq: r.inv_freq_buffer,
            output: k_output.buffer,
            params: r.k.params_buffer,
            position,
        },
        position_buffer: position,
    }
}

/// The runs for resident queries and keys.
pub open spec fn rope_commands(r: GpuQkRmsNormRope, c: GpuQkRmsNormRopeResidentCache) -> Seq<
    GpuCommand,
> {
    seq![
        context::run(GpuPipeline::RmsNormRope, rope_group(c.q), r.q.rows as u32),
        context::run(GpuPipeline::RmsNormRope, rope_group(c.k), r.k.rows as u32),
    ]
}

impl GpuRopeSide {
    /// The rows and their length are those of the shape.
    pub open spec fn well_formed(&self) -> bool {
        &&& self.shape@.len() > 0
        &&& self.head_dim == self.shape@.last()
        &&& self.rows == rows_in(self.shape@)
        &&& self.rows * self.head_dim <= usize::MAX
    }

    fn create(context: &mut GpuContext, weight: &Tensor, shape: &[usize], eps: u32) -> (r:
        GpuRopeSide)
        requires
            shape@.len() > 0,
            resident::shape_fits(shape@),
        ensures
            is_side(r, old(context)@.buffers.len(), shape@),
            final(context)@ == side_made(
                old(context)@,
                resident::contiguous(*weight),
                shape@,
                eps,
            ),
    {
        let head_dim: usize = shape[shape.len() - 1];
        let rows: usize = leading_rows(shape);
        let numel: usize = shape_numel(shape);
        let input_buffer: usize = context.create_buffer(numel, GpuUsage::Input);
        let weight_buffer: usize = context.create_buffer_init(
            vstd::slice::slice_to_vec(weight.as_slice()),
            GpuUsage::Weight,
        );
        let output_buffer: usize = context.create_buffer(numel, GpuUsage::Output);
        let readback_buffer: usize = context.create_buffer(numel, GpuUsage::Readback);
        let params: Vec<u32> = vec![head_dim as u32, rows as u32, (head_dim / 2) as u32, eps];
        assert(params@ =~= seq![
            shape@.last() as u32,
            rows_in(shape@) as u32,
            (shape@.last() / 2) as u32,
            eps,
        ]);
        let params_buffer: usize = context.create_buffer_init(params, GpuUsage::MutableParams);
        GpuRopeSide {
            input_buffer,
            weight_buffer,
            output_buffer,
            readback_buffer,
            params_buffer,
            shape: vstd::slice::slice_to_vec(shape),
            rows,
            head_dim,
        }
    }
}

fn rope_binds(
    r: &GpuQkRmsNormRope,
    s: &GpuRopeSide,
    input: usize,
    output: usize,
    position: usize,
) -> (b: GpuRopeBinds)
    ensures
        b == (GpuRopeBinds {
            input,
            weight: s.weight_buffer,
            inv_freq: r.inv_freq_buffer,
            output,
            params: s.params_buffer,
            position,
        }),
{
    GpuRopeBinds {
        input,
        weight: s.weight_buffer,
        inv_freq: r.inv_freq_buffer,
        output,
        params: s.params_buffer,
        position,
    }
}

fn dispatch_rope(pass: &mut GpuEncoder, b: GpuRopeBinds, rows: usize)
    ensures
        final(pass)@ == old(pass)@.push(
            context::run(GpuPipeline::RmsNormRope, rope_group(b), rows as u32),
        ),
{
    pass.dispatch(
        GpuPipeline::RmsNormRope,
        GpuBindGroup::RmsNormRope {
            input: b.input,
            weight: b.weight,
            inv_freq: b.inv_freq,
            output: b.output,
            params: b.params,
            position: b.position,
        },
        rows as u32,
    );
}

impl GpuQkRmsNormRope {
    /// The rows and their lengths are those of the shapes.
    pub open spec fn well_formed(&self) -> bool {
        self.q.well_formed() && self.k.well_formed()
    }

    /// Makes what norms with rotation need.
    pub fn with_context(context: &mut GpuContext, config: GpuQkRmsNormRopeConfig<'_>) -> (r: Result<
        GpuQkRmsNormRope,
        String,
    >)
        requires
            resident::shape_fits(config.q_shape@),
            resident::shape_fits(config.k_shape@),
        ensures
            match r {
                Ok(s) => {
                    let first = old(context)@.buffers.len();
                    &&& rope_error(config) is None
                    &&& s.context == old(context)@.id
                    &&& s.inv_freq_buffer == first
                    &&& is_side(s.q, first + 1, config.q_shape@)
                    &&& s.position_buffer == first + 6
                    &&& is_side(s.k, first + 7, config.k_shape@)
                    &&& final(context)@ == rope_made(old(context)@, config)
                },
                Err(e) => {
                    &&& rope_error(config) == Some(e@)
                    &&& final(context)@ == old(context)@
                },
            },
    {
        let q_shape = config.q_shape;
        let k_shape = config.k_shape;
        if q_shape.len() == 0 {
            return Err("GPU Q RMSNorm+RoPE expects at least 1D shape".to_owned());
        }
        if k_shape.len() == 0 {
            return Err("GPU K RMSNorm+RoPE expects at least 1D shape".to_owned());
        }
        let q_head_dim: usize = q_shape[q_shape.len() - 1];
        let k_head_dim: usize = k_shape[k_shape.len() - 1];
        if q_head_dim != k_head_dim {
            return Err(
                two_sizes(
                    "GPU Q/K RMSNorm+RoPE head_dim mismatch: q=",
                    q_head_dim,
                    ", k=",
                    k_head_dim,
                ),
            );
        }
        if q_head_dim % 2 != 0 {
            let mut s = "GPU Q/K RMSNorm+RoPE requires even head_dim, got ".to_owned();
            text::push_size(&mut s, q_head_dim);
            return Err(s);
        }
        let half_dim: usize = q_head_dim / 2;
        if config.inv_freq.len() != half_dim {
            return Err(
                two_sizes(
                    "GPU Q/K RMSNorm+RoPE inv_freq length mismatch: got ",
                    config.inv_freq.len(),
                    ", expected ",
                    half_dim,
                ),
            );
        }
        if !check_weight(config.q_weight, q_head_dim) {
            return Err(
                shape_and_len(
                    "GPU Q RMSNorm+RoPE weight shape mismatch: got ",
                    config.q_weight.shape(),
                    q_head_dim,
                ),
            );
        }
        if !check_weight(config.k_weight, k_head_dim) {
            return Err(
                shape_and_len(
                    "GPU K RMSNorm+RoPE weight shape mismatch: got ",
                    config.k_weight.shape(),
                    k_head_dim,
                ),
            );
        }
        let inv_freq_buffer: usize = context.create_buffer_init(
            vstd::slice::slice_to_vec(config.inv_freq),
            GpuUsage::Weight,
        );
        let q = GpuRopeSide::create(context, config.q_weight, q_shape, config.q_eps);
        let position: Vec<u32> = vec![config.pos as u32, 0, 0, 0];
        assert(position@ =~= context::position_words(config.pos));
        let position_buffer: usize = context.create_buffer_init(position, GpuUsage::MutableParams);
        let k = GpuRopeSide::create(context, config.k_weight, k_shape, config.k_eps);
        Ok(GpuQkRmsNormRope { context: context.id, inv_freq_buffer, position_buffer, q, k })
    }

    /// Norms and rotates queries and keys; the results are read from the buffers returned.
    pub fn forward(&self, context: &mut GpuContext, q: &Tensor, k: &Tensor) -> (r: Result<
        (usize, usize),
        String,
    >)
        requires
            old(context)@.id == self.context,
            self.well_formed(),
        ensures
            match r {
                Ok(b) => {
                    &&& rope_input_error(*self, *q, *k) is None
                    &&& b == (self.q.readback_buffer, self.k.readback_buffer)
                    &&& final(context)@ == rope_run(
                        old(context)@,
                        *self,
                        resident::contiguous(*q),
                        resident::contiguous(*k),
                    )
                },
                Err(e) => {
                    &&& rope_input_error(*self, *q, *k) == Some(e@)
                    &&& final(context)@ == old(context)@
                },
            },
    {
        if !same_shape(q.shape(), &self.q.shape) {
            return Err(
                two_shapes(
                    "GPU Q RMSNorm+RoPE input shape mismatch: got ",
                    q.shape(),
                    ", expected ",
                    &self.q.shape,
                ),
            );
        }
        if !same_shape(k.shape(), &self.k.shape) {
            return Err(
                two_shapes(
                    "GPU K RMSNorm+RoPE input shape mismatch: got ",
                    k.shape(),
                    ", expected ",
                    &self.k.shape,
                ),
            );
        }
        let q_words = q.as_slice();
        let k_words = k.as_slice();
        let q_expected: usize = self.q.rows * self.q.head_dim;
        let k_expected: usize = self.k.rows * self.k.head_dim;
        if q_words.len() != q_expected {
            return Err(
                two_sizes(
                    "GPU Q RMSNorm+RoPE input length mismatch: got ",
                    q_words.len(),
                    ", expected ",
                    q_expected,
                ),
            );
        }
        if k_words.len() != k_expected {
            return Err(
                two_sizes(
                    "GPU K RMSNorm+RoPE input length mismatch: got ",
                    k_words.len(),
                    ", expected ",
                    k_expected,
                ),
            );
        }
        context.write_buffer(
            self.q.input_buffer,
            vstd::slice::slice_to_vec(q_words),
            GpuWrite::Host,
        );
        context.write_buffer(
            self.k.input_buffer,
            vstd::slice::slice_to_vec(k_words),
            GpuWrite::Host,
        );
        let mut encoder = context.create_command_encoder();
        let q_binds = rope_binds(
            self,
            &self.q,
            self.q.input_buffer,
            self.q.output_buffer,
            self.position_buffer,
        );
        let k_binds = rope_binds(
            self,
            &self.k,
            self.k.input_buffer,
            self.k.output_buffer,
            self.position_buffer,
        );
        encoder.begin_compute_pass();
        dispatch_rope(&mut encoder, q_binds, self.q.rows);
        encoder.begin_compute_pass();
        dispatch_rope(&mut encoder, k_binds, self.k.rows);
        encoder.copy_buffer(self.q.output_buffer, self.q.readback_buffer, 0, q_expected);
        encoder.copy_buffer(self.k.output_buffer, self.k.readback_buffer, 0, k_expected);
        let list: Vec<usize> = vec![self.q.readback_buffer, self.k.readback_buffer];
        proof {
            assert(list@ =~= seq![self.q.readback_buffer, self.k.readback_buffer]);
            assert(encoder@ =~= seq![
                GpuCommand::BeginPass,
                context::run(
                    GpuPipeline::RmsNormRope,
                    rope_group(side_binds(*self, self.q)),
                    self.q.rows as u32,
                ),
                GpuCommand::BeginPass,
                context::run(
                    GpuPipeline::RmsNormRope,
                    rope_group(side_binds(*self, self.k)),
                    self.k.rows as u32,
                ),
                context::copy(self.q.output_buffer, self.q.readback_buffer, 0, q_expected),
                context::copy(self.k.output_buffer, self.k.readback_buffer, 0, k_expected),
            ]);
        }
        context.submit_and_map(encoder, &list);
        Ok((self.q.readback_buffer, self.k.readback_buffer))
    }

    /// The results, from what was read.
    pub fn forward_outputs(&self, q: Vec<u32>, k: Vec<u32>) -> (r: Result<(Tensor, Tensor), String>)
        ensures
            match r {
                Ok(t) => {
                    &&& context::tensor_failure(self.q.shape@, q@.len()) is None
                    &&& context::tensor_failure(self.k.shape@, k@.len()) is None
                    &&& t.0.dims() == self.q.shape@ && t.0.values() == q@
                    &&& t.1.dims() == self.k.shape@ && t.1.values() == k@
                },
                Err(e) => match context::tensor_failure(self.q.shape@, q@.len()) {
                    Some(m) => e@ == m,
                    None => context::tensor_failure(self.k.shape@, k@.len()) == Some(e@),
                },
            },
    {
        match tensor_from_words(&self.q.shape, q) {
            Ok(a) => match tensor_from_words(&self.k.shape, k) {
                Ok(b) => Ok((a, b)),
                Err(e) => Err(e),
            },
            Err(e) => Err(e),
        }
    }

    fn on_device(
        &self,
        q_input: &GpuResidentBuffer,
        k_input: &GpuResidentBuffer,
        q_output: &GpuResidentBuffer,
        k_output: &GpuResidentBuffer,
    ) -> (r: bool)
        ensures
            r == rope_shared(*self, *q_input, *k_input, *q_output, *k_output),
    {
        self.context == q_input.context && self.context == k_input.context && self.context
            == q_output.context && self.context == k_output.context
    }

    /// The buffers for resident queries and keys at the layer's own position.
    pub fn prepare_resident_cache(
        &self,
        q_input: &GpuResidentBuffer,
        k_input: &GpuResidentBuffer,
        q_output: &GpuResidentBuffer,
        k_output: &GpuResidentBuffer,
    ) -> (r: Result<GpuQkRmsNormRopeResidentCache, String>)
        ensures
            match r {
                Ok(c) => {
                    &&& rope_cache_error(*self, *q_input, *k_input, *q_output, *k_output) is None
                    &&& c == rope_cache(
                        *self,
                        *q_input,
                        *k_input,
                        *q_output,
                        *k_output,
                        self.position_buffer,
                    )
                },
                Err(e) => rope_cache_error(*self, *q_input, *k_input, *q_output, *k_output) == Some(
                    e@,
                ),
            },
    {
        self.prepare_resident_cache_with_position_buffer(
            q_input,
            k_input,
            q_output,
            k_output,
            self.position_buffer,
        )
    }

    /// The buffers for resident queries and keys at the position in the given uniform.
    pub fn prepare_resident_cache_with_position_buffer(
        &self,
        q_input: &GpuResidentBuffer,
        k_input: &GpuResidentBuffer,
        q_output: &GpuResidentBuffer,
        k_output: &GpuResidentBuffer,
        position_buffer: usize,
    ) -> (r: Result<GpuQkRmsNormRopeResidentCache, String>)
        ensures
            match r {
                Ok(c) => {
                    &&& rope_cache_error(*self, *q_input, *k_input, *q_output, *k_output) is None
                    &&& c == rope_cache(
                        *self,
                        *q_input,
                        *k_input,
                        *q_output,
                        *k_output,
                        position_buffer,
                    )
                },
                Err(e) => rope_cache_error(*self, *q_input, *k_input, *q_output, *k_output) == Some(
                    e@,
                ),
            },
    {
        if !self.on_device(q_input, k_input, q_output, k_output) {
            return Err("GPU Q/K RMSNorm+RoPE resident path requires shared GpuContext".to_owned());
        }
        if !same_shape(&q_input.shape, &self.q.shape) || !same_shape(
            &q_output.shape,
            &self.q.shape,
        ) {
            return Err(
                three_shapes(
                    "GPU Q RMSNorm+RoPE resident shape mismatch: input=",
                    &q_input.shape,
                    ", output=",
                    &q_output.shape,
                    ", expected ",
                    &self.q.shape,
                ),
            );
        }
        if !same_shape(&k_input.shape, &self.k.shape) || !same_shape(
            &k_output.shape,
            &self.k.shape,
        ) {
            return Err(
                three_shapes(
                    "GPU K RMSNorm+RoPE resident shape mismatch: input=",
                    &k_input.shape,
                    ", output=",
                    &k_output.shape,
                    ", expected ",
                    &self.k.shape,
                ),
            );
        }
        Ok(
            GpuQkRmsNormRopeResidentCache {
                q: rope_binds(self, &self.q, q_input.buffer, q_output.buffer, position_buffer),
                k: rope_binds(self, &self.k, k_input.buffer, k_output.buffer, position_buffer),
                position_buffer,
            },
        )
    }

    /// Norms and rotates resident queries and keys, in a pass of its own.
    pub fn encode_resident(
        &self,
        encoder: &mut GpuEncoder,
        q_input: &GpuResidentBuffer,
        k_input: &GpuResidentBuffer,
        q_output: &GpuResidentBuffer,
        k_output: &GpuResidentBuffer,
    ) -> (r: Result<(), String>)
        ensures
            match r {
                Ok(()) => {
                    let c = rope_cache(
                        *self,
                        *q_input,
                        *k_input,
                        *q_output,
                        *k_output,
                        self.position_buffer,
                    );
                    &&& rope_cache_error(*self, *q_input, *k_input, *q_output, *k_output) is None
                    &&& final(encoder)@ == old(encoder)@.push(GpuCommand::BeginPass)
                        + rope_commands(*self, c)
                },
                Err(e) => {
                    &&& rope_cache_error(*self, *q_input, *k_input, *q_output, *k_output) == Some(
                        e@,
                    )
                    &&& final(encoder)@ == old(encoder)@
                },
            },
    {
        match self.prepare_resident_cache(q_input, k_input, q_output, k_output) {
            Ok(cache) => self.encode_resident_with_cache(
                encoder,
                q_input,
                k_input,
                q_output,
                k_output,
                &cache,
            ),
            Err(e) => Err(e),
        }
    }

    /// Stores a position, then norms and rotates resident queries and keys.
    pub fn encode_resident_at_pos(
        &self,
        context: &mut GpuContext,
        encoder: &mut GpuEncoder,
        q_input: &GpuResidentBuffer,
        k_input: &GpuResidentBuffer,
        q_output: &GpuResidentBuffer,
        k_output: &GpuResidentBuffer,
        pos: usize,
    ) -> (r: Result<(), String>)
        requires
            old(context)@.id == self.context,
        ensures
            final(context)@ == context::positioned(old(context)@, self.position_buffer, pos),
            match r {
                Ok(()) => {
                    let c = rope_cache(
                        *self,
                        *q_input,
                        *k_input,
                        *q_output,
                        *k_output,
                        self.position_buffer,
                    );
                    &&& rope_cache_error(*self, *q_input, *k_input, *q_output, *k_output) is None
                    &&& final(encoder)@ == old(encoder)@.push(GpuCommand::BeginPass)
                        + rope_commands(*self, c)
                },
                Err(e) => {
                    &&& rope_cache_error(*self, *q_input, *k_input, *q_output, *k_output) == Some(
                        e@,
                    )
                    &&& final(encoder)@ == old(encoder)@
                },
            },
    {
        context.write_position(self.position_buffer, pos);
        self.encode_resident(encoder, q_input, k_input, q_output, k_output)
    }

    /// Stores a position, then norms and rotates resident queries and keys with prepared buffers.
    pub fn encode_resident_at_pos_with_cache(
        &self,
        context: &mut GpuContext,
        encoder: &mut GpuEncoder,
        q_input: &GpuResidentBuffer,
        k_input: &GpuResidentBuffer,
        q_output: &GpuResidentBuffer,
        k_output: &GpuResidentBuffer,
        pos: usize,
        cache: &GpuQkRmsNormRopeResidentCache,
    ) -> (r: Result<(), String>)
        requires
            old(context)@.id == self.context,
        ensures
            final(context)@ == context::positioned(old(context)@, cache.position_buffer, pos),
            match r {
                Ok(()) => {
                    &&& rope_shared(*self, *q_input, *k_input, *q_output, *k_output)
                    &&& final(encoder)@ == old(encoder)@.push(GpuCommand::BeginPass)
                        + rope_commands(*self, *cache)
                },
                Err(e) => {
                    &&& !rope_shared(*self, *q_input, *k_input, *q_output, *k_output)
                    &&& e@ == rope_unshared()
                    &&& final(encoder)@ == old(encoder)@
                },
            },
    {
        context.write_position(cache.position_buffer, pos);
        self.encode_resident_with_cache(encoder, q_input, k_input, q_output, k_output, cache)
    }

    /// Stores a position where prepared buffers look for it.
    pub fn write_resident_position_with_cache(
        &self,
        context: &mut GpuContext,
        pos: usize,
        cache: &GpuQkRmsNormRopeResidentCache,
    )
        requires
            old(context)@.id == self.context,
        ensures
            final(context)@ == context::positioned(old(context)@, cache.position_buffer, pos),
    {
        context.write_position(cache.position_buffer, pos);
    }

    /// Norms and rotates resident queries and keys with prepared buffers, in a pass of its own.
    pub fn encode_resident_with_cache(
        &self,
        encoder: &mut GpuEncoder,
        q_input: &GpuResidentBuffer,
        k_input: &GpuResidentBuffer,
        q_output: &GpuResidentBuffer,
        k_output: &GpuResidentBuffer,
        cache: &GpuQkRmsNormRopeResidentCache,
    ) -> (r: Result<(), String>)
        ensures
            match r {
                Ok(()) => {
                    &&& rope_shared(*self, *q_input, *k_input, *q_output, *k_output)
                    &&& final(encoder)@ == old(encoder)@.push(GpuCommand::BeginPass)
                        + rope_commands(*self, *cache)
                },
                Err(e) => {
                    &&& !rope_shared(*self, *q_input, *k_input, *q_output, *k_output)
                    &&& e@ == rope_unshared()
                    &&& final(encoder)@ == old(encoder)@
                },
            },
    {
        if !self.on_device(q_input, k_input, q_output, k_output) {
            return Err("GPU Q/K RMSNorm+RoPE resident path requires shared GpuContext".to_owned());
        }
        encoder.begin_compute_pass();
        self.encode_resident_in_pass_cached(encoder, q_input, k_input, q_output, k_output, cache)
    }

    /// Stores a position, then norms and rotates in the pass that was started.
    pub fn encode_resident_at_pos_with_cache_in_pass(
        &self,
        context: &mut GpuContext,
        pass: &mut GpuEncoder,
        q_input: &GpuResidentBuffer,
        k_input: &GpuResidentBuffer,
        q_output: &GpuResidentBuffer,
        k_output: &GpuResidentBuffer,
        pos: usize,
        cache: &GpuQkRmsNormRopeResidentCache,
    ) -> (r: Result<(), String>)
        requires
            old(context)@.id == self.context,
        ensures
            final(context)@ == context::positioned(old(context)@, cache.position_buffer, pos),
            match r {
                Ok(()) => {
                    &&& rope_shared(*self, *q_input, *k_input, *q_output, *k_output)
                    &&& final(pass)@ == old(pass)@ + rope_commands(*self, *cache)
                },
                Err(e) => {
                    &&& !rope_shared(*self, *q_input, *k_input, *q_output, *k_output)
                    &&& e@ == rope_unshared()
                    &&& final(pass)@ == old(pass)@
                },
            },
    {
        context.write_position(cache.position_buffer, pos);
        self.encode_resident_in_pass_cached(pass, q_input, k_input, q_output, k_output, cache)
    }

    /// Norms and rotates resident queries and keys with prepared buffers, in the pass that was
    /// started.
    pub fn encode_resident_in_pass_cached(
        &self,
        pass: &mut GpuEncoder,
        q_input: &GpuResidentBuffer,
        k_input: &GpuResidentBuffer,
        q_output: &GpuResidentBuffer,
        k_output: &GpuResidentBuffer,
        cache: &GpuQkRmsNormRopeResidentCache,
    ) -> (r: Result<(), String>)
        ensures
            match r {
                Ok(()) => {
                    &&& rope_shared(*self, *q_input, *k_input, *q_output, *k_output)
                    &&& final(pass)@ == old(pass)@ + rope_commands(*self, *cache)
                },
                Err(e) => {
                    &&& !rope_shared(*self, *q_input, *k_input, *q_output, *k_output)
                    &&& e@ == rope_unshared()
                    &&& final(pass)@ == old(pass)@
                },
            },
    {
        if !self.on_device(q_input, k_input, q_output, k_output) {
            return Err("GPU Q/K RMSNorm+RoPE resident path requires shared GpuContext".to_owned());
        }
        dispatch_rope(pass, cache.q, self.q.rows);
        dispatch_rope(pass, cache.k, self.k.rows);
        assert(pass@ =~= old(pass)@ + rope_commands(*self, *cache));
        Ok(())
    }
}

} // verus!
