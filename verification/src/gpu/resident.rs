//! Values that stay on the device, and the sum of two of them.

use vstd::prelude::*;
use vstd::string::*;

use crate::gpu::context;
use crate::gpu::context::{
    tensor_from_words, workgroups_for, GpuBindGroup, GpuCommand, GpuContext, GpuEncoder, GpuPipeline,
    GpuUsage, GpuWrite,
};
use crate::tensor::array;
use crate::tensor::array::checked_numel;
use crate::tensor::Tensor;
use crate::text;

verus! {

/// A value that stays on the device.
#[derive(Debug)]
pub struct GpuResidentBuffer {
    pub context: u64,
    pub buffer: usize,
    pub shape: Vec<usize>,
    pub len: usize,
}

/// The position of the current token, for kernels that share it.
#[derive(Debug)]
pub struct GpuPositionUniform {
    pub context: u64,
    pub buffer: usize,
}

/// The sum of two values of one shape.
#[derive(Debug)]
pub struct GpuResidualAdd {
    pub context: u64,
    pub lhs_buffer: usize,
    pub rhs_buffer: usize,
    pub output_buffer: usize,
    pub readback_buffer: usize,
    pub params_buffer: usize,
    pub shape: Vec<usize>,
    pub len: usize,
}

/// The buffers of a sum of resident values.
#[derive(Clone, Copy, Debug)]
pub struct GpuResidualAddResidentCache {
    pub lhs: usize,
    pub rhs: usize,
    pub output: usize,
    pub params: usize,
}

/// The bytes of a value of the given shape can be counted.
pub open spec fn shape_fits(shape: Seq<usize>) -> bool {
    array::extent(shape) * 4 <= usize::MAX
}

/// The number of elements of a shape.
pub fn shape_numel(shape: &[usize]) -> (r: usize)
    requires
        shape_fits(shape@),
    ensures
        r == array::numel(shape@),
        r * 4 <= usize::MAX,
{
    proof {
        array::lemma_numel_extent(shape@);
    }
    match checked_numel(shape) {
        Some(n) => n,
        None => 0,
    }
}

/// Whether two shapes are the same.
pub fn same_shape(a: &[usize], b: &[usize]) -> (r: bool)
    ensures
        r == (a@ == b@),
{
    if a.len() != b.len() {
        return false;
    }
    let mut i: usize = 0;
    while i < a.len()
        invariant
            i <= a@.len(),
            a@.len() == b@.len(),
            forall|j: int| 0 <= j < i ==> a@[j] == b@[j],
        decreases a@.len() - i,
    {
        if a[i] != b[i] {
            return false;
        }
        i += 1;
    }
    assert(a@ =~= b@);
    true
}

/// The words of a tensor that lie in order in memory; none where they do not.
pub open spec fn contiguous(t: Tensor) -> Seq<u32> {
    if t.row_major() {
        t.values()
    } else {
        Seq::empty()
    }
}

/// A message that names two shapes.
pub fn two_shapes(head: &str, a: &[usize], middle: &str, b: &[usize]) -> (r: String)
    ensures
        r@ == head@ + text::bracketed(a@) + middle@ + text::bracketed(b@),
{
    let mut s = head.to_owned();
    text::push_shape(&mut s, a);
    s.append(middle);
    text::push_shape(&mut s, b);
    s
}

/// A message that names two numbers.
pub fn two_sizes(head: &str, a: usize, middle: &str, b: usize) -> (r: String)
    ensures
        r@ == head@ + text::dec(a as nat) + middle@ + text::dec(b as nat),
{
    let mut s = head.to_owned();
    text::push_size(&mut s, a);
    s.append(middle);
    text::push_size(&mut s, b);
    s
}

/// A message that names three numbers.
pub fn three_sizes(head: &str, a: usize, middle: &str, b: usize, end: &str, c: usize) -> (r: String)
    ensures
        r@ == head@ + text::dec(a as nat) + middle@ + text::dec(b as nat) + end@ + text::dec(
            c as nat,
        ),
{
    let mut s = two_sizes(head, a, middle, b);
    s.append(end);
    text::push_size(&mut s, c);
    s
}

/// A message that names three shapes.
pub fn three_shapes(
    head: &str,
    a: &[usize],
    middle: &str,
    b: &[usize],
    end: &str,
    c: &[usize],
) -> (r: String)
    ensures
        r@ == head@ + text::bracketed(a@) + middle@ + text::bracketed(b@) + end@ + text::bracketed(
            c@,
        ),
{
    let mut s = two_shapes(head, a, middle, b);
    s.append(end);
    text::push_shape(&mut s, c);
    s
}

/// Why a tensor cannot be stored in a resident value.
pub open spec fn upload_error(shape: Seq<usize>, len: usize, t: Tensor) -> Option<Seq<char>> {
    if t.dims() != shape {
        Some(
            "GPU resident buffer upload shape mismatch: got "@ + text::bracketed(t.dims())
                + ", expected "@ + text::bracketed(shape),
        )
    } else if contiguous(t).len() != len {
        Some(
            "GPU resident buffer upload length mismatch: got "@ + text::dec(contiguous(t).len())
                + ", expected "@ + text::dec(len as nat),
        )
    } else {
        None
    }
}

/// Why one resident value cannot be copied to another.
pub open spec fn copy_error(a: GpuResidentBuffer, b: GpuResidentBuffer) -> Option<Seq<char>> {
    if a.context != b.context {
        Some("GPU resident buffer copy requires shared GpuContext"@)
    } else if a.shape@ != b.shape@ || a.len != b.len {
        Some(
            "GPU resident buffer copy shape mismatch: src="@ + text::bracketed(a.shape@) + ", dst="@
                + text::bracketed(b.shape@),
        )
    } else {
        None
    }
}

impl GpuResidentBuffer {
    /// As many elements as the shape says, and at least one.
    pub open spec fn well_formed(&self) -> bool {
        &&& self.len == array::numel(self.shape@)
        &&& self.len > 0
    }

    /// Makes a value of the given shape.
    pub fn with_context(context: &mut GpuContext, shape: &[usize]) -> (r: Result<
        GpuResidentBuffer,
        String,
    >)
        requires
            shape_fits(shape@),
        ensures
            match r {
                Ok(b) => {
                    &&& array::numel(shape@) > 0
                    &&& b.context == old(context)@.id
                    &&& b.buffer == context::fresh(old(context)@)
                    &&& b.shape@ == shape@
                    &&& b.len == array::numel(shape@)
                    &&& final(context)@ == context::made(old(context)@, b.len, GpuUsage::Resident)
                },
                Err(e) => {
                    &&& array::numel(shape@) == 0
                    &&& e@ == "GPU resident buffer requires non-empty shape"@
                    &&& final(context)@ == old(context)@
                },
            },
    {
        let len: usize = shape_numel(shape);
        if len == 0 {
            return Err("GPU resident buffer requires non-empty shape".to_owned());
        }
        let buffer: usize = context.create_buffer(len, GpuUsage::Resident);
        Ok(
            GpuResidentBuffer {
                context: context.id,
                buffer,
                shape: vstd::slice::slice_to_vec(shape),
                len,
            },
        )
    }

    /// Makes a value and stores a tensor in it.
    pub fn from_tensor(context: &mut GpuContext, tensor: &Tensor) -> (r: Result<
        GpuResidentBuffer,
        String,
    >)
        requires
            shape_fits(tensor.dims()),
        ensures
            match r {
                Ok(b) => {
                    let made = context::made(old(context)@, b.len, GpuUsage::Resident);
                    &&& array::numel(tensor.dims()) > 0
                    &&& tensor.row_major()
                    &&& b.context == old(context)@.id
                    &&& b.buffer == context::fresh(old(context)@)
                    &&& b.shape@ == tensor.dims()
                    &&& b.len == array::numel(tensor.dims())
                    &&& final(context)@ == context::written(
                        made,
                        b.buffer,
                        tensor.values(),
                        GpuWrite::Uncounted,
                    )
                },
                Err(e) => {
                    let n = array::numel(tensor.dims());
                    if n == 0 {
                        &&& e@ == "GPU resident buffer requires non-empty shape"@
                        &&& final(context)@ == old(context)@
                    } else {
                        &&& !tensor.row_major()
                        &&& e@ == "GPU resident buffer upload length mismatch: got "@ + text::dec(0)
                            + ", expected "@ + text::dec(n)
                        &&& final(context)@ == context::made(
                            old(context)@,
                            n as usize,
                            GpuUsage::Resident,
                        )
                    }
                },
            },
    {
        let shape = tensor.shape();
        match GpuResidentBuffer::with_context(context, shape) {
            Ok(b) => match b.upload(context, tensor) {
                Ok(()) => Ok(b),
                Err(e) => Err(e),
            },
            Err(e) => Err(e),
        }
    }

    /// The number of elements.
    pub fn len(&self) -> (r: usize)
        ensures
            r == self.len,
    {
        self.len
    }

    /// Whether there are none.
    pub fn is_empty(&self) -> (r: bool)
        ensures
            r == (self.len == 0),
    {
        self.len == 0
    }

    /// Stores a tensor.
    pub fn upload(&self, context: &mut GpuContext, tensor: &Tensor) -> (r: Result<(), String>)
        requires
            old(context)@.id == self.context,
        ensures
            match r {
                Ok(()) => {
                    &&& upload_error(self.shape@, self.len, *tensor) is None
                    &&& final(context)@ == context::written(
                        old(context)@,
                        self.buffer,
                        contiguous(*tensor),
                        GpuWrite::Uncounted,
                    )
                },
                Err(e) => {
                    &&& upload_error(self.shape@, self.len, *tensor) == Some(e@)
                    &&& final(context)@ == old(context)@
                },
            },
    {
        if !same_shape(tensor.shape(), &self.shape) {
            return Err(
                two_shapes(
                    "GPU resident buffer upload shape mismatch: got ",
                    tensor.shape(),
                    ", expected ",
                    &self.shape,
                ),
            );
        }
        let words = tensor.as_slice();
        if words.len() != self.len {
            return Err(
                two_sizes(
                    "GPU resident buffer upload length mismatch: got ",
                    words.len(),
                    ", expected ",
                    self.len,
                ),
            );
        }
        context.write_buffer(
            self.buffer,
            vstd::slice::slice_to_vec(words),
            GpuWrite::Uncounted,
        );
        Ok(())
    }

    /// Copies the value to another one.
    pub fn encode_copy_to(&self, encoder: &mut GpuEncoder, dest: &GpuResidentBuffer) -> (r: Result<
        (),
        String,
    >)
        ensures
            match r {
                Ok(()) => {
                    &&& copy_error(*self, *dest) is None
                    &&& final(encoder)@ == old(encoder)@.push(
                        context::copy(self.buffer, dest.buffer, 0, self.len),
                    )
                },
                Err(e) => {
                    &&& copy_error(*self, *dest) == Some(e@)
                    &&& final(encoder)@ == old(encoder)@
                },
            },
    {
        if self.context != dest.context {
            return Err("GPU resident buffer copy requires shared GpuContext".to_owned());
        }
        if !same_shape(&self.shape, &dest.shape) || self.len != dest.len {
            return Err(
                two_shapes(
                    "GPU resident buffer copy shape mismatch: src=",
                    &self.shape,
                    ", dst=",
                    &dest.shape,
                ),
            );
        }
        encoder.copy_buffer(self.buffer, dest.buffer, 0, self.len);
        Ok(())
    }

    /// Has the value copied to a buffer that is made for it, from which it is then read.
    pub fn read_back(&self, context: &mut GpuContext) -> (r: usize)
        requires
            old(context)@.id == self.context,
        ensures
            r == context::fresh(old(context)@),
            final(context)@ == context::read_back(
                context::made(old(context)@, self.len, GpuUsage::Readback),
                seq![context::copy(self.buffer, r, 0, self.len)],
                seq![r],
            ),
    {
        let readback: usize = context.create_buffer(self.len, GpuUsage::Readback);
        let mut encoder = context.create_command_encoder();
        encoder.copy_buffer(self.buffer, readback, 0, self.len);
        assert(encoder@ =~= seq![context::copy(self.buffer, readback, 0, self.len)]);
        let list: Vec<usize> = vec![readback];
        assert(list@ =~= seq![readback]);
        context.submit_and_map(encoder, &list);
        readback
    }

    /// The value, from what was read; the buffer is given up.
    pub fn read_back_output(&self, context: &mut GpuContext, readback: usize, words: Vec<u32>) -> (r:
        Result<Tensor, String>)
        ensures
            final(context)@ == context::with_op(
                old(context)@,
                context::OpView::Release(readback),
            ),
            match r {
                Ok(t) => {
                    &&& context::tensor_failure(self.shape@, words@.len()) is None
                    &&& t.dims() == self.shape@
                    &&& t.values() == words@
                },
                Err(e) => context::tensor_failure(self.shape@, words@.len()) == Some(e@),
            },
    {
        context.release_buffer(readback);
        tensor_from_words(&self.shape, words)
    }
}

/// Making a buffer for each of some values, to read them from.
pub open spec fn readbacks_made(c: context::ContextView, b: Seq<&GpuResidentBuffer>)
    -> context::ContextView
    decreases b.len(),
{
    if b.len() == 0 {
        c
    } else {
        context::made(readbacks_made(c, b.drop_last()), b.last().len, GpuUsage::Readback)
    }
}

/// The buffers made for some values.
pub open spec fn readback_ids(c: context::ContextView, b: Seq<&GpuResidentBuffer>) -> Seq<usize>
    decreases b.len(),
{
    if b.len() == 0 {
        Seq::empty()
    } else {
        readback_ids(c, b.drop_last()).push(context::fresh(readbacks_made(c, b.drop_last())))
    }
}

/// The copies that fill the buffers made for some values.
pub open spec fn readback_copies(c: context::ContextView, b: Seq<&GpuResidentBuffer>) -> Seq<
    GpuCommand,
>
    decreases b.len(),
{
    if b.len() == 0 {
        Seq::empty()
    } else {
        readback_copies(c, b.drop_last()).push(
            context::copy(
                b.last().buffer,
                context::fresh(readbacks_made(c, b.drop_last())),
                0,
                b.last().len,
            ),
        )
    }
}

/// Whether all values are on the device with the given number.
pub open spec fn all_on(id: u64, b: Seq<&GpuResidentBuffer>) -> bool {
    forall|i: int| 0 <= i < b.len() ==> (#[trigger] b[i]).context == id
}

impl GpuContext {
    /// Has some values copied to buffers that are made for them, from which they are then read.
    pub fn read_back_many(&mut self, buffers: &[&GpuResidentBuffer]) -> (r: Result<
        Vec<usize>,
        String,
    >)
        ensures
            match r {
                Ok(list) => {
                    &&& all_on(old(self)@.id, buffers@)
                    &&& list@ == readback_ids(old(self)@, buffers@)
                    &&& final(self)@ == (if buffers@.len() == 0 {
                        old(self)@
                    } else {
                        context::read_back(
                            readbacks_made(old(self)@, buffers@),
                            readback_copies(old(self)@, buffers@),
                            list@,
                        )
                    })
                },
                Err(e) => {
                    &&& !all_on(old(self)@.id, buffers@)
                    &&& e@ == "GPU resident multi-readback requires shared GpuContext"@
                    &&& final(self)@ == old(self)@
                },
            },
    {
        let mut list: Vec<usize> = Vec::new();
        if buffers.len() == 0 {
            return Ok(list);
        }
        let mut i: usize = 0;
        while i < buffers.len()
            invariant
                i <= buffers@.len(),
                self@ == old(self)@,
                forall|j: int| 0 <= j < i ==> (#[trigger] buffers@[j]).context == self@.id,
            decreases buffers@.len() - i,
        {
            if buffers[i].context != self.id {
                assert(buffers@[i as int].context != self@.id);
                return Err("GPU resident multi-readback requires shared GpuContext".to_owned());
            }
            i += 1;
        }
        let ghost c = self@;
        let ghost b = buffers@;
        let mut encoder = self.create_command_encoder();
        let mut i: usize = 0;
        assert(b.take(0) =~= Seq::<&GpuResidentBuffer>::empty());
        while i < buffers.len()
            invariant
                i <= buffers@.len(),
                b == buffers@,
                self@ == readbacks_made(c, b.take(i as int)),
                list@ == readback_ids(c, b.take(i as int)),
                encoder@ == readback_copies(c, b.take(i as int)),
            decreases buffers@.len() - i,
        {
            proof {
                assert(b.take(i + 1).drop_last() =~= b.take(i as int));
                assert(b.take(i + 1).last() == b[i as int]);
            }
            let n: usize = buffers[i].len;
            let id: usize = self.create_buffer(n, GpuUsage::Readback);
            encoder.copy_buffer(buffers[i].buffer, id, 0, n);
            list.push(id);
            i += 1;
        }
        assert(b.take(b.len() as int) =~= b);
        self.submit_and_map(encoder, &list);
        Ok(list)
    }
}

impl GpuPositionUniform {
    /// Makes a uniform that holds a position.
    pub fn with_context(context: &mut GpuContext, position: usize) -> (r: GpuPositionUniform)
        ensures
            r.context == old(context)@.id,
            r.buffer == context::fresh(old(context)@),
            final(context)@ == context::filled(
                old(context)@,
                context::position_words(position),
                GpuUsage::MutableParams,
            ),
    {
        let words: Vec<u32> = vec![position as u32, 0, 0, 0];
        assert(words@ =~= context::position_words(position));
        let buffer: usize = context.create_buffer_init(words, GpuUsage::MutableParams);
        GpuPositionUniform { context: context.id, buffer }
    }

    /// Stores another position.
    pub fn write_position(&self, context: &mut GpuContext, position: usize)
        requires
            old(context)@.id == self.context,
        ensures
            final(context)@ == context::positioned(old(context)@, self.buffer, position),
    {
        context.write_position(self.buffer, position);
    }
}

/// The buffers of a sum of its own inputs, for the kernel.
pub open spec fn residual_group(r: GpuResidualAdd) -> GpuBindGroup {
    GpuBindGroup::ResidualAdd {
        lhs: r.lhs_buffer,
        rhs: r.rhs_buffer,
        output: r.output_buffer,
        params: r.params_buffer,
    }
}

/// The buffers of a sum of resident values, for the kernel.
pub open spec fn residual_cached(c: GpuResidualAddResidentCache) -> GpuBindGroup {
    GpuBindGroup::ResidualAdd { lhs: c.lhs, rhs: c.rhs, output: c.output, params: c.params }
}

/// Making what a sum of values of the given shape needs.
pub open spec fn residual_made(c: context::ContextView, len: usize) -> context::ContextView {
    let c1 = context::made(c, len, GpuUsage::Input);
    let c2 = context::made(c1, len, GpuUsage::Input);
    let c3 = context::made(c2, len, GpuUsage::Output);
    let c4 = context::made(c3, len, GpuUsage::Readback);
    context::filled(c4, seq![len as u32, 0, 0, 0], GpuUsage::Params)
}

/// Why two tensors cannot be summed.
pub open spec fn residual_error(r: GpuResidualAdd, lhs: Tensor, rhs: Tensor) -> Option<Seq<char>> {
    if lhs.dims() != r.shape@ || rhs.dims() != r.shape@ {
        Some(
            "GPU residual add input shape mismatch: lhs="@ + text::bracketed(lhs.dims()) + ", rhs="@
                + text::bracketed(rhs.dims()) + ", expected "@ + text::bracketed(r.shape@),
        )
    } else if contiguous(lhs).len() != r.len || contiguous(rhs).len() != r.len {
        Some(
            "GPU residual add input length mismatch: lhs="@ + text::dec(contiguous(lhs).len())
                + ", rhs="@ + text::dec(contiguous(rhs).len()) + ", expected "@ + text::dec(
                r.len as nat,
            ),
        )
    } else {
        None
    }
}

/// What a device does to sum two tensors.
pub open spec fn residual_run(
    c: context::ContextView,
    r: GpuResidualAdd,
    lhs: Seq<u32>,
    rhs: Seq<u32>,
) -> context::ContextView {
    let c1 = context::written(c, r.lhs_buffer, lhs, GpuWrite::Uncounted);
    let c2 = context::written(c1, r.rhs_buffer, rhs, GpuWrite::Uncounted);
    context::read_back(
        c2,
        seq![
            GpuCommand::BeginPass,
            context::run(
                GpuPipeline::ResidualAdd,
                residual_group(r),
                context::workgroups(r.len as u32),
            ),
            context::copy(r.output_buffer, r.readback_buffer, 0, r.len),
        ],
        seq![r.readback_buffer],
    )
}

/// Whether three values are on the device of a sum.
pub open spec fn residual_shared(
    r: GpuResidualAdd,
    lhs: GpuResidentBuffer,
    rhs: GpuResidentBuffer,
    output: GpuResidentBuffer,
) -> bool {
    r.context == lhs.context && r.context == rhs.context && r.context == output.context
}

/// Why resident values cannot be summed.
pub open spec fn residual_cache_error(
    r: GpuResidualAdd,
    lhs: GpuResidentBuffer,
    rhs: GpuResidentBuffer,
    output: GpuResidentBuffer,
) -> Option<Seq<char>> {
    if !residual_shared(r, lhs, rhs, output) {
        Some("GPU residual add resident path requires shared GpuContext"@)
    } else if lhs.shape@ != r.shape@ || rhs.shape@ != r.shape@ || output.shape@ != r.shape@ {
        Some(
            "GPU residual add resident shape mismatch: lhs="@ + text::bracketed(lhs.shape@)
                + ", rhs="@ + text::bracketed(rhs.shape@) + ", output="@ + text::bracketed(
                output.shape@,
            ) + ", expected "@ + text::bracketed(r.shape@),
        )
    } else {
        None
    }
}

/// The run of a sum of resident values.
pub open spec fn residual_command(r: GpuResidualAdd, c: GpuResidualAddResidentCache) -> GpuCommand {
    context::run(
        GpuPipeline::ResidualAdd,
        residual_cached(c),
        context::workgroups(r.len as u32),
    )
}

/// The buffers that a sum of resident values uses.
pub open spec fn residual_cache(
    r: GpuResidualAdd,
    lhs: GpuResidentBuffer,
    rhs: GpuResidentBuffer,
    output: GpuResidentBuffer,
) -> GpuResidualAddResidentCache {
    GpuResidualAddResidentCache {
        lhs: lhs.buffer,
        rhs: rhs.buffer,
        output: output.buffer,
        params: r.params_buffer,
    }
}

impl GpuResidualAdd {
    /// Makes what a sum of values of the given shape needs.
    pub fn with_context(context: &mut GpuContext, shape: &[usize]) -> (r: Result<
        GpuResidualAdd,
        String,
    >)
        requires
            shape_fits(shape@),
        ensures
            match r {
                Ok(s) => {
                    let n = old(context)@.buffers.len();
                    &&& array::numel(shape@) > 0
                    &&& s.context == old(context)@.id
                    &&& s.shape@ == shape@
                    &&& s.len == array::numel(shape@)
                    &&& s.lhs_buffer == n && s.rhs_buffer == n + 1 && s.output_buffer == n + 2
                    &&& s.readback_buffer == n + 3 && s.params_buffer == n + 4
                    &&& final(context)@ == residual_made(old(context)@, s.len)
                },
                Err(e) => {
                    &&& array::numel(shape@) == 0
                    &&& e@ == "GPU residual add requires non-empty shape"@
                    &&& final(context)@ == old(context)@
                },
            },
    {
        let len: usize = shape_numel(shape);
        if len == 0 {
            return Err("GPU residual add requires non-empty shape".to_owned());
        }
        let lhs_buffer: usize = context.create_buffer(len, GpuUsage::Input);
        let rhs_buffer: usize = context.create_buffer(len, GpuUsage::Input);
        let output_buffer: usize = context.create_buffer(len, GpuUsage::Output);
        let readback_buffer: usize = context.create_buffer(len, GpuUsage::Readback);
        let params: Vec<u32> = vec![len as u32, 0, 0, 0];
        assert(params@ =~= seq![len as u32, 0, 0, 0]);
        let params_buffer: usize = context.create_buffer_init(params, GpuUsage::Params);
        Ok(
            GpuResidualAdd {
                context: context.id,
                lhs_buffer,
                rhs_buffer,
                output_buffer,
                readback_buffer,
                params_buffer,
                shape: vstd::slice::slice_to_vec(shape),
                len,
            },
        )
    }

    /// Sums two tensors; the result is read from the buffer returned.
    pub fn forward(&self, context: &mut GpuContext, lhs: &Tensor, rhs: &Tensor) -> (r: Result<
        usize,
        String,
    >)
        requires
            old(context)@.id == self.context,
        ensures
            match r {
                Ok(b) => {
                    &&& residual_error(*self, *lhs, *rhs) is None
                    &&& b == self.readback_buffer
                    &&& final(context)@ == residual_run(
                        old(context)@,
                        *self,
                        contiguous(*lhs),
                        contiguous(*rhs),
                    )
                },
                Err(e) => {
                    &&& residual_error(*self, *lhs, *rhs) == Some(e@)
                    &&& final(context)@ == old(context)@
                },
            },
    {
        if !same_shape(lhs.shape(), &self.shape) || !same_shape(rhs.shape(), &self.shape) {
            return Err(
                three_shapes(
                    "GPU residual add input shape mismatch: lhs=",
                    lhs.shape(),
                    ", rhs=",
                    rhs.shape(),
                    ", expected ",
                    &self.shape,
                ),
            );
        }
        let l = lhs.as_slice();
        let r = rhs.as_slice();
        if l.len() != self.len || r.len() != self.len {
            return Err(
                three_sizes(
                    "GPU residual add input length mismatch: lhs=",
                    l.len(),
                    ", rhs=",
                    r.len(),
                    ", expected ",
                    self.len,
                ),
            );
        }
        context.write_buffer(
            self.lhs_buffer,
            vstd::slice::slice_to_vec(l),
            GpuWrite::Uncounted,
        );
        context.write_buffer(
            self.rhs_buffer,
            vstd::slice::slice_to_vec(r),
            GpuWrite::Uncounted,
        );
        let mut encoder = context.create_command_encoder();
        encoder.begin_compute_pass();
        encoder.dispatch(
            GpuPipeline::ResidualAdd,
            GpuBindGroup::ResidualAdd {
                lhs: self.lhs_buffer,
                rhs: self.rhs_buffer,
                output: self.output_buffer,
                params: self.params_buffer,
            },
            workgroups_for(self.len as u32),
        );
        encoder.copy_buffer(self.output_buffer, self.readback_buffer, 0, self.len);
        let list: Vec<usize> = vec![self.readback_buffer];
        proof {
            assert(list@ =~= seq![self.readback_buffer]);
            assert(encoder@ =~= seq![
                GpuCommand::BeginPass,
                context::run(
                    GpuPipeline::ResidualAdd,
                    residual_group(*self),
                    context::workgroups(self.len as u32),
                ),
                context::copy(self.output_buffer, self.readback_buffer, 0, self.len),
            ]);
        }
        context.submit_and_map(encoder, &list);
        Ok(self.readback_buffer)
    }

    /// The sum, from what was read.
    pub fn forward_output(&self, words: Vec<u32>) -> (r: Result<Tensor, String>)
        ensures
            match r {
                Ok(t) => {
                    &&& context::tensor_failure(self.shape@, words@.len()) is None
                    &&& t.dims() == self.shape@
                    &&& t.values() == words@
                },
                Err(e) => context::tensor_failure(self.shape@, words@.len()) == Some(e@),
            },
    {
        tensor_from_words(&self.shape, words)
    }

    /// Sums resident values, in a pass of its own.
    pub fn encode_resident(
        &self,
        encoder: &mut GpuEncoder,
        lhs: &GpuResidentBuffer,
        rhs: &GpuResidentBuffer,
        output: &GpuResidentBuffer,
    ) -> (r: Result<(), String>)
        ensures
            match r {
                Ok(()) => {
                    &&& residual_cache_error(*self, *lhs, *rhs, *output) is None
                    &&& final(encoder)@ == old(encoder)@.push(GpuCommand::BeginPass).push(
                        residual_command(*self, residual_cache(*self, *lhs, *rhs, *output)),
                    )
                },
                Err(e) => {
                    &&& residual_cache_error(*self, *lhs, *rhs, *output) == Some(e@)
                    &&& final(encoder)@ == old(encoder)@
                },
            },
    {
        match self.prepare_resident_cache(lhs, rhs, output) {
            Ok(cache) => self.encode_resident_with_cache(encoder, lhs, rhs, output, &cache),
            Err(e) => Err(e),
        }
    }

    /// The buffers for a sum of resident values.
    pub fn prepare_resident_cache(
        &self,
        lhs: &GpuResidentBuffer,
        rhs: &GpuResidentBuffer,
        output: &GpuResidentBuffer,
    ) -> (r: Result<GpuResidualAddResidentCache, String>)
        ensures
            match r {
                Ok(c) => {
                    &&& residual_cache_error(*self, *lhs, *rhs, *output) is None
                    &&& c == residual_cache(*self, *lhs, *rhs, *output)
                },
                Err(e) => residual_cache_error(*self, *lhs, *rhs, *output) == Some(e@),
            },
    {
        if self.context != lhs.context || self.context != rhs.context || self.context
            != output.context {
            return Err("GPU residual add resident path requires shared GpuContext".to_owned());
        }
        if !same_shape(&lhs.shape, &self.shape) || !same_shape(&rhs.shape, &self.shape)
            || !same_shape(&output.shape, &self.shape) {
            let mut s = three_shapes(
                "GPU residual add resident shape mismatch: lhs=",
                &lhs.shape,
                ", rhs=",
                &rhs.shape,
                ", output=",
                &output.shape,
            );
            s.append(", expected ");
            text::push_shape(&mut s, &self.shape);
            return Err(s);
        }
        Ok(
            GpuResidualAddResidentCache {
                lhs: lhs.buffer,
                rhs: rhs.buffer,
                output: output.buffer,
                params: self.params_buffer,
            },
        )
    }

    /// Sums resident values with prepared buffers, in a pass of its own.
    pub fn encode_resident_with_cache(
        &self,
        encoder: &mut GpuEncoder,
        lhs: &GpuResidentBuffer,
        rhs: &GpuResidentBuffer,
        output: &GpuResidentBuffer,
        cache: &GpuResidualAddResidentCache,
    ) -> (r: Result<(), String>)
        ensures
            match r {
                Ok(()) => {
                    &&& residual_shared(*self, *lhs, *rhs, *output)
                    &&& final(encoder)@ == old(encoder)@.push(GpuCommand::BeginPass).push(
                        residual_command(*self, *cache),
                    )
                },
                Err(e) => {
                    &&& !residual_shared(*self, *lhs, *rhs, *output)
                    &&& e@ == "GPU residual add resident path requires shared GpuContext"@
                    &&& final(encoder)@ == old(encoder)@
                },
            },
    {
        if self.context != lhs.context || self.context != rhs.context || self.context
            != output.context {
            return Err("GPU residual add resident path requires shared GpuContext".to_owned());
        }
        encoder.begin_compute_pass();
        self.encode_resident_with_cache_in_pass(encoder, lhs, rhs, output, cache)
    }

    /// Sums resident values with prepared buffers, in the pass that was started.
    pub fn encode_resident_with_cache_in_pass(
        &self,
        pass: &mut GpuEncoder,
        lhs: &GpuResidentBuffer,
        rhs: &GpuResidentBuffer,
        output: &GpuResidentBuffer,
        cache: &GpuResidualAddResidentCache,
    ) -> (r: Result<(), String>)
        ensures
            match r {
                Ok(()) => {
                    &&& residual_shared(*self, *lhs, *rhs, *output)
                    &&& final(pass)@ == old(pass)@.push(residual_command(*self, *cache))
                },
                Err(e) => {
                    &&& !residual_shared(*self, *lhs, *rhs, *output)
                    &&& e@ == "GPU residual add resident path requires shared GpuContext"@
                    &&& final(pass)@ == old(pass)@
                },
            },
    {
        if self.context != lhs.context || self.context != rhs.context || self.context
            != output.context {
            return Err("GPU residual add resident path requires shared GpuContext".to_owned());
        }
        pass.dispatch(
            GpuPipeline::ResidualAdd,
            GpuBindGroup::ResidualAdd {
                lhs: cache.lhs,
                rhs: cache.rhs,
                output: cache.output,
                params: cache.params,
            },
            workgroups_for(self.len as u32),
        );
        Ok(())
    }
}

} // verus!
