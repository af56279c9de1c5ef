//! The device seen from outside: buffers, kernels, command lists and counters.

use vstd::prelude::*;
use vstd::string::*;

use crate::error;
use crate::tensor::tensor;
use crate::tensor::Tensor;

verus! {

/// The threads of one workgroup.
pub const WORKGROUP_SIZE: u32 = 64;

/// How often the host and the device waited for each other.
#[derive(Clone, Copy, Debug, PartialEq, Eq, Structural)]
pub struct GpuSyncStats {
    pub submits: u64,
    pub poll_waits: u64,
    pub map_reads: u64,
    pub host_write_buffers: u64,
    pub position_write_buffers: u64,
}

/// No waiting at all.
pub open spec fn no_stats() -> GpuSyncStats {
    GpuSyncStats {
        submits: 0,
        poll_waits: 0,
        map_reads: 0,
        host_write_buffers: 0,
        position_write_buffers: 0,
    }
}

impl Default for GpuSyncStats {
    fn default() -> (r: GpuSyncStats)
        ensures
            r == no_stats(),
    {
        GpuSyncStats {
            submits: 0,
            poll_waits: 0,
            map_reads: 0,
            host_write_buffers: 0,
            position_write_buffers: 0,
        }
    }
}

impl GpuSyncStats {
    /// The sums of two counts can be held.
    pub open spec fn can_record(self, other: GpuSyncStats) -> bool {
        &&& self.submits + other.submits <= u64::MAX
        &&& self.poll_waits + other.poll_waits <= u64::MAX
        &&& self.map_reads + other.map_reads <= u64::MAX
        &&& self.host_write_buffers + other.host_write_buffers <= u64::MAX
        &&& self.position_write_buffers + other.position_write_buffers <= u64::MAX
    }

    /// The sums of two counts.
    pub open spec fn recorded(self, other: GpuSyncStats) -> GpuSyncStats {
        GpuSyncStats {
            submits: (self.submits + other.submits) as u64,
            poll_waits: (self.poll_waits + other.poll_waits) as u64,
            map_reads: (self.map_reads + other.map_reads) as u64,
            host_write_buffers: (self.host_write_buffers + other.host_write_buffers) as u64,
            position_write_buffers: (self.position_write_buffers
                + other.position_write_buffers) as u64,
        }
    }

    /// Adds another count to this one.
    pub fn record(&mut self, other: GpuSyncStats)
        requires
            old(self).can_record(other),
        ensures
            *final(self) == old(self).recorded(other),
    {
        self.submits += other.submits;
        self.poll_waits += other.poll_waits;
        self.map_reads += other.map_reads;
        self.host_write_buffers += other.host_write_buffers;
        self.position_write_buffers += other.position_write_buffers;
    }
}

/// What a buffer is for.
#[derive(Clone, Copy, Debug, PartialEq, Eq, Structural)]
pub enum GpuUsage {
    /// Read by kernels and written by the host.
    Input,
    /// Read by kernels, filled when it is made.
    Weight,
    /// Written by kernels and copied from.
    Output,
    /// Copied to and mapped by the host.
    Readback,
    /// A uniform, filled when it is made.
    Params,
    /// A uniform that the host may write again.
    MutableParams,
    /// Read and written by kernels, copied from and to.
    Resident,
}

/// A buffer: its size in 32-bit words, and what it is for.
#[derive(Clone, Copy, Debug, PartialEq, Eq, Structural)]
pub struct GpuBufferInfo {
    pub words: usize,
    pub usage: GpuUsage,
}

/// A kernel.
#[derive(Clone, Copy, Debug, PartialEq, Eq, Structural)]
pub enum GpuPipeline {
    MatVec,
    RmsNorm,
    RmsNormRope,
    KvAppend,
    DecodeGqaAttention,
    DecodeGqaAttentionSerial,
    ResidualAdd,
    Q8MatVec,
    Q8MatVecVec4,
    Argmax,
    SwiGlu,
}

/// How a kernel uses one of its buffers.
#[derive(Clone, Copy, Debug, PartialEq, Eq, Structural)]
pub enum GpuBinding {
    Read,
    ReadWrite,
    Uniform,
}

/// The buffers that a kernel works on, each by its number.
#[derive(Clone, Copy, Debug, PartialEq, Eq, Structural)]
pub enum GpuBindGroup {
    MatVec { input: usize, weight: usize, output: usize, params: usize },
    RmsNorm { input: usize, weight: usize, output: usize, params: usize },
    RmsNormRope {
        input: usize,
        weight: usize,
        inv_freq: usize,
        output: usize,
        params: usize,
        position: usize,
    },
    KvAppend { input: usize, cache: usize, params: usize, position: usize },
    DecodeGqaAttention {
        q: usize,
        key: usize,
        value: usize,
        output: usize,
        params: usize,
        position: usize,
    },
    ResidualAdd { lhs: usize, rhs: usize, output: usize, params: usize },
    Q8MatVec { input: usize, qweight: usize, scales: usize, output: usize, params: usize },
    Argmax { input: usize, qweight: usize, scales: usize, result: usize, params: usize },
    SwiGlu { gate: usize, up: usize, output: usize, params: usize },
}

/// The bindings of a kernel, in their order.
pub open spec fn layout(p: GpuPipeline) -> Seq<GpuBinding> {
    match p {
        GpuPipeline::MatVec
        | GpuPipeline::RmsNorm
        | GpuPipeline::ResidualAdd
        | GpuPipeline::SwiGlu => seq![
            GpuBinding::Read,
            GpuBinding::Read,
            GpuBinding::ReadWrite,
            GpuBinding::Uniform,
        ],
        GpuPipeline::RmsNormRope
        | GpuPipeline::DecodeGqaAttention
        | GpuPipeline::DecodeGqaAttentionSerial => seq![
            GpuBinding::Read,
            GpuBinding::Read,
            GpuBinding::Read,
            GpuBinding::ReadWrite,
            GpuBinding::Uniform,
            GpuBinding::Uniform,
        ],
        GpuPipeline::KvAppend => seq![
            GpuBinding::Read,
            GpuBinding::ReadWrite,
            GpuBinding::Uniform,
            GpuBinding::Uniform,
        ],
        GpuPipeline::Q8MatVec | GpuPipeline::Q8MatVecVec4 | GpuPipeline::Argmax => seq![
            GpuBinding::Read,
            GpuBinding::Read,
            GpuBinding::Read,
            GpuBinding::ReadWrite,
            GpuBinding::Uniform,
        ],
    }
}

/// The buffers of a group, in the order of the bindings.
pub open spec fn bound(g: GpuBindGroup) -> Seq<usize> {
    match g {
        GpuBindGroup::MatVec { input, weight, output, params } => seq![
            input,
            weight,
            output,
            params,
        ],
        GpuBindGroup::RmsNorm { input, weight, output, params } => seq![
            input,
            weight,
            output,
            params,
        ],
        GpuBindGroup::RmsNormRope { input, weight, inv_freq, output, params, position } => seq![
            input,
            weight,
            inv_freq,
            output,
            params,
            position,
        ],
        GpuBindGroup::KvAppend { input, cache, params, position } => seq![
            input,
            cache,
            params,
            position,
        ],
        GpuBindGroup::DecodeGqaAttention { q, key, value, output, params, position } => seq![
            q,
            key,
            value,
            output,
            params,
            position,
        ],
        GpuBindGroup::ResidualAdd { lhs, rhs, output, params } => seq![lhs, rhs, output, params],
        GpuBindGroup::Q8MatVec { input, qweight, scales, output, params } => seq![
            input,
            qweight,
            scales,
            output,
            params,
        ],
        GpuBindGroup::Argmax { input, qweight, scales, result, params } => seq![
            input,
            qweight,
            scales,
            result,
            params,
        ],
        GpuBindGroup::SwiGlu { gate, up, output, params } => seq![gate, up, output, params],
    }
}

/// Whether a group is made for a kernel.
pub open spec fn suits(g: GpuBindGroup, p: GpuPipeline) -> bool {
    match p {
        GpuPipeline::MatVec => g is MatVec,
        GpuPipeline::RmsNorm => g is RmsNorm,
        GpuPipeline::RmsNormRope => g is RmsNormRope,
        GpuPipeline::KvAppend => g is KvAppend,
        GpuPipeline::DecodeGqaAttention | GpuPipeline::DecodeGqaAttentionSerial => g is DecodeGqaAttention,
        GpuPipeline::ResidualAdd => g is ResidualAdd,
        GpuPipeline::Q8MatVec | GpuPipeline::Q8MatVecVec4 => g is Q8MatVec,
        GpuPipeline::Argmax => g is Argmax,
        GpuPipeline::SwiGlu => g is SwiGlu,
    }
}

/// Law: a group that is made for a kernel names one buffer for each of its bindings.
pub proof fn law_groups_fill_layouts(g: GpuBindGroup, p: GpuPipeline)
    requires
        suits(g, p),
    ensures
        bound(g).len() == layout(p).len(),
{
}

impl GpuPipeline {
    /// The bindings of the kernel, in their order.
    pub fn bindings(self) -> (r: Vec<GpuBinding>)
        ensures
            r@ == layout(self),
    {
        let r: Vec<GpuBinding> = match self {
            GpuPipeline::MatVec
            | GpuPipeline::RmsNorm
            | GpuPipeline::ResidualAdd
            | GpuPipeline::SwiGlu => vec![
                GpuBinding::Read,
                GpuBinding::Read,
                GpuBinding::ReadWrite,
                GpuBinding::Uniform,
            ],
            GpuPipeline::RmsNormRope
            | GpuPipeline::DecodeGqaAttention
            | GpuPipeline::DecodeGqaAttentionSerial => vec![
                GpuBinding::Read,
                GpuBinding::Read,
                GpuBinding::Read,
                GpuBinding::ReadWrite,
                GpuBinding::Uniform,
                GpuBinding::Uniform,
            ],
            GpuPipeline::KvAppend => vec![
                GpuBinding::Read,
                GpuBinding::ReadWrite,
                GpuBinding::Uniform,
                GpuBinding::Uniform,
            ],
            GpuPipeline::Q8MatVec | GpuPipeline::Q8MatVecVec4 | GpuPipeline::Argmax => vec![
                GpuBinding::Read,
                GpuBinding::Read,
                GpuBinding::Read,
                GpuBinding::ReadWrite,
                GpuBinding::Uniform,
            ],
        };
        assert(r@ =~= layout(self));
        r
    }
}

impl GpuBindGroup {
    /// The buffers, in the order of the bindings.
    pub fn buffers(self) -> (r: Vec<usize>)
        ensures
            r@ == bound(self),
    {
        let r: Vec<usize> = match self {
            GpuBindGroup::MatVec { input, weight, output, params } => vec![
                input,
                weight,
                output,
                params,
            ],
            GpuBindGroup::RmsNorm { input, weight, output, params } => vec![
                input,
                weight,
                output,
                params,
            ],
            GpuBindGroup::RmsNormRope { input, weight, inv_freq, output, params, position } => vec![
                input,
                weight,
                inv_freq,
                output,
                params,
                position,
            ],
            GpuBindGroup::KvAppend { input, cache, params, position } => vec![
                input,
                cache,
                params,
                position,
            ],
            GpuBindGroup::DecodeGqaAttention { q, key, value, output, params, position } => vec![
                q,
                key,
                value,
                output,
                params,
                position,
            ],
            GpuBindGroup::ResidualAdd { lhs, rhs, output, params } => vec![
                lhs,
                rhs,
                output,
                params,
            ],
            GpuBindGroup::Q8MatVec { input, qweight, scales, output, params } => vec![
                input,
                qweight,
                scales,
                output,
                params,
            ],
            GpuBindGroup::Argmax { input, qweight, scales, result, params } => vec![
                input,
                qweight,
                scales,
                result,
                params,
            ],
            GpuBindGroup::SwiGlu { gate, up, output, params } => vec![gate, up, output, params],
        };
        assert(r@ =~= bound(self));
        r
    }
}

/// One run of a kernel.
#[derive(Clone, Copy, Debug, PartialEq, Eq, Structural)]
pub struct GpuDispatch {
    pub pipeline: GpuPipeline,
    pub group: GpuBindGroup,
    pub workgroups: u32,
}

/// One entry of a command list.
#[derive(Clone, Copy, Debug, PartialEq, Eq, Structural)]
pub enum GpuCommand {
    /// The dispatches that follow share one compute pass.
    BeginPass,
    Dispatch(GpuDispatch),
    /// Copies the first `words` words of `src` to `dst`, from word `dst_offset` on.
    Copy { src: usize, dst: usize, dst_offset: usize, words: usize },
}

/// A command list that has not been submitted.
#[derive(Debug)]
pub struct GpuEncoder {
    pub commands: Vec<GpuCommand>,
}

impl View for GpuEncoder {
    type V = Seq<GpuCommand>;

    open spec fn view(&self) -> Seq<GpuCommand> {
        self.commands@
    }
}

/// One run of a kernel, as a command.
pub open spec fn run(pipeline: GpuPipeline, group: GpuBindGroup, workgroups: u32) -> GpuCommand {
    GpuCommand::Dispatch(GpuDispatch { pipeline, group, workgroups })
}

/// A copy of the first words of a buffer.
pub open spec fn copy(src: usize, dst: usize, dst_offset: usize, words: usize) -> GpuCommand {
    GpuCommand::Copy { src, dst, dst_offset, words }
}

impl GpuEncoder {
    pub fn new() -> (r: GpuEncoder)
        ensures
            r@ == Seq::<GpuCommand>::empty(),
    {
        GpuEncoder { commands: Vec::new() }
    }

    /// Starts a compute pass.
    pub fn begin_compute_pass(&mut self)
        ensures
            final(self)@ == old(self)@.push(GpuCommand::BeginPass),
    {
        self.commands.push(GpuCommand::BeginPass);
    }

    /// Runs a kernel on the buffers of a group that is made for it.
    pub fn dispatch(&mut self, pipeline: GpuPipeline, group: GpuBindGroup, workgroups: u32)
        requires
            suits(group, pipeline),
        ensures
            final(self)@ == old(self)@.push(run(pipeline, group, workgroups)),
    {
        self.commands.push(GpuCommand::Dispatch(GpuDispatch { pipeline, group, workgroups }));
    }

    /// Copies the first `words` words of `src` to `dst`, from word `dst_offset` on.
    pub fn copy_buffer(&mut self, src: usize, dst: usize, dst_offset: usize, words: usize)
        ensures
            final(self)@ == old(self)@.push(copy(src, dst, dst_offset, words)),
    {
        self.commands.push(GpuCommand::Copy { src, dst, dst_offset, words });
    }
}

/// How a write by the host is counted.
#[derive(Clone, Copy, Debug, PartialEq, Eq, Structural)]
pub enum GpuWrite {
    Uncounted,
    Host,
    Position,
}

/// What a driver has to do.
#[derive(Debug)]
pub enum GpuOp {
    /// Fills a buffer that was just made.
    Init { buffer: usize, words: Vec<u32> },
    /// Overwrites the start of a buffer.
    Write { buffer: usize, words: Vec<u32> },
    /// Hands a command list to the device.
    Submit(GpuEncoder),
    /// Asks for a buffer to be mapped for reading.
    MapRead(usize),
    /// Waits until the device is idle and the mappings are there.
    PollWait,
    /// Gives a buffer up.
    Release(usize),
}

/// The mathematical value of what a driver has to do.
pub enum OpView {
    Init { buffer: usize, words: Seq<u32> },
    Write { buffer: usize, words: Seq<u32> },
    Submit(Seq<GpuCommand>),
    MapRead(usize),
    PollWait,
    Release(usize),
}

impl View for GpuOp {
    type V = OpView;

    open spec fn view(&self) -> OpView {
        match self {
            GpuOp::Init { buffer, words } => OpView::Init { buffer: *buffer, words: words@ },
            GpuOp::Write { buffer, words } => OpView::Write { buffer: *buffer, words: words@ },
            GpuOp::Submit(e) => OpView::Submit(e@),
            GpuOp::MapRead(b) => OpView::MapRead(*b),
            GpuOp::PollWait => OpView::PollWait,
            GpuOp::Release(b) => OpView::Release(*b),
        }
    }
}

/// The values of a list of things to do.
pub open spec fn op_views(s: Seq<GpuOp>) -> Seq<OpView> {
    s.map_values(|o: GpuOp| o@)
}

/// A device: its number, how large a binding may be, the buffers made so far, what is still to
/// be done, and how often the two sides waited.
#[derive(Debug)]
pub struct GpuContext {
    pub id: u64,
    pub max_chunk_bytes: u64,
    pub buffers: Vec<GpuBufferInfo>,
    pub ops: Vec<GpuOp>,
    pub stats: GpuSyncStats,
}

/// The mathematical value of a device.
#[verifier::ext_equal]
pub struct ContextView {
    pub id: u64,
    pub max_chunk_bytes: u64,
    pub buffers: Seq<GpuBufferInfo>,
    pub ops: Seq<OpView>,
    pub stats: GpuSyncStats,
}

impl View for GpuContext {
    type V = ContextView;

    open spec fn view(&self) -> ContextView {
        ContextView {
            id: self.id,
            max_chunk_bytes: self.max_chunk_bytes,
            buffers: self.buffers@,
            ops: op_views(self.ops@),
            stats: self.stats,
        }
    }
}

/// One more, from the start again behind the greatest.
pub open spec fn next(n: u64) -> u64 {
    if n == u64::MAX {
        0
    } else {
        (n + 1) as u64
    }
}

/// A device with one more buffer.
pub open spec fn made(c: ContextView, words: usize, usage: GpuUsage) -> ContextView {
    ContextView { buffers: c.buffers.push(GpuBufferInfo { words, usage }), ..c }
}

/// A device with one more thing to do.
pub open spec fn with_op(c: ContextView, op: OpView) -> ContextView {
    ContextView { ops: c.ops.push(op), ..c }
}

/// The number of the buffer that is made next.
pub open spec fn fresh(c: ContextView) -> usize {
    c.buffers.len() as usize
}

/// A device with one more buffer that holds `words`.
pub open spec fn filled(c: ContextView, words: Seq<u32>, usage: GpuUsage) -> ContextView {
    with_op(
        made(c, words.len() as usize, usage),
        OpView::Init { buffer: fresh(c), words },
    )
}

/// A device whose host wrote to a buffer.
pub open spec fn written(c: ContextView, buffer: usize, words: Seq<u32>, how: GpuWrite) -> ContextView {
    let stats = match how {
        GpuWrite::Uncounted => c.stats,
        GpuWrite::Host => GpuSyncStats {
            host_write_buffers: next(c.stats.host_write_buffers),
            ..c.stats
        },
        GpuWrite::Position => GpuSyncStats {
            host_write_buffers: next(c.stats.host_write_buffers),
            position_write_buffers: next(c.stats.position_write_buffers),
            ..c.stats
        },
    };
    with_op(ContextView { stats, ..c }, OpView::Write { buffer, words })
}

/// The words of a position uniform.
pub open spec fn position_words(position: usize) -> Seq<u32> {
    seq![position as u32, 0, 0, 0]
}

/// A device that was told a position.
pub open spec fn positioned(c: ContextView, buffer: usize, position: usize) -> ContextView {
    written(c, buffer, position_words(position), GpuWrite::Position)
}

/// A device that got a command list.
pub open spec fn submitted(c: ContextView, commands: Seq<GpuCommand>) -> ContextView {
    let stats = GpuSyncStats { submits: next(c.stats.submits), ..c.stats };
    with_op(ContextView { stats, ..c }, OpView::Submit(commands))
}

/// A device that was asked to map a buffer.
pub open spec fn map_asked(c: ContextView, buffer: usize) -> ContextView {
    let stats = GpuSyncStats { map_reads: next(c.stats.map_reads), ..c.stats };
    with_op(ContextView { stats, ..c }, OpView::MapRead(buffer))
}

/// A device that was asked to map some buffers in turn.
pub open spec fn all_map_asked(c: ContextView, buffers: Seq<usize>) -> ContextView
    decreases buffers.len(),
{
    if buffers.len() == 0 {
        c
    } else {
        map_asked(all_map_asked(c, buffers.drop_last()), buffers.last())
    }
}

/// A device that was waited for.
pub open spec fn waited(c: ContextView) -> ContextView {
    let stats = GpuSyncStats { poll_waits: next(c.stats.poll_waits), ..c.stats };
    with_op(ContextView { stats, ..c }, OpView::PollWait)
}

/// A device that ran a command list and has the given buffers mapped.
pub open spec fn read_back(c: ContextView, commands: Seq<GpuCommand>, buffers: Seq<usize>)
    -> ContextView {
    waited(all_map_asked(submitted(c, commands), buffers))
}

/// The counts behind `all_map_asked`.
pub open spec fn advanced(n: u64, by: nat) -> u64
    decreases by,
{
    if by == 0 {
        n
    } else {
        next(advanced(n, (by - 1) as nat))
    }
}

/// Whether nothing was submitted, waited for or mapped between two states of a device.
pub open spec fn quiet(a: ContextView, b: ContextView) -> bool {
    &&& b.stats.submits == a.stats.submits
    &&& b.stats.poll_waits == a.stats.poll_waits
    &&& b.stats.map_reads == a.stats.map_reads
}

/// Whether one list of commands and one copy back were submitted, and one mapping was waited for.
pub open spec fn costs_one_readback(a: ContextView, b: ContextView) -> bool {
    &&& b.stats.submits == next(next(a.stats.submits))
    &&& b.stats.poll_waits == next(a.stats.poll_waits)
    &&& b.stats.map_reads == next(a.stats.map_reads)
}

/// Law: reading any number of buffers back costs one submission and one wait, and one mapping
/// for each of them; the host writes nothing for it.
pub proof fn law_read_back_costs(c: ContextView, commands: Seq<GpuCommand>, buffers: Seq<usize>)
    ensures
        ({
            let r = read_back(c, commands, buffers);
            &&& r.stats.submits == next(c.stats.submits)
            &&& r.stats.poll_waits == next(c.stats.poll_waits)
            &&& r.stats.map_reads == advanced(c.stats.map_reads, buffers.len())
            &&& r.stats.host_write_buffers == c.stats.host_write_buffers
            &&& r.stats.position_write_buffers == c.stats.position_write_buffers
            &&& r.buffers == c.buffers
            &&& r.ops.len() == c.ops.len() + buffers.len() + 2
            &&& r.ops[c.ops.len() as int] == OpView::Submit(commands)
        }),
{
    lemma_map_asked(submitted(c, commands), buffers);
}

proof fn lemma_map_asked(c: ContextView, buffers: Seq<usize>)
    ensures
        ({
            let r = all_map_asked(c, buffers);
            &&& r.stats == (GpuSyncStats {
                map_reads: advanced(c.stats.map_reads, buffers.len()),
                ..c.stats
            })
            &&& r.buffers == c.buffers
            &&& r.id == c.id
            &&& r.max_chunk_bytes == c.max_chunk_bytes
            &&& r.ops.len() == c.ops.len() + buffers.len()
            &&& forall|i: int| 0 <= i < c.ops.len() ==> #[trigger] r.ops[i] == c.ops[i]
        }),
    decreases buffers.len(),
{
    if buffers.len() > 0 {
        lemma_map_asked(c, buffers.drop_last());
    }
}

/// What a host may ask of a device.
pub enum DeviceCall {
    Make { words: usize, usage: GpuUsage },
    Fill { words: Seq<u32>, usage: GpuUsage },
    Write { buffer: usize, words: Seq<u32>, how: GpuWrite },
    Submit(Seq<GpuCommand>),
    MapRead(usize),
    PollWait,
    Release(usize),
}

/// A device behind one call.
pub open spec fn called(c: ContextView, call: DeviceCall) -> ContextView {
    match call {
        DeviceCall::Make { words, usage } => made(c, words, usage),
        DeviceCall::Fill { words, usage } => filled(c, words, usage),
        DeviceCall::Write { buffer, words, how } => written(c, buffer, words, how),
        DeviceCall::Submit(commands) => submitted(c, commands),
        DeviceCall::MapRead(buffer) => map_asked(c, buffer),
        DeviceCall::PollWait => waited(c),
        DeviceCall::Release(buffer) => with_op(c, OpView::Release(buffer)),
    }
}

/// A device behind some calls, the first first.
pub open spec fn all_called(c: ContextView, calls: Seq<DeviceCall>) -> ContextView
    decreases calls.len(),
{
    if calls.len() == 0 {
        c
    } else {
        called(all_called(c, calls.drop_last()), calls.last())
    }
}

/// How many of some calls are such as `counts` says.
pub open spec fn times(calls: Seq<DeviceCall>, counts: spec_fn(DeviceCall) -> bool) -> nat
    decreases calls.len(),
{
    if calls.len() == 0 {
        0
    } else {
        times(calls.drop_last(), counts) + (if counts(calls.last()) {
            1nat
        } else {
            0
        })
    }
}

/// Whether a call is a write that is counted.
pub open spec fn is_host_write(call: DeviceCall) -> bool {
    call matches DeviceCall::Write { how, .. } && !(how is Uncounted)
}

/// Whether a call writes a position.
pub open spec fn is_position_write(call: DeviceCall) -> bool {
    call matches DeviceCall::Write { how, .. } && how is Position
}

/// Law: after any calls on a device whose counts were zero, each count says exactly how many of
/// the calls were of its kind. A position counts as a write of the host too.
pub proof fn law_counts_are_exact(c: ContextView, calls: Seq<DeviceCall>)
    requires
        c.stats == no_stats(),
        calls.len() <= u64::MAX,
    ensures
        ({
            let s = all_called(c, calls).stats;
            &&& s.submits == times(calls, |k: DeviceCall| k is Submit)
            &&& s.poll_waits == times(calls, |k: DeviceCall| k is PollWait)
            &&& s.map_reads == times(calls, |k: DeviceCall| k is MapRead)
            &&& s.host_write_buffers == times(calls, |k: DeviceCall| is_host_write(k))
            &&& s.position_write_buffers == times(calls, |k: DeviceCall| is_position_write(k))
        }),
    decreases calls.len(),
{
    if calls.len() > 0 {
        let before = calls.drop_last();
        law_counts_are_exact(c, before);
        lemma_times_bound(before, |k: DeviceCall| k is Submit);
        lemma_times_bound(before, |k: DeviceCall| k is PollWait);
        lemma_times_bound(before, |k: DeviceCall| k is MapRead);
        lemma_times_bound(before, |k: DeviceCall| is_host_write(k));
        lemma_times_bound(before, |k: DeviceCall| is_position_write(k));
    }
}

proof fn lemma_times_bound(calls: Seq<DeviceCall>, counts: spec_fn(DeviceCall) -> bool)
    ensures
        times(calls, counts) <= calls.len(),
    decreases calls.len(),
{
    if calls.len() > 0 {
        lemma_times_bound(calls.drop_last(), counts);
    }
}

fn next_count(n: u64) -> (r: u64)
    ensures
        r == next(n),
{
    if n == u64::MAX {
        0
    } else {
        n + 1
    }
}

fn smaller(a: u64, b: u64) -> (r: u64)
    ensures
        r == (if a < b {
            a
        } else {
            b
        }),
{
    if a < b {
        a
    } else {
        b
    }
}

/// The bytes of some 32-bit words.
pub fn bytes_len(items: usize) -> (r: u64)
    requires
        items * 4 <= usize::MAX,
    ensures
        r == items * 4,
{
    (items * 4) as u64
}

/// The workgroups that `n` threads need.
pub open spec fn workgroups(n: u32) -> u32 {
    ((n + 63) / 64) as u32
}

/// The workgroups that `n` threads need.
pub fn workgroups_for(n: u32) -> (r: u32)
    ensures
        r == workgroups(n),
{
    if n % WORKGROUP_SIZE == 0 {
        n / WORKGROUP_SIZE
    } else {
        n / WORKGROUP_SIZE + 1
    }
}

/// Law: the workgroups for `n` elements have a thread for each of them, and none is idle.
pub proof fn law_workgroups_cover(n: u32)
    ensures
        workgroups(n) * 64 >= n,
        n > 0 ==> (workgroups(n) - 1) * 64 < n,
{
}

/// The tensor that a device computed, or why it cannot be one.
pub open spec fn tensor_failure(shape: Seq<usize>, len: nat) -> Option<Seq<char>> {
    match tensor::build_error(shape, len) {
        Some(e) => Some(error::error_text(e)),
        None => None,
    }
}

/// The words that a device handed back, as a tensor.
pub fn tensor_from_words(shape: &[usize], words: Vec<u32>) -> (r: Result<Tensor, String>)
    ensures
        match r {
            Ok(t) => {
                &&& tensor_failure(shape@, words@.len()) is None
                &&& t.dims() == shape@
                &&& t.values() == words@
                &&& t.row_major()
                &&& t.well_formed()
            },
            Err(e) => tensor_failure(shape@, words@.len()) == Some(e@),
        },
{
    match Tensor::from_f32_vec(shape, words) {
        Ok(t) => Ok(t),
        Err(e) => Err(e.message()),
    }
}

impl GpuContext {
    /// A device without buffers; no binding may be larger than either of its limits.
    pub fn new(id: u64, max_buffer_size: u64, max_storage_buffer_binding_size: u64) -> (r: GpuContext)
        ensures
            r@.id == id,
            r@.max_chunk_bytes == (if max_buffer_size < max_storage_buffer_binding_size {
                max_buffer_size
            } else {
                max_storage_buffer_binding_size
            }),
            r@.buffers.len() == 0,
            r@.ops.len() == 0,
            r@.stats == no_stats(),
    {
        GpuContext {
            id,
            max_chunk_bytes: smaller(max_buffer_size, max_storage_buffer_binding_size),
            buffers: Vec::new(),
            ops: Vec::new(),
            stats: GpuSyncStats::default(),
        }
    }

    /// Starts a command list.
    pub fn create_command_encoder(&self) -> (r: GpuEncoder)
        ensures
            r@ == Seq::<GpuCommand>::empty(),
    {
        GpuEncoder::new()
    }

    /// Hands over what is still to be done, in order.
    pub fn take_ops(&mut self) -> (r: Vec<GpuOp>)
        ensures
            op_views(r@) == old(self)@.ops,
            final(self)@ == (ContextView { ops: Seq::empty(), ..old(self)@ }),
    {
        let mut taken: Vec<GpuOp> = Vec::new();
        std::mem::swap(&mut taken, &mut self.ops);
        assert(op_views(self.ops@) =~= Seq::<OpView>::empty());
        taken
    }

    fn push_op(&mut self, op: GpuOp)
        ensures
            final(self)@ == with_op(old(self)@, op@),
    {
        self.ops.push(op);
        assert(op_views(self.ops@) =~= old(self)@.ops.push(op@));
    }

    /// Makes a buffer of `words` words.
    pub fn create_buffer(&mut self, words: usize, usage: GpuUsage) -> (r: usize)
        ensures
            final(self)@ == made(old(self)@, words, usage),
            r == fresh(old(self)@),
            r == old(self)@.buffers.len(),
    {
        let id: usize = self.buffers.len();
        self.buffers.push(GpuBufferInfo { words, usage });
        id
    }

    /// Makes a buffer that holds the given words.
    pub fn create_buffer_init(&mut self, words: Vec<u32>, usage: GpuUsage) -> (r: usize)
        ensures
            final(self)@ == filled(old(self)@, words@, usage),
            r == fresh(old(self)@),
            r == old(self)@.buffers.len(),
    {
        let n: usize = words.len();
        let id: usize = self.create_buffer(n, usage);
        self.push_op(GpuOp::Init { buffer: id, words });
        id
    }

    /// Writes to the start of a buffer.
    pub fn write_buffer(&mut self, buffer: usize, words: Vec<u32>, how: GpuWrite)
        ensures
            final(self)@ == written(old(self)@, buffer, words@, how),
    {
        match how {
            GpuWrite::Uncounted => {},
            GpuWrite::Host => {
                self.stats.host_write_buffers = next_count(self.stats.host_write_buffers);
            },
            GpuWrite::Position => {
                self.stats.host_write_buffers = next_count(self.stats.host_write_buffers);
                self.stats.position_write_buffers = next_count(self.stats.position_write_buffers);
            },
        }
        self.push_op(GpuOp::Write { buffer, words });
    }

    /// Writes a position to a uniform.
    pub fn write_position(&mut self, buffer: usize, position: usize)
        ensures
            final(self)@ == positioned(old(self)@, buffer, position),
    {
        let words: Vec<u32> = vec![position as u32, 0, 0, 0];
        assert(words@ =~= position_words(position));
        self.write_buffer(buffer, words, GpuWrite::Position);
    }

    /// Hands a command list to the device.
    pub fn submit(&mut self, encoder: GpuEncoder)
        ensures
            final(self)@ == submitted(old(self)@, encoder@),
    {
        self.stats.submits = next_count(self.stats.submits);
        self.push_op(GpuOp::Submit(encoder));
    }

    /// Asks for a buffer to be mapped.
    pub fn map_read(&mut self, buffer: usize)
        ensures
            final(self)@ == map_asked(old(self)@, buffer),
    {
        self.stats.map_reads = next_count(self.stats.map_reads);
        self.push_op(GpuOp::MapRead(buffer));
    }

    /// Waits for the device.
    pub fn poll_wait(&mut self)
        ensures
            final(self)@ == waited(old(self)@),
    {
        self.stats.poll_waits = next_count(self.stats.poll_waits);
        self.push_op(GpuOp::PollWait);
    }

    /// Gives a buffer up.
    pub fn release_buffer(&mut self, buffer: usize)
        ensures
            final(self)@ == with_op(old(self)@, OpView::Release(buffer)),
    {
        self.push_op(GpuOp::Release(buffer));
    }

    /// Runs a command list and has the given buffers mapped.
    pub fn submit_and_map(&mut self, encoder: GpuEncoder, buffers: &[usize])
        ensures
            final(self)@ == read_back(old(self)@, encoder@, buffers@),
    {
        self.submit(encoder);
        let ghost start = self@;
        let mut i: usize = 0;
        assert(buffers@.take(0) =~= Seq::<usize>::empty());
        while i < buffers.len()
            invariant
                i <= buffers.len(),
                self@ == all_map_asked(start, buffers@.take(i as int)),
            decreases buffers.len() - i,
        {
            assert(buffers@.take(i + 1).drop_last() =~= buffers@.take(i as int));
            self.map_read(buffers[i]);
            i += 1;
        }
        assert(buffers@.take(buffers@.len() as int) =~= buffers@);
        self.poll_wait();
    }
}

/// Sets the counts of a device to zero.
pub fn reset_sync_stats(context: &mut GpuContext)
    ensures
        final(context)@ == (ContextView { stats: no_stats(), ..old(context)@ }),
{
    context.stats = GpuSyncStats::default();
}

/// The counts of a device.
pub fn sync_stats(context: &GpuContext) -> (r: GpuSyncStats)
    ensures
        r == context@.stats,
{
    context.stats
}

} // verus!
