//! The attention of a layer: its linear layers, where they run, and how one token is decoded on a
//! device.

use vstd::prelude::*;
use vstd::string::*;

use crate::error::ErrorView;
use crate::gpu::attention as gpu_attention;
use crate::gpu::chain;
use crate::gpu::context;
use crate::gpu::matvec;
use crate::gpu::norm;
use crate::gpu::q8;
use crate::gpu::q8_batch;
use crate::gpu::{
    GpuCommand, GpuContext, GpuMatVec, GpuQ8MatVec, GpuQ8SameInputBatch,
    GpuResidentBuffer,
};
use crate::model::attention_state::{AttentionShape, ResidentAttentionRuntimeState};
use crate::model::group;
use crate::model::group::enable_part;
use crate::model::linear;
use crate::model::Linear;
use crate::runtime;
use crate::tensor::Tensor;
use crate::text;

verus! {

/// A normalization: its weight, and the small number that is added in the root mean square.
#[derive(Debug)]
pub struct RmsNorm {
    pub weight: Tensor,
    pub eps: u32,
}

impl RmsNorm {
    /// A normalization.
    pub fn new(weight: Tensor, eps: u32) -> (r: RmsNorm)
        ensures
            r.weight == weight,
            r.eps == eps,
    {
        RmsNorm { weight, eps }
    }
}

/// The attention of a layer.
#[derive(Debug)]
pub struct Attention {
    pub q_proj: Linear,
    pub k_proj: Linear,
    pub v_proj: Linear,
    pub o_proj: Linear,
    pub q_norm: RmsNorm,
    pub k_norm: RmsNorm,
    pub num_heads: usize,
    pub num_kv_heads: usize,
    pub head_dim: usize,
    pub rope_theta: u32,
    pub rope_inv_freq: Vec<u32>,
    pub scale: u32,
    pub q8_qkv_batch: Option<GpuQ8SameInputBatch>,
    pub resident_runtime_state: Option<ResidentAttentionRuntimeState>,
}

/// The linear layers of an attention.
pub open spec fn projections(a: Attention) -> Seq<Linear> {
    seq![a.q_proj, a.k_proj, a.v_proj, a.o_proj]
}

/// Their names.
pub open spec fn projection_names() -> Seq<Seq<char>> {
    seq!["q_proj"@, "k_proj"@, "v_proj"@, "o_proj"@]
}

/// An attention with other linear layers.
pub open spec fn with_projections(a: Attention, ls: Seq<Linear>) -> Attention {
    Attention { q_proj: ls[0], k_proj: ls[1], v_proj: ls[2], o_proj: ls[3], ..a }
}

/// The matrices in eight bits of query, key and value.
pub open spec fn qkv_q8<'a>(ls: Seq<Linear>) -> Seq<&'a GpuQ8MatVec> {
    seq![&ls[0].q8_gpu_matvec->0, &ls[1].q8_gpu_matvec->0, &ls[2].q8_gpu_matvec->0]
}

/// Whether query, key and value have matrices in eight bits.
pub open spec fn has_qkv_q8(ls: Seq<Linear>) -> bool {
    ls[0].q8_gpu_matvec is Some && ls[1].q8_gpu_matvec is Some && ls[2].q8_gpu_matvec is Some
}

/// Whether a batch is the one that a device makes of some matrices.
pub open spec fn is_batch(
    c: context::ContextView,
    m: Seq<&GpuQ8MatVec>,
    b: GpuQ8SameInputBatch,
) -> bool {
    &&& b.context == c.id
    &&& b.input_buffer == context::fresh(c)
    &&& b.in_features == m[0].in_features
    &&& b.out_features@.len() == m.len()
    &&& b.groups@.len() == m.len()
    &&& forall|i: int|
        0 <= i < m.len() ==> (#[trigger] b.groups@[i])@ == q8::q8_all_binds(
            m[i].chunks@,
            b.input_buffer,
        )
    &&& forall|i: int| 0 <= i < m.len() ==> (#[trigger] b.out_features@[i]) == m[i].out_features
    &&& b.well_formed()
}

/// What becomes of an attention whose layers, put on a device as `mid`, are to share one input.
pub open spec fn batched(
    c: context::ContextView,
    after: context::ContextView,
    a: Attention,
    mid: Seq<Linear>,
    b: Attention,
    errors: Seq<Seq<char>>,
    noted: Seq<Seq<char>>,
) -> bool {
    if !has_qkv_q8(mid) {
        &&& b == (Attention { q8_qkv_batch: None, ..with_projections(a, mid) })
        &&& after == c
        &&& noted == errors
    } else {
        match q8_batch::batch_error(qkv_q8(mid)) {
            Some(e) => {
                &&& b == (Attention { q8_qkv_batch: None, ..with_projections(a, mid) })
                &&& after == c
                &&& noted == errors.push("attention.qkv.q8_shared_input: "@ + e)
            },
            None => {
                &&& b == (Attention {
                    q_proj: b.q_proj,
                    k_proj: b.k_proj,
                    v_proj: b.v_proj,
                    q8_qkv_batch: b.q8_qkv_batch,
                    ..with_projections(a, mid)
                })
                &&& linear::is_released(mid[0], b.q_proj, true)
                &&& linear::is_released(mid[1], b.k_proj, true)
                &&& linear::is_released(mid[2], b.v_proj, true)
                &&& b.q8_qkv_batch is Some
                &&& is_batch(c, qkv_q8(mid), b.q8_qkv_batch->0)
                &&& after == context::made(
                    c,
                    (b.q8_qkv_batch->0).in_features,
                    crate::gpu::GpuUsage::Input,
                )
                &&& noted == errors
            },
        }
    }
}

/// How query, key and value of one token are found.
#[derive(Debug)]
pub enum QkvStep {
    /// Read the parts of the three results from the buffers of the matrices in eight bits.
    Q8(Vec<usize>),
    /// Read the parts of the three results from the buffers of the matrices in half precision.
    Half(Vec<usize>),
    /// Run the three layers one after the other.
    Apart,
}

/// Whether matrices in eight bits take a token, with a batch or without.
pub open spec fn q8_takes(a: Attention, x: Tensor) -> bool {
    let m = qkv_q8(projections(a));
    &&& has_qkv_q8(projections(a))
    &&& match a.q8_qkv_batch {
        Some(b) => {
            &&& q8_batch::batch_input_error(b, m, x.dims()) is None
            &&& q8_batch::batch_raw_error(b, 3, x.values().len()) is None
            &&& !q8_batch::any_unreadable(m)
        },
        None => {
            &&& q8::q8_many_error(m, x.dims()) is None
            &&& q8::q8_raw_error(m, x.values().len()) is None
            &&& q8::many_released(m) is None
        },
    }
}

/// A device after matrices in eight bits were to take a token.
pub open spec fn after_q8(c: context::ContextView, a: Attention, x: Tensor) -> context::ContextView {
    let m = qkv_q8(projections(a));
    if !has_qkv_q8(projections(a)) {
        c
    } else {
        match a.q8_qkv_batch {
            Some(b) => {
                let given = context::written(
                    c,
                    b.input_buffer,
                    x.values(),
                    crate::gpu::GpuWrite::Uncounted,
                );
                if q8_batch::batch_input_error(b, m, x.dims()) is Some
                    || q8_batch::batch_raw_error(b, 3, x.values().len()) is Some {
                    c
                } else if q8_batch::any_unreadable(m) {
                    given
                } else {
                    context::read_back(
                        given,
                        seq![GpuCommand::BeginPass] + q8_batch::batch_runs(
                            q8_batch::bind_lists(b.groups@),
                            m,
                            q8::q8_kernel(b.in_features),
                            3,
                        ) + q8_batch::batch_copies(m),
                        q8::q8_many_readbacks(m),
                    )
                }
            },
            None => {
                let given = q8::q8_many_written(c, m, x.values());
                if q8::q8_many_error(m, x.dims()) is Some || q8::q8_raw_error(
                    m,
                    x.values().len(),
                ) is Some {
                    c
                } else if q8::many_released(m) is Some {
                    given
                } else {
                    context::read_back(given, q8::q8_many_commands(m), q8::q8_many_readbacks(m))
                }
            },
        }
    }
}

/// The matrices in half precision of query, key and value.
pub open spec fn qkv_half<'a>(a: Attention) -> Seq<&'a GpuMatVec> {
    seq![&a.q_proj.gpu_matvec->0, &a.k_proj.gpu_matvec->0, &a.v_proj.gpu_matvec->0]
}

/// Whether matrices in half precision take a token.
pub open spec fn half_takes(a: Attention, x: Tensor) -> bool {
    &&& a.q_proj.gpu_matvec is Some && a.k_proj.gpu_matvec is Some && a.v_proj.gpu_matvec is Some
    &&& matvec::many_error(qkv_half(a), x.dims()) is None
}

/// How query, key and value of one token are found: 0 in eight bits, 1 in half precision, 2 apart;
/// each is tried where it can be, and the next where it fails.
pub open spec fn is_qkv_step(
    a: Attention,
    x: Tensor,
    from: int,
    before: context::ContextView,
    after: context::ContextView,
    r: QkvStep,
) -> bool {
    let tried = if from <= 0 {
        after_q8(before, a, x)
    } else {
        before
    };
    if from <= 0 && q8_takes(a, x) {
        &&& r matches QkvStep::Q8(b)
        &&& b@ == q8::q8_many_readbacks(qkv_q8(projections(a)))
        &&& after == tried
    } else if from <= 1 && half_takes(a, x) {
        &&& r matches QkvStep::Half(b)
        &&& b@ == matvec::many_readbacks(qkv_half(a))
        &&& after == matvec::many_run(tried, qkv_half(a), x.values())
    } else {
        &&& r is Apart
        &&& after == tried
    }
}

/// The message of an attention on a device that fails.
pub open spec fn attention_failure(why: Seq<char>) -> ErrorView {
    ErrorView::DimensionError("GPU resident attention prototype failed: "@ + why)
}

/// The message that a layer is not on the device, if one is not.
pub open spec fn missing_projection(a: Attention) -> Option<Seq<char>> {
    if a.q_proj.q8_gpu_matvec is None {
        Some("missing q_proj Q8 GPU matvec"@)
    } else if a.k_proj.q8_gpu_matvec is None {
        Some("missing k_proj Q8 GPU matvec"@)
    } else if a.v_proj.q8_gpu_matvec is None {
        Some("missing v_proj Q8 GPU matvec"@)
    } else if a.o_proj.q8_gpu_matvec is None {
        Some("missing o_proj Q8 GPU matvec"@)
    } else {
        None
    }
}

/// The values that query, key and value of a token are written to.
pub open spec fn qkv_outputs<'a>(s: ResidentAttentionRuntimeState) -> Seq<&'a GpuResidentBuffer> {
    seq![&s.resident_q_pre, &s.resident_k_pre, &s.resident_v]
}

/// The buffers with which query, key and value of a token are found together.
pub open spec fn qkv_groups(
    c: context::ContextView,
    a: Attention,
    s: ResidentAttentionRuntimeState,
) -> Seq<Seq<q8::GpuQ8Binds>> {
    match s.qkv_batch_cache {
        Some(k) => q8_batch::bind_lists(k.groups@),
        None => q8_batch::batch_cached(
            c,
            a.q8_qkv_batch->0,
            qkv_q8(projections(a)),
            qkv_outputs(s),
            3,
        ).1,
    }
}

/// Why query, key and value cannot be found together with prepared buffers.
pub open spec fn qkv_error(
    b: GpuQ8SameInputBatch,
    m: Seq<&GpuQ8MatVec>,
    hidden: GpuResidentBuffer,
    outputs: Seq<&GpuResidentBuffer>,
    groups: Seq<Seq<q8::GpuQ8Binds>>,
) -> Option<Seq<char>> {
    if m.len() != groups.len() || outputs.len() != groups.len() {
        Some("GPU Q8 shared-input resident batch cache size mismatch"@)
    } else {
        q8_batch::batch_resident_error(
            b,
            m,
            hidden,
            outputs,
            groups,
            q8_batch::cache_layout(),
        )
    }
}

/// A matrix in eight bits that runs from one value to another.
pub open spec fn q8_step(m: GpuQ8MatVec, input: GpuResidentBuffer, output: GpuResidentBuffer)
    -> chain::EncodeStep {
    chain::step(
        q8::q8_cache_error(m, input, output),
        q8::q8_resident_commands(
            m.chunks@,
            q8::q8_all_binds(m.chunks@, input.buffer),
            q8::q8_kernel(m.in_features),
            output.buffer,
            m.chunks@.len(),
        ),
    )
}

/// The steps that find query, key and value of a token: together where a batch is there, else apart.
pub open spec fn qkv_steps(
    c: context::ContextView,
    a: Attention,
    s: ResidentAttentionRuntimeState,
    hidden: GpuResidentBuffer,
) -> Seq<chain::EncodeStep> {
    let m = qkv_q8(projections(a));
    match a.q8_qkv_batch {
        Some(b) => seq![
            chain::step(
                if s.qkv_batch_cache is None {
                    q8_batch::batch_resident_error(
                        b,
                        m,
                        hidden,
                        qkv_outputs(s),
                        q8_batch::bind_lists(b.groups@),
                        q8_batch::batch_layout(),
                    )
                } else {
                    None
                },
                Seq::empty(),
            ),
            chain::step(
                q8_batch::batch_copy_error(b, hidden),
                seq![context::copy(hidden.buffer, b.input_buffer, 0, b.in_features)],
            ),
            chain::step(None, seq![GpuCommand::BeginPass]),
            chain::step(
                qkv_error(b, m, hidden, qkv_outputs(s), qkv_groups(c, a, s)),
                q8_batch::batch_resident_runs(b, m, qkv_groups(c, a, s)),
            ),
        ],
        None => seq![
            q8_step(*m[0], hidden, s.resident_q_pre),
            q8_step(*m[1], hidden, s.resident_k_pre),
            q8_step(*m[2], hidden, s.resident_v),
            chain::step(None, seq![GpuCommand::BeginPass]),
        ],
    }
}

/// The buffers with which the result of an attention is projected.
pub open spec fn o_groups(a: Attention, s: ResidentAttentionRuntimeState) -> Seq<q8::GpuQ8Binds> {
    match s.o_proj_gpu_cache {
        Some(k) => k.groups@,
        None => q8::q8_all_binds(
            (a.o_proj.q8_gpu_matvec->0).chunks@,
            s.resident_attention.buffer,
        ),
    }
}

/// The steps behind query, key and value: turning them, keeping key and value, attending, and
/// projecting the result.
pub open spec fn attend_steps(
    a: Attention,
    s: ResidentAttentionRuntimeState,
    output: GpuResidentBuffer,
    position: usize,
) -> Seq<chain::EncodeStep> {
    let o = a.o_proj.q8_gpu_matvec->0;
    let groups = o_groups(a, s);
    seq![
        chain::step(
            if norm::rope_shared(
                s.qk_gpu,
                s.resident_q_pre,
                s.resident_k_pre,
                s.resident_q,
                s.resident_k,
            ) {
                None
            } else {
                Some(norm::rope_unshared())
            },
            norm::rope_commands(s.qk_gpu, s.qk_gpu_cache),
        ),
        chain::step(
            gpu_attention::kv_encode_error(
                s.kv_gpu,
                position,
                s.resident_k,
                s.resident_v,
                s.resident_key_cache,
                s.resident_value_cache,
            ),
            gpu_attention::kv_commands(s.kv_gpu, s.kv_gpu_cache),
        ),
        chain::step(
            gpu_attention::attention_encode_error(
                s.attn_gpu,
                s.resident_q,
                s.resident_key_cache,
                s.resident_value_cache,
                s.resident_attention,
                position,
            ),
            seq![gpu_attention::attention_command(s.attn_gpu, s.attn_gpu_cache, position)],
        ),
        chain::step(
            if s.o_proj_gpu_cache is None {
                q8::q8_cache_error(o, s.resident_attention, output)
            } else {
                None
            },
            Seq::empty(),
        ),
        chain::step(
            match q8::q8_cache_error(o, s.resident_attention, output) {
                Some(e) => Some(e),
                None => if groups.len() != o.chunks@.len() {
                    Some("GPU Q8 matvec resident cache chunk layout mismatch"@)
                } else {
                    None
                },
            },
            q8::q8_resident_commands(
                o.chunks@,
                groups,
                q8::q8_kernel(o.in_features),
                output.buffer,
                o.chunks@.len(),
            ),
        ),
    ]
}

/// The steps that decode one token.
pub open spec fn decode_steps(
    c: context::ContextView,
    a: Attention,
    s: ResidentAttentionRuntimeState,
    hidden: GpuResidentBuffer,
    output: GpuResidentBuffer,
    position: usize,
) -> Seq<chain::EncodeStep> {
    qkv_steps(c, a, s, hidden) + attend_steps(a, s, output, position)
}

/// The place of the step that keeps key and value, and of that which prepares the projection.
pub open spec fn kv_place() -> int {
    5
}

/// A device after one token was to be decoded.
pub open spec fn decode_after(
    c: context::ContextView,
    a: Attention,
    s: ResidentAttentionRuntimeState,
    failed: int,
) -> context::ContextView {
    if a.q8_qkv_batch is Some && s.qkv_batch_cache is None && failed > 0 {
        q8_batch::batch_cached(
            c,
            a.q8_qkv_batch->0,
            qkv_q8(projections(a)),
            qkv_outputs(s),
            3,
        ).0
    } else {
        c
    }
}

/// What decoding one token leaves of what is kept, where step `failed` is the first that fails.
pub open spec fn is_decoded(
    c: context::ContextView,
    a: Attention,
    s: ResidentAttentionRuntimeState,
    t: ResidentAttentionRuntimeState,
    position: usize,
    failed: int,
) -> bool {
    &&& t == (ResidentAttentionRuntimeState {
        kv_gpu: if failed > kv_place() {
            gpu_attention::reached(s.kv_gpu, position)
        } else {
            s.kv_gpu
        },
        qkv_batch_cache: t.qkv_batch_cache,
        o_proj_gpu_cache: t.o_proj_gpu_cache,
        ..s
    })
    &&& if a.q8_qkv_batch is Some && s.qkv_batch_cache is None && failed > 0 {
        &&& t.qkv_batch_cache matches Some(k)
        &&& q8_batch::bind_lists(k.groups@) == qkv_groups(c, a, s)
    } else {
        t.qkv_batch_cache == s.qkv_batch_cache
    }
    &&& if s.o_proj_gpu_cache is None && failed > kv_place() + 2 {
        &&& t.o_proj_gpu_cache matches Some(k)
        &&& k.groups@ == o_groups(a, s)
    } else {
        t.o_proj_gpu_cache == s.o_proj_gpu_cache
    }
}

impl Attention {
    /// The layers can be put on a device, and what is there is on the given one.
    pub open spec fn well_formed(&self, id: u64) -> bool {
        &&& self.q_proj.well_formed() && self.q_proj.on_device(id)
        &&& self.k_proj.well_formed() && self.k_proj.on_device(id)
        &&& self.v_proj.well_formed() && self.v_proj.on_device(id)
        &&& self.o_proj.well_formed() && self.o_proj.on_device(id)
        &&& self.q8_qkv_batch matches Some(b) ==> b.context == id && b.well_formed()
    }

    /// The sizes and numbers of an attention.
    pub open spec fn has_shape(&self, s: AttentionShape<'_>) -> bool {
        &&& s.num_heads == self.num_heads
        &&& s.num_kv_heads == self.num_kv_heads
        &&& s.head_dim == self.head_dim
        &&& *s.q_weight == self.q_norm.weight
        &&& *s.k_weight == self.k_norm.weight
        &&& s.inv_freq@ == self.rope_inv_freq@
        &&& s.q_eps == self.q_norm.eps
        &&& s.k_eps == self.k_norm.eps
        &&& s.scale == self.scale
    }

    /// The sizes and numbers of an attention.
    pub fn shape(&self) -> (r: AttentionShape<'_>)
        ensures
            self.has_shape(r),
    {
        AttentionShape {
            num_heads: self.num_heads,
            num_kv_heads: self.num_kv_heads,
            head_dim: self.head_dim,
            q_weight: &self.q_norm.weight,
            k_weight: &self.k_norm.weight,
            inv_freq: self.rope_inv_freq.as_slice(),
            q_eps: self.q_norm.eps,
            k_eps: self.k_norm.eps,
            scale: self.scale,
        }
    }

    fn enable_projections(&mut self, context: &mut GpuContext, q8: bool) -> (r: (
        usize,
        Vec<String>,
    ))
        requires
            old(self).well_formed(old(context)@.id),
        ensures
            ({
                let c = old(context)@;
                let ls = projections(*old(self));
                &&& group::group_became(c, ls, projections(*final(self)), q8)
                &&& *final(self) == with_projections(*old(self), projections(*final(self)))
                &&& final(context)@ == group::group_after(c, ls, q8, 4)
                &&& final(context)@.id == c.id
                &&& r.0 == group::group_count(c, ls, q8, 4)
                &&& runtime::texts(r.1@) == group::group_errors(
                    c,
                    ls,
                    "attention."@,
                    projection_names(),
                    q8,
                    4,
                )
                &&& final(self).well_formed(c.id)
            }),
    {
        let ghost c = context@;
        let ghost ls = projections(*self);
        let ghost head = "attention."@;
        let ghost names = projection_names();
        let mut errors: Vec<String> = Vec::new();
        assert(runtime::texts(errors@) =~= Seq::<Seq<char>>::empty());
        proof {
            group::lemma_next_part(c, ls, head, names, q8, 0);
        }
        let a = enable_part(&mut self.q_proj, context, q8, "attention.", "q_proj", &mut errors);
        proof {
            group::lemma_next_part(c, ls, head, names, q8, 1);
        }
        let b = enable_part(&mut self.k_proj, context, q8, "attention.", "k_proj", &mut errors);
        proof {
            group::lemma_next_part(c, ls, head, names, q8, 2);
        }
        let d = enable_part(&mut self.v_proj, context, q8, "attention.", "v_proj", &mut errors);
        proof {
            group::lemma_next_part(c, ls, head, names, q8, 3);
        }
        let e = enable_part(&mut self.o_proj, context, q8, "attention.", "o_proj", &mut errors);
        (a + b + d + e, errors)
    }

    /// Puts the layers on a device in half precision; how many are there then, and why others are
    /// not.
    pub fn try_enable_gpu_matvecs(&mut self, context: &mut GpuContext) -> (r: (usize, Vec<String>))
        requires
            old(self).well_formed(old(context)@.id),
        ensures
            ({
                let c = old(context)@;
                let ls = projections(*old(self));
                &&& group::group_became(c, ls, projections(*final(self)), false)
                &&& *final(self) == with_projections(*old(self), projections(*final(self)))
                &&& final(context)@ == group::group_after(c, ls, false, 4)
                &&& final(context)@.id == c.id
                &&& r.0 == group::group_count(c, ls, false, 4)
                &&& runtime::texts(r.1@) == group::group_errors(
                    c,
                    ls,
                    "attention."@,
                    projection_names(),
                    false,
                    4,
                )
                &&& final(self).well_formed(c.id)
            }),
    {
        self.enable_projections(context, false)
    }

    /// Puts the layers on a device in eight bits, and has query, key and value share their input
    /// where they can; how many are there then, and why others are not.
    pub fn try_enable_q8_gpu_matvecs(&mut self, context: &mut GpuContext) -> (r: (
        usize,
        Vec<String>,
    ))
        requires
            old(self).well_formed(old(context)@.id),
        ensures
            ({
                let c = old(context)@;
                let ls = projections(*old(self));
                &&& exists|mid: Seq<Linear>| #[trigger]
                    group::group_became(c, ls, mid, true) && batched(
                        group::group_after(c, ls, true, 4),
                        final(context)@,
                        *old(self),
                        mid,
                        *final(self),
                        group::group_errors(
                            c,
                            ls,
                            "attention."@,
                            projection_names(),
                            true,
                            4,
                        ),
                        runtime::texts(r.1@),
                    )
                &&& final(context)@.id == c.id
                &&& r.0 == group::group_count(c, ls, true, 4)
                &&& final(self).well_formed(c.id)
            }),
    {
        let ghost first = *self;
        let ghost c = context@;
        let (attached, listed) = self.enable_projections(context, true);
        let mut errors = listed;
        let ghost mid = projections(*self);
        let ghost noted = runtime::texts(errors@);
        let ghost listed_errors = errors@;
        assert(group::group_became(c, projections(first), mid, true));
        let made = match (
            &self.q_proj.q8_gpu_matvec,
            &self.k_proj.q8_gpu_matvec,
            &self.v_proj.q8_gpu_matvec,
        ) {
            (Some(q), Some(k), Some(v)) => {
                let list = vec![q, k, v];
                assert(list@ =~= qkv_q8(mid));
                Some(GpuQ8SameInputBatch::new(context, &list))
            },
            _ => None,
        };
        match made {
            Some(Ok(batch)) => {
                self.q_proj.release_q8_gpu_standalone_forward_resources(true);
                self.k_proj.release_q8_gpu_standalone_forward_resources(true);
                self.v_proj.release_q8_gpu_standalone_forward_resources(true);
                self.q8_qkv_batch = Some(batch);
            },
            Some(Err(err)) => {
                let s = text::joined("attention.qkv.q8_shared_input: ", err.as_str());
                let ghost words = s@;
                errors.push(s);
                assert(runtime::texts(errors@) =~= runtime::texts(listed_errors).push(words));
                self.q8_qkv_batch = None;
            },
            None => {
                self.q8_qkv_batch = None;
            },
        }
        assert(batched(
            group::group_after(c, projections(first), true, 4),
            context@,
            first,
            mid,
            *self,
            noted,
            runtime::texts(errors@),
        ));
        (attached, errors)
    }

    /// How query, key and value of one token are found: 0 in eight bits, 1 in half precision, 2
    /// apart.
    pub fn qkv_from(&self, context: &mut GpuContext, x: &Tensor, from: usize) -> (r: QkvStep)
        requires
            self.well_formed(old(context)@.id),
        ensures
            is_qkv_step(*self, *x, from as int, old(context)@, final(context)@, r),
    {
        let ghost before = context@;
        if from == 0 {
            match (
                &self.q_proj.q8_gpu_matvec,
                &self.k_proj.q8_gpu_matvec,
                &self.v_proj.q8_gpu_matvec,
            ) {
                (Some(q), Some(k), Some(v)) => {
                    let list = vec![q, k, v];
                    assert(list@ =~= qkv_q8(projections(*self)));
                    let run = match &self.q8_qkv_batch {
                        Some(b) => b.forward(context, &list, x),
                        None => GpuQ8MatVec::forward_many_same_input(context, &list, x),
                    };
                    proof {
                        lemma_written_stays(before, list@, x.values());
                    }
                    match run {
                        Ok(b) => {
                            return QkvStep::Q8(b);
                        },
                        Err(_) => {},
                    }
                },
                _ => {},
            }
        }
        assert(context@.id == before.id);
        assert(context@ == (if from == 0 {
            after_q8(before, *self, *x)
        } else {
            before
        }));
        if from <= 1 {
            match (&self.q_proj.gpu_matvec, &self.k_proj.gpu_matvec, &self.v_proj.gpu_matvec) {
                (Some(q), Some(k), Some(v)) => {
                    let list = vec![q, k, v];
                    assert(list@ =~= qkv_half(*self));
                    match GpuMatVec::forward_many_same_input(context, &list, x) {
                        Ok(b) => {
                            return QkvStep::Half(b);
                        },
                        Err(_) => {},
                    }
                },
                _ => {},
            }
        }
        QkvStep::Apart
    }
}

proof fn lemma_written_stays(c: context::ContextView, m: Seq<&GpuQ8MatVec>, words: Seq<u32>)
    ensures
        q8::q8_many_written(c, m, words).id == c.id,
    decreases m.len(),
{
    if m.len() > 0 {
        lemma_written_stays(c, m.drop_last(), words);
    }
}

} // verus!
