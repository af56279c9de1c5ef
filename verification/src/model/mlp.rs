//! The feed-forward part of a layer: its linear layers, and in what order its ways are tried.

use vstd::prelude::*;
use vstd::string::*;

use crate::error::{ErrorView, RsinferError};
use crate::gpu::context;
use crate::gpu::matvec;
use crate::gpu::q8;
use crate::gpu::q8_swiglu;
use crate::gpu::swiglu;
use crate::gpu::{
    GpuContext, GpuEncoder, GpuMatVec, GpuQ8SwiGluDown, GpuQ8SwiGluDownResidentCache,
    GpuResidentBuffer, GpuSwiGluDown, GpuUsage, GpuWrite,
};
use crate::model::group;
use crate::model::group::enable_part;
use crate::model::linear;
use crate::model::Linear;
use crate::runtime;
use crate::tensor::Tensor;
use crate::text;

verus! {

/// The feed-forward part of a layer, `down(silu(gate(x)) * up(x))`.
#[derive(Debug)]
pub struct Mlp {
    pub gate_proj: Linear,
    pub up_proj: Linear,
    pub down_proj: Linear,
    pub gpu_swiglu_down: Option<GpuSwiGluDown>,
    pub q8_gpu_swiglu_down: Option<GpuQ8SwiGluDown>,
}

/// The linear layers of a feed-forward part.
pub open spec fn mlp_parts(m: Mlp) -> Seq<Linear> {
    seq![m.gate_proj, m.up_proj, m.down_proj]
}

/// Their names.
pub open spec fn mlp_names() -> Seq<Seq<char>> {
    seq!["gate_proj"@, "up_proj"@, "down_proj"@]
}

/// A feed-forward part with other linear layers.
pub open spec fn with_mlp_parts(m: Mlp, ls: Seq<Linear>) -> Mlp {
    Mlp { gate_proj: ls[0], up_proj: ls[1], down_proj: ls[2], ..m }
}

/// Whether all three layers have matrices in half precision.
pub open spec fn all_half(ls: Seq<Linear>) -> bool {
    ls[0].gpu_matvec is Some && ls[1].gpu_matvec is Some && ls[2].gpu_matvec is Some
}

/// Whether all three layers have matrices in eight bits.
pub open spec fn all_q8(ls: Seq<Linear>) -> bool {
    ls[0].q8_gpu_matvec is Some && ls[1].q8_gpu_matvec is Some && ls[2].q8_gpu_matvec is Some
}

/// Why the layers in eight bits cannot be run as one.
pub open spec fn q8_fuse_error(ls: Seq<Linear>) -> Option<Seq<char>> {
    let gate = ls[0].q8_gpu_matvec->0;
    let up = ls[1].q8_gpu_matvec->0;
    let down = ls[2].q8_gpu_matvec->0;
    match q8_swiglu::q8_swiglu_error(gate, up, down) {
        Some(e) => Some(e),
        None => if down.input_buffer is None {
            Some("GPU Q8 fused MLP down input buffer was released"@)
        } else {
            None
        },
    }
}

/// What becomes of a part whose layers, put on a device in half precision as `ls`, are to run as one.
pub open spec fn fused(
    c: context::ContextView,
    after: context::ContextView,
    m: Mlp,
    ls: Seq<Linear>,
    r: Mlp,
    errors: Seq<Seq<char>>,
    noted: Seq<Seq<char>>,
) -> bool {
    let gate = ls[0].gpu_matvec->0;
    let up = ls[1].gpu_matvec->0;
    let down = ls[2].gpu_matvec->0;
    &&& r == (Mlp { gpu_swiglu_down: r.gpu_swiglu_down, ..with_mlp_parts(m, ls) })
    &&& if !all_half(ls) {
        r.gpu_swiglu_down is None && after == c && noted == errors
    } else {
        match swiglu::swiglu_error(gate, up, down) {
            Some(e) => {
                &&& r.gpu_swiglu_down is None
                &&& after == c
                &&& noted == errors.push("mlp.swiglu_down: "@ + e)
            },
            None => {
                let all = swiglu::gates_made(
                    c,
                    gate.chunks@,
                    up.chunks@,
                    down.input_buffer,
                    gate.chunks@.len(),
                );
                &&& r.gpu_swiglu_down matches Some(s)
                &&& s.context == gate.context
                &&& s.groups@ == all.1
                &&& after == all.0
                &&& noted == errors
            },
        }
    }
}

/// What becomes of a part whose layers, put on a device in eight bits as `ls`, are to run as one.
pub open spec fn q8_fused(
    c: context::ContextView,
    after: context::ContextView,
    m: Mlp,
    ls: Seq<Linear>,
    r: Mlp,
    errors: Seq<Seq<char>>,
    noted: Seq<Seq<char>>,
) -> bool {
    let gate = ls[0].q8_gpu_matvec->0;
    let up = ls[1].q8_gpu_matvec->0;
    let down = ls[2].q8_gpu_matvec->0;
    if !all_q8(ls) {
        &&& r == (Mlp { q8_gpu_swiglu_down: None, ..with_mlp_parts(m, ls) })
        &&& after == c
        &&& noted == errors
    } else {
        match q8_fuse_error(ls) {
            Some(e) => {
                &&& r == (Mlp { q8_gpu_swiglu_down: None, ..with_mlp_parts(m, ls) })
                &&& after == c
                &&& noted == errors.push("mlp.q8_swiglu_down: "@ + e)
            },
            None => {
                let all = q8_swiglu::q8_gates_made(
                    context::made(c, gate.in_features, GpuUsage::Input),
                    gate.chunks@,
                    up.chunks@,
                    down.input_buffer->0,
                    gate.chunks@.len(),
                );
                &&& r == (Mlp {
                    gate_proj: r.gate_proj,
                    up_proj: r.up_proj,
                    q8_gpu_swiglu_down: r.q8_gpu_swiglu_down,
                    ..with_mlp_parts(m, ls)
                })
                &&& linear::is_released(ls[0], r.gate_proj, false)
                &&& linear::is_released(ls[1], r.up_proj, false)
                &&& r.q8_gpu_swiglu_down matches Some(s)
                &&& s.context == gate.context
                &&& s.shared_input_buffer == context::fresh(c)
                &&& s.gate_groups@ == q8::q8_all_binds(gate.chunks@, s.shared_input_buffer)
                &&& s.up_groups@ == q8::q8_all_binds(up.chunks@, s.shared_input_buffer)
                &&& s.groups@ == all.1
                &&& after == all.0
                &&& noted == errors
            },
        }
    }
}

/// How a feed-forward part runs.
#[derive(Debug)]
pub enum MlpStep {
    /// Read the parts of the result from the buffers of the last matrix in eight bits.
    Q8Fused(Vec<usize>),
    /// Read the parts of the result from the buffers of the last matrix in half precision.
    Fused(Vec<usize>),
    /// Read the parts of gate and up from the buffers of their matrices in half precision.
    GateUp(Vec<usize>),
    /// Multiply by the weights of gate and up in eight bits, side by side.
    GateUpQ8,
    /// Run gate and up one after the other.
    Apart,
}

/// Whether the fused layers in eight bits take a token.
pub open spec fn q8_takes(m: Mlp, x: Tensor) -> bool {
    let gate = m.gate_proj.q8_gpu_matvec->0;
    let up = m.up_proj.q8_gpu_matvec->0;
    let down = m.down_proj.q8_gpu_matvec->0;
    &&& all_q8(mlp_parts(m))
    &&& m.q8_gpu_swiglu_down matches Some(f)
    &&& q8_swiglu::q8_swiglu_input_error(gate, up, down, x.dims()) is None
    &&& q8_swiglu::q8_swiglu_raw_error(f, gate, up, down, x.values().len()) is None
    &&& q8::chunks_released(down.chunks@, q8_swiglu::down_name()) is None
}

/// A device after the fused layers in eight bits were to take a token.
pub open spec fn after_q8(c: context::ContextView, m: Mlp, x: Tensor) -> context::ContextView {
    let gate = m.gate_proj.q8_gpu_matvec->0;
    let up = m.up_proj.q8_gpu_matvec->0;
    let down = m.down_proj.q8_gpu_matvec->0;
    match m.q8_gpu_swiglu_down {
        Some(f) if all_q8(mlp_parts(m)) => {
            let given = context::written(
                c,
                f.shared_input_buffer,
                x.values(),
                GpuWrite::Host,
            );
            if q8_swiglu::q8_swiglu_input_error(gate, up, down, x.dims()) is Some
                || q8_swiglu::q8_swiglu_raw_error(f, gate, up, down, x.values().len()) is Some {
                c
            } else if q8::chunks_released(down.chunks@, q8_swiglu::down_name()) is Some {
                given
            } else {
                context::read_back(
                    given,
                    q8_swiglu::q8_swiglu_commands(f, gate, down),
                    q8::q8_readbacks_of(down.chunks@),
                )
            }
        },
        _ => c,
    }
}

/// Whether the fused layers in half precision take a token.
pub open spec fn half_takes(m: Mlp, x: Tensor) -> bool {
    let gate = m.gate_proj.gpu_matvec->0;
    let up = m.up_proj.gpu_matvec->0;
    let down = m.down_proj.gpu_matvec->0;
    &&& all_half(mlp_parts(m))
    &&& m.gpu_swiglu_down matches Some(f)
    &&& swiglu::swiglu_input_error(gate, up, down, x.dims()) is None
    &&& f.context == gate.context
}

/// The matrices in half precision of gate and up.
pub open spec fn gate_up<'a>(m: Mlp) -> Seq<&'a GpuMatVec> {
    seq![&m.gate_proj.gpu_matvec->0, &m.up_proj.gpu_matvec->0]
}

/// Whether gate and up take a token in half precision.
pub open spec fn gate_up_takes(m: Mlp, x: Tensor) -> bool {
    &&& m.gate_proj.gpu_matvec is Some && m.up_proj.gpu_matvec is Some
    &&& matvec::many_error(gate_up(m), x.dims()) is None
}

/// How a feed-forward part runs, from one of its ways on: 0 fused in eight bits, 1 fused in half
/// precision, 2 gate and up in half precision, 3 neither.  One token tries each that is there, and
/// the next where it fails; more tokens run gate and up one after the other.
pub open spec fn is_mlp_step(
    m: Mlp,
    x: Tensor,
    from: int,
    before: context::ContextView,
    after: context::ContextView,
    r: MlpStep,
) -> bool {
    let gate = m.gate_proj.gpu_matvec->0;
    let up = m.up_proj.gpu_matvec->0;
    let down = m.down_proj.gpu_matvec->0;
    let tried = if from <= 0 {
        after_q8(before, m, x)
    } else {
        before
    };
    if x.dims()[0] != 1 {
        r is Apart && after == before
    } else if from <= 0 && q8_takes(m, x) {
        &&& r matches MlpStep::Q8Fused(b)
        &&& b@ == q8::q8_readbacks_of((m.down_proj.q8_gpu_matvec->0).chunks@)
        &&& after == tried
    } else if from <= 1 && half_takes(m, x) {
        &&& r matches MlpStep::Fused(b)
        &&& b@ == matvec::readbacks_of(down.chunks@)
        &&& after == swiglu::swiglu_run(
            tried,
            m.gpu_swiglu_down->0,
            gate,
            up,
            down,
            x.values(),
        )
    } else if from <= 2 && gate_up_takes(m, x) {
        &&& r matches MlpStep::GateUp(b)
        &&& b@ == matvec::many_readbacks(gate_up(m))
        &&& after == matvec::many_run(tried, gate_up(m), x.values())
    } else {
        &&& after == tried
        &&& if m.gate_proj.cpu_q8_only() && m.up_proj.cpu_q8_only() {
            r is GateUpQ8
        } else {
            r is Apart
        }
    }
}

/// The message of a feed-forward part on a device that fails.
pub open spec fn mlp_failure(why: Seq<char>) -> ErrorView {
    ErrorView::DimensionError("GPU resident MLP prototype failed: "@ + why)
}

/// Why a feed-forward part writes no commands with prepared buffers.
pub open spec fn encode_error(
    m: Mlp,
    input: GpuResidentBuffer,
    output: GpuResidentBuffer,
    cache: Option<&GpuQ8SwiGluDownResidentCache>,
) -> Option<Seq<char>> {
    if m.gate_proj.q8_gpu_matvec is None {
        Some("missing gate_proj Q8 GPU matvec"@)
    } else if m.up_proj.q8_gpu_matvec is None {
        Some("missing up_proj Q8 GPU matvec"@)
    } else if m.down_proj.q8_gpu_matvec is None {
        Some("missing down_proj Q8 GPU matvec"@)
    } else if m.q8_gpu_swiglu_down is None {
        Some("missing fused Q8 SwiGLU helper"@)
    } else {
        match cache {
            None => Some("missing resident fused Q8 SwiGLU cache"@),
            Some(k) => q8_swiglu::q8_swiglu_encode_error(
                m.q8_gpu_swiglu_down->0,
                m.gate_proj.q8_gpu_matvec->0,
                m.up_proj.q8_gpu_matvec->0,
                m.down_proj.q8_gpu_matvec->0,
                input,
                output,
                *k,
            ),
        }
    }
}

/// The error of a feed-forward part on a device that fails.
pub fn mlp_error(why: &str) -> (r: RsinferError)
    ensures
        r@ == mlp_failure(why@),
{
    RsinferError::DimensionError(text::joined("GPU resident MLP prototype failed: ", why))
}

proof fn lemma_gates_stay(
    c: context::ContextView,
    gate: Seq<crate::gpu::GpuMatVecChunk>,
    up: Seq<crate::gpu::GpuMatVecChunk>,
    output: usize,
    n: nat,
)
    ensures
        swiglu::gates_made(c, gate, up, output, n).0.id == c.id,
    decreases n,
{
    if n > 0 {
        lemma_gates_stay(c, gate, up, output, (n - 1) as nat);
    }
}

impl Mlp {
    /// The layers can be put on a device, and what is there is on the given one.
    pub open spec fn well_formed(&self, id: u64) -> bool {
        &&& self.gate_proj.well_formed() && self.gate_proj.on_device(id)
        &&& self.up_proj.well_formed() && self.up_proj.on_device(id)
        &&& self.down_proj.well_formed() && self.down_proj.on_device(id)
        &&& self.gpu_swiglu_down matches Some(f) ==> f.context == id
        &&& self.q8_gpu_swiglu_down matches Some(f) ==> f.context == id && (
        self.gate_proj.q8_gpu_matvec matches Some(g) ==> f.suits(g))
    }

    /// A feed-forward part that is on no device.
    pub fn new(gate_proj: Linear, up_proj: Linear, down_proj: Linear) -> (r: Mlp)
        ensures
            mlp_parts(r) == seq![gate_proj, up_proj, down_proj],
            r.gpu_swiglu_down is None,
            r.q8_gpu_swiglu_down is None,
    {
        Mlp { gate_proj, up_proj, down_proj, gpu_swiglu_down: None, q8_gpu_swiglu_down: None }
    }

    fn enable_parts(&mut self, context: &mut GpuContext, q8: bool) -> (r: (usize, Vec<String>))
        requires
            old(self).gate_proj.well_formed() && old(self).gate_proj.on_device(old(context)@.id),
            old(self).up_proj.well_formed() && old(self).up_proj.on_device(old(context)@.id),
            old(self).down_proj.well_formed() && old(self).down_proj.on_device(old(context)@.id),
        ensures
            ({
                let c = old(context)@;
                let ls = mlp_parts(*old(self));
                let b = *final(self);
                &&& group::group_became(c, ls, mlp_parts(b), q8)
                &&& b == with_mlp_parts(*old(self), mlp_parts(b))
                &&& final(context)@ == group::group_after(c, ls, q8, 3)
                &&& final(context)@.id == c.id
                &&& r.0 == group::group_count(c, ls, q8, 3)
                &&& runtime::texts(r.1@) == group::group_errors(
                    c,
                    ls,
                    "mlp."@,
                    mlp_names(),
                    q8,
                    3,
                )
                &&& b.gate_proj.well_formed() && b.gate_proj.on_device(c.id)
                &&& b.up_proj.well_formed() && b.up_proj.on_device(c.id)
                &&& b.down_proj.well_formed() && b.down_proj.on_device(c.id)
            }),
    {
        let ghost c = context@;
        let ghost ls = mlp_parts(*self);
        let ghost head = "mlp."@;
        let ghost names = mlp_names();
        let mut errors: Vec<String> = Vec::new();
        assert(runtime::texts(errors@) =~= Seq::<Seq<char>>::empty());
        proof {
            group::lemma_next_part(c, ls, head, names, q8, 0);
        }
        let a = enable_part(&mut self.gate_proj, context, q8, "mlp.", "gate_proj", &mut errors);
        proof {
            group::lemma_next_part(c, ls, head, names, q8, 1);
        }
        let b = enable_part(&mut self.up_proj, context, q8, "mlp.", "up_proj", &mut errors);
        proof {
            group::lemma_next_part(c, ls, head, names, q8, 2);
        }
        let d = enable_part(&mut self.down_proj, context, q8, "mlp.", "down_proj", &mut errors);
        (a + b + d, errors)
    }

    /// Puts the layers on a device in half precision, to run as one where they can; how many are
    /// there then, and what could not be done.
    pub fn try_enable_gpu_matvecs(&mut self, context: &mut GpuContext) -> (r: (usize, Vec<String>))
        requires
            old(self).well_formed(old(context)@.id),
        ensures
            ({
                let c = old(context)@;
                let ls = mlp_parts(*old(self));
                &&& exists|mid: Seq<Linear>| #[trigger]
                    group::group_became(c, ls, mid, false) && fused(
                        group::group_after(c, ls, false, 3),
                        final(context)@,
                        *old(self),
                        mid,
                        *final(self),
                        group::group_errors(c, ls, "mlp."@, mlp_names(), false, 3),
                        runtime::texts(r.1@),
                    )
                &&& final(context)@.id == c.id
                &&& r.0 == group::group_count(c, ls, false, 3)
                &&& final(self).well_formed(c.id)
            }),
    {
        let ghost first = *self;
        let ghost c = context@;
        let (attached, listed) = self.enable_parts(context, false);
        let mut errors = listed;
        let ghost mid = mlp_parts(*self);
        let ghost listed_errors = errors@;
        let ghost c1 = context@;
        assert(group::group_became(c, mlp_parts(first), mid, false));
        proof {
            assert(self.gate_proj.q8_gpu_matvec == first.gate_proj.q8_gpu_matvec) by {
                reveal(group::part_became);
                assert(mid[0] == self.gate_proj);
                assert(mlp_parts(first)[0] == first.gate_proj);
            }
        }
        let made = match (
            &self.gate_proj.gpu_matvec,
            &self.up_proj.gpu_matvec,
            &self.down_proj.gpu_matvec,
        ) {
            (Some(gate), Some(up), Some(down)) => {
                proof {
                    lemma_gates_stay(
                        c1,
                        gate.chunks@,
                        up.chunks@,
                        down.input_buffer,
                        gate.chunks@.len(),
                    );
                }
                Some(GpuSwiGluDown::new(context, gate, up, down))
            },
            _ => None,
        };
        match made {
            Some(Ok(f)) => {
                self.gpu_swiglu_down = Some(f);
            },
            Some(Err(err)) => {
                let s = text::joined("mlp.swiglu_down: ", err.as_str());
                let ghost words = s@;
                errors.push(s);
                assert(runtime::texts(errors@) =~= runtime::texts(listed_errors).push(words));
                self.gpu_swiglu_down = None;
            },
            None => {
                self.gpu_swiglu_down = None;
            },
        }
        assert(fused(
            c1,
            context@,
            first,
            mid,
            *self,
            runtime::texts(listed_errors),
            runtime::texts(errors@),
        ));
        (attached, errors)
    }

    /// Puts the layers on a device in eight bits, to run as one where they can; how many are there
    /// then, and what could not be done.
    pub fn try_enable_q8_gpu_matvecs(&mut self, context: &mut GpuContext) -> (r: (
        usize,
        Vec<String>,
    ))
        requires
            old(self).well_formed(old(context)@.id),
        ensures
            ({
                let c = old(context)@;
                let ls = mlp_parts(*old(self));
                &&& exists|mid: Seq<Linear>| #[trigger]
                    group::group_became(c, ls, mid, true) && q8_fused(
                        group::group_after(c, ls, true, 3),
                        final(context)@,
                        *old(self),
                        mid,
                        *final(self),
                        group::group_errors(c, ls, "mlp."@, mlp_names(), true, 3),
                        runtime::texts(r.1@),
                    )
                &&& final(context)@.id == c.id
                &&& r.0 == group::group_count(c, ls, true, 3)
                &&& final(self).well_formed(c.id)
            }),
    {
        let ghost first = *self;
        let ghost c = context@;
        let (attached, listed) = self.enable_parts(context, true);
        let mut errors = listed;
        let ghost mid = mlp_parts(*self);
        let ghost listed_errors = errors@;
        let ghost c1 = context@;
        assert(group::group_became(c, mlp_parts(first), mid, true));
        let made = match (
            &self.gate_proj.q8_gpu_matvec,
            &self.up_proj.q8_gpu_matvec,
            &self.down_proj.q8_gpu_matvec,
        ) {
            (Some(gate), Some(up), Some(down)) => {
                proof {
                    q8_swiglu::lemma_gates_len(
                        context::made(c1, gate.in_features, GpuUsage::Input),
                        gate.chunks@,
                        up.chunks@,
                        down.input_buffer->0,
                        gate.chunks@.len(),
                    );
                }
                Some(GpuQ8SwiGluDown::new(context, gate, up, down))
            },
            _ => None,
        };
        match made {
            Some(Ok(f)) => {
                self.gate_proj.release_q8_gpu_standalone_forward_resources(false);
                self.up_proj.release_q8_gpu_standalone_forward_resources(false);
                self.q8_gpu_swiglu_down = Some(f);
            },
            Some(Err(err)) => {
                let s = text::joined("mlp.q8_swiglu_down: ", err.as_str());
                let ghost words = s@;
                errors.push(s);
                assert(runtime::texts(errors@) =~= runtime::texts(listed_errors).push(words));
                self.q8_gpu_swiglu_down = None;
            },
            None => {
                self.q8_gpu_swiglu_down = None;
            },
        }
        assert(q8_fused(
            c1,
            context@,
            first,
            mid,
            *self,
            runtime::texts(listed_errors),
            runtime::texts(errors@),
        ));
        (attached, errors)
    }

    /// How a feed-forward part runs, from one of its ways on: 0 fused in eight bits, 1 fused in half
    /// precision, 2 gate and up in half precision, 3 neither.
    pub fn forward_from(&self, context: &mut GpuContext, x: &Tensor, from: usize) -> (r: MlpStep)
        requires
            self.well_formed(old(context)@.id),
            x.dims().len() > 0,
        ensures
            is_mlp_step(*self, *x, from as int, old(context)@, final(context)@, r),
    {
        let ghost before = context@;
        if x.shape()[0] != 1 {
            return MlpStep::Apart;
        }
        if from == 0 {
            match (
                &self.gate_proj.q8_gpu_matvec,
                &self.up_proj.q8_gpu_matvec,
                &self.down_proj.q8_gpu_matvec,
                &self.q8_gpu_swiglu_down,
            ) {
                (Some(gate), Some(up), Some(down), Some(f)) => {
                    match f.forward(context, gate, up, down, x) {
                        Ok(b) => {
                            return MlpStep::Q8Fused(b);
                        },
                        Err(_) => {},
                    }
                },
                _ => {},
            }
        }
        if from <= 1 {
            match (
                &self.gate_proj.gpu_matvec,
                &self.up_proj.gpu_matvec,
                &self.down_proj.gpu_matvec,
                &self.gpu_swiglu_down,
            ) {
                (Some(gate), Some(up), Some(down), Some(f)) => {
                    match f.forward(context, gate, up, down, x) {
                        Ok(b) => {
                            return MlpStep::Fused(b);
                        },
                        Err(_) => {},
                    }
                },
                _ => {},
            }
        }
        if from <= 2 {
            match (&self.gate_proj.gpu_matvec, &self.up_proj.gpu_matvec) {
                (Some(gate), Some(up)) => {
                    let list = vec![gate, up];
                    assert(list@ =~= gate_up(*self));
                    match GpuMatVec::forward_many_same_input(context, &list, x) {
                        Ok(b) => {
                            return MlpStep::GateUp(b);
                        },
                        Err(_) => {},
                    }
                },
                _ => {},
            }
        }
        if self.gate_proj.has_cpu_q8_only() && self.up_proj.has_cpu_q8_only() {
            MlpStep::GateUpQ8
        } else {
            MlpStep::Apart
        }
    }

    /// Whether the last layer is multiplied by its weight in eight bits under a profile.
    pub fn profiles_down_q8(&self) -> (r: bool)
        ensures
            r == self.down_proj.cpu_q8_only(),
    {
        self.down_proj.has_cpu_q8_only()
    }

    /// The commands that run a feed-forward part with prepared buffers, within a pass.
    pub fn encode_resident_in_pass(
        &self,
        pass: &mut GpuEncoder,
        input: &GpuResidentBuffer,
        output: &GpuResidentBuffer,
        cache: Option<&GpuQ8SwiGluDownResidentCache>,
    ) -> (r: Result<(), RsinferError>)
        ensures
            match r {
                Ok(()) => {
                    &&& encode_error(*self, *input, *output, cache) is None
                    &&& final(pass)@ == old(pass)@ + q8_swiglu::q8_swiglu_runs(
                        self.gate_proj.q8_gpu_matvec->0,
                        self.down_proj.q8_gpu_matvec->0,
                        *cache->0,
                    )
                },
                Err(e) => {
                    &&& encode_error(*self, *input, *output, cache) is Some
                    &&& e@ == mlp_failure(encode_error(*self, *input, *output, cache)->0)
                    &&& final(pass)@ == old(pass)@
                },
            },
    {
        let gate = match &self.gate_proj.q8_gpu_matvec {
            Some(m) => m,
            None => {
                return Err(mlp_error("missing gate_proj Q8 GPU matvec"));
            },
        };
        let up = match &self.up_proj.q8_gpu_matvec {
            Some(m) => m,
            None => {
                return Err(mlp_error("missing up_proj Q8 GPU matvec"));
            },
        };
        let down = match &self.down_proj.q8_gpu_matvec {
            Some(m) => m,
            None => {
                return Err(mlp_error("missing down_proj Q8 GPU matvec"));
            },
        };
        let f = match &self.q8_gpu_swiglu_down {
            Some(f) => f,
            None => {
                return Err(mlp_error("missing fused Q8 SwiGLU helper"));
            },
        };
        let kept = match cache {
            Some(k) => k,
            None => {
                return Err(mlp_error("missing resident fused Q8 SwiGLU cache"));
            },
        };
        match f.encode_resident_with_hidden_cache_in_pass(
            gate,
            up,
            down,
            pass,
            input,
            output,
            kept,
        ) {
            Ok(()) => Ok(()),
            Err(e) => Err(mlp_error(e.as_str())),
        }
    }
}

} // verus!
