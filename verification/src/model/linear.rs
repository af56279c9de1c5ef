//! Linear layers: their weights, where they can run, and in what order that is tried.

use vstd::prelude::*;
use vstd::string::*;

use crate::error;
use crate::error::{shape_mismatch, ErrorView, RsinferError};
use crate::gpu::context;
use crate::gpu::matvec;
use crate::gpu::q8;
use crate::gpu::{GpuContext, GpuMatVec, GpuQ8MatVec, GpuUsage};
use crate::model::q8_sidecar;
use crate::model::weights;
use crate::model::{get_linear_weight_f16, Q8SidecarCache, WeightMap};
use crate::tensor::dtypes;
use crate::tensor::{Q8LinearWeight, Tensor};
use crate::text;

verus! {

/// A linear layer, `y = x W^T + b`, with a weight of `out_features` rows.  The weight in half
/// precision is left out where one in eight bits stands for it.
#[derive(Debug)]
pub struct Linear {
    pub weight: Vec<u16>,
    pub out_features: usize,
    pub in_features: usize,
    pub bias: Option<Tensor>,
    pub gpu_matvec: Option<GpuMatVec>,
    pub q8_gpu_matvec: Option<GpuQ8MatVec>,
    pub q8_weight: Option<Q8LinearWeight>,
    pub source_name: Option<String>,
}

/// The name of a layer in messages.
pub open spec fn shown_name(l: Linear) -> Seq<char> {
    match l.source_name {
        Some(s) => s@,
        None => "<unnamed>"@,
    }
}

/// A message on a layer.
pub open spec fn named(l: Linear, what: Seq<char>) -> Seq<char> {
    "Linear '"@ + shown_name(l) + "' "@ + what
}

/// Why a weight and a shape do not make a layer.
pub open spec fn linear_error(shape: Seq<usize>, len: nat) -> Option<ErrorView> {
    if shape.len() != 2 {
        Some(
            ErrorView::DimensionError("Linear weight 需要 2D, got "@ + text::dec(shape.len()) + "D"@),
        )
    } else if len != shape[0] * shape[1] {
        Some(
            ErrorView::ShapeMismatch {
                expected: seq![(shape[0] * shape[1]) as usize],
                actual: seq![len as usize],
            },
        )
    } else {
        None
    }
}

/// Whether a layer has nothing attached, and no name.
pub open spec fn is_bare(l: Linear, bias: Option<Tensor>) -> bool {
    &&& l.bias == bias
    &&& l.gpu_matvec is None
    &&& l.q8_gpu_matvec is None
    &&& l.q8_weight is None
    &&& l.source_name is None
}

/// Why a layer cannot be put on a device in half precision.
pub open spec fn half_error(l: Linear, limit: u64) -> Option<Seq<char>> {
    if !l.has_half() {
        Some(named(l, "has no f16 weight for GPU matvec fallback"@))
    } else {
        matvec::weight_error(limit, l.weight@.len(), l.out_features, l.in_features)
    }
}

/// Whether a matrix on a device is that of a layer, and what making it there left.
pub open spec fn half_made(
    before: context::ContextView,
    after: context::ContextView,
    l: Linear,
    m: GpuMatVec,
) -> bool {
    let all = matvec::chunks_made(
        context::made(before, l.in_features, GpuUsage::Input),
        context::fresh(before),
        l.weight@,
        l.in_features,
        matvec::weight_plan(before.max_chunk_bytes, l.out_features, l.in_features),
    );
    &&& m.context == before.id
    &&& m.input_buffer == context::fresh(before)
    &&& m.in_features == l.in_features
    &&& m.out_features == l.out_features
    &&& m.chunks@ == all.1
    &&& after == all.0
    &&& m.well_formed()
}

/// What becomes of a layer that is to be put on a device in half precision.
pub open spec fn half_enabled(
    before: context::ContextView,
    after: context::ContextView,
    l: Linear,
    m: Linear,
    r: Result<(), String>,
) -> bool {
    match r {
        Ok(()) => {
            &&& half_error(l, before.max_chunk_bytes) is None
            &&& m == (Linear { gpu_matvec: m.gpu_matvec, ..l })
            &&& m.gpu_matvec is Some
            &&& half_made(before, after, l, m.gpu_matvec->0)
        },
        Err(e) => half_error(l, before.max_chunk_bytes) == Some(e@) && m == l && after == before,
    }
}

/// A device after a layer was to be put on it in half precision.
pub open spec fn half_after(c: context::ContextView, l: Linear) -> context::ContextView {
    if half_error(l, c.max_chunk_bytes) is None {
        matvec::chunks_made(
            context::made(c, l.in_features, GpuUsage::Input),
            context::fresh(c),
            l.weight@,
            l.in_features,
            matvec::weight_plan(c.max_chunk_bytes, l.out_features, l.in_features),
        ).0
    } else {
        c
    }
}

/// A device after a layer was to be put on it in eight bits.
pub open spec fn q8_after(c: context::ContextView, l: Linear, argmax: bool) -> context::ContextView {
    if q8_error(l, c.max_chunk_bytes) is None {
        let w = l.q8_weight->0;
        q8::q8_chunks_made(
            context::made(c, w.in_features, GpuUsage::Input),
            context::fresh(c),
            w,
            q8::q8_plan(c.max_chunk_bytes, w),
            argmax,
        ).0
    } else {
        c
    }
}

proof fn lemma_chunks_stay(
    c: context::ContextView,
    input: usize,
    weight: Seq<u16>,
    in_features: usize,
    plan: Seq<crate::gpu::GpuRows>,
)
    ensures
        matvec::chunks_made(c, input, weight, in_features, plan).0.id == c.id,
    decreases plan.len(),
{
    if plan.len() > 0 {
        lemma_chunks_stay(c, input, weight, in_features, plan.drop_last());
    }
}

proof fn lemma_q8_chunks_stay(
    c: context::ContextView,
    input: usize,
    w: Q8LinearWeight,
    plan: Seq<crate::gpu::GpuRows>,
    argmax: bool,
)
    ensures
        q8::q8_chunks_made(c, input, w, plan, argmax).0.id == c.id,
    decreases plan.len(),
{
    if plan.len() > 0 {
        lemma_q8_chunks_stay(c, input, w, plan.drop_last(), argmax);
    }
}

/// Putting a layer on a device leaves the device the same one.
pub proof fn lemma_device_stays(c: context::ContextView, l: Linear, argmax: bool)
    ensures
        half_after(c, l).id == c.id,
        q8_after(c, l, argmax).id == c.id,
{
    lemma_chunks_stay(
        context::made(c, l.in_features, GpuUsage::Input),
        context::fresh(c),
        l.weight@,
        l.in_features,
        matvec::weight_plan(c.max_chunk_bytes, l.out_features, l.in_features),
    );
    let w = l.q8_weight->0;
    lemma_q8_chunks_stay(
        context::made(c, w.in_features, GpuUsage::Input),
        context::fresh(c),
        w,
        q8::q8_plan(c.max_chunk_bytes, w),
        argmax,
    );
}

/// The message where neither a weight in eight bits nor one to derive it from is there.
pub open spec fn underivable(l: Linear) -> ErrorView {
    ErrorView::WeightError(named(l, "has no f16 weight to derive missing Q8 fallback"@))
}

/// Why a layer cannot be put on a device in eight bits.
pub open spec fn q8_error(l: Linear, limit: u64) -> Option<Seq<char>> {
    match l.q8_weight {
        Some(w) => q8::q8_weight_error(limit, w),
        None => if l.has_half() {
            Some("Q8 weight was not attached"@)
        } else {
            Some(error::error_text(underivable(l)))
        },
    }
}

/// What becomes of a layer that is to be put on a device in eight bits.
pub open spec fn q8_enabled(
    before: context::ContextView,
    after: context::ContextView,
    l: Linear,
    m: Linear,
    argmax: bool,
    r: Result<(), String>,
) -> bool {
    match r {
        Ok(()) => {
            &&& q8_error(l, before.max_chunk_bytes) is None
            &&& m == (Linear { q8_gpu_matvec: m.q8_gpu_matvec, ..l })
            &&& m.q8_gpu_matvec is Some
            &&& q8::q8_new(
                before,
                after,
                l.q8_weight->0,
                argmax,
                Ok::<GpuQ8MatVec, String>(m.q8_gpu_matvec->0),
            )
        },
        Err(e) => q8_error(l, before.max_chunk_bytes) == Some(e@) && m == l && after == before,
    }
}

/// A layer whose matrix in eight bits gives up what it needs to run alone.
pub open spec fn is_released(l: Linear, m: Linear, keep_readback: bool) -> bool {
    &&& m == (Linear { q8_gpu_matvec: m.q8_gpu_matvec, ..l })
    &&& m.q8_gpu_matvec is Some <==> l.q8_gpu_matvec is Some
    &&& l.q8_gpu_matvec is Some ==> {
        let a = l.q8_gpu_matvec->0;
        let b = m.q8_gpu_matvec->0;
        &&& b.input_buffer is None
        &&& b.context == a.context
        &&& b.in_features == a.in_features
        &&& b.out_features == a.out_features
        &&& b.chunks@ == a.chunks@.map_values(
            |c: q8::GpuQ8MatVecChunk| q8::stripped(c, keep_readback),
        )
        &&& a.well_formed() ==> b.well_formed()
    }
}

/// Where the weight in eight bits of a layer comes from.
pub enum Q8Source {
    /// It is there.
    Attached,
    /// The weights that are kept, under the given name.
    Sidecar(String),
    /// The weight in half precision.
    Derive,
}

/// A run of a layer: what is to be done, and for a device from which buffers its result comes.
#[derive(Debug)]
pub enum LinearStep {
    /// Read the parts of the result from the buffers of the matrix in eight bits.
    Q8Gpu(Vec<usize>),
    /// Read the parts of the result from the buffers of the matrix in half precision.
    Gpu(Vec<usize>),
    /// Multiply by the weight in eight bits.
    Q8,
    /// Multiply by the weight in half precision, and add the bias.
    Half,
}

/// Whether a device in eight bits takes a run.
pub open spec fn q8_takes(l: Linear, x: Tensor) -> bool {
    &&& l.bias is None
    &&& l.q8_gpu_matvec is Some
    &&& q8::q8_many_error(seq![&l.q8_gpu_matvec->0], x.dims()) is None
    &&& q8::q8_raw_error(seq![&l.q8_gpu_matvec->0], x.values().len()) is None
    &&& q8::many_released(seq![&l.q8_gpu_matvec->0]) is None
}

/// A device after a run in eight bits was tried.
pub open spec fn after_q8(c: context::ContextView, l: Linear, x: Tensor) -> context::ContextView {
    let m = seq![&l.q8_gpu_matvec->0];
    if l.bias is Some || l.q8_gpu_matvec is None || q8::q8_many_error(m, x.dims()) is Some
        || q8::q8_raw_error(m, x.values().len()) is Some {
        c
    } else if q8::many_released(m) is Some {
        q8::q8_many_written(c, m, x.values())
    } else {
        context::read_back(
            q8::q8_many_written(c, m, x.values()),
            q8::q8_many_commands(m),
            q8::q8_many_readbacks(m),
        )
    }
}

/// Whether a device in half precision takes a run.
pub open spec fn half_takes(l: Linear, x: Tensor) -> bool {
    &&& l.bias is None
    &&& l.gpu_matvec is Some
    &&& matvec::many_error(seq![&l.gpu_matvec->0], x.dims()) is None
}

/// The message where no weight is left to multiply by.
pub open spec fn no_fallback(l: Linear) -> ErrorView {
    ErrorView::WeightError(named(l, "has no f16 fallback weight attached"@))
}

/// What a run of a layer does, from one of the ways on: 0 the device in eight bits, 1 that in half
/// precision, 2 the weight in eight bits, 3 that in half precision.  Each is tried where it is
/// there, and the next where it fails.
pub open spec fn is_step(
    l: Linear,
    x: Tensor,
    from: int,
    before: context::ContextView,
    after: context::ContextView,
    r: Result<LinearStep, RsinferError>,
) -> bool {
    let tried = if from <= 0 {
        after_q8(before, l, x)
    } else {
        before
    };
    if from <= 0 && q8_takes(l, x) {
        &&& r matches Ok(LinearStep::Q8Gpu(b))
        &&& b@ == q8::q8_many_readbacks(seq![&l.q8_gpu_matvec->0])
        &&& after == tried
    } else if from <= 1 && half_takes(l, x) {
        &&& r matches Ok(LinearStep::Gpu(b))
        &&& b@ == matvec::many_readbacks(seq![&l.gpu_matvec->0])
        &&& after == matvec::many_run(tried, seq![&l.gpu_matvec->0], x.values())
    } else {
        &&& after == tried
        &&& if from <= 2 && l.bias is None && l.q8_weight is Some {
            r matches Ok(LinearStep::Q8)
        } else if l.has_half() {
            r matches Ok(LinearStep::Half)
        } else {
            r matches Err(e) && e@ == no_fallback(l)
        }
    }
}

impl Linear {
    /// The sizes of a layer can be multiplied, and what is attached to it is whole.
    pub open spec fn well_formed(&self) -> bool {
        &&& self.out_features * self.in_features <= usize::MAX
        &&& self.in_features * 4 <= usize::MAX
        &&& self.q8_weight matches Some(w) ==> {
            &&& w.out_features == self.out_features
            &&& w.in_features == self.in_features
        }
        &&& self.gpu_matvec matches Some(m) ==> m.well_formed()
        &&& self.q8_gpu_matvec matches Some(m) ==> m.well_formed()
    }

    /// Whether the weight in half precision is there.
    pub open spec fn has_half(&self) -> bool {
        self.weight@.len() == self.out_features * self.in_features
    }

    /// Whether what is attached to a layer is on the given device.
    pub open spec fn on_device(&self, id: u64) -> bool {
        &&& self.gpu_matvec matches Some(m) ==> m.context == id
        &&& self.q8_gpu_matvec matches Some(m) ==> m.context == id
    }

    /// A layer from a weight in single precision, which is narrowed.
    pub fn new(weight: Tensor, bias: Option<Tensor>) -> (r: Linear)
        requires
            weight.dims().len() >= 2,
        ensures
            r.out_features == weight.dims()[0],
            r.in_features == weight.dims()[1],
            r.weight@ == (if weight.row_major() {
                weight.values().map_values(|s: u32| dtypes::narrowed(s))
            } else {
                Seq::<u16>::empty()
            }),
            is_bare(r, bias),
    {
        let out_features: usize = weight.shape()[0];
        let in_features: usize = weight.shape()[1];
        let data = dtypes::f32_slice_to_f16(weight.as_slice());
        proof {
            if !weight.row_major() {
                assert(data@ =~= Seq::<u16>::empty());
            }
        }
        Linear {
            weight: data,
            out_features,
            in_features,
            bias,
            gpu_matvec: None,
            q8_gpu_matvec: None,
            q8_weight: None,
            source_name: None,
        }
    }

    /// A layer from a weight in half precision.
    pub fn from_f16_weight(shape: &[usize], weight: Vec<u16>, bias: Option<Tensor>) -> (r: Result<
        Linear,
        RsinferError,
    >)
        requires
            shape@.len() == 2 ==> shape@[0] * shape@[1] <= usize::MAX,
        ensures
            match r {
                Ok(l) => {
                    &&& linear_error(shape@, weight@.len()) is None
                    &&& l.weight@ == weight@
                    &&& l.out_features == shape@[0]
                    &&& l.in_features == shape@[1]
                    &&& is_bare(l, bias)
                },
                Err(e) => linear_error(shape@, weight@.len()) == Some(e@),
            },
    {
        if shape.len() != 2 {
            let mut s = "Linear weight 需要 2D, got ".to_owned();
            text::push_size(&mut s, shape.len());
            s.append("D");
            return Err(RsinferError::DimensionError(s));
        }
        let out_features: usize = shape[0];
        let in_features: usize = shape[1];
        let expected: usize = out_features * in_features;
        let len: usize = weight.len();
        if len != expected {
            let e = vec![expected];
            let a = vec![len];
            assert(e@ =~= seq![expected]);
            assert(a@ =~= seq![len]);
            return Err(shape_mismatch(e, a));
        }
        Ok(
            Linear {
                weight,
                out_features,
                in_features,
                bias,
                gpu_matvec: None,
                q8_gpu_matvec: None,
                q8_weight: None,
                source_name: None,
            },
        )
    }

    /// A layer from a weight in eight bits alone.
    pub fn from_q8_weight(name: &str, q8_weight: Q8LinearWeight, bias: Option<Tensor>) -> (r: Linear)
        ensures
            r.weight@.len() == 0,
            r.out_features == q8_weight.out_features,
            r.in_features == q8_weight.in_features,
            r.bias == bias,
            r.gpu_matvec is None,
            r.q8_gpu_matvec is None,
            r.q8_weight == Some(q8_weight),
            r.source_name is Some && r.source_name->0@ == name@,
    {
        Linear {
            weight: Vec::new(),
            out_features: q8_weight.out_features,
            in_features: q8_weight.in_features,
            bias,
            gpu_matvec: None,
            q8_gpu_matvec: None,
            q8_weight: Some(q8_weight),
            source_name: Some(name.to_owned()),
        }
    }

    /// A layer from the weight of the given name.
    pub fn from_weight_map(weights: &WeightMap, name: &str, bias: Option<Tensor>) -> (r: Result<
        Linear,
        RsinferError,
    >)
        requires
            sizes_known(weights@, name@),
        ensures
            match r {
                Ok(l) => is_loaded(weights@, name@, bias, l),
                Err(e) => load_error(weights@, name@) == Some(e@),
            },
    {
        match get_linear_weight_f16(weights, name) {
            Ok((shape, weight)) => match Linear::from_f16_weight(&shape, weight, bias) {
                Ok(l) => {
                    let mut linear = l;
                    linear.source_name = Some(name.to_owned());
                    Ok(linear)
                },
                Err(e) => Err(e),
            },
            Err(e) => Err(e),
        }
    }

    /// A layer from the weight in eight bits that was found beside the model, or else from the
    /// weight of the given name.
    pub fn from_weight_map_or_q8_sidecar(
        weights: &WeightMap,
        name: &str,
        bias: Option<Tensor>,
        existing: Option<Q8LinearWeight>,
    ) -> (r: Result<Linear, RsinferError>)
        requires
            existing is None ==> sizes_known(weights@, name@),
        ensures
            match existing {
                Some(w) => {
                    &&& r is Ok
                    &&& is_q8_only(name@, w, bias, r->Ok_0)
                },
                None => match r {
                    Ok(l) => is_loaded(weights@, name@, bias, l),
                    Err(e) => load_error(weights@, name@) == Some(e@),
                },
            },
    {
        match existing {
            Some(w) => Ok(Linear::from_q8_weight(name, w, bias)),
            None => Linear::from_weight_map(weights, name, bias),
        }
    }

    /// Whether the weight in half precision is there.
    pub fn has_f16_weight(&self) -> (r: bool)
        requires
            self.well_formed(),
        ensures
            r == self.has_half(),
    {
        self.weight.len() == self.out_features * self.in_features
    }

    fn message(&self, what: &str) -> (r: String)
        ensures
            r@ == named(*self, what@),
    {
        let mut s = "Linear '".to_owned();
        match &self.source_name {
            Some(name) => {
                s.append(name.as_str());
            },
            None => {
                s.append("<unnamed>");
            },
        }
        s.append("' ");
        s.append(what);
        s
    }

    /// Puts the weight in half precision on a device.
    pub fn try_enable_gpu_matvec_with_context(&mut self, context: &mut GpuContext) -> (r: Result<
        (),
        String,
    >)
        requires
            old(self).well_formed(),
        ensures
            half_enabled(old(context)@, final(context)@, *old(self), *final(self), r),
            final(self).well_formed(),
    {
        if !self.has_f16_weight() {
            return Err(self.message("has no f16 weight for GPU matvec fallback"));
        }
        match GpuMatVec::from_f16_weight_with_context(
            context,
            &self.weight,
            self.out_features,
            self.in_features,
        ) {
            Ok(m) => {
                self.gpu_matvec = Some(m);
                Ok(())
            },
            Err(e) => Err(e),
        }
    }

    /// Whether the weight in half precision is on a device.
    pub fn has_gpu_matvec(&self) -> (r: bool)
        ensures
            r == self.gpu_matvec is Some,
    {
        self.gpu_matvec.is_some()
    }

    /// The weight in half precision on a device.
    pub fn gpu_matvec(&self) -> (r: Option<&GpuMatVec>)
        ensures
            match r {
                Some(m) => self.gpu_matvec == Some(*m),
                None => self.gpu_matvec is None,
            },
    {
        match &self.gpu_matvec {
            Some(m) => Some(m),
            None => None,
        }
    }

    /// The weight in eight bits on a device.
    pub fn q8_gpu_matvec(&self) -> (r: Option<&GpuQ8MatVec>)
        ensures
            match r {
                Some(m) => self.q8_gpu_matvec == Some(*m),
                None => self.q8_gpu_matvec is None,
            },
    {
        match &self.q8_gpu_matvec {
            Some(m) => Some(m),
            None => None,
        }
    }

    /// Whether a layer runs in eight bits, and on no device.
    pub open spec fn cpu_q8_only(&self) -> bool {
        &&& self.bias is None
        &&& self.q8_weight is Some
        &&& self.q8_gpu_matvec is None
        &&& self.gpu_matvec is None
    }

    /// Whether a layer runs in eight bits, and on no device.
    pub fn has_cpu_q8_only(&self) -> (r: bool)
        ensures
            r == self.cpu_q8_only(),
    {
        self.bias.is_none() && self.q8_weight.is_some() && self.q8_gpu_matvec.is_none()
            && self.gpu_matvec.is_none()
    }

    /// Whether a device can find the greatest output of a layer.
    pub open spec fn finds_greatest(&self) -> bool {
        &&& self.bias is None
        &&& self.q8_gpu_matvec matches Some(m) && !q8::no_argmax(m.chunks@)
    }

    /// Whether a device can find the greatest output of a layer.
    pub fn has_q8_gpu_argmax(&self) -> (r: bool)
        ensures
            r == self.finds_greatest(),
    {
        if self.bias.is_some() {
            return false;
        }
        match &self.q8_gpu_matvec {
            Some(m) => m.supports_argmax(),
            None => false,
        }
    }

    /// Puts the weight in eight bits on a device, which can then find the greatest output.
    pub fn try_enable_q8_gpu_matvec_with_context(&mut self, context: &mut GpuContext) -> (r: Result<
        (),
        String,
    >)
        requires
            old(self).well_formed(),
        ensures
            q8_enabled(old(context)@, final(context)@, *old(self), *final(self), true, r),
            final(self).well_formed(),
    {
        self.try_enable_q8_gpu_matvec_with_context_and_argmax(context, true)
    }

    /// Puts the weight in eight bits on a device.  It is to be attached before, where it can be.
    pub fn try_enable_q8_gpu_matvec_with_context_and_argmax(
        &mut self,
        context: &mut GpuContext,
        enable_argmax: bool,
    ) -> (r: Result<(), String>)
        requires
            old(self).well_formed(),
        ensures
            q8_enabled(old(context)@, final(context)@, *old(self), *final(self), enable_argmax, r),
            final(self).well_formed(),
    {
        let made = match &self.q8_weight {
            Some(w) => GpuQ8MatVec::from_q8_weight_with_context_and_argmax(
                context,
                w,
                enable_argmax,
            ),
            None => {
                if self.has_f16_weight() {
                    Err("Q8 weight was not attached".to_owned())
                } else {
                    let e = RsinferError::WeightError(
                        self.message("has no f16 weight to derive missing Q8 fallback"),
                    );
                    Err(e.message())
                }
            },
        };
        match made {
            Ok(m) => {
                self.q8_gpu_matvec = Some(m);
                Ok(())
            },
            Err(e) => Err(e),
        }
    }

    /// Gives up what the matrix in eight bits needs to run alone.
    pub fn release_q8_gpu_standalone_forward_resources(&mut self, keep_readback: bool)
        ensures
            is_released(*old(self), *final(self), keep_readback),
            old(self).well_formed() ==> final(self).well_formed(),
    {
        let mut taken: Option<GpuQ8MatVec> = None;
        std::mem::swap(&mut taken, &mut self.q8_gpu_matvec);
        match taken {
            Some(m) => {
                let mut matvec = m;
                matvec.release_standalone_forward_resources(keep_readback);
                self.q8_gpu_matvec = Some(matvec);
            },
            None => {},
        }
    }

    /// Where the weight in eight bits comes from, with or without weights that are kept.
    pub fn q8_source(&self, has_cache: bool) -> (r: Q8Source)
        ensures
            match r {
                Q8Source::Attached => self.q8_weight is Some,
                Q8Source::Sidecar(name) => {
                    &&& self.q8_weight is None && has_cache
                    &&& self.source_name matches Some(n) && name@ == n@
                },
                Q8Source::Derive => self.q8_weight is None && (!has_cache || self.source_name
                    is None),
            },
    {
        if self.q8_weight.is_some() {
            return Q8Source::Attached;
        }
        match &self.source_name {
            Some(name) if has_cache => Q8Source::Sidecar(name.clone()),
            _ => Q8Source::Derive,
        }
    }

    /// Whether the weight in eight bits can be derived.
    pub fn check_derivable(&self) -> (r: Result<(), RsinferError>)
        requires
            self.well_formed(),
        ensures
            match r {
                Ok(()) => self.has_half(),
                Err(e) => !self.has_half() && e@ == underivable(*self),
            },
    {
        if self.has_f16_weight() {
            Ok(())
        } else {
            Err(
                RsinferError::WeightError(
                    self.message("has no f16 weight to derive missing Q8 fallback"),
                ),
            )
        }
    }

    /// Whether a weight in eight bits that is not kept can be made again.
    pub fn check_rebuildable(&self) -> (r: Result<(), RsinferError>)
        requires
            self.well_formed(),
        ensures
            match r {
                Ok(()) => self.has_half(),
                Err(e) => !self.has_half() && e@ == ErrorView::WeightError(
                    named(*self, "has no f16 weight to rebuild missing Q8 sidecar entry"@),
                ),
            },
    {
        if self.has_f16_weight() {
            Ok(())
        } else {
            Err(
                RsinferError::WeightError(
                    self.message("has no f16 weight to rebuild missing Q8 sidecar entry"),
                ),
            )
        }
    }

    /// Takes what came of loading the weight under the given name: attaches it, or notes why there
    /// is none.  Says whether it was attached.
    pub fn try_enable_q8_weight_with_sidecar(
        &mut self,
        cache: &mut Q8SidecarCache,
        name: &str,
        loaded: Result<Q8LinearWeight, RsinferError>,
    ) -> (r: bool)
        requires
            old(self).well_formed(),
            loaded matches Ok(w) ==> w.out_features == old(self).out_features && w.in_features
                == old(self).in_features,
        ensures
            final(self).well_formed(),
            match loaded {
                Ok(w) => {
                    &&& r
                    &&& *final(self) == (Linear { q8_weight: Some(w), ..*old(self) })
                    &&& final(cache)@ == old(cache)@
                },
                Err(e) => {
                    &&& !r
                    &&& *final(self) == *old(self)
                    &&& final(cache)@ == q8_sidecar::fallen_back(
                        old(cache)@,
                        name@,
                        error::error_text(e@),
                    )
                },
            },
    {
        match loaded {
            Ok(w) => {
                self.attach_q8_weight(w);
                true
            },
            Err(e) => {
                cache.record_fallback(name, e.message().as_str());
                false
            },
        }
    }

    /// Attaches a weight in eight bits.
    pub fn attach_q8_weight(&mut self, weight: Q8LinearWeight)
        requires
            old(self).well_formed(),
            weight.out_features == old(self).out_features,
            weight.in_features == old(self).in_features,
        ensures
            *final(self) == (Linear { q8_weight: Some(weight), ..*old(self) }),
            final(self).well_formed(),
    {
        self.q8_weight = Some(weight);
    }

    /// What a run of a layer does, from one of the ways on: 0 the device in eight bits, 1 that in
    /// half precision, 2 the weight in eight bits, 3 that in half precision.
    pub fn forward_from(&self, context: &mut GpuContext, x: &Tensor, from: usize) -> (r: Result<
        LinearStep,
        RsinferError,
    >)
        requires
            self.well_formed(),
            self.on_device(old(context)@.id),
        ensures
            is_step(*self, *x, from as int, old(context)@, final(context)@, r),
    {
        let ghost before = context@;
        if self.bias.is_none() {
            if from == 0 {
                match &self.q8_gpu_matvec {
                    Some(m) => {
                        let run = m.forward(context, x);
                        proof {
                            assert(seq![m] =~= seq![&self.q8_gpu_matvec->0]);
                            lemma_written_stays(before, seq![m], x.values());
                        }
                        match run {
                            Ok(b) => {
                                return Ok(LinearStep::Q8Gpu(b));
                            },
                            Err(_) => {},
                        }
                    },
                    None => {},
                }
            }
            if from <= 1 {
                match &self.gpu_matvec {
                    Some(m) => {
                        let run = m.forward(context, x);
                        proof {
                            assert(seq![m] =~= seq![&self.gpu_matvec->0]);
                        }
                        match run {
                            Ok(b) => {
                                return Ok(LinearStep::Gpu(b));
                            },
                            Err(_) => {},
                        }
                    },
                    None => {},
                }
            }
            if from <= 2 && self.q8_weight.is_some() {
                return Ok(LinearStep::Q8);
            }
        }
        if !self.has_f16_weight() {
            return Err(
                RsinferError::WeightError(self.message("has no f16 fallback weight attached")),
            );
        }
        Ok(LinearStep::Half)
    }

    /// Has a device find the greatest output of a layer; the buffers from which its results come.
    pub fn try_forward_q8_gpu_argmax(&self, context: &mut GpuContext, x: &Tensor) -> (r: Result<
        Vec<usize>,
        String,
    >)
        requires
            self.well_formed(),
            self.on_device(old(context)@.id),
        ensures
            match r {
                Ok(b) => {
                    let m = self.q8_gpu_matvec->0;
                    &&& self.finds_greatest()
                    &&& x.dims() == seq![1usize, m.in_features]
                    &&& m.input_buffer is Some
                    &&& b@ == q8::argmax_readbacks(m.chunks@)
                    &&& final(context)@ == context::read_back(
                        context::written(
                            old(context)@,
                            m.input_buffer->0,
                            x.values(),
                            crate::gpu::context::GpuWrite::Uncounted,
                        ),
                        q8::argmax_commands(m.chunks@),
                        b@,
                    )
                },
                Err(e) => {
                    let m = self.q8_gpu_matvec->0;
                    &&& final(context)@ == old(context)@
                    &&& if !self.finds_greatest() {
                        e@ == "Q8 GPU argmax does not support bias"@
                    } else if x.dims() != seq![1usize, m.in_features] {
                        e@ == "GPU Q8 argmax expects [1, "@ + text::dec(m.in_features as nat)
                            + "], got "@ + text::bracketed(x.dims())
                    } else {
                        &&& m.input_buffer is None
                        &&& e@ == "GPU Q8 argmax input buffer was released"@
                    }
                },
            },
    {
        if !self.has_q8_gpu_argmax() {
            return Err("Q8 GPU argmax does not support bias".to_owned());
        }
        match &self.q8_gpu_matvec {
            Some(m) => m.forward_argmax(context, x),
            None => Err("Q8 GPU matvec is not attached".to_owned()),
        }
    }

    /// Runs a layer on a device in eight bits; the buffers from which its result comes.
    pub fn try_forward_q8_gpu_raw(&self, context: &mut GpuContext, input: &[u32]) -> (r: Result<
        Vec<usize>,
        String,
    >)
        requires
            self.on_device(old(context)@.id),
        ensures
            if self.bias is Some {
                &&& r matches Err(e) && e@ == "Q8 GPU raw path does not support bias"@
                &&& final(context)@ == old(context)@
            } else if self.q8_gpu_matvec is None {
                &&& r matches Err(e) && e@ == "Q8 GPU matvec is not attached"@
                &&& final(context)@ == old(context)@
            } else {
                q8::q8_raw_result(
                    old(context)@,
                    final(context)@,
                    seq![&self.q8_gpu_matvec->0],
                    input@,
                    r,
                )
            },
    {
        if self.bias.is_some() {
            return Err("Q8 GPU raw path does not support bias".to_owned());
        }
        match &self.q8_gpu_matvec {
            Some(m) => {
                proof {
                    assert(seq![m] =~= seq![&self.q8_gpu_matvec->0]);
                }
                m.forward_raw(context, input)
            },
            None => Err("Q8 GPU matvec is not attached".to_owned()),
        }
    }
}

proof fn lemma_written_stays(c: context::ContextView, m: Seq<&GpuQ8MatVec>, words: Seq<u32>)
    ensures
        q8::q8_many_written(c, m, words).id == c.id,
    decreases m.len(),
{
    if m.len() > 0 {
        lemma_written_stays(c, m.drop_last(), words);
    }
}

/// Whether the number of places in the weight of the given name can be held.
pub open spec fn sizes_known(w: Map<Seq<char>, weights::LoadedView>, name: Seq<char>) -> bool {
    weights::linear_weight(w, name) matches Ok(p) ==> p.0.len() == 2 ==> p.0[0] * p.0[1]
        <= usize::MAX
}

/// Why there is no layer of the given name.
pub open spec fn load_error(w: Map<Seq<char>, weights::LoadedView>, name: Seq<char>) -> Option<
    ErrorView,
> {
    match weights::linear_weight(w, name) {
        Ok(p) => linear_error(p.0, p.1.len()),
        Err(e) => Some(e),
    }
}

/// Whether a layer is that of the given name.
pub open spec fn is_loaded(
    w: Map<Seq<char>, weights::LoadedView>,
    name: Seq<char>,
    bias: Option<Tensor>,
    l: Linear,
) -> bool {
    &&& load_error(w, name) is None
    &&& weights::linear_weight(w, name) matches Ok(p)
    &&& l.weight@ == p.1
    &&& l.out_features == p.0[0]
    &&& l.in_features == p.0[1]
    &&& l.bias == bias
    &&& l.gpu_matvec is None
    &&& l.q8_gpu_matvec is None
    &&& l.q8_weight is None
    &&& l.source_name is Some && l.source_name->0@ == name
}

/// Whether a layer has a weight in eight bits alone.
pub open spec fn is_q8_only(name: Seq<char>, w: Q8LinearWeight, bias: Option<Tensor>, l: Linear)
    -> bool {
    &&& l.weight@.len() == 0
    &&& l.out_features == w.out_features
    &&& l.in_features == w.in_features
    &&& l.bias == bias
    &&& l.gpu_matvec is None
    &&& l.q8_gpu_matvec is None
    &&& l.q8_weight == Some(w)
    &&& l.source_name is Some && l.source_name->0@ == name
}

/// Law: a layer that has its weight in half precision always has a way to run left, whatever was
/// tried before.
pub proof fn law_half_runs_anywhere(
    l: Linear,
    x: Tensor,
    from: int,
    before: context::ContextView,
    after: context::ContextView,
    r: Result<LinearStep, RsinferError>,
)
    requires
        l.has_half(),
        is_step(l, x, from, before, after, r),
    ensures
        r is Ok,
{
}

/// Law: a layer with a bias runs on no device, and its weight in half precision is what it runs
/// with.
pub proof fn law_bias_runs_in_half(
    l: Linear,
    x: Tensor,
    from: int,
    before: context::ContextView,
    after: context::ContextView,
    r: Result<LinearStep, RsinferError>,
)
    requires
        l.bias is Some,
        is_step(l, x, from, before, after, r),
    ensures
        after == before,
        r matches Ok(s) ==> s is Half,
{
}

} // verus!
