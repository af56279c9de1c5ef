//! What holds of a model on its way in and in its runs: in which order it is loaded and built, what
//! is counted and noted, and which way each part runs.

use vstd::prelude::*;
use vstd::string::*;

use crate::engine::CachedKV;
use crate::error::ErrorView;
use crate::error::RsinferError;
use crate::gpu::context;
use crate::model::attention;
use crate::model::attention_state::ResidentAttentionRuntimeState;
use crate::model::attention_sync;
use crate::model::group;
use crate::model::linear;
use crate::model::linear::LinearStep;
use crate::model::loading;
use crate::model::loading::{BuildAction, BuildView, LoadAction, LoadView};
use crate::model::mlp;
use crate::model::mlp::MlpStep;
use crate::model::profile;
use crate::model::qwen3;
use crate::model::qwen3::ResidentQwen3RuntimeState;
use crate::model::qwen3_decode;
use crate::model::{Attention, Linear, Mlp, Qwen3Model, TransformerBlockProfile};
use crate::runtime::{LayerDevice, PlanView};
use crate::tensor::Tensor;
use crate::text;

verus! {

/// Law: a load that reads all weights fails where they cannot be read or the model not built of
/// them, and else ends; kept weights that cannot be opened again are no failure, but the model is
/// then built without them, and the first reason is kept.
pub proof fn law_all_weights_are_read(
    s: LoadView,
    read: Option<Seq<char>>,
    open: Option<Seq<char>>,
    build: Option<Seq<char>>,
)
    requires
        s.action is ReadAll,
    ensures
        ({
            let a = loading::load_next(s, read);
            let b = if s.use_sidecar {
                loading::load_next(a, open)
            } else {
                a
            };
            let c = loading::load_next(b, build);
            &&& read is Some ==> a.action is Fail
            &&& read is None ==> {
                &&& a.action == (if s.use_sidecar {
                    LoadAction::OpenAgain
                } else {
                    LoadAction::Build { sidecar: false }
                })
                &&& b.action == LoadAction::Build { sidecar: s.use_sidecar && open is None }
                &&& b.why == (if s.use_sidecar && s.why is None {
                    open
                } else {
                    s.why
                })
                &&& build is Some ==> c.action is Fail
                &&& build is None ==> c.action is Finish
                &&& c.why == b.why
            }
            &&& a.use_sidecar == s.use_sidecar && b.use_sidecar == s.use_sidecar
        }),
{
}

/// Law: without kept weights all weights are read at once.
pub proof fn law_where_a_load_starts(use_sidecar: bool)
    ensures
        loading::load_start(use_sidecar).action == (if use_sidecar {
            LoadAction::OpenFirst
        } else {
            LoadAction::ReadAll
        }),
        loading::load_start(use_sidecar).use_sidecar == use_sidecar,
        loading::load_start(use_sidecar).why is None,
{
}

/// A build after some actions, each of which went well or did not.
pub open spec fn build_run(b: BuildView, oks: Seq<bool>) -> BuildView
    decreases oks.len(),
{
    if oks.len() == 0 {
        b
    } else {
        loading::build_next(build_run(b, oks.drop_last()), oks.last())
    }
}

/// Law: kept weights are looked for in every block from the first to the last, whatever is found,
/// and behind them that of the output layer.
pub proof fn law_every_block_is_looked_at(b: BuildView, oks: Seq<bool>)
    requires
        b.action == BuildAction::FindLayer(0),
        oks.len() <= b.layers,
        b.layers > 0,
    ensures
        build_run(b, oks) == (BuildView {
            action: if oks.len() < b.layers {
                BuildAction::FindLayer(oks.len() as usize)
            } else {
                BuildAction::FindHead
            },
            ..b
        }),
    decreases oks.len(),
{
    if oks.len() > 0 {
        law_every_block_is_looked_at(b, oks.drop_last());
    }
}

/// Law: a build first opens a device where it is to, and keeps whether it is there; then it looks for
/// kept weights, if and only if the model runs in eight bits and some are kept.
pub proof fn law_device_comes_first(b: BuildView, ok: bool)
    requires
        b.action is TryDevice,
    ensures
        ({
            let c = loading::build_next(b, ok);
            &&& c.device == ok
            &&& c.layers == b.layers && c.tied == b.tied && c.use_q8 == b.use_q8
            &&& c.has_sidecar == b.has_sidecar && c.resident == b.resident && c.why == b.why
            &&& c.cache_mode == b.cache_mode
            &&& b.use_q8 && b.has_sidecar && b.layers > 0 ==> c.action == BuildAction::FindLayer(0)
            &&& b.use_q8 && b.has_sidecar && b.layers == 0 ==> c.action is FindHead
            &&& !(b.use_q8 && b.has_sidecar) ==> c.action is Assemble
        }),
{
}

/// Law: the kept weight of the embeddings is looked for if and only if none of the output layer is
/// kept, the two may be shared, and the weights hold none of the output layer either; then the
/// model is put together.
pub proof fn law_head_is_looked_for(b: BuildView, kept: bool, held: bool, found: bool)
    requires
        b.action is FindHead,
    ensures
        ({
            let c = loading::build_next(b, kept);
            let d = loading::build_next(c, held);
            let e = loading::build_next(d, found);
            if kept || !b.tied {
                c.action is Assemble
            } else {
                &&& c.action is CheckHead
                &&& held ==> d.action is Assemble
                &&& !held ==> d.action is FindEmbeddings && e.action is Assemble
            }
        }),
{
}

/// Law: behind putting a model together come its weights in eight bits, where it runs in them, and
/// then the device, where there is one; and nothing is left out or done twice.
pub proof fn law_assembled_is_finished(b: BuildView, ok: bool, again: bool)
    requires
        b.action is Assemble,
    ensures
        ({
            let c = loading::build_next(b, ok);
            let d = loading::build_next(c, again);
            let e = loading::build_next(d, again);
            &&& b.use_q8 ==> c.action is EnableQ8
            &&& b.use_q8 && b.device ==> d.action is AttachDevice && e.action is Finish
            &&& b.use_q8 && !b.device ==> d.action is Finish
            &&& !b.use_q8 && b.device ==> c.action is AttachDevice && d.action is Finish
            &&& !b.use_q8 && !b.device ==> c.action is Finish
        }),
{
}

/// Law: a step of a build notes that there is no device where it failed to open one; before the
/// weights in eight bits, whether any are kept; and at the end that the model stays on the device,
/// where it does.  No other step notes anything.
pub proof fn law_what_a_build_notes(p: PlanView, b: BuildView, failure: Option<Seq<char>>)
    requires
        b.well_formed(),
    ensures
        ({
            let q = loading::build_notes(p, b, failure);
            let last = loading::build_next(b, failure is None).action;
            &&& b.action is Finish ==> q == p
            &&& b.action is FindLayer || b.action is FindHead || b.action is CheckHead
                || b.action is FindEmbeddings ==> q == p
            &&& b.action is TryDevice && failure is None ==> q == p
            &&& b.action is TryDevice && failure is Some ==> q.lm_head_device is Cpu && q.notes
                == p.notes.push(
                "transformer decode GPU backend unavailable or partial; using CPU fallback where needed: "@
                    + failure->0,
            ).push("lm_head GPU backend unavailable; using CPU fallback: "@ + failure->0)
            &&& b.action is Assemble && b.use_q8 && b.cache_mode is Off ==> q.notes == p.notes.push(
                "Q8 sidecar cache disabled; deriving Q8 weights in memory."@,
            )
            &&& b.action is Assemble && b.use_q8 && b.cache_mode is Auto ==> q.notes == (match b.why {
                Some(e) => p.notes.push(
                    "Q8 sidecar cache unavailable; deriving Q8 weights in memory: "@ + e,
                ),
                None => p.notes,
            })
            &&& b.action is EnableQ8 && b.device ==> q == p
            &&& !(b.action is Finish) && last is Finish ==> q.notes == (if b.resident {
                p.notes.push(
                    "Internal resident decode prototype path is enabled for decode-one GPU layers; default behavior remains unchanged when this flag is off."@,
                )
            } else {
                p.notes
            })
            &&& q.layer_devices == p.layer_devices && q.quantization == p.quantization
        }),
{
}

/// Law: of the times of two profiles each is added to that of its own part.
pub proof fn law_times_are_added_part_by_part(
    a: TransformerBlockProfile,
    b: TransformerBlockProfile,
)
    requires
        profile::profile_sum_fits(a, b),
    ensures
        ({
            let s = profile::profile_sum(a, b);
            &&& s.input_norm == a.input_norm + b.input_norm
            &&& s.attention == a.attention + b.attention
            &&& s.post_norm == a.post_norm + b.post_norm
            &&& s.mlp == a.mlp + b.mlp
            &&& s.mlp_gate_up == a.mlp_gate_up + b.mlp_gate_up
            &&& s.mlp_silu_mul == a.mlp_silu_mul + b.mlp_silu_mul
            &&& s.mlp_down_proj == a.mlp_down_proj + b.mlp_down_proj
            &&& s.mlp_q8_gate_up_prep == a.mlp_q8_gate_up_prep + b.mlp_q8_gate_up_prep
            &&& s.mlp_q8_gate_up_dot == a.mlp_q8_gate_up_dot + b.mlp_q8_gate_up_dot
            &&& s.mlp_q8_gate_up_writeback == a.mlp_q8_gate_up_writeback
                + b.mlp_q8_gate_up_writeback
            &&& s.mlp_q8_down_proj_prep == a.mlp_q8_down_proj_prep + b.mlp_q8_down_proj_prep
            &&& s.mlp_q8_down_proj_dot == a.mlp_q8_down_proj_dot + b.mlp_q8_down_proj_dot
            &&& s.mlp_q8_down_proj_writeback == a.mlp_q8_down_proj_writeback
                + b.mlp_q8_down_proj_writeback
            &&& s.residual == a.residual + b.residual
            &&& s.resident_prefix_encode == a.resident_prefix_encode + b.resident_prefix_encode
            &&& s.resident_prefix_submit == a.resident_prefix_submit + b.resident_prefix_submit
            &&& s.resident_prefix_readback == a.resident_prefix_readback
                + b.resident_prefix_readback
            &&& s.total == a.total + b.total
            &&& profile::profile_sum(a, profile::no_time()) == a
            &&& profile::profile_sum(b, a) == s
        }),
{
}

/// Law: no time grows by less than nothing: what a later profile holds less of than an earlier one
/// counts as none, and the profile of no time takes nothing away.
pub proof fn law_differences_are_not_negative(
    a: TransformerBlockProfile,
    b: TransformerBlockProfile,
)
    ensures
        profile::profile_delta(profile::no_time(), b) == b,
        profile::profile_delta(b, b) == profile::no_time(),
        ({
            let d = profile::profile_delta(a, b);
            &&& b.total >= a.total ==> a.total + d.total == b.total
            &&& b.total < a.total ==> d.total == 0
            &&& b.attention >= a.attention ==> a.attention + d.attention == b.attention
            &&& b.attention < a.attention ==> d.attention == 0
            &&& b.mlp >= a.mlp ==> a.mlp + d.mlp == b.mlp
            &&& b.mlp < a.mlp ==> d.mlp == 0
        }),
{
}

/// Law: what the last layer spent is found from the last of the profiles, and from nothing else.
pub proof fn law_last_layer_is_the_last(
    before: Option<&TransformerBlockProfile>,
    layers: Seq<TransformerBlockProfile>,
    p: TransformerBlockProfile,
)
    ensures
        profile::last_layer_delta(before, Seq::empty()) is None,
        before matches Some(b) ==> profile::last_layer_delta(before, layers.push(p)) == Some(
            profile::profile_delta(*b, p),
        ),
        before is None ==> profile::last_layer_delta(before, layers.push(p)) == Some(p),
{
    assert(layers.push(p).last() == p);
}

/// Law: of the blocks that were put on a device those count that have at least one of their layers
/// there, the layers of all of them are summed up, and each that failed is named by its number with
/// all its messages.
pub proof fn law_attached_blocks_are_counted(
    counts: Seq<nat>,
    errors: Seq<Seq<Seq<char>>>,
    n: nat,
    k: int,
)
    requires
        n <= counts.len(),
        n <= errors.len(),
    ensures
        ({
            let t = qwen3::tally(counts, errors, n);
            &&& t.active == counts.take(n as int).filter(|c: nat| c > 0).len()
            &&& t.linears == counts.take(n as int).fold_left(0nat, |s: nat, c: nat| s + c)
            &&& t.failures.len() == errors.take(n as int).filter(
                |e: Seq<Seq<char>>| e.len() > 0,
            ).len()
            &&& 0 <= k < n && errors[k].len() > 0 ==> t.failures.contains(
                "layer "@ + text::dec(k as nat) + ": "@ + text::listed(errors[k], "; "@),
            )
        }),
    decreases n,
{
    let some = |c: nat| c > 0;
    let failed = |e: Seq<Seq<char>>| e.len() > 0;
    let sum = |s: nat, c: nat| s + c;
    reveal(Seq::filter);
    let cs = counts.take(n as int);
    let es = errors.take(n as int);
    if n == 0 {
        assert(cs.filter(some).len() == 0);
        assert(es.filter(failed).len() == 0);
    } else {
        let m = (n - 1) as nat;
        law_attached_blocks_are_counted(counts, errors, m, k);
        assert(cs.drop_last() =~= counts.take(m as int));
        assert(es.drop_last() =~= errors.take(m as int));
        assert(cs.last() == counts[m as int] && es.last() == errors[m as int]);
        let t = qwen3::tally(counts, errors, m);
        let u = qwen3::tally(counts, errors, n);
        if 0 <= k < n && errors[k].len() > 0 {
            let words = "layer "@ + text::dec(k as nat) + ": "@ + text::listed(errors[k], "; "@);
            if k == m {
                assert(u.failures.last() == words);
                assert(u.failures[u.failures.len() - 1] == words);
            } else {
                let j = choose|j: int| 0 <= j < t.failures.len() && t.failures[j] == words;
                assert(u.failures[j] == words);
            }
        }
    }
}

/// Law: a device that cannot take the output layer leaves it off the device, with the reason; one
/// that does is noted as such, in eight bits or not.
pub proof fn law_head_is_noted(p: PlanView, q8: bool, why: Option<Seq<char>>)
    ensures
        ({
            let q = qwen3::head_noted(p, q8, why);
            &&& why matches Some(e) ==> q.lm_head_device is Cpu && q.notes == p.notes.push(
                "lm_head GPU backend unavailable; using CPU fallback: "@ + e,
            )
            &&& why is None ==> q.lm_head_device is Gpu && q.notes.len() == p.notes.len() + 1
            &&& why is None && q8 ==> q.notes.last()
                == "lm_head Q8 matvec is using the optional wgpu backend; greedy temperature<=0 can use fused Q8 GPU argmax."@
            &&& why is None && !q8 ==> q.notes.last()
                == "lm_head matvec is using the optional wgpu backend."@
            &&& q.layer_devices == p.layer_devices && q.quantization == p.quantization
        }),
{
}

/// Law: a model in eight bits is noted with seven linear layers for each block and that of the
/// output, and with the hits, the writes and the fallbacks of the kept weights.
pub proof fn law_eight_bits_are_noted(
    p: PlanView,
    layers: nat,
    report: Option<crate::model::Q8SidecarReport>,
)
    ensures
        ({
            let q = qwen3::quantization_noted(p, layers, report);
            &&& q.quantization is Q8
            &&& q.layer_devices == p.layer_devices && q.lm_head_device == p.lm_head_device
            &&& q.notes[p.notes.len() as int] == "Q8 linear path enabled for "@ + text::dec(
                7 * layers + 1,
            )
                + " bias-free linear layer(s); Q8 GPU matvecs or existing GPU matvecs take priority where attached, then CPU Q8 is used as fallback."@
            &&& report is None ==> q.notes.len() == p.notes.len() + 1
            &&& report matches Some(r) ==> q.notes.len() == p.notes.len() + 2 && q.notes.last()
                == "Q8 sidecar cache at "@ + r.dir@ + ": "@ + text::dec(r.hits as nat)
                + " hit(s), "@ + text::dec(r.writes as nat) + " write(s), "@ + text::dec(
                r.fallbacks@.len(),
            ) + " fallback(s)."@
            &&& forall|i: int| 0 <= i < p.notes.len() ==> #[trigger] q.notes[i] == p.notes[i]
        }),
{
}

/// Law: the parts of an attention and of a feed-forward part keep their order and their names,
/// wherever they are taken together, and go back to where they came from.
pub proof fn law_parts_keep_their_order(
    a: Attention,
    m: Mlp,
    ls: Seq<Linear>,
    s: ResidentAttentionRuntimeState,
)
    ensures
        attention::projections(a).len() == 4,
        attention::projections(a)[0] == a.q_proj && attention::projections(a)[1] == a.k_proj,
        attention::projections(a)[2] == a.v_proj && attention::projections(a)[3] == a.o_proj,
        attention::projection_names()[0] == "q_proj"@ && attention::projection_names()[1]
            == "k_proj"@,
        attention::projection_names()[2] == "v_proj"@ && attention::projection_names()[3]
            == "o_proj"@,
        attention::with_projections(a, attention::projections(a)) == a,
        ls.len() == 4 ==> attention::projections(attention::with_projections(a, ls)) == ls,
        attention::qkv_q8(attention::projections(a)).len() == 3,
        *attention::qkv_q8(attention::projections(a))[0] == a.q_proj.q8_gpu_matvec->0,
        *attention::qkv_q8(attention::projections(a))[1] == a.k_proj.q8_gpu_matvec->0,
        *attention::qkv_q8(attention::projections(a))[2] == a.v_proj.q8_gpu_matvec->0,
        attention::qkv_half(a).len() == 3,
        *attention::qkv_half(a)[0] == a.q_proj.gpu_matvec->0,
        *attention::qkv_half(a)[1] == a.k_proj.gpu_matvec->0,
        *attention::qkv_half(a)[2] == a.v_proj.gpu_matvec->0,
        attention::qkv_outputs(s).len() == 3,
        *attention::qkv_outputs(s)[0] == s.resident_q_pre,
        *attention::qkv_outputs(s)[1] == s.resident_k_pre,
        *attention::qkv_outputs(s)[2] == s.resident_v,
        mlp::mlp_parts(m).len() == 3,
        mlp::mlp_parts(m)[0] == m.gate_proj && mlp::mlp_parts(m)[1] == m.up_proj,
        mlp::mlp_parts(m)[2] == m.down_proj,
        mlp::mlp_names()[0] == "gate_proj"@ && mlp::mlp_names()[1] == "up_proj"@,
        mlp::mlp_names()[2] == "down_proj"@,
        mlp::with_mlp_parts(m, mlp::mlp_parts(m)) == m,
        ls.len() == 3 ==> mlp::mlp_parts(mlp::with_mlp_parts(m, ls)) == ls,
        mlp::gate_up(m).len() == 2,
        *mlp::gate_up(m)[0] == m.gate_proj.gpu_matvec->0,
        *mlp::gate_up(m)[1] == m.up_proj.gpu_matvec->0,
{
    if ls.len() == 4 {
        assert(attention::projections(attention::with_projections(a, ls)) =~= ls);
    }
    if ls.len() == 3 {
        assert(mlp::mlp_parts(mlp::with_mlp_parts(m, ls)) =~= ls);
    }
}

/// Law: the first of the projections that is not on the device is the one that is named; and none is
/// where all four are.
pub proof fn law_missing_projection_is_named(a: Attention)
    ensures
        ({
            let q = a.q_proj.q8_gpu_matvec is Some;
            let k = a.k_proj.q8_gpu_matvec is Some;
            let v = a.v_proj.q8_gpu_matvec is Some;
            let o = a.o_proj.q8_gpu_matvec is Some;
            let e = attention::missing_projection(a);
            &&& e is None <==> q && k && v && o
            &&& !q ==> e == Some("missing q_proj Q8 GPU matvec"@)
            &&& q && !k ==> e == Some("missing k_proj Q8 GPU matvec"@)
            &&& q && k && !v ==> e == Some("missing v_proj Q8 GPU matvec"@)
            &&& q && k && v && !o ==> e == Some("missing o_proj Q8 GPU matvec"@)
        }),
{
}

/// Law: a layer that is on no device runs with its weight in eight bits where it has one, no bias
/// and that way was not tried yet; else with that in half precision, which has a number for each
/// place; and where that is missing too, it says so by name.  The device stays as it was.
pub proof fn law_how_a_layer_runs_without_device(
    l: Linear,
    x: Tensor,
    from: int,
    before: context::ContextView,
    after: context::ContextView,
    r: Result<LinearStep, RsinferError>,
)
    requires
        l.gpu_matvec is None,
        l.q8_gpu_matvec is None,
        linear::is_step(l, x, from, before, after, r),
    ensures
        after == before,
        from <= 2 && l.bias is None && l.q8_weight is Some ==> r matches Ok(LinearStep::Q8),
        (from > 2 || l.bias is Some || l.q8_weight is None) && l.weight@.len() == l.out_features
            * l.in_features ==> r matches Ok(LinearStep::Half),
        (from > 2 || l.bias is Some || l.q8_weight is None) && l.weight@.len() != l.out_features
            * l.in_features ==> (r matches Err(e) && e@ == ErrorView::WeightError(
            "Linear '"@ + (match l.source_name {
                Some(s) => s@,
                None => "<unnamed>"@,
            }) + "' "@ + "has no f16 fallback weight attached"@,
        )),
{
}

/// Law: a weight makes a layer if and only if its shape has two sizes and it has a number for each
/// place.
pub proof fn law_when_a_weight_makes_a_layer(shape: Seq<usize>, len: nat)
    ensures
        linear::linear_error(shape, len) is None <==> shape.len() == 2 && len == shape[0]
            * shape[1],
        shape.len() != 2 ==> linear::linear_error(shape, len) == Some(
            ErrorView::DimensionError("Linear weight 需要 2D, got "@ + text::dec(shape.len()) + "D"@),
        ),
{
}

/// Law: more than one token runs gate and up apart, and leaves the device as it was; so does one
/// token where none of the three layers is on a device.
pub proof fn law_many_tokens_run_apart(
    m: Mlp,
    x: Tensor,
    from: int,
    before: context::ContextView,
    after: context::ContextView,
    r: MlpStep,
)
    requires
        mlp::is_mlp_step(m, x, from, before, after, r),
    ensures
        x.dims()[0] != 1 ==> r is Apart && after == before,
        x.dims()[0] == 1 && m.gate_proj.gpu_matvec is None && m.gate_proj.q8_gpu_matvec is None
            ==> after == before && !(r is Q8Fused) && !(r is Fused) && !(r is GateUp),
{
}

/// Law: a block that runs from end to end on a device is one of the first that are meant for it
/// without a gap, where that is asked for, and only for one token.
pub proof fn law_resident_blocks_are_the_first(m: Qwen3Model, tokens: nat)
    ensures
        ({
            let d = m.runtime_plan@.layer_devices;
            let n = qwen3_decode::prefix_len(m, tokens);
            &&& !m.resident_decode_prototype || tokens != 1 ==> n == 0
            &&& m.resident_decode_prototype && tokens == 1 ==> {
                &&& 0 <= n <= d.len()
                &&& forall|i: int| 0 <= i < n ==> #[trigger] d[i] == LayerDevice::Gpu
                &&& n < d.len() ==> d[n] != LayerDevice::Gpu
            }
        }),
{
    lemma_leading_is_all(m.runtime_plan@.layer_devices, 0);
}

proof fn lemma_leading_is_all(d: Seq<LayerDevice>, i: int)
    requires
        0 <= i <= d.len(),
    ensures
        ({
            let n = qwen3_decode::leading(d, i);
            &&& i <= n <= d.len()
            &&& forall|k: int| i <= k < n ==> #[trigger] d[k] == LayerDevice::Gpu
            &&& n < d.len() ==> d[n] != LayerDevice::Gpu
        }),
    decreases d.len() - i,
{
    if i < d.len() && d[i] == LayerDevice::Gpu {
        lemma_leading_is_all(d, i + 1);
    }
}

/// Law: each block reads what the one before it wrote, the first reads the token, and no block
/// writes what it reads, as long as the two values are not the same.
pub proof fn law_blocks_take_turns(s: ResidentQwen3RuntimeState, i: int)
    ensures
        qwen3_decode::slot(s, 0) == s.resident_hidden_a,
        qwen3_decode::slot(s, 1) == s.resident_hidden_b,
        qwen3_decode::slot(s, i + 2) == qwen3_decode::slot(s, i),
        s.resident_hidden_a != s.resident_hidden_b ==> qwen3_decode::slot(s, i + 1)
            != qwen3_decode::slot(s, i),
{
}

/// Law: tokens are embedded if and only if each is one of the vocabulary, and the first that is not
/// is named with its number and the size of the vocabulary.
pub proof fn law_unknown_token_is_named(ids: Seq<u32>, vocab: usize, k: int)
    requires
        0 <= k <= ids.len(),
        forall|j: int| 0 <= j < k ==> #[trigger] ids[j] < vocab,
        k < ids.len() ==> ids[k] >= vocab,
    ensures
        k == ids.len() ==> qwen3_decode::embed_error(ids, vocab, 0) is None,
        k < ids.len() ==> qwen3_decode::embed_error(ids, vocab, 0) == Some(
            ErrorView::DimensionError(
                "token id "@ + text::dec(ids[k] as nat) + " 越界 (vocab_size "@ + text::dec(
                    vocab as nat,
                ) + ")"@,
            ),
        ),
{
    lemma_known_tokens_pass(ids, vocab, k, 0);
}

proof fn lemma_known_tokens_pass(ids: Seq<u32>, vocab: usize, k: int, i: int)
    requires
        0 <= i <= k <= ids.len(),
        forall|j: int| 0 <= j < k ==> #[trigger] ids[j] < vocab,
    ensures
        qwen3_decode::embed_error(ids, vocab, i) == qwen3_decode::embed_error(ids, vocab, k),
    decreases k - i,
{
    if i < k {
        assert(ids[i] < vocab);
        lemma_known_tokens_pass(ids, vocab, k, i + 1);
    }
}

/// Law: the room that is wanted on a device is the least that holds what is cached, or sixty-four
/// positions where nothing is, and the position itself; unless the cache may have less.
pub proof fn law_wanted_room_is_the_least(
    cached: Option<usize>,
    position: usize,
    kv_max: usize,
    room: usize,
)
    requires
        position < usize::MAX,
        room > position,
        cached matches Some(c) ==> room >= c,
        cached is None ==> room >= 64,
    ensures
        attention_sync::wanted_len(cached, position, kv_max) <= room,
        attention_sync::wanted_len(cached, position, kv_max) == kv_max || (
        attention_sync::wanted_len(cached, position, kv_max) > position && (cached matches Some(
            c,
        ) ==> attention_sync::wanted_len(cached, position, kv_max) >= c) && (cached is None
            ==> attention_sync::wanted_len(cached, position, kv_max) >= 64)),
{
}

/// Law: the keys on a device come from the cached keys and the values from the cached values; both
/// have a place for each number of each position that there is room for, and zeros where nothing is
/// cached.
pub proof fn law_keys_and_values_stay_apart(
    k: CachedKV<'_>,
    a: Attention,
    max_len: usize,
    h: int,
    p: int,
    d: int,
)
    requires
        k.seq_len <= max_len,
        0 <= h < a.num_kv_heads,
        0 <= p < k.seq_len,
        0 <= d < a.head_dim,
    ensures
        ({
            let i = h * (max_len * a.head_dim) + (p * a.head_dim + d);
            let j = h * (k.capacity_len * a.head_dim) + (p * a.head_dim + d);
            &&& attention_sync::device_keys(Some(k), a, max_len)[i] == k.key@[j]
            &&& attention_sync::device_values(Some(k), a, max_len)[i] == k.value@[j]
        }),
{
    attention_sync::law_placed_keeps(
        k.key@,
        a.num_kv_heads as nat,
        k.seq_len as nat,
        k.capacity_len as nat,
        a.head_dim as nat,
        max_len as nat,
        h,
        p,
        d,
    );
    attention_sync::law_placed_keeps(
        k.value@,
        a.num_kv_heads as nat,
        k.seq_len as nat,
        k.capacity_len as nat,
        a.head_dim as nat,
        max_len as nat,
        h,
        p,
        d,
    );
}

/// Law: some layers are put on a device one after the other, each on the device as the one before
/// left it; and one that cannot be is named with the part that it belongs to.
pub proof fn law_layers_go_one_by_one(
    c: context::ContextView,
    ls: Seq<Linear>,
    head: Seq<char>,
    names: Seq<Seq<char>>,
    q8: bool,
    n: nat,
)
    ensures
        group::group_after(c, ls, q8, 0) == c,
        group::group_count(c, ls, q8, 0) == 0,
        group::group_errors(c, ls, head, names, q8, 0).len() == 0,
        ({
            let d = group::group_after(c, ls, q8, n);
            let l = ls[n as int];
            let why = if q8 {
                linear::q8_error(l, d.max_chunk_bytes)
            } else {
                linear::half_error(l, d.max_chunk_bytes)
            };
            let before = group::group_errors(c, ls, head, names, q8, n);
            let after = group::group_errors(c, ls, head, names, q8, n + 1);
            &&& why is None ==> group::group_count(c, ls, q8, n + 1) == group::group_count(
                c,
                ls,
                q8,
                n,
            ) + 1 && after == before
            &&& why matches Some(e) ==> group::group_count(c, ls, q8, n + 1) == group::group_count(
                c,
                ls,
                q8,
                n,
            ) && group::group_after(c, ls, q8, n + 1) == d && after.len() == before.len() + 1
                && after.drop_last() == before
            &&& why is Some && q8 ==> after.last() == head + names[n as int] + ".q8_gpu: "@
                + why->0
            &&& why is Some && !q8 ==> after.last() == head + names[n as int] + ": "@ + why->0
        }),
{
    group::lemma_next_part(c, ls, head, names, q8, n);
    let before = group::group_errors(c, ls, head, names, q8, n);
    let after = group::group_errors(c, ls, head, names, q8, n + 1);
    if after.len() == before.len() + 1 {
        assert(after.drop_last() =~= before);
    }
}

/// Law: time that is added to the whole of a layer changes nothing else of it, and no other layer.
pub proof fn law_time_goes_to_one_layer(
    s: Seq<TransformerBlockProfile>,
    slot: int,
    elapsed: u128,
    i: int,
)
    requires
        0 <= slot < s.len(),
        0 <= i < s.len(),
        s[slot].total + elapsed <= u128::MAX,
    ensures
        ({
            let t = profile::with_total(s, slot, elapsed);
            &&& t.len() == s.len()
            &&& i != slot ==> t[i] == s[i]
            &&& t[slot].total == s[slot].total + elapsed
            &&& t[slot] == (TransformerBlockProfile { total: t[slot].total, ..s[slot] })
        }),
{
}

/// Law: blocks that were put on a device are noted with how many of them decode there and how many of
/// their layers, in eight bits or not; what failed is noted behind that, all of it in one line.
pub proof fn law_attached_blocks_are_noted(p: PlanView, q8: bool, t: qwen3::Attached)
    requires
        t.active <= usize::MAX,
    ensures
        ({
            let q = qwen3::blocks_noted(p, q8, t);
            let told = if t.active > 0 {
                1int
            } else {
                0int
            };
            &&& q.transformer_decode_gpu_layers == t.active
            &&& q.layer_devices == p.layer_devices && q.lm_head_device == p.lm_head_device
            &&& q.quantization == p.quantization && q.gpu == p.gpu
            &&& q.notes.len() == p.notes.len() + told + (if t.failures.len() > 0 {
                1int
            } else {
                0int
            })
            &&& t.active > 0 && q8 ==> q.notes[p.notes.len() as int] == "decode Q8 matvec for "@
                + text::dec(t.active) + " transformer layer(s) attached "@ + text::dec(t.linears)
                + " linear GPU kernels through the shared wgpu context; q/k/v can use one shared input upload, MLP can fuse gate/up SwiGLU into Q8 GPU down_proj, and prefill still falls back to CPU."@
            &&& t.active > 0 && !q8 ==> q.notes[p.notes.len() as int] == "decode matvec for "@
                + text::dec(t.active) + " transformer layer(s) attached "@ + text::dec(t.linears)
                + " linear GPU kernels through the shared wgpu context; q/k/v same-input groups are batched and MLP can fuse gate/up SwiGLU into GPU down_proj; prefill still falls back to CPU."@
            &&& t.failures.len() > 0 ==> q.notes.last()
                == "transformer decode GPU backend unavailable or partial; using CPU fallback where needed: "@
                + text::listed(t.failures, " | "@)
        }),
{
}

} // verus!
