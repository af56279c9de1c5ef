//! How a model is loaded and built: what has to be done next, step by step.  Files and devices are
//! opened elsewhere; [`ModelLoad`] and [`ModelBuild`] say in which order and take what came of it.

use vstd::prelude::*;

use crate::model::linear;
use crate::model::linear::Linear;
use crate::model::qwen3;
use crate::model::qwen3::{note_device_failure, note_resident_decode, note_sidecar, uses_q8_sidecar};
use crate::model::weights::WeightMap;
use crate::runtime;
use crate::runtime::{QuantizationCacheMode, QuantizationMode, RuntimeOptions, RuntimePlan};

verus! {

/// What has to be done next to load a model.
#[derive(Clone, Copy, Debug, PartialEq, Eq, Structural)]
pub enum LoadAction {
    /// Open the weights in eight bits that are kept beside the model.
    OpenFirst,
    /// Read the weights that are not kept in eight bits.
    ReadWarm,
    /// Build the model from these and from those that are kept.
    BuildWarm,
    /// Nothing: the model was built from kept weights.
    FinishWarm,
    /// Read all weights.
    ReadAll,
    /// Open the weights in eight bits again.
    OpenAgain,
    /// Build the model, with or without weights that are kept.
    Build { sidecar: bool },
    /// Nothing: the model was built.
    Finish,
    /// Nothing: what failed last is the result.
    Fail,
}

/// A model on its way in: whether weights are kept beside it, why those cannot be used, and what
/// is being done.
#[derive(Debug)]
pub struct ModelLoad {
    pub use_sidecar: bool,
    pub why: Option<String>,
    pub action: LoadAction,
}

/// The mathematical value of a model on its way in.
pub struct LoadView {
    pub use_sidecar: bool,
    pub why: Option<Seq<char>>,
    pub action: LoadAction,
}

/// The value of a text that may be missing.
pub open spec fn words_of(s: Option<String>) -> Option<Seq<char>> {
    match s {
        Some(s) => Some(s@),
        None => None,
    }
}

impl View for ModelLoad {
    type V = LoadView;

    open spec fn view(&self) -> LoadView {
        LoadView {
            use_sidecar: self.use_sidecar,
            why: words_of(self.why),
            action: self.action,
        }
    }
}

/// How a load starts.
pub open spec fn load_start(use_sidecar: bool) -> LoadView {
    LoadView {
        use_sidecar,
        why: None,
        action: if use_sidecar {
            LoadAction::OpenFirst
        } else {
            LoadAction::ReadAll
        },
    }
}

/// How a load goes on: a failure on the way through kept weights leads to all weights, and any
/// other failure but that of the kept weights ends it.  The first reason why those cannot be opened
/// stays.
pub open spec fn load_next(s: LoadView, failure: Option<Seq<char>>) -> LoadView {
    let ok = failure is None;
    let all = LoadView { action: LoadAction::ReadAll, ..s };
    let fail = LoadView { action: LoadAction::Fail, ..s };
    match s.action {
        LoadAction::OpenFirst => if ok {
            LoadView { action: LoadAction::ReadWarm, ..s }
        } else {
            LoadView { why: failure, ..all }
        },
        LoadAction::ReadWarm => if ok {
            LoadView { action: LoadAction::BuildWarm, ..s }
        } else {
            all
        },
        LoadAction::BuildWarm => if ok {
            LoadView { action: LoadAction::FinishWarm, ..s }
        } else {
            all
        },
        LoadAction::ReadAll => if !ok {
            fail
        } else if s.use_sidecar {
            LoadView { action: LoadAction::OpenAgain, ..s }
        } else {
            LoadView { action: LoadAction::Build { sidecar: false }, ..s }
        },
        LoadAction::OpenAgain => LoadView {
            why: if s.why is None {
                failure
            } else {
                s.why
            },
            action: LoadAction::Build { sidecar: ok },
            ..s
        },
        LoadAction::Build { .. } => if ok {
            LoadView { action: LoadAction::Finish, ..s }
        } else {
            fail
        },
        LoadAction::FinishWarm | LoadAction::Finish | LoadAction::Fail => s,
    }
}

impl ModelLoad {
    /// Starts a load.
    pub fn start(options: &RuntimeOptions) -> (r: ModelLoad)
        ensures
            r@ == load_start(options.quantization is Q8 && options.quantization_cache is Auto),
    {
        let use_sidecar = uses_q8_sidecar(options);
        let action = if use_sidecar {
            LoadAction::OpenFirst
        } else {
            LoadAction::ReadAll
        };
        ModelLoad { use_sidecar, why: None, action }
    }

    /// Takes what came of the last action: nothing, or the words of its failure.
    pub fn advance(&mut self, failure: Option<String>) -> (r: LoadAction)
        ensures
            final(self)@ == load_next(old(self)@, words_of(failure)),
            r == final(self)@.action,
    {
        let ok = failure.is_none();
        let next = match self.action {
            LoadAction::OpenFirst => {
                if ok {
                    LoadAction::ReadWarm
                } else {
                    self.why = failure;
                    LoadAction::ReadAll
                }
            },
            LoadAction::ReadWarm => if ok {
                LoadAction::BuildWarm
            } else {
                LoadAction::ReadAll
            },
            LoadAction::BuildWarm => if ok {
                LoadAction::FinishWarm
            } else {
                LoadAction::ReadAll
            },
            LoadAction::ReadAll => if !ok {
                LoadAction::Fail
            } else if self.use_sidecar {
                LoadAction::OpenAgain
            } else {
                LoadAction::Build { sidecar: false }
            },
            LoadAction::OpenAgain => {
                if self.why.is_none() {
                    self.why = failure;
                }
                LoadAction::Build { sidecar: ok }
            },
            LoadAction::Build { .. } => if ok {
                LoadAction::Finish
            } else {
                LoadAction::Fail
            },
            LoadAction::FinishWarm => LoadAction::FinishWarm,
            LoadAction::Finish => LoadAction::Finish,
            LoadAction::Fail => LoadAction::Fail,
        };
        self.action = next;
        next
    }
}

/// A load after some actions, each of which went well or failed.
pub open spec fn load_run(s: LoadView, failures: Seq<Option<Seq<char>>>) -> LoadView
    decreases failures.len(),
{
    if failures.len() == 0 {
        s
    } else {
        load_next(load_run(s, failures.drop_last()), failures.last())
    }
}

/// Law: a model is built from kept weights alone if and only if they are kept and opening them,
/// reading the others and building all go well.  The first of the three that fails leads to all
/// weights, and only where nothing could be opened does a reason go with it.
pub proof fn law_kept_weights_come_first(failures: Seq<Option<Seq<char>>>, k: int)
    requires
        0 <= k < 3,
        k < failures.len(),
        forall|i: int| 0 <= i < k ==> (#[trigger] failures[i]) is None,
    ensures
        ({
            let s = load_run(load_start(true), failures.take(k + 1));
            if failures[k] is None {
                &&& s.action == (if k == 0 {
                    LoadAction::ReadWarm
                } else if k == 1 {
                    LoadAction::BuildWarm
                } else {
                    LoadAction::FinishWarm
                })
                &&& s.why is None
            } else {
                &&& s.action is ReadAll
                &&& s.why == (if k == 0 {
                    failures[k]
                } else {
                    None
                })
            }
        }),
{
    reveal_with_fuel(load_run, 5);
    let s = failures.take(k + 1);
    assert(s.drop_last() =~= failures.take(k));
    if k > 0 {
        assert(failures.take(k).drop_last() =~= failures.take(k - 1));
        assert(failures.take(k).last() == failures[k - 1]);
    }
    if k > 1 {
        assert(failures.take(k - 1).drop_last() =~= failures.take(k - 2));
        assert(failures.take(k - 1).last() == failures[k - 2]);
    }
    assert(failures.take(0).len() == 0);
}

/// How many actions a load still has before it.
pub open spec fn load_ahead(s: LoadView) -> nat {
    match s.action {
        LoadAction::OpenFirst => 6,
        LoadAction::ReadWarm => 5,
        LoadAction::BuildWarm => 4,
        LoadAction::ReadAll => 3,
        LoadAction::OpenAgain => 2,
        LoadAction::Build { .. } => 1,
        LoadAction::FinishWarm | LoadAction::Finish | LoadAction::Fail => 0,
    }
}

/// Law: a load ends, whatever fails; and a reason why kept weights cannot be opened at first never
/// changes.
pub proof fn law_load_ends(s: LoadView, failure: Option<Seq<char>>)
    ensures
        load_ahead(s) > 0 ==> load_ahead(load_next(s, failure)) < load_ahead(s),
        load_ahead(s) == 0 ==> load_next(s, failure) == s,
        s.why is Some && !(s.action is OpenFirst) ==> load_next(s, failure).why == s.why,
{
}

/// What has to be done next to build a model.
#[derive(Clone, Copy, Debug, PartialEq, Eq, Structural)]
pub enum BuildAction {
    /// Open a device.
    TryDevice,
    /// Look for the kept weights of a block.
    FindLayer(usize),
    /// Look for the kept weight of the output layer.
    FindHead,
    /// See whether the weights hold one of the output layer.
    CheckHead,
    /// Look for the kept weight of the embeddings.
    FindEmbeddings,
    /// Put the model together.
    Assemble,
    /// Give the linear layers their weights in eight bits, and note that.
    EnableQ8,
    /// Put layers on the device.
    AttachDevice,
    /// Nothing: the model is built.
    Finish,
}

/// A model on its way up.
#[derive(Debug)]
pub struct ModelBuild {
    pub layers: usize,
    pub tied: bool,
    pub use_q8: bool,
    pub has_sidecar: bool,
    pub cache_mode: QuantizationCacheMode,
    pub resident: bool,
    pub why: Option<String>,
    pub device: bool,
    pub action: BuildAction,
}

/// The mathematical value of a model on its way up: how many blocks it has, whether the output
/// layer may use the embeddings, whether it runs in eight bits, whether weights are kept for that
/// and why not, whether it stays on the device from block to block, whether there is a device, and
/// what is being done.
pub struct BuildView {
    pub layers: usize,
    pub tied: bool,
    pub use_q8: bool,
    pub has_sidecar: bool,
    pub cache_mode: QuantizationCacheMode,
    pub resident: bool,
    pub why: Option<Seq<char>>,
    pub device: bool,
    pub action: BuildAction,
}

impl View for ModelBuild {
    type V = BuildView;

    open spec fn view(&self) -> BuildView {
        BuildView {
            layers: self.layers,
            tied: self.tied,
            use_q8: self.use_q8,
            has_sidecar: self.has_sidecar,
            cache_mode: self.cache_mode,
            resident: self.resident,
            why: words_of(self.why),
            device: self.device,
            action: self.action,
        }
    }
}

/// The first thing behind the device: the kept weights, where there are any to look for.
pub open spec fn first_find(b: BuildView) -> BuildAction {
    if !b.use_q8 || !b.has_sidecar {
        BuildAction::Assemble
    } else if b.layers > 0 {
        BuildAction::FindLayer(0)
    } else {
        BuildAction::FindHead
    }
}

/// What comes once the layers have their weights.
pub open spec fn weights_done(b: BuildView) -> BuildAction {
    if b.device {
        BuildAction::AttachDevice
    } else {
        BuildAction::Finish
    }
}

/// How a build goes on, after an action that went well or found something, or did not.
pub open spec fn build_next(b: BuildView, ok: bool) -> BuildView {
    match b.action {
        BuildAction::TryDevice => {
            let c = BuildView { device: ok, ..b };
            BuildView { action: first_find(c), ..c }
        },
        BuildAction::FindLayer(i) => BuildView {
            action: if i + 1 < b.layers {
                BuildAction::FindLayer((i + 1) as usize)
            } else {
                BuildAction::FindHead
            },
            ..b
        },
        BuildAction::FindHead => BuildView {
            action: if !ok && b.tied {
                BuildAction::CheckHead
            } else {
                BuildAction::Assemble
            },
            ..b
        },
        BuildAction::CheckHead => BuildView {
            action: if ok {
                BuildAction::Assemble
            } else {
                BuildAction::FindEmbeddings
            },
            ..b
        },
        BuildAction::FindEmbeddings => BuildView { action: BuildAction::Assemble, ..b },
        BuildAction::Assemble => BuildView {
            action: if b.use_q8 {
                BuildAction::EnableQ8
            } else {
                weights_done(b)
            },
            ..b
        },
        BuildAction::EnableQ8 => BuildView { action: weights_done(b), ..b },
        BuildAction::AttachDevice => BuildView { action: BuildAction::Finish, ..b },
        BuildAction::Finish => b,
    }
}

/// What a step notes in the plan: that there is no device and why, before the layers get their
/// weights in eight bits why none are kept, and at the end that the model stays on the device.
pub open spec fn build_notes(p: runtime::PlanView, b: BuildView, failure: Option<Seq<char>>)
    -> runtime::PlanView {
    let next = build_next(b, failure is None);
    let q = if b.action is TryDevice && failure is Some {
        qwen3::opened(p, failure)
    } else {
        p
    };
    if next.action is EnableQ8 {
        qwen3::sidecar_noted(q, b.cache_mode, b.why)
    } else if next.action is Finish && !(b.action is Finish) && b.resident {
        qwen3::resident_noted(q)
    } else {
        q
    }
}

impl ModelBuild {
    /// Starts a build.
    pub fn start(
        layers: usize,
        tied: bool,
        options: &RuntimeOptions,
        has_sidecar: bool,
        why: Option<String>,
        plan: &RuntimePlan,
    ) -> (r: ModelBuild)
        ensures
            ({
                let b = BuildView {
                    layers,
                    tied,
                    use_q8: options.quantization is Q8,
                    has_sidecar,
                    cache_mode: options.quantization_cache,
                    resident: options.internal_resident_decode_prototype,
                    why: words_of(why),
                    device: false,
                    action: BuildAction::TryDevice,
                };
                r@ == (if runtime::tries_backend(plan@) {
                    b
                } else {
                    BuildView { action: first_find(b), ..b }
                })
            }),
            r@.well_formed(),
    {
        let use_q8 = options.quantization == QuantizationMode::Q8;
        let action = if plan.should_try_gpu_backend() {
            BuildAction::TryDevice
        } else if !use_q8 || !has_sidecar {
            BuildAction::Assemble
        } else if layers > 0 {
            BuildAction::FindLayer(0)
        } else {
            BuildAction::FindHead
        };
        ModelBuild {
            layers,
            tied,
            use_q8,
            has_sidecar,
            cache_mode: options.quantization_cache,
            resident: options.internal_resident_decode_prototype,
            why,
            device: false,
            action,
        }
    }

    fn next_action(&self, ok: bool) -> (r: BuildAction)
        requires
            self@.well_formed(),
        ensures
            r == build_next(self@, ok).action,
    {
        match self.action {
            BuildAction::TryDevice => if !self.use_q8 || !self.has_sidecar {
                BuildAction::Assemble
            } else if self.layers > 0 {
                BuildAction::FindLayer(0)
            } else {
                BuildAction::FindHead
            },
            BuildAction::FindLayer(i) => if i + 1 < self.layers {
                BuildAction::FindLayer(i + 1)
            } else {
                BuildAction::FindHead
            },
            BuildAction::FindHead => if !ok && self.tied {
                BuildAction::CheckHead
            } else {
                BuildAction::Assemble
            },
            BuildAction::CheckHead => if ok {
                BuildAction::Assemble
            } else {
                BuildAction::FindEmbeddings
            },
            BuildAction::FindEmbeddings => BuildAction::Assemble,
            BuildAction::Assemble => if self.use_q8 {
                BuildAction::EnableQ8
            } else if self.device {
                BuildAction::AttachDevice
            } else {
                BuildAction::Finish
            },
            BuildAction::EnableQ8 => if self.device {
                BuildAction::AttachDevice
            } else {
                BuildAction::Finish
            },
            BuildAction::AttachDevice => BuildAction::Finish,
            BuildAction::Finish => BuildAction::Finish,
        }
    }

    /// Takes what came of the last action: nothing, or that it failed or found nothing and why; and
    /// notes in the plan what is to be noted.
    pub fn advance(&mut self, plan: &mut RuntimePlan, failure: Option<&str>) -> (r: BuildAction)
        requires
            old(self)@.well_formed(),
        ensures
            ({
                let words = match failure {
                    Some(s) => Some(s@),
                    None => None,
                };
                &&& final(self)@ == build_next(old(self)@, failure is None)
                &&& final(plan)@ == build_notes(old(plan)@, old(self)@, words)
                &&& r == final(self)@.action
                &&& final(self)@.well_formed()
            }),
    {
        let ok = failure.is_none();
        let next = self.next_action(ok);
        let done = self.action == BuildAction::Finish;
        if self.action == BuildAction::TryDevice {
            self.device = ok;
            match failure {
                Some(why) => note_device_failure(plan, why),
                None => {},
            }
        }
        if next == BuildAction::EnableQ8 {
            let why = match &self.why {
                Some(s) => Some(s.as_str()),
                None => None,
            };
            note_sidecar(plan, self.cache_mode, why);
        } else if next == BuildAction::Finish && !done && self.resident {
            note_resident_decode(plan);
        }
        self.action = next;
        next
    }
}

impl BuildView {
    /// What holds of every build: kept weights are looked for only where there are any and the
    /// model runs in eight bits, those of the embeddings only where the output layer may use them,
    /// and nothing is put on a device that is not there.
    pub open spec fn well_formed(self) -> bool {
        match self.action {
            BuildAction::FindLayer(i) => i < self.layers && self.use_q8 && self.has_sidecar,
            BuildAction::FindHead => self.use_q8 && self.has_sidecar,
            BuildAction::CheckHead | BuildAction::FindEmbeddings => self.use_q8 && self.has_sidecar
                && self.tied,
            BuildAction::EnableQ8 => self.use_q8,
            BuildAction::AttachDevice => self.device,
            _ => true,
        }
    }
}

/// How many actions a build has at most before it.
pub open spec fn build_ahead(b: BuildView) -> int {
    match b.action {
        BuildAction::TryDevice => b.layers + 8,
        BuildAction::FindLayer(i) => b.layers - i + 6,
        BuildAction::FindHead => 6,
        BuildAction::CheckHead => 5,
        BuildAction::FindEmbeddings => 4,
        BuildAction::Assemble => 3,
        BuildAction::EnableQ8 => 2,
        BuildAction::AttachDevice => 1,
        BuildAction::Finish => 0,
    }
}

/// Law: a build keeps what holds of it and ends.  Once past its beginning nothing but its action
/// changes, so that a device which is not there at first never is.
pub proof fn law_build_ends(b: BuildView, ok: bool)
    requires
        b.well_formed(),
    ensures
        build_next(b, ok).well_formed(),
        !(b.action is Finish) ==> 0 <= build_ahead(build_next(b, ok)) < build_ahead(b),
        !(b.action is TryDevice) ==> build_next(b, ok) == (BuildView {
            action: build_next(b, ok).action,
            ..b
        }),
        (build_next(b, ok).action is FindEmbeddings) <==> (b.action is CheckHead && !ok),
{
}

/// Whether the weights hold one of the output layer itself.
pub fn has_output_layer(weights: &WeightMap) -> (r: bool)
    requires
        linear::sizes_known(weights@, "lm_head.weight"@),
    ensures
        r == (linear::load_error(weights@, "lm_head.weight"@) is None),
{
    match Linear::from_weight_map(weights, "lm_head.weight", None) {
        Ok(_) => true,
        Err(_) => false,
    }
}

} // verus!
