//! Text, token by token: what to run next, what to print, when to stop, and where the time went.
//!
//! The model is run and tokens are turned into text elsewhere.  [`Generation`] says what is to be
//! done next and takes what came of it.

use vstd::prelude::*;

use crate::engine::cache;
use crate::engine::tokenizer::has_token;
use crate::engine::{KVCache, KVCacheSnapshot};
use crate::error::{ErrorView, RsinferError};
use crate::gpu::context;
use crate::gpu::GpuSyncStats;
use crate::model::profile;
use crate::model::profile::final_layer_profile_delta;
use crate::model::TransformerBlockProfile;
use crate::tensor::Tensor;
use crate::text;

verus! {

/// How much to generate, and at which tokens to stop.
#[derive(Debug)]
pub struct GenerationConfig {
    pub max_tokens: usize,
    pub stop_tokens: Vec<u32>,
}

impl Default for GenerationConfig {
    fn default() -> (r: GenerationConfig)
        ensures
            r.max_tokens == 256,
            r.stop_tokens@.len() == 0,
    {
        GenerationConfig { max_tokens: 256, stop_tokens: Vec::new() }
    }
}

/// Where the time of the last layer went for one token, in nanoseconds.
#[derive(Clone, Copy, Debug, PartialEq, Eq, Structural)]
pub struct FinalLayerTokenProfile {
    pub total_ns: u128,
    pub attention_ns: u128,
    pub mlp_ns: u128,
    pub mlp_gate_up_ns: u128,
    pub mlp_down_proj_ns: u128,
    pub mlp_q8_gate_up_dot_ns: u128,
    pub mlp_q8_down_proj_dot_ns: u128,
}

/// The times of a layer that are kept for each token.
pub open spec fn token_profile(p: TransformerBlockProfile) -> FinalLayerTokenProfile {
    FinalLayerTokenProfile {
        total_ns: p.total,
        attention_ns: p.attention,
        mlp_ns: p.mlp,
        mlp_gate_up_ns: p.mlp_gate_up,
        mlp_down_proj_ns: p.mlp_down_proj,
        mlp_q8_gate_up_dot_ns: p.mlp_q8_gate_up_dot,
        mlp_q8_down_proj_dot_ns: p.mlp_q8_down_proj_dot,
    }
}

impl FinalLayerTokenProfile {
    fn from_layer_profile(profile: &TransformerBlockProfile) -> (r: FinalLayerTokenProfile)
        ensures
            r == token_profile(*profile),
    {
        FinalLayerTokenProfile {
            total_ns: profile.total,
            attention_ns: profile.attention,
            mlp_ns: profile.mlp,
            mlp_gate_up_ns: profile.mlp_gate_up,
            mlp_down_proj_ns: profile.mlp_down_proj,
            mlp_q8_gate_up_dot_ns: profile.mlp_q8_gate_up_dot,
            mlp_q8_down_proj_dot_ns: profile.mlp_q8_down_proj_dot,
        }
    }
}

/// Where the time of a generation went, in nanoseconds.
#[derive(Clone, Debug)]
pub struct GenerationProfile {
    pub prompt_tokens: usize,
    pub generated_tokens: usize,
    pub prefill_forward: u128,
    pub prefill_sample: u128,
    pub prefill_gpu_sync: GpuSyncStats,
    pub decode_forward: u128,
    pub decode_forward_token_ns: Vec<u128>,
    pub decode_gpu_sync: GpuSyncStats,
    pub decode_gpu_sync_trace: Vec<GpuSyncStats>,
    pub decode_sample: u128,
    pub text_decode: u128,
    pub fast_path_tokens: usize,
    pub layer_profiles: Vec<TransformerBlockProfile>,
    pub final_layer_index: Option<usize>,
    pub final_layer_decode_trace: Vec<FinalLayerTokenProfile>,
}

/// The mathematical value of a profile.
#[verifier::ext_equal]
pub struct ProfileView {
    pub prompt_tokens: usize,
    pub generated_tokens: usize,
    pub prefill_forward: u128,
    pub prefill_sample: u128,
    pub prefill_gpu_sync: GpuSyncStats,
    pub decode_forward: u128,
    pub decode_forward_token_ns: Seq<u128>,
    pub decode_gpu_sync: GpuSyncStats,
    pub decode_gpu_sync_trace: Seq<GpuSyncStats>,
    pub decode_sample: u128,
    pub text_decode: u128,
    pub fast_path_tokens: usize,
    pub layer_profiles: Seq<TransformerBlockProfile>,
    pub final_layer_index: Option<usize>,
    pub final_layer_decode_trace: Seq<FinalLayerTokenProfile>,
}

impl View for GenerationProfile {
    type V = ProfileView;

    open spec fn view(&self) -> ProfileView {
        ProfileView {
            prompt_tokens: self.prompt_tokens,
            generated_tokens: self.generated_tokens,
            prefill_forward: self.prefill_forward,
            prefill_sample: self.prefill_sample,
            prefill_gpu_sync: self.prefill_gpu_sync,
            decode_forward: self.decode_forward,
            decode_forward_token_ns: self.decode_forward_token_ns@,
            decode_gpu_sync: self.decode_gpu_sync,
            decode_gpu_sync_trace: self.decode_gpu_sync_trace@,
            decode_sample: self.decode_sample,
            text_decode: self.text_decode,
            fast_path_tokens: self.fast_path_tokens,
            layer_profiles: self.layer_profiles@,
            final_layer_index: self.final_layer_index,
            final_layer_decode_trace: self.final_layer_decode_trace@,
        }
    }
}

/// A profile in which nothing has happened yet.
pub open spec fn empty_profile(prompt_tokens: usize) -> ProfileView {
    ProfileView {
        prompt_tokens,
        generated_tokens: 0,
        prefill_forward: 0,
        prefill_sample: 0,
        prefill_gpu_sync: context::no_stats(),
        decode_forward: 0,
        decode_forward_token_ns: Seq::empty(),
        decode_gpu_sync: context::no_stats(),
        decode_gpu_sync_trace: Seq::empty(),
        decode_sample: 0,
        text_decode: 0,
        fast_path_tokens: 0,
        layer_profiles: Seq::empty(),
        final_layer_index: None,
        final_layer_decode_trace: Seq::empty(),
    }
}

/// A profile with one more entry in the trace of the last layer.
pub open spec fn traced(p: ProfileView, layer: usize, delta: TransformerBlockProfile) -> ProfileView {
    ProfileView {
        final_layer_index: match p.final_layer_index {
            Some(i) => Some(i),
            None => Some(layer),
        },
        final_layer_decode_trace: p.final_layer_decode_trace.push(token_profile(delta)),
        ..p
    }
}

/// What came of one run of the model.
#[derive(Clone, Copy, Debug)]
pub struct NextToken {
    pub token: u32,
    pub forward_time: u128,
    pub sample_time: u128,
    pub gpu_sync: GpuSyncStats,
    pub fast_path: bool,
    pub final_layer_delta: Option<TransformerBlockProfile>,
}

/// A profile after the run over the prompt.
pub open spec fn prefilled(p: ProfileView, r: NextToken) -> ProfileView {
    ProfileView {
        prefill_forward: (p.prefill_forward + r.forward_time) as u128,
        prefill_sample: (p.prefill_sample + r.sample_time) as u128,
        prefill_gpu_sync: p.prefill_gpu_sync.recorded(r.gpu_sync),
        fast_path_tokens: if r.fast_path {
            (p.fast_path_tokens + 1) as usize
        } else {
            p.fast_path_tokens
        },
        ..p
    }
}

/// A profile after the run over one generated token.
pub open spec fn stepped(p: ProfileView, r: NextToken) -> ProfileView {
    let q = ProfileView {
        decode_forward: (p.decode_forward + r.forward_time) as u128,
        decode_forward_token_ns: p.decode_forward_token_ns.push(r.forward_time),
        decode_gpu_sync: p.decode_gpu_sync.recorded(r.gpu_sync),
        decode_gpu_sync_trace: p.decode_gpu_sync_trace.push(r.gpu_sync),
        decode_sample: (p.decode_sample + r.sample_time) as u128,
        fast_path_tokens: if r.fast_path {
            (p.fast_path_tokens + 1) as usize
        } else {
            p.fast_path_tokens
        },
        ..p
    };
    match r.final_layer_delta {
        Some(d) if p.layer_profiles.len() > 0 => traced(
            q,
            (p.layer_profiles.len() - 1) as usize,
            d,
        ),
        _ => q,
    }
}

/// Whether the sums of a profile after a run can be held.
pub open spec fn run_fits(p: ProfileView, r: NextToken) -> bool {
    &&& p.prefill_forward + r.forward_time <= u128::MAX
    &&& p.prefill_sample + r.sample_time <= u128::MAX
    &&& p.decode_forward + r.forward_time <= u128::MAX
    &&& p.decode_sample + r.sample_time <= u128::MAX
    &&& p.prefill_gpu_sync.can_record(r.gpu_sync)
    &&& p.decode_gpu_sync.can_record(r.gpu_sync)
    &&& p.fast_path_tokens < usize::MAX
}

impl GenerationProfile {
    /// A profile in which nothing has happened yet.
    pub fn new(prompt_tokens: usize) -> (r: GenerationProfile)
        ensures
            r@ == empty_profile(prompt_tokens),
    {
        GenerationProfile {
            prompt_tokens,
            generated_tokens: 0,
            prefill_forward: 0,
            prefill_sample: 0,
            prefill_gpu_sync: GpuSyncStats::default(),
            decode_forward: 0,
            decode_forward_token_ns: Vec::new(),
            decode_gpu_sync: GpuSyncStats::default(),
            decode_gpu_sync_trace: Vec::new(),
            decode_sample: 0,
            text_decode: 0,
            fast_path_tokens: 0,
            layer_profiles: Vec::new(),
            final_layer_index: None,
            final_layer_decode_trace: Vec::new(),
        }
    }

    /// The number of tokens over which the times and counts of decoding are averaged: all that were
    /// generated but the first, which came of the prompt.
    pub fn averaged_tokens(&self) -> (r: usize)
        ensures
            r == (if self@.generated_tokens <= 1 {
                0int
            } else {
                self@.generated_tokens - 1
            }),
    {
        if self.generated_tokens <= 1 {
            0
        } else {
            self.generated_tokens - 1
        }
    }

    /// Adds what the last layer spent on a token to its trace.
    pub fn record_final_layer_decode_trace(
        &mut self,
        layer_index: usize,
        layer_delta: &TransformerBlockProfile,
    )
        ensures
            final(self)@ == traced(old(self)@, layer_index, *layer_delta),
    {
        match self.final_layer_index {
            Some(_) => {},
            None => {
                self.final_layer_index = Some(layer_index);
            },
        }
        self.final_layer_decode_trace.push(FinalLayerTokenProfile::from_layer_profile(layer_delta));
    }

    fn record_prefill(&mut self, r: &NextToken)
        requires
            run_fits(old(self)@, *r),
        ensures
            final(self)@ == prefilled(old(self)@, *r),
    {
        self.prefill_forward += r.forward_time;
        self.prefill_sample += r.sample_time;
        self.prefill_gpu_sync.record(r.gpu_sync);
        if r.fast_path {
            self.fast_path_tokens += 1;
        }
    }

    fn record_step(&mut self, r: &NextToken)
        requires
            run_fits(old(self)@, *r),
        ensures
            final(self)@ == stepped(old(self)@, *r),
    {
        self.decode_forward += r.forward_time;
        self.decode_forward_token_ns.push(r.forward_time);
        self.decode_gpu_sync.record(r.gpu_sync);
        self.decode_gpu_sync_trace.push(r.gpu_sync);
        self.decode_sample += r.sample_time;
        if r.fast_path {
            self.fast_path_tokens += 1;
        }
        let n: usize = self.layer_profiles.len();
        match r.final_layer_delta {
            Some(d) => {
                if n > 0 {
                    self.record_final_layer_decode_trace(n - 1, &d);
                }
            },
            None => {},
        }
    }
}

/// The number of bytes of a character.
pub open spec fn char_width(c: char) -> nat {
    if (c as u32) < 0x80 {
        1
    } else if (c as u32) < 0x800 {
        2
    } else if (c as u32) < 0x10000 {
        3
    } else {
        4
    }
}

/// The number of bytes of a text.
pub open spec fn text_width(s: Seq<char>) -> nat
    decreases s.len(),
{
    if s.len() == 0 {
        0
    } else {
        text_width(s.drop_last()) + char_width(s.last())
    }
}

/// Whether a text has a boundary between characters behind so many bytes.
pub open spec fn splits_at(s: Seq<char>, bytes: nat) -> bool {
    exists|k: int| 0 <= k <= s.len() && #[trigger] text_width(s.take(k)) == bytes
}

/// The part of a text behind so many bytes.
pub open spec fn behind(s: Seq<char>, bytes: nat) -> Seq<char> {
    let k = choose|k: int| 0 <= k <= s.len() && #[trigger] text_width(s.take(k)) == bytes;
    s.skip(k)
}

proof fn lemma_width_grows(s: Seq<char>, a: int, b: int)
    requires
        0 <= a <= b <= s.len(),
    ensures
        text_width(s.take(b)) >= text_width(s.take(a)) + (b - a),
    decreases b - a,
{
    if a < b {
        lemma_width_grows(s, a, b - 1);
        assert(s.take(b).drop_last() =~= s.take(b - 1));
    }
}

proof fn lemma_one_boundary(s: Seq<char>, a: int, b: int)
    requires
        0 <= a <= s.len(),
        0 <= b <= s.len(),
        text_width(s.take(a)) == text_width(s.take(b)),
    ensures
        a == b,
{
    if a < b {
        lemma_width_grows(s, a, b);
    } else {
        lemma_width_grows(s, b, a);
    }
}

/// What of a text is new, where it is longer than what was printed, and how many bytes are printed
/// then.  While more is to come, a text that ends in a character of which bytes are missing waits.
pub open spec fn flushes(s: Seq<char>, printed: nat, more: bool) -> bool {
    &&& text_width(s) > printed
    &&& more ==> s.last() != '\u{FFFD}'
}

fn width_of(c: char) -> (r: usize)
    ensures
        r == char_width(c),
        1 <= r <= 4,
{
    let v: u32 = c as u32;
    if v < 0x80 {
        1
    } else if v < 0x800 {
        2
    } else if v < 0x10000 {
        3
    } else {
        4
    }
}

/// What of a text is to be printed, if anything, and how many bytes of it are printed then.
pub fn flush(s: &str, printed: usize, more: bool) -> (r: (Option<String>, usize))
    requires
        4 * s@.len() <= usize::MAX,
        flushes(s@, printed as nat, more) ==> splits_at(s@, printed as nat),
    ensures
        if flushes(s@, printed as nat, more) {
            &&& r.0 is Some
            &&& r.0->0@ == behind(s@, printed as nat)
            &&& r.1 == text_width(s@)
        } else {
            r.0 is None && r.1 == printed
        },
{
    let chars = text::chars_of(s);
    let n: usize = chars.len();
    let mut width: usize = 0;
    let mut start: usize = 0;
    let mut i: usize = 0;
    proof {
        assert(s@.take(0) =~= Seq::<char>::empty());
    }
    while i < n
        invariant
            n == chars@.len(),
            chars@ == s@,
            4 * s@.len() <= usize::MAX,
            i <= n,
            start <= i,
            width == text_width(s@.take(i as int)),
            width <= 4 * i,
            printed <= width ==> text_width(s@.take(start as int)) >= printed,
            printed > width ==> start == i,
            start > 0 ==> text_width(s@.take(start - 1)) < printed,
        decreases n - i,
    {
        assert(s@.take(i + 1).drop_last() =~= s@.take(i as int));
        let behind_start = width < printed;
        width = width + width_of(chars[i]);
        i += 1;
        if behind_start {
            start = i;
        }
    }
    assert(s@.take(n as int) =~= s@);
    if width <= printed || (more && chars[n - 1] == '\u{FFFD}') {
        return (None, printed);
    }
    proof {
        let k = choose|k: int|
            0 <= k <= s@.len() && #[trigger] text_width(s@.take(k)) == printed as nat;
        if k < start {
            lemma_width_grows(s@, k, start - 1);
        }
        if k > start {
            lemma_width_grows(s@, start as int, k);
        }
        assert(k == start);
    }
    let rest = text::string_of(vstd::slice::slice_subrange(chars.as_slice(), start, n));
    assert(rest@ =~= s@.skip(start as int));
    (Some(rest), width)
}

/// Law: a text that starts with what was printed splits behind it, and what is new of it is the
/// rest.
pub proof fn law_new_text_is_the_rest(s: Seq<char>, out: Seq<char>)
    requires
        out.is_prefix_of(s),
    ensures
        splits_at(s, text_width(out)),
        out + behind(s, text_width(out)) == s,
{
    assert(s.take(out.len() as int) =~= out);
    assert(text_width(s.take(out.len() as int)) == text_width(out));
    let k = choose|k: int|
        0 <= k <= s.len() && #[trigger] text_width(s.take(k)) == text_width(out);
    lemma_one_boundary(s, k, out.len() as int);
    assert(out + s.skip(out.len() as int) =~= s);
}

/// What a generation waits for.
#[derive(Clone, Copy, Debug, PartialEq, Eq, Structural)]
pub enum Phase {
    /// The run over the prompt.
    Prefill,
    /// The text so far.
    Decode,
    /// The run over the last token.
    Forward,
    /// The whole text.
    Close,
    /// Nothing more.
    Done,
}

/// What is to be done next.
#[derive(Debug)]
pub enum GenerationAction {
    /// Run the model over the tokens, the first of which stands at the given place.
    Forward { input_ids: Vec<u32>, position_offset: usize },
    /// Turn all tokens so far into text.
    Decode,
    /// Nothing.
    Finish,
}

/// The mathematical value of what is to be done next.
pub enum ActionView {
    Forward { input_ids: Seq<u32>, position_offset: usize },
    Decode,
    Finish,
}

impl View for GenerationAction {
    type V = ActionView;

    open spec fn view(&self) -> ActionView {
        match self {
            GenerationAction::Forward { input_ids, position_offset } => ActionView::Forward {
                input_ids: input_ids@,
                position_offset: *position_offset,
            },
            GenerationAction::Decode => ActionView::Decode,
            GenerationAction::Finish => ActionView::Finish,
        }
    }
}

/// A generation under way.
#[derive(Debug)]
pub struct Generation {
    config: GenerationConfig,
    prompt_len: usize,
    tokens: Vec<u32>,
    printed: usize,
    phase: Phase,
    profile: GenerationProfile,
}

/// The mathematical value of a generation.
#[verifier::ext_equal]
pub struct GenerationView {
    pub max_tokens: usize,
    pub stop_tokens: Seq<u32>,
    pub prompt_len: usize,
    pub tokens: Seq<u32>,
    pub printed: usize,
    pub phase: Phase,
    pub profile: ProfileView,
}

impl View for Generation {
    type V = GenerationView;

    closed spec fn view(&self) -> GenerationView {
        GenerationView {
            max_tokens: self.config.max_tokens,
            stop_tokens: self.config.stop_tokens@,
            prompt_len: self.prompt_len,
            tokens: self.tokens@,
            printed: self.printed,
            phase: self.phase,
            profile: self.profile@,
        }
    }
}

impl GenerationView {
    /// What holds of every generation: it has no more tokens than it may, none that ends it, and at
    /// least one while it goes on.
    pub open spec fn well_formed(self) -> bool {
        &&& self.tokens.len() <= self.max_tokens
        &&& self.prompt_len + self.max_tokens <= usize::MAX
        &&& forall|i: int|
            0 <= i < self.tokens.len() ==> !self.stop_tokens.contains(#[trigger] self.tokens[i])
        &&& self.phase is Prefill ==> self.tokens.len() == 0
        &&& self.phase is Decode ==> self.tokens.len() > 0
        &&& self.phase is Forward ==> 0 < self.tokens.len() < self.max_tokens
    }
}

/// A generation after a token has been chosen: it goes on with the token, or the token or the limit
/// ends it.
pub open spec fn chosen(g: GenerationView, token: u32) -> GenerationView {
    if g.tokens.len() < g.max_tokens && !g.stop_tokens.contains(token) {
        GenerationView { tokens: g.tokens.push(token), phase: Phase::Decode, ..g }
    } else {
        GenerationView { phase: Phase::Close, ..g }
    }
}

/// A generation after a run of the model.
pub open spec fn after_token(g: GenerationView, r: NextToken) -> GenerationView {
    chosen(
        GenerationView {
            profile: if g.phase is Prefill {
                prefilled(g.profile, r)
            } else {
                stepped(g.profile, r)
            },
            ..g
        },
        r.token,
    )
}

/// A generation after its tokens have been turned into text.
pub open spec fn after_text(g: GenerationView, s: Seq<char>, time: u128) -> GenerationView {
    GenerationView {
        printed: if flushes(s, g.printed as nat, g.phase is Decode) {
            text_width(s) as usize
        } else {
            g.printed
        },
        phase: if g.phase is Close {
            Phase::Done
        } else if g.tokens.len() < g.max_tokens {
            Phase::Forward
        } else {
            Phase::Close
        },
        profile: ProfileView {
            text_decode: (g.profile.text_decode + time) as u128,
            generated_tokens: if g.phase is Close {
                g.tokens.len() as usize
            } else {
                g.profile.generated_tokens
            },
            ..g.profile
        },
        ..g
    }
}

/// What is to be done next after text has come.
pub open spec fn action_after_text(g: GenerationView) -> ActionView {
    if g.phase is Close {
        ActionView::Finish
    } else if g.tokens.len() < g.max_tokens {
        ActionView::Forward {
            input_ids: seq![g.tokens.last()],
            position_offset: (g.prompt_len + g.tokens.len() - 1) as usize,
        }
    } else {
        ActionView::Decode
    }
}

impl Generation {
    /// Starts a generation from the tokens of a prompt: they are to be run first.
    pub fn start(config: GenerationConfig, input_ids: &[u32]) -> (r: (Generation, GenerationAction))
        requires
            input_ids@.len() + config.max_tokens <= usize::MAX,
        ensures
            r.0@ == (GenerationView {
                max_tokens: config.max_tokens,
                stop_tokens: config.stop_tokens@,
                prompt_len: input_ids@.len() as usize,
                tokens: Seq::empty(),
                printed: 0,
                phase: Phase::Prefill,
                profile: empty_profile(input_ids@.len() as usize),
            }),
            r.0@.well_formed(),
            r.1@ == (ActionView::Forward { input_ids: input_ids@, position_offset: 0 }),
    {
        let prompt_len: usize = input_ids.len();
        let profile = GenerationProfile::new(prompt_len);
        (
            Generation {
                config,
                prompt_len,
                tokens: Vec::new(),
                printed: 0,
                phase: Phase::Prefill,
                profile,
            },
            GenerationAction::Forward {
                input_ids: vstd::slice::slice_to_vec(input_ids),
                position_offset: 0,
            },
        )
    }

    /// Takes the token that a run of the model gave.
    pub fn on_token(&mut self, r: &NextToken) -> (a: GenerationAction)
        requires
            old(self)@.well_formed(),
            old(self)@.phase is Prefill || old(self)@.phase is Forward,
            run_fits(old(self)@.profile, *r),
        ensures
            final(self)@ == after_token(old(self)@, *r),
            final(self)@.well_formed(),
            a@ is Decode,
    {
        if self.phase == Phase::Prefill {
            self.profile.record_prefill(r);
        } else {
            self.profile.record_step(r);
        }
        if self.tokens.len() < self.config.max_tokens && !has_token(
            &self.config.stop_tokens,
            r.token,
        ) {
            self.tokens.push(r.token);
            self.phase = Phase::Decode;
        } else {
            self.phase = Phase::Close;
        }
        GenerationAction::Decode
    }

    /// Takes the text of all tokens so far, and gives the part of it that is to be printed.
    pub fn on_text(&mut self, s: &str, time: u128) -> (r: (Option<String>, GenerationAction))
        requires
            old(self)@.well_formed(),
            old(self)@.phase is Decode || old(self)@.phase is Close,
            4 * s@.len() <= usize::MAX,
            flushes(s@, old(self)@.printed as nat, old(self)@.phase is Decode) ==> splits_at(
                s@,
                old(self)@.printed as nat,
            ),
            old(self)@.profile.text_decode + time <= u128::MAX,
        ensures
            final(self)@ == after_text(old(self)@, s@, time),
            final(self)@.well_formed(),
            r.1@ == action_after_text(old(self)@),
            if flushes(s@, old(self)@.printed as nat, old(self)@.phase is Decode) {
                r.0 is Some && r.0->0@ == behind(s@, old(self)@.printed as nat)
            } else {
                r.0 is None
            },
    {
        let more = self.phase == Phase::Decode;
        let (out, printed) = flush(s, self.printed, more);
        self.printed = printed;
        self.profile.text_decode += time;
        let n: usize = self.tokens.len();
        if !more {
            self.profile.generated_tokens = n;
            self.phase = Phase::Done;
            return (out, GenerationAction::Finish);
        }
        if n < self.config.max_tokens {
            self.phase = Phase::Forward;
            let mut input_ids: Vec<u32> = Vec::new();
            input_ids.push(self.tokens[n - 1]);
            assert(input_ids@ =~= seq![self.tokens@.last()]);
            let position_offset: usize = self.prompt_len + (n - 1);
            (out, GenerationAction::Forward { input_ids, position_offset })
        } else {
            self.phase = Phase::Close;
            (out, GenerationAction::Decode)
        }
    }

    /// The tokens so far.
    pub fn tokens(&self) -> (r: &[u32])
        ensures
            r@ == self@.tokens,
    {
        self.tokens.as_slice()
    }

    /// How many bytes are printed.
    pub fn printed(&self) -> (r: usize)
        ensures
            r == self@.printed,
    {
        self.printed
    }

    /// The profiles of the layers, for a run of the model to fill.
    pub fn layer_profiles_mut(&mut self) -> (r: &mut Vec<TransformerBlockProfile>)
        ensures
            r@ == old(self)@.profile.layer_profiles,
            final(self)@ == (GenerationView {
                profile: ProfileView {
                    layer_profiles: final(r)@,
                    ..old(self)@.profile
                },
                ..old(self)@
            }),
    {
        &mut self.profile.layer_profiles
    }

    /// Ends a generation and gives its profile.
    pub fn into_profile(self) -> (r: GenerationProfile)
        ensures
            r@ == self@.profile,
    {
        self.profile
    }
}

/// One round of a generation: what came of the run of the model, the profiles of the layers behind
/// it, the text of all tokens then, and how long that took.
pub struct Round {
    pub run: NextToken,
    pub layers: Seq<TransformerBlockProfile>,
    pub text: Seq<char>,
    pub time: u128,
}

/// A generation whose run of the model has filled the profiles of the layers.
pub open spec fn with_layers(g: GenerationView, layers: Seq<TransformerBlockProfile>)
    -> GenerationView {
    GenerationView { profile: ProfileView { layer_profiles: layers, ..g.profile }, ..g }
}

/// A generation after some rounds; it ends early where it is done.
pub open spec fn generated(g: GenerationView, rounds: Seq<Round>, n: nat) -> GenerationView
    decreases n,
{
    if n == 0 {
        g
    } else {
        let h = generated(g, rounds, (n - 1) as nat);
        let r = rounds[n - 1];
        if h.phase is Prefill || h.phase is Forward {
            let t = after_token(with_layers(h, r.layers), r.run);
            if t.phase is Decode {
                after_text(t, r.text, r.time)
            } else {
                t
            }
        } else {
            h
        }
    }
}

/// The number of tokens before the first that ends a text, among the first `n`.
pub open spec fn unstopped(rounds: Seq<Round>, stop: Seq<u32>, n: nat) -> nat
    decreases n,
{
    if n == 0 {
        0
    } else {
        let before = unstopped(rounds, stop, (n - 1) as nat);
        if before == n - 1 && !stop.contains(rounds[n - 1].run.token) {
            n
        } else {
            before
        }
    }
}

/// Law: a generation holds the tokens that the model gave, in their order, up to the first that
/// ends a text and no more than it may hold.
pub proof fn law_tokens_are_chosen(g: GenerationView, rounds: Seq<Round>, n: nat)
    requires
        g.well_formed(),
        g.phase is Prefill,
        n <= rounds.len(),
    ensures
        ({
            let h = generated(g, rounds, n);
            let k = unstopped(rounds, g.stop_tokens, n);
            let m = if k <= g.max_tokens {
                k as int
            } else {
                g.max_tokens as int
            };
            &&& h.tokens == Seq::new(m as nat, |i: int| rounds[i].run.token)
            &&& h.max_tokens == g.max_tokens
            &&& h.stop_tokens == g.stop_tokens
            &&& h.phase is Prefill <==> n == 0
            &&& h.phase is Forward <==> n > 0 && k == n && n < g.max_tokens
            &&& !(h.phase is Decode)
            &&& k <= n
        }),
    decreases n,
{
    if n == 0 {
        assert(g.tokens =~= Seq::new(0, |i: int| rounds[i].run.token));
    } else {
        law_tokens_are_chosen(g, rounds, (n - 1) as nat);
        let h = generated(g, rounds, (n - 1) as nat);
        let r = rounds[n - 1];
        if h.phase is Prefill || h.phase is Forward {
            let t = after_token(with_layers(h, r.layers), r.run);
            if t.phase is Decode {
                assert(t.tokens =~= Seq::new(n, |i: int| rounds[i].run.token));
            }
        }
    }
}

/// The number of rounds among the first `n` whose token a generation takes and the device found
/// itself.
pub open spec fn fast_rounds(g: GenerationView, rounds: Seq<Round>, n: nat) -> nat
    decreases n,
{
    if n == 0 {
        0
    } else {
        let before = fast_rounds(g, rounds, (n - 1) as nat);
        let h = generated(g, rounds, (n - 1) as nat);
        if (h.phase is Prefill || h.phase is Forward) && rounds[n - 1].run.fast_path {
            before + 1
        } else {
            before
        }
    }
}

/// Law: a generation counts the runs whose token the device found itself, and no others.
pub proof fn law_fast_rounds_are_counted(g: GenerationView, rounds: Seq<Round>, n: nat)
    requires
        g.well_formed(),
        g.phase is Prefill,
        g.profile.fast_path_tokens == 0,
        n <= rounds.len() <= usize::MAX,
    ensures
        generated(g, rounds, n).profile.fast_path_tokens == fast_rounds(g, rounds, n),
        fast_rounds(g, rounds, n) <= n,
    decreases n,
{
    if n > 0 {
        law_fast_rounds_are_counted(g, rounds, (n - 1) as nat);
    }
}

/// Whether a generation takes the text of round `n`.
pub open spec fn takes_text(g: GenerationView, rounds: Seq<Round>, n: nat) -> bool {
    let h = generated(g, rounds, n);
    let r = rounds[n as int];
    &&& h.phase is Prefill || h.phase is Forward
    &&& after_token(with_layers(h, r.layers), r.run).phase is Decode
}

/// The texts that a generation has taken in its first `n` rounds.
pub open spec fn texts_taken(g: GenerationView, rounds: Seq<Round>, n: nat) -> Seq<Seq<char>>
    decreases n,
{
    if n == 0 {
        Seq::empty()
    } else {
        let before = texts_taken(g, rounds, (n - 1) as nat);
        if takes_text(g, rounds, (n - 1) as nat) {
            before.push(rounds[n - 1].text)
        } else {
            before
        }
    }
}

/// What of a text is printed behind so many bytes.
pub open spec fn piece(s: Seq<char>, printed: nat, more: bool) -> Seq<char> {
    if flushes(s, printed, more) {
        behind(s, printed)
    } else {
        Seq::empty()
    }
}

/// The pieces that a generation has given to be printed in its first `n` rounds, joined.
pub open spec fn streamed(g: GenerationView, rounds: Seq<Round>, n: nat) -> Seq<char>
    decreases n,
{
    if n == 0 {
        Seq::empty()
    } else {
        let before = streamed(g, rounds, (n - 1) as nat);
        if takes_text(g, rounds, (n - 1) as nat) {
            let h = generated(g, rounds, (n - 1) as nat);
            before + piece(rounds[n - 1].text, h.printed as nat, true)
        } else {
            before
        }
    }
}

/// Whether a text that has come out whole stays: every later one starts with it.  Only where bytes
/// of the last character are missing may it still change.
pub open spec fn settled(texts: Seq<Seq<char>>) -> bool {
    &&& forall|i: int|
        0 <= i < texts.len() ==> 4 * (#[trigger] texts[i]).len() <= usize::MAX
    &&& forall|i: int, j: int|
        0 <= i < j < texts.len() && texts[i].len() > 0 && texts[i].last() != '\u{FFFD}'
            ==> (#[trigger] texts[i]).is_prefix_of(#[trigger] texts[j])
}

/// Whether a printed text is empty, or one of the texts that came out whole.
spec fn is_whole_text(out: Seq<char>, texts: Seq<Seq<char>>) -> bool {
    ||| out.len() == 0
    ||| out.last() != '\u{FFFD}' && exists|i: int| 0 <= i < texts.len() && #[trigger] texts[i] == out
}

proof fn lemma_narrow(s: Seq<char>)
    ensures
        text_width(s) <= 4 * s.len(),
    decreases s.len(),
{
    if s.len() > 0 {
        lemma_narrow(s.drop_last());
    }
}

proof fn lemma_prefix(out: Seq<char>, texts: Seq<Seq<char>>, s: Seq<char>)
    requires
        is_whole_text(out, texts),
        settled(texts.push(s)),
    ensures
        out.is_prefix_of(s),
{
    if out.len() == 0 {
        assert(s.subrange(0, 0) =~= out);
    } else {
        let i = choose|i: int| 0 <= i < texts.len() && #[trigger] texts[i] == out;
        let all = texts.push(s);
        assert(all[i] == out);
        assert(all[texts.len() as int] == s);
    }
}

proof fn lemma_settled_before(texts: Seq<Seq<char>>, s: Seq<char>)
    requires
        settled(texts.push(s)),
    ensures
        settled(texts),
{
    let all = texts.push(s);
    assert forall|i: int| 0 <= i < texts.len() implies 4 * (#[trigger] texts[i]).len()
        <= usize::MAX by {
        assert(all[i] == texts[i]);
    }
    assert forall|i: int, j: int|
        0 <= i < j < texts.len() && texts[i].len() > 0 && texts[i].last() != '\u{FFFD}' implies (
    #[trigger] texts[i]).is_prefix_of(#[trigger] texts[j]) by {
        assert(all[i] == texts[i] && all[j] == texts[j]);
    }
}

proof fn lemma_streamed(g: GenerationView, rounds: Seq<Round>, n: nat)
    requires
        g.phase is Prefill,
        g.printed == 0,
        n <= rounds.len(),
        settled(texts_taken(g, rounds, n)),
    ensures
        generated(g, rounds, n).printed == text_width(streamed(g, rounds, n)),
        is_whole_text(streamed(g, rounds, n), texts_taken(g, rounds, n)),
    decreases n,
{
    if n > 0 {
        let m = (n - 1) as nat;
        let before = texts_taken(g, rounds, m);
        let out = streamed(g, rounds, m);
        let s = rounds[n - 1].text;
        if takes_text(g, rounds, m) {
            lemma_settled_before(before, s);
            lemma_streamed(g, rounds, m);
            lemma_prefix(out, before, s);
            law_new_text_is_the_rest(s, out);
            lemma_narrow(s);
            let all = texts_taken(g, rounds, n);
            assert(all[before.len() as int] == s);
            if flushes(s, text_width(out), true) {
                assert(streamed(g, rounds, n) == s);
            } else {
                assert(streamed(g, rounds, n) =~= out);
                if out.len() > 0 {
                    let i = choose|i: int| 0 <= i < before.len() && #[trigger] before[i] == out;
                    assert(all[i] == out);
                }
            }
        } else {
            lemma_streamed(g, rounds, m);
        }
    }
}

/// Law: where a text that has come out whole stays, the next text can be split behind what a
/// generation has printed.
pub proof fn law_next_text_splits(g: GenerationView, rounds: Seq<Round>, n: nat, next: Seq<char>)
    requires
        g.phase is Prefill,
        g.printed == 0,
        n <= rounds.len(),
        settled(texts_taken(g, rounds, n).push(next)),
    ensures
        splits_at(next, generated(g, rounds, n).printed as nat),
{
    let texts = texts_taken(g, rounds, n);
    lemma_settled_before(texts, next);
    lemma_streamed(g, rounds, n);
    lemma_prefix(streamed(g, rounds, n), texts, next);
    law_new_text_is_the_rest(next, streamed(g, rounds, n));
}

/// Law: where a text that has come out whole stays, the pieces that a generation has given to be
/// printed, with the last one, make up the whole text.
pub proof fn law_stream_is_whole(
    g: GenerationView,
    rounds: Seq<Round>,
    n: nat,
    whole: Seq<char>,
)
    requires
        g.phase is Prefill,
        g.printed == 0,
        n <= rounds.len(),
        generated(g, rounds, n).phase is Close,
        settled(texts_taken(g, rounds, n).push(whole)),
    ensures
        streamed(g, rounds, n) + piece(whole, generated(g, rounds, n).printed as nat, false)
            == whole,
{
    let texts = texts_taken(g, rounds, n);
    let out = streamed(g, rounds, n);
    lemma_settled_before(texts, whole);
    lemma_streamed(g, rounds, n);
    lemma_prefix(out, texts, whole);
    law_new_text_is_the_rest(whole, out);
    if text_width(whole) <= text_width(out) {
        assert(whole.take(out.len() as int) =~= out);
        assert(whole.take(whole.len() as int) =~= whole);
        lemma_width_grows(whole, out.len() as int, whole.len() as int);
        assert(out =~= whole);
    }
}

/// How the next token is to be found.
#[derive(Clone, Copy, Debug, PartialEq, Eq, Structural)]
pub enum TokenPath {
    /// The device finds the greatest of the last outputs itself.
    Fast,
    /// The outputs come back and are sampled.
    Full,
}

/// How the next token is to be found first: on the device where nothing is left to chance and it
/// can.
pub fn token_path(greedy: bool, has_fast_path: bool) -> (r: TokenPath)
    ensures
        r is Fast <==> greedy && has_fast_path,
{
    if greedy && has_fast_path {
        TokenPath::Fast
    } else {
        TokenPath::Full
    }
}

/// Takes what the device found.  Where it failed, the cache goes back to where it stood and the
/// outputs are to be sampled.
pub fn settle_fast_path(
    found: Result<u32, RsinferError>,
    cache: &mut KVCache,
    snapshot: KVCacheSnapshot,
) -> (r: Result<Option<u32>, RsinferError>)
    requires
        old(cache)@.well_formed(),
    ensures
        final(cache)@.well_formed(),
        match found {
            Ok(token) => r == Ok::<Option<u32>, RsinferError>(Some(token)) && final(cache)@
                == old(cache)@,
            Err(_) => match r {
                Ok(t) => {
                    &&& t is None
                    &&& snapshot@.lengths.len() == old(cache)@.layers.len()
                    &&& forall|i: int|
                        0 <= i < old(cache)@.layers.len() ==> cache::restore_error(
                            #[trigger] old(cache)@.layers[i],
                            snapshot@.lengths[i],
                        ) is None
                    &&& final(cache)@ == (cache::CacheView {
                        current_len: snapshot@.current_len,
                        ..cache::restored_front(
                            old(cache)@,
                            snapshot@,
                            old(cache)@.layers.len() as int,
                        )
                    })
                },
                Err(e) => snapshot@.lengths.len() != old(cache)@.layers.len() || exists|n: int|
                    #[trigger] cache::first_restore_failure(old(cache)@, snapshot@, n)
                        && cache::restore_error(old(cache)@.layers[n], snapshot@.lengths[n])
                        == Some(e@),
            },
        },
{
    match found {
        Ok(token) => Ok(Some(token)),
        Err(_) => match cache.restore(snapshot) {
            Ok(_) => Ok(None),
            Err(e) => Err(e),
        },
    }
}

/// What came of a run whose token the device found itself, if it did: nothing was sampled.
pub fn fast_token(
    settled: Option<u32>,
    forward_time: u128,
    gpu_sync: GpuSyncStats,
    before: Option<&TransformerBlockProfile>,
    layer_profiles: &[TransformerBlockProfile],
) -> (r: Option<NextToken>)
    ensures
        r == (match settled {
            Some(token) => Some(
                (NextToken {
                    token,
                    forward_time,
                    sample_time: 0,
                    gpu_sync,
                    fast_path: true,
                    final_layer_delta: profile::last_layer_delta(before, layer_profiles@),
                }),
            ),
            None => None,
        }),
{
    match settled {
        Some(token) => {
            let final_layer_delta = final_layer_profile_delta(before, layer_profiles);
            Some(
                NextToken {
                    token,
                    forward_time,
                    sample_time: 0,
                    gpu_sync,
                    fast_path: true,
                    final_layer_delta,
                },
            )
        },
        None => None,
    }
}

/// What came of a run whose outputs were sampled.
pub fn sampled_token(
    token: u32,
    forward_time: u128,
    sample_time: u128,
    gpu_sync: GpuSyncStats,
    before: Option<&TransformerBlockProfile>,
    layer_profiles: &[TransformerBlockProfile],
) -> (r: NextToken)
    ensures
        r == (NextToken {
            token,
            forward_time,
            sample_time,
            gpu_sync,
            fast_path: false,
            final_layer_delta: profile::last_layer_delta(before, layer_profiles@),
        }),
{
    let final_layer_delta = final_layer_profile_delta(before, layer_profiles);
    NextToken { token, forward_time, sample_time, gpu_sync, fast_path: false, final_layer_delta }
}

/// The outputs of the model, as they are sampled.
pub fn logits_of(logits: &Tensor) -> (r: Result<&[u32], RsinferError>)
    ensures
        match r {
            Ok(s) => s@ == logits.values() && (logits.row_major() || logits.values().len() == 0),
            Err(e) => {
                &&& !logits.row_major()
                &&& logits.values().len() != 0
                &&& e@ == ErrorView::DimensionError("logits tensor is not contiguous"@)
            },
        },
{
    let s = logits.as_slice();
    if s.len() != logits.numel() {
        return Err(crate::error::dimension_error("logits tensor is not contiguous"));
    }
    proof {
        if !logits.row_major() {
            assert(s@ =~= logits.values());
        }
    }
    Ok(s)
}

/// Law: the number of bytes of a text is that of its characters in UTF-8.
pub proof fn law_width_is_that_of_utf8(s: Seq<char>)
    ensures
        text_width(s) == vstd::utf8::encode_utf8(s).len(),
    decreases s.len(),
{
    if s.len() > 0 {
        law_width_is_that_of_utf8(s.drop_first());
        lemma_width_from_front(s);
        vstd::utf8::char_is_scalar(s[0]);
    }
}

proof fn lemma_width_from_front(s: Seq<char>)
    requires
        s.len() > 0,
    ensures
        text_width(s) == char_width(s[0]) + text_width(s.drop_first()),
    decreases s.len(),
{
    if s.len() == 1 {
        assert(s.drop_last() =~= Seq::<char>::empty());
        assert(s.drop_first() =~= Seq::<char>::empty());
        assert(text_width(s.drop_last()) == 0);
    } else {
        lemma_width_from_front(s.drop_last());
        assert(s.drop_last().drop_first() =~= s.drop_first().drop_last());
    }
}

/// Law: a text is printed as soon as it is longer than what was printed; while more is to come only
/// one whose last character is whole.  What was printed is then the whole text.
pub proof fn law_text_is_printed_at_once(g: GenerationView, s: Seq<char>, time: u128)
    requires
        g.phase is Decode || g.phase is Close,
        4 * s.len() <= usize::MAX,
        g.printed <= usize::MAX,
    ensures
        ({
            let longer = vstd::utf8::encode_utf8(s).len() > g.printed;
            let whole = s.len() > 0 && s.last() != '\u{FFFD}';
            let prints = longer && (whole || g.phase is Close);
            let after = after_text(g, s, time);
            &&& flushes(s, g.printed as nat, g.phase is Decode) <==> prints
            &&& prints ==> after.printed == vstd::utf8::encode_utf8(s).len()
            &&& !prints ==> after.printed == g.printed
        }),
{
    law_width_is_that_of_utf8(s);
    lemma_narrow(s);
}

/// Law: behind the text of a token the model is run over that token alone, at the place behind the
/// prompt and the tokens before it, unless there are as many tokens as there may be: then the whole
/// text is asked for once more, and behind it nothing.
pub proof fn law_runs_follow_the_tokens(g: GenerationView, s: Seq<char>, time: u128)
    requires
        g.well_formed(),
        g.phase is Decode || g.phase is Close,
    ensures
        ({
            let after = after_text(g, s, time);
            &&& after.tokens == g.tokens && after.max_tokens == g.max_tokens
            &&& after.stop_tokens == g.stop_tokens && after.prompt_len == g.prompt_len
            &&& g.phase is Decode && g.tokens.len() < g.max_tokens ==> {
                &&& after.phase is Forward
                &&& action_after_text(g) is Forward
                &&& action_after_text(g)->input_ids.len() == 1
                &&& action_after_text(g)->input_ids[0] == g.tokens[g.tokens.len() - 1]
                &&& action_after_text(g)->position_offset + 1 == g.prompt_len + g.tokens.len()
            }
            &&& g.phase is Decode && g.tokens.len() == g.max_tokens ==> after.phase is Close
                && action_after_text(g) is Decode
            &&& g.phase is Close ==> {
                &&& after.phase is Done
                &&& action_after_text(g) is Finish
                &&& after.profile.generated_tokens == g.tokens.len()
            }
        }),
{
}

/// Law: a token is taken unless it ends the text or there are as many as there may be; it stands
/// behind the tokens before it, and its text is asked for.
pub proof fn law_token_is_taken(g: GenerationView, r: NextToken)
    requires
        g.well_formed(),
    ensures
        ({
            let after = after_token(g, r);
            let takes = g.tokens.len() < g.max_tokens && !g.stop_tokens.contains(r.token);
            &&& takes ==> after.tokens == g.tokens + seq![r.token] && after.phase is Decode
            &&& !takes ==> after.tokens == g.tokens && after.phase is Close
            &&& after.printed == g.printed && after.prompt_len == g.prompt_len
            &&& after.max_tokens == g.max_tokens && after.stop_tokens == g.stop_tokens
        }),
{
    assert(g.tokens.push(r.token) =~= g.tokens + seq![r.token]);
}

/// Law: the times of a run and what it cost the device are added to those of the prompt or of the
/// tokens, and nowhere else; a run over a token leaves its own in the traces, with the times of the
/// last layer where they are known.
pub proof fn law_runs_are_recorded(p: ProfileView, r: NextToken)
    requires
        run_fits(p, r),
    ensures
        ({
            let a = prefilled(p, r);
            &&& a.prefill_forward == p.prefill_forward + r.forward_time
            &&& a.prefill_sample == p.prefill_sample + r.sample_time
            &&& a.prefill_gpu_sync == p.prefill_gpu_sync.recorded(r.gpu_sync)
            &&& a.fast_path_tokens == p.fast_path_tokens + (if r.fast_path {
                1int
            } else {
                0int
            })
            &&& a == (ProfileView {
                prefill_forward: a.prefill_forward,
                prefill_sample: a.prefill_sample,
                prefill_gpu_sync: a.prefill_gpu_sync,
                fast_path_tokens: a.fast_path_tokens,
                ..p
            })
        }),
        ({
            let a = stepped(p, r);
            &&& a.decode_forward == p.decode_forward + r.forward_time
            &&& a.decode_sample == p.decode_sample + r.sample_time
            &&& a.decode_gpu_sync == p.decode_gpu_sync.recorded(r.gpu_sync)
            &&& a.decode_forward_token_ns == p.decode_forward_token_ns + seq![r.forward_time]
            &&& a.decode_gpu_sync_trace == p.decode_gpu_sync_trace + seq![r.gpu_sync]
            &&& a.fast_path_tokens == p.fast_path_tokens + (if r.fast_path {
                1int
            } else {
                0int
            })
            &&& r.final_layer_delta is Some && p.layer_profiles.len() > 0 ==> {
                let d = r.final_layer_delta->0;
                let t = a.final_layer_decode_trace[p.final_layer_decode_trace.len() as int];
                &&& a.final_layer_decode_trace.len() == p.final_layer_decode_trace.len() + 1
                &&& p.final_layer_decode_trace.is_prefix_of(a.final_layer_decode_trace)
                &&& t.total_ns == d.total && t.attention_ns == d.attention && t.mlp_ns == d.mlp
                &&& t.mlp_gate_up_ns == d.mlp_gate_up && t.mlp_down_proj_ns == d.mlp_down_proj
                &&& t.mlp_q8_gate_up_dot_ns == d.mlp_q8_gate_up_dot
                &&& t.mlp_q8_down_proj_dot_ns == d.mlp_q8_down_proj_dot
                &&& p.final_layer_index is None ==> a.final_layer_index == Some(
                    (p.layer_profiles.len() - 1) as usize,
                )
                &&& p.final_layer_index is Some ==> a.final_layer_index == p.final_layer_index
            }
            &&& r.final_layer_delta is None || p.layer_profiles.len() == 0 ==> {
                &&& a.final_layer_decode_trace == p.final_layer_decode_trace
                &&& a.final_layer_index == p.final_layer_index
            }
            &&& a.prefill_forward == p.prefill_forward && a.prefill_sample == p.prefill_sample
            &&& a.prefill_gpu_sync == p.prefill_gpu_sync && a.text_decode == p.text_decode
            &&& a.layer_profiles == p.layer_profiles && a.prompt_tokens == p.prompt_tokens
        }),
{
    assert(p.decode_forward_token_ns.push(r.forward_time) =~= p.decode_forward_token_ns + seq![
        r.forward_time,
    ]);
    assert(p.decode_gpu_sync_trace.push(r.gpu_sync) =~= p.decode_gpu_sync_trace + seq![r.gpu_sync]);
    let a = stepped(p, r);
    if r.final_layer_delta is Some && p.layer_profiles.len() > 0 {
        assert(a.final_layer_decode_trace.take(p.final_layer_decode_trace.len() as int)
            =~= p.final_layer_decode_trace);
    }
}

} // verus!
