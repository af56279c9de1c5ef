//! Where the time of a layer goes.

use vstd::prelude::*;

verus! {

/// Where the time of a layer goes, in nanoseconds.
#[derive(Clone, Copy, Debug, PartialEq, Eq, Structural)]
pub struct TransformerBlockProfile {
    pub input_norm: u128,
    pub attention: u128,
    pub post_norm: u128,
    pub mlp: u128,
    pub mlp_gate_up: u128,
    pub mlp_silu_mul: u128,
    pub mlp_down_proj: u128,
    pub mlp_q8_gate_up_prep: u128,
    pub mlp_q8_gate_up_dot: u128,
    pub mlp_q8_gate_up_writeback: u128,
    pub mlp_q8_down_proj_prep: u128,
    pub mlp_q8_down_proj_dot: u128,
    pub mlp_q8_down_proj_writeback: u128,
    pub residual: u128,
    pub resident_prefix_encode: u128,
    pub resident_prefix_submit: u128,
    pub resident_prefix_readback: u128,
    pub total: u128,
}

/// No time at all.
pub open spec fn no_time() -> TransformerBlockProfile {
    TransformerBlockProfile {
        input_norm: 0,
        attention: 0,
        post_norm: 0,
        mlp: 0,
        mlp_gate_up: 0,
        mlp_silu_mul: 0,
        mlp_down_proj: 0,
        mlp_q8_gate_up_prep: 0,
        mlp_q8_gate_up_dot: 0,
        mlp_q8_gate_up_writeback: 0,
        mlp_q8_down_proj_prep: 0,
        mlp_q8_down_proj_dot: 0,
        mlp_q8_down_proj_writeback: 0,
        residual: 0,
        resident_prefix_encode: 0,
        resident_prefix_submit: 0,
        resident_prefix_readback: 0,
        total: 0,
    }
}

impl Default for TransformerBlockProfile {
    fn default() -> (r: TransformerBlockProfile)
        ensures
            r == no_time(),
    {
        TransformerBlockProfile {
            input_norm: 0,
            attention: 0,
            post_norm: 0,
            mlp: 0,
            mlp_gate_up: 0,
            mlp_silu_mul: 0,
            mlp_down_proj: 0,
            mlp_q8_gate_up_prep: 0,
            mlp_q8_gate_up_dot: 0,
            mlp_q8_gate_up_writeback: 0,
            mlp_q8_down_proj_prep: 0,
            mlp_q8_down_proj_dot: 0,
            mlp_q8_down_proj_writeback: 0,
            residual: 0,
            resident_prefix_encode: 0,
            resident_prefix_submit: 0,
            resident_prefix_readback: 0,
            total: 0,
        }
    }
}

/// What one time is longer than another.
pub open spec fn longer_by(after: u128, before: u128) -> u128 {
    if after >= before {
        (after - before) as u128
    } else {
        0
    }
}

fn time_since(after: u128, before: u128) -> (r: u128)
    ensures
        r == longer_by(after, before),
{
    if after >= before {
        after - before
    } else {
        0
    }
}

/// What was added to each time between two profiles.
pub open spec fn profile_delta(
    before: TransformerBlockProfile,
    after: TransformerBlockProfile,
) -> TransformerBlockProfile {
    TransformerBlockProfile {
        input_norm: longer_by(after.input_norm, before.input_norm),
        attention: longer_by(after.attention, before.attention),
        post_norm: longer_by(after.post_norm, before.post_norm),
        mlp: longer_by(after.mlp, before.mlp),
        mlp_gate_up: longer_by(after.mlp_gate_up, before.mlp_gate_up),
        mlp_silu_mul: longer_by(after.mlp_silu_mul, before.mlp_silu_mul),
        mlp_down_proj: longer_by(after.mlp_down_proj, before.mlp_down_proj),
        mlp_q8_gate_up_prep: longer_by(after.mlp_q8_gate_up_prep, before.mlp_q8_gate_up_prep),
        mlp_q8_gate_up_dot: longer_by(after.mlp_q8_gate_up_dot, before.mlp_q8_gate_up_dot),
        mlp_q8_gate_up_writeback: longer_by(after.mlp_q8_gate_up_writeback, before.mlp_q8_gate_up_writeback),
        mlp_q8_down_proj_prep: longer_by(after.mlp_q8_down_proj_prep, before.mlp_q8_down_proj_prep),
        mlp_q8_down_proj_dot: longer_by(after.mlp_q8_down_proj_dot, before.mlp_q8_down_proj_dot),
        mlp_q8_down_proj_writeback: longer_by(after.mlp_q8_down_proj_writeback, before.mlp_q8_down_proj_writeback),
        residual: longer_by(after.residual, before.residual),
        resident_prefix_encode: longer_by(after.resident_prefix_encode, before.resident_prefix_encode),
        resident_prefix_submit: longer_by(after.resident_prefix_submit, before.resident_prefix_submit),
        resident_prefix_readback: longer_by(after.resident_prefix_readback, before.resident_prefix_readback),
        total: longer_by(after.total, before.total),
    }
}

/// What was added to each time between two profiles.
pub fn diff_transformer_block_profile(
    before: &TransformerBlockProfile,
    after: &TransformerBlockProfile,
) -> (r: TransformerBlockProfile)
    ensures
        r == profile_delta(*before, *after),
{
    TransformerBlockProfile {
        input_norm: time_since(after.input_norm, before.input_norm),
        attention: time_since(after.attention, before.attention),
        post_norm: time_since(after.post_norm, before.post_norm),
        mlp: time_since(after.mlp, before.mlp),
        mlp_gate_up: time_since(after.mlp_gate_up, before.mlp_gate_up),
        mlp_silu_mul: time_since(after.mlp_silu_mul, before.mlp_silu_mul),
        mlp_down_proj: time_since(after.mlp_down_proj, before.mlp_down_proj),
        mlp_q8_gate_up_prep: time_since(after.mlp_q8_gate_up_prep, before.mlp_q8_gate_up_prep),
        mlp_q8_gate_up_dot: time_since(after.mlp_q8_gate_up_dot, before.mlp_q8_gate_up_dot),
        mlp_q8_gate_up_writeback: time_since(after.mlp_q8_gate_up_writeback, before.mlp_q8_gate_up_writeback),
        mlp_q8_down_proj_prep: time_since(after.mlp_q8_down_proj_prep, before.mlp_q8_down_proj_prep),
        mlp_q8_down_proj_dot: time_since(after.mlp_q8_down_proj_dot, before.mlp_q8_down_proj_dot),
        mlp_q8_down_proj_writeback: time_since(after.mlp_q8_down_proj_writeback, before.mlp_q8_down_proj_writeback),
        residual: time_since(after.residual, before.residual),
        resident_prefix_encode: time_since(after.resident_prefix_encode, before.resident_prefix_encode),
        resident_prefix_submit: time_since(after.resident_prefix_submit, before.resident_prefix_submit),
        resident_prefix_readback: time_since(after.resident_prefix_readback, before.resident_prefix_readback),
        total: time_since(after.total, before.total),
    }
}

/// The sums of the times of two profiles.
pub open spec fn profile_sum(a: TransformerBlockProfile, b: TransformerBlockProfile) -> TransformerBlockProfile {
    TransformerBlockProfile {
        input_norm: (a.input_norm + b.input_norm) as u128,
        attention: (a.attention + b.attention) as u128,
        post_norm: (a.post_norm + b.post_norm) as u128,
        mlp: (a.mlp + b.mlp) as u128,
        mlp_gate_up: (a.mlp_gate_up + b.mlp_gate_up) as u128,
        mlp_silu_mul: (a.mlp_silu_mul + b.mlp_silu_mul) as u128,
        mlp_down_proj: (a.mlp_down_proj + b.mlp_down_proj) as u128,
        mlp_q8_gate_up_prep: (a.mlp_q8_gate_up_prep + b.mlp_q8_gate_up_prep) as u128,
        mlp_q8_gate_up_dot: (a.mlp_q8_gate_up_dot + b.mlp_q8_gate_up_dot) as u128,
        mlp_q8_gate_up_writeback: (a.mlp_q8_gate_up_writeback + b.mlp_q8_gate_up_writeback) as u128,
        mlp_q8_down_proj_prep: (a.mlp_q8_down_proj_prep + b.mlp_q8_down_proj_prep) as u128,
        mlp_q8_down_proj_dot: (a.mlp_q8_down_proj_dot + b.mlp_q8_down_proj_dot) as u128,
        mlp_q8_down_proj_writeback: (a.mlp_q8_down_proj_writeback + b.mlp_q8_down_proj_writeback) as u128,
        residual: (a.residual + b.residual) as u128,
        resident_prefix_encode: (a.resident_prefix_encode + b.resident_prefix_encode) as u128,
        resident_prefix_submit: (a.resident_prefix_submit + b.resident_prefix_submit) as u128,
        resident_prefix_readback: (a.resident_prefix_readback + b.resident_prefix_readback) as u128,
        total: (a.total + b.total) as u128,
    }
}

/// Whether the sums of the times of two profiles can be held.
pub open spec fn profile_sum_fits(a: TransformerBlockProfile, b: TransformerBlockProfile) -> bool {
    &&& a.input_norm + b.input_norm <= u128::MAX
    &&& a.attention + b.attention <= u128::MAX
    &&& a.post_norm + b.post_norm <= u128::MAX
    &&& a.mlp + b.mlp <= u128::MAX
    &&& a.mlp_gate_up + b.mlp_gate_up <= u128::MAX
    &&& a.mlp_silu_mul + b.mlp_silu_mul <= u128::MAX
    &&& a.mlp_down_proj + b.mlp_down_proj <= u128::MAX
    &&& a.mlp_q8_gate_up_prep + b.mlp_q8_gate_up_prep <= u128::MAX
    &&& a.mlp_q8_gate_up_dot + b.mlp_q8_gate_up_dot <= u128::MAX
    &&& a.mlp_q8_gate_up_writeback + b.mlp_q8_gate_up_writeback <= u128::MAX
    &&& a.mlp_q8_down_proj_prep + b.mlp_q8_down_proj_prep <= u128::MAX
    &&& a.mlp_q8_down_proj_dot + b.mlp_q8_down_proj_dot <= u128::MAX
    &&& a.mlp_q8_down_proj_writeback + b.mlp_q8_down_proj_writeback <= u128::MAX
    &&& a.residual + b.residual <= u128::MAX
    &&& a.resident_prefix_encode + b.resident_prefix_encode <= u128::MAX
    &&& a.resident_prefix_submit + b.resident_prefix_submit <= u128::MAX
    &&& a.resident_prefix_readback + b.resident_prefix_readback <= u128::MAX
    &&& a.total + b.total <= u128::MAX
}

impl TransformerBlockProfile {
    /// Adds the times of another profile.
    pub fn add_times(&mut self, other: &TransformerBlockProfile)
        requires
            profile_sum_fits(*old(self), *other),
        ensures
            *final(self) == profile_sum(*old(self), *other),
    {
        self.input_norm += other.input_norm;
        self.attention += other.attention;
        self.post_norm += other.post_norm;
        self.mlp += other.mlp;
        self.mlp_gate_up += other.mlp_gate_up;
        self.mlp_silu_mul += other.mlp_silu_mul;
        self.mlp_down_proj += other.mlp_down_proj;
        self.mlp_q8_gate_up_prep += other.mlp_q8_gate_up_prep;
        self.mlp_q8_gate_up_dot += other.mlp_q8_gate_up_dot;
        self.mlp_q8_gate_up_writeback += other.mlp_q8_gate_up_writeback;
        self.mlp_q8_down_proj_prep += other.mlp_q8_down_proj_prep;
        self.mlp_q8_down_proj_dot += other.mlp_q8_down_proj_dot;
        self.mlp_q8_down_proj_writeback += other.mlp_q8_down_proj_writeback;
        self.residual += other.residual;
        self.resident_prefix_encode += other.resident_prefix_encode;
        self.resident_prefix_submit += other.resident_prefix_submit;
        self.resident_prefix_readback += other.resident_prefix_readback;
        self.total += other.total;
    }
}

/// Law: the difference of two profiles is what the later one holds beyond the earlier, field by
/// field.
pub proof fn law_delta_undoes_sum(a: TransformerBlockProfile, b: TransformerBlockProfile)
    requires
        profile_sum_fits(a, b),
    ensures
        profile_delta(a, profile_sum(a, b)) == b,
{
}

/// What the last of some layers spent since an earlier profile, or in all where there was none.
pub open spec fn last_layer_delta(
    before: Option<&TransformerBlockProfile>,
    layers: Seq<TransformerBlockProfile>,
) -> Option<TransformerBlockProfile> {
    if layers.len() == 0 {
        None
    } else {
        match before {
            Some(b) => Some(profile_delta(*b, layers.last())),
            None => Some(layers.last()),
        }
    }
}

/// What the last layer spent since an earlier profile, or in all where there was none.
pub fn final_layer_profile_delta(
    before: Option<&TransformerBlockProfile>,
    layer_profiles: &[TransformerBlockProfile],
) -> (r: Option<TransformerBlockProfile>)
    ensures
        r == last_layer_delta(before, layer_profiles@),
{
    let n: usize = layer_profiles.len();
    if n == 0 {
        return None;
    }
    let after = &layer_profiles[n - 1];
    match before {
        Some(b) => Some(diff_transformer_block_profile(b, after)),
        None => Some(*after),
    }
}

/// Makes room for one profile for each of `n` layers.
pub fn ensure_layer_profiles(layer_profiles: &mut Vec<TransformerBlockProfile>, n: usize)
    ensures
        final(layer_profiles)@ == (if old(layer_profiles)@.len() < n {
            old(layer_profiles)@ + Seq::new(
                (n - old(layer_profiles)@.len()) as nat,
                |i: int| no_time(),
            )
        } else {
            old(layer_profiles)@
        }),
{
    let ghost before = layer_profiles@;
    while layer_profiles.len() < n
        invariant
            before.len() <= layer_profiles@.len(),
            layer_profiles@.len() <= n || layer_profiles@.len() == before.len(),
            layer_profiles@ == before + Seq::new(
                (layer_profiles@.len() - before.len()) as nat,
                |i: int| no_time(),
            ),
        decreases n - layer_profiles@.len(),
    {
        layer_profiles.push(TransformerBlockProfile::default());
    }
}

/// The profiles of the layers with time added to the whole of one of them.
pub open spec fn with_total(s: Seq<TransformerBlockProfile>, slot: int, elapsed: u128) -> Seq<
    TransformerBlockProfile,
> {
    s.update(
        slot,
        TransformerBlockProfile { total: (s[slot].total + elapsed) as u128, ..s[slot] },
    )
}

/// Adds time to the whole of a layer; that of blocks which run together goes to the last of them.
pub fn record_total(profiles: &mut Vec<TransformerBlockProfile>, slot: usize, elapsed: u128)
    requires
        slot < old(profiles)@.len(),
        old(profiles)@[slot as int].total + elapsed <= u128::MAX,
    ensures
        final(profiles)@ == with_total(old(profiles)@, slot as int, elapsed),
{
    let mut p = profiles[slot];
    p.total = p.total + elapsed;
    profiles.set(slot, p);
}

} // verus!
