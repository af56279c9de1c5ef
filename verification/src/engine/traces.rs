//! What the traces of a whole generation hold.

use vstd::prelude::*;

use crate::engine::generator;
use crate::engine::generator::{GenerationView, ProfileView, Round};
use crate::gpu::GpuSyncStats;

verus! {

/// The sum of the first `n` values of `f`.
pub open spec fn total(n: nat, f: spec_fn(int) -> int) -> int
    decreases n,
{
    if n == 0 {
        0
    } else {
        total((n - 1) as nat, f) + f(n - 1)
    }
}

/// Count number `j` of the five that are kept of a device.
pub open spec fn count(s: GpuSyncStats, j: int) -> int {
    if j == 0 {
        s.submits as int
    } else if j == 1 {
        s.poll_waits as int
    } else if j == 2 {
        s.map_reads as int
    } else if j == 3 {
        s.host_write_buffers as int
    } else {
        s.position_write_buffers as int
    }
}

/// The forward times of some rounds.
pub open spec fn forward_times(rounds: Seq<Round>) -> spec_fn(int) -> int {
    |i: int| rounds[i].run.forward_time as int
}

/// The sample times of some rounds.
pub open spec fn sample_times(rounds: Seq<Round>) -> spec_fn(int) -> int {
    |i: int| rounds[i].run.sample_time as int
}

/// Count number `j` of some rounds.
pub open spec fn round_counts(rounds: Seq<Round>, j: int) -> spec_fn(int) -> int {
    |i: int| count(rounds[i].run.gpu_sync, j)
}

/// The sums over all rounds can be held.
pub open spec fn sums_fit(rounds: Seq<Round>) -> bool {
    &&& total(rounds.len(), forward_times(rounds)) <= u128::MAX
    &&& total(rounds.len(), sample_times(rounds)) <= u128::MAX
    &&& forall|j: int|
        0 <= j < 5 ==> #[trigger] total(rounds.len(), round_counts(rounds, j)) <= u64::MAX
}

/// How many of the first `n` rounds a generation goes through: it ends behind the first token that
/// ends a text, and where it holds as many tokens as it may; the prompt is always run.
pub open spec fn rounds_used(g: GenerationView, rounds: Seq<Round>, n: nat) -> nat {
    let k = generator::unstopped(rounds, g.stop_tokens, n);
    let most = if g.max_tokens == 0 {
        1nat
    } else {
        g.max_tokens as nat
    };
    let until = if k + 1 <= most {
        k + 1
    } else {
        most
    };
    if n <= until {
        n
    } else {
        until
    }
}

/// The times of a trace.
pub open spec fn traced_times(times: Seq<u128>) -> spec_fn(int) -> int {
    |i: int| times[i] as int
}

/// Count number `j` of a trace.
pub open spec fn traced_counts(counts: Seq<GpuSyncStats>, j: int) -> spec_fn(int) -> int {
    |i: int| count(counts[i], j)
}

/// What a profile holds behind the first `m` rounds.  The first round is that of the prompt, and
/// each of the others leaves one time and one set of counts in the traces, in their order.  The
/// time and the counts of decoding are the sums of the traces.  With a profile of the last layer in
/// each of the other rounds the trace of that layer is as long; without any it is empty.
pub open spec fn traces_of(p: ProfileView, rounds: Seq<Round>, m: nat) -> bool {
    let steps = if m == 0 {
        0nat
    } else {
        (m - 1) as nat
    };
    let times = p.decode_forward_token_ns;
    let counts = p.decode_gpu_sync_trace;
    &&& times == Seq::new(steps, |i: int| rounds[i + 1].run.forward_time)
    &&& counts == Seq::new(steps, |i: int| rounds[i + 1].run.gpu_sync)
    &&& p.decode_forward == total(steps, traced_times(times))
    &&& forall|j: int|
        0 <= j < 5 ==> #[trigger] count(p.decode_gpu_sync, j) == total(
            steps,
            traced_counts(counts, j),
        )
    &&& p.prefill_forward + p.decode_forward == total(m, forward_times(rounds))
    &&& p.prefill_sample + p.decode_sample == total(m, sample_times(rounds))
    &&& forall|j: int|
        0 <= j < 5 ==> #[trigger] count(p.prefill_gpu_sync, j) + count(p.decode_gpu_sync, j)
            == total(m, round_counts(rounds, j))
    &&& m > 0 ==> {
        &&& p.prefill_forward == rounds[0].run.forward_time
        &&& p.prefill_sample == rounds[0].run.sample_time
        &&& p.prefill_gpu_sync == rounds[0].run.gpu_sync
    }
    &&& all_profiled(rounds, m) ==> p.final_layer_decode_trace == Seq::new(
        steps,
        |i: int| generator::token_profile(rounds[i + 1].run.final_layer_delta->0),
    )
    &&& none_profiled(rounds, m) ==> p.final_layer_decode_trace.len() == 0
}

/// Whether each of the first `m` rounds but that of the prompt has a profile of the last layer.
pub open spec fn all_profiled(rounds: Seq<Round>, m: nat) -> bool {
    forall|i: int|
        0 < i < m ==> (#[trigger] rounds[i]).run.final_layer_delta is Some && rounds[i].layers.len()
            > 0
}

/// Whether none of the first `m` rounds but that of the prompt has a profile of the last layer.
pub open spec fn none_profiled(rounds: Seq<Round>, m: nat) -> bool {
    forall|i: int| 0 < i < m ==> (#[trigger] rounds[i]).run.final_layer_delta is None
}

/// Law: the profile of a generation holds the traces of the rounds that it goes through, and its
/// sums are those of the traces.
pub proof fn law_traces_add_up(g: GenerationView, rounds: Seq<Round>, n: nat)
    requires
        g.well_formed(),
        g.phase is Prefill,
        g.profile == generator::empty_profile(g.prompt_len),
        n <= rounds.len(),
        sums_fit(rounds),
    ensures
        traces_of(generator::generated(g, rounds, n).profile, rounds, rounds_used(g, rounds, n)),
        generator::generated(g, rounds, n).profile.prompt_tokens == g.prompt_len,
    decreases n,
{
    generator::law_tokens_are_chosen(g, rounds, n);
    let p = generator::generated(g, rounds, n).profile;
    if n == 0 {
        assert(p.decode_forward_token_ns =~= Seq::new(0, |i: int| rounds[i + 1].run.forward_time));
        assert(p.decode_gpu_sync_trace =~= Seq::new(0, |i: int| rounds[i + 1].run.gpu_sync));
        assert(p.final_layer_decode_trace =~= Seq::new(
            0,
            |i: int| generator::token_profile(rounds[i + 1].run.final_layer_delta->0),
        ));
        assert(traces_of(p, rounds, 0));
    } else {
        let before = (n - 1) as nat;
        generator::law_tokens_are_chosen(g, rounds, before);
        law_traces_add_up(g, rounds, before);
        let h = generator::generated(g, rounds, before);
        let r = rounds[n - 1];
        if h.phase is Prefill || h.phase is Forward {
            assert(rounds_used(g, rounds, before) == before);
            assert(rounds_used(g, rounds, n) == n);
            let q = ProfileView { layer_profiles: r.layers, ..h.profile };
            if n == 1 {
                lemma_first_round(q, rounds);
                lemma_traces_only(generator::prefilled(q, r.run), p, rounds, n);
            } else {
                lemma_round(q, rounds, before);
                lemma_traces_only(generator::stepped(q, r.run), p, rounds, n);
            }
        } else {
            assert(rounds_used(g, rounds, n) == rounds_used(g, rounds, before));
        }
    }
}

/// Law: the traces are as long as the text in tokens where a token ended it, and by one shorter
/// where the limit did, or nothing yet.
pub proof fn law_traces_match_tokens(g: GenerationView, rounds: Seq<Round>, n: nat)
    requires
        g.well_formed(),
        g.phase is Prefill,
        g.profile == generator::empty_profile(g.prompt_len),
        n <= rounds.len(),
        sums_fit(rounds),
    ensures
        ({
            let h = generator::generated(g, rounds, n);
            let k = generator::unstopped(rounds, g.stop_tokens, n);
            let length = if k < n && k < g.max_tokens {
                h.tokens.len() as int
            } else if h.tokens.len() == 0 {
                0
            } else {
                h.tokens.len() - 1
            };
            &&& h.profile.decode_forward_token_ns.len() == length
            &&& h.profile.decode_gpu_sync_trace.len() == length
        }),
{
    generator::law_tokens_are_chosen(g, rounds, n);
    law_traces_add_up(g, rounds, n);
}

proof fn lemma_traces_only(p: ProfileView, q: ProfileView, rounds: Seq<Round>, m: nat)
    requires
        traces_of(p, rounds, m),
        q == (ProfileView {
            text_decode: q.text_decode,
            generated_tokens: q.generated_tokens,
            layer_profiles: q.layer_profiles,
            ..p
        }),
    ensures
        traces_of(q, rounds, m),
{
}

proof fn lemma_same(n: nat, f: spec_fn(int) -> int, g: spec_fn(int) -> int)
    requires
        forall|i: int| 0 <= i < n ==> #[trigger] f(i) == g(i),
    ensures
        total(n, f) == total(n, g),
    decreases n,
{
    if n > 0 {
        lemma_same((n - 1) as nat, f, g);
        assert(f(n - 1) == g(n - 1));
    }
}

proof fn lemma_part(all: nat, n: nat, f: spec_fn(int) -> int)
    requires
        n <= all,
        forall|i: int| 0 <= i < all ==> #[trigger] f(i) >= 0,
    ensures
        total(n, f) <= total(all, f),
    decreases all - n,
{
    if n < all {
        lemma_part(all, n + 1, f);
        assert(f(n as int) >= 0);
    }
}

// The sums of the first rounds can be held, as those of all can.
proof fn lemma_sums_fit(rounds: Seq<Round>, m: nat)
    requires
        m <= rounds.len(),
        sums_fit(rounds),
    ensures
        total(m, forward_times(rounds)) <= u128::MAX,
        total(m, sample_times(rounds)) <= u128::MAX,
        forall|j: int| 0 <= j < 5 ==> #[trigger] total(m, round_counts(rounds, j)) <= u64::MAX,
{
    lemma_part(rounds.len(), m, forward_times(rounds));
    lemma_part(rounds.len(), m, sample_times(rounds));
    assert forall|j: int| 0 <= j < 5 implies #[trigger] total(m, round_counts(rounds, j))
        <= u64::MAX by {
        lemma_part(rounds.len(), m, round_counts(rounds, j));
        assert(total(rounds.len(), round_counts(rounds, j)) <= u64::MAX);
    }
}

proof fn lemma_first_round(q: ProfileView, rounds: Seq<Round>)
    requires
        rounds.len() > 0,
        traces_of(q, rounds, 0),
    ensures
        traces_of(generator::prefilled(q, rounds[0].run), rounds, 1),
{
    let p = generator::prefilled(q, rounds[0].run);
    assert(total(0, forward_times(rounds)) == 0);
    assert(total(0, sample_times(rounds)) == 0);
    assert(total(1, forward_times(rounds)) == rounds[0].run.forward_time);
    assert(total(1, sample_times(rounds)) == rounds[0].run.sample_time);
    assert forall|j: int| 0 <= j < 5 implies #[trigger] count(p.prefill_gpu_sync, j) + count(
        p.decode_gpu_sync,
        j,
    ) == total(1, round_counts(rounds, j)) by {
        assert(count(q.prefill_gpu_sync, j) + count(q.decode_gpu_sync, j) == total(
            0,
            round_counts(rounds, j),
        ));
        assert(count(q.decode_gpu_sync, j) == total(
            0,
            traced_counts(q.decode_gpu_sync_trace, j),
        ));
        assert(total(1, round_counts(rounds, j)) == total(0, round_counts(rounds, j)) + count(
            rounds[0].run.gpu_sync,
            j,
        ));
        assert(count(q.prefill_gpu_sync, j) == 0);
    }
    lemma_no_counts(q, rounds);
}

// Before the first round every count is zero.
proof fn lemma_no_counts(q: ProfileView, rounds: Seq<Round>)
    requires
        traces_of(q, rounds, 0),
    ensures
        q.prefill_gpu_sync == crate::gpu::context::no_stats(),
        q.decode_gpu_sync == crate::gpu::context::no_stats(),
{
    assert forall|j: int| 0 <= j < 5 implies #[trigger] count(q.prefill_gpu_sync, j) == 0 && count(
        q.decode_gpu_sync,
        j,
    ) == 0 by {
        assert(count(q.decode_gpu_sync, j) == total(
            0,
            traced_counts(q.decode_gpu_sync_trace, j),
        ));
        assert(count(q.prefill_gpu_sync, j) + count(q.decode_gpu_sync, j) == total(
            0,
            round_counts(rounds, j),
        ));
    }
    assert(count(q.prefill_gpu_sync, 0) == 0 && count(q.prefill_gpu_sync, 1) == 0);
    assert(count(q.prefill_gpu_sync, 2) == 0 && count(q.prefill_gpu_sync, 3) == 0);
    assert(count(q.prefill_gpu_sync, 4) == 0);
}

proof fn lemma_round(q: ProfileView, rounds: Seq<Round>, m: nat)
    requires
        0 < m < rounds.len(),
        traces_of(q, rounds, m),
        q.layer_profiles == rounds[m as int].layers,
        sums_fit(rounds),
    ensures
        traces_of(generator::stepped(q, rounds[m as int].run), rounds, m + 1),
{
    let r = rounds[m as int].run;
    let p = generator::stepped(q, r);
    let steps = (m - 1) as nat;
    lemma_sums_fit(rounds, m + 1);
    let times = q.decode_forward_token_ns;
    let counts = q.decode_gpu_sync_trace;
    assert(p.decode_forward_token_ns == times.push(r.forward_time));
    assert(p.decode_gpu_sync_trace == counts.push(r.gpu_sync));
    assert(p.decode_forward_token_ns =~= Seq::new(m, |i: int| rounds[i + 1].run.forward_time));
    assert(p.decode_gpu_sync_trace =~= Seq::new(m, |i: int| rounds[i + 1].run.gpu_sync));
    assert(total(m + 1, forward_times(rounds)) == total(m, forward_times(rounds))
        + r.forward_time);
    assert(total(m + 1, sample_times(rounds)) == total(m, sample_times(rounds)) + r.sample_time);
    lemma_same(steps, traced_times(times), traced_times(p.decode_forward_token_ns));
    assert(total(m, traced_times(p.decode_forward_token_ns)) == total(
        steps,
        traced_times(p.decode_forward_token_ns),
    ) + r.forward_time);
    assert forall|j: int| 0 <= j < 5 implies #[trigger] count(p.decode_gpu_sync, j) == total(
        m,
        traced_counts(p.decode_gpu_sync_trace, j),
    ) && count(p.prefill_gpu_sync, j) + count(p.decode_gpu_sync, j) == total(
        m + 1,
        round_counts(rounds, j),
    ) && count(p.decode_gpu_sync, j) == count(q.decode_gpu_sync, j) + count(r.gpu_sync, j) by {
        assert(count(q.decode_gpu_sync, j) == total(steps, traced_counts(counts, j)));
        assert(count(q.prefill_gpu_sync, j) + count(q.decode_gpu_sync, j) == total(
            m,
            round_counts(rounds, j),
        ));
        assert(total(m + 1, round_counts(rounds, j)) == total(m, round_counts(rounds, j)) + count(
            r.gpu_sync,
            j,
        ));
        assert(total(m + 1, round_counts(rounds, j)) <= u64::MAX);
        lemma_same(steps, traced_counts(counts, j), traced_counts(p.decode_gpu_sync_trace, j));
        assert(total(m, traced_counts(p.decode_gpu_sync_trace, j)) == total(
            steps,
            traced_counts(p.decode_gpu_sync_trace, j),
        ) + count(r.gpu_sync, j));
        assert(p.decode_gpu_sync == q.decode_gpu_sync.recorded(r.gpu_sync));
    }
    assert forall|j: int| 0 <= j < 5 implies #[trigger] count(p.prefill_gpu_sync, j) + count(
        p.decode_gpu_sync,
        j,
    ) == total(m + 1, round_counts(rounds, j)) by {
        assert(count(p.decode_gpu_sync, j) == count(p.decode_gpu_sync, j));
    }
    assert(rounds[m as int].run == r);
    if all_profiled(rounds, m + 1) {
        assert(all_profiled(rounds, m));
        assert(p.final_layer_decode_trace =~= Seq::new(
            m,
            |i: int| generator::token_profile(rounds[i + 1].run.final_layer_delta->0),
        ));
    }
    if none_profiled(rounds, m + 1) {
        assert(none_profiled(rounds, m));
    }
}

} // verus!
