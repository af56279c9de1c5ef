//! Steps that write commands one after the other, up to the first that fails.

use vstd::prelude::*;

use crate::gpu::GpuCommand;

verus! {

/// One step: why it fails, if it does, and the commands that it writes.
pub struct EncodeStep {
    pub error: Option<Seq<char>>,
    pub commands: Seq<GpuCommand>,
}

/// A step that writes some commands, or fails.
pub open spec fn step(error: Option<Seq<char>>, commands: Seq<GpuCommand>) -> EncodeStep {
    EncodeStep { error, commands }
}

/// Why some steps fail from step `i` on, and what stands written then, behind `e`.
pub open spec fn encoded(steps: Seq<EncodeStep>, i: int, e: Seq<GpuCommand>) -> (
    Option<Seq<char>>,
    Seq<GpuCommand>,
)
    decreases steps.len() - i,
{
    if i < 0 || i >= steps.len() {
        (None, e)
    } else {
        match steps[i].error {
            Some(why) => (Some(why), e),
            None => encoded(steps, i + 1, e + steps[i].commands),
        }
    }
}

/// The first step from `i` on that fails, or how many there are.
pub open spec fn failing(steps: Seq<EncodeStep>, i: int) -> int
    decreases steps.len() - i,
{
    if i < 0 || i >= steps.len() {
        steps.len() as int
    } else if steps[i].error is Some {
        i
    } else {
        failing(steps, i + 1)
    }
}

/// The commands of the first `n` steps.
pub open spec fn written_by(steps: Seq<EncodeStep>, n: nat) -> Seq<GpuCommand>
    decreases n,
{
    if n == 0 {
        Seq::empty()
    } else {
        written_by(steps, (n - 1) as nat) + steps[n - 1].commands
    }
}

/// Law: some steps write the commands of those before the first that fails, and no others; they
/// fail with its message.
pub proof fn law_steps_write_up_to_failure(steps: Seq<EncodeStep>, i: int, e: Seq<GpuCommand>)
    requires
        0 <= i <= steps.len(),
    ensures
        i <= failing(steps, i) <= steps.len(),
        written_by(steps, i as nat).is_prefix_of(written_by(steps, failing(steps, i) as nat)),
        encoded(steps, i, e + written_by(steps, i as nat)).1 == e + written_by(
            steps,
            failing(steps, i) as nat,
        ),
        encoded(steps, i, e).0 == (if failing(steps, i) < steps.len() {
            steps[failing(steps, i)].error
        } else {
            None
        }),
    decreases steps.len() - i,
{
    if i < steps.len() && steps[i].error is None {
        let next = e + written_by(steps, i as nat) + steps[i].commands;
        assert(next =~= e + written_by(steps, (i + 1) as nat));
        law_steps_write_up_to_failure(steps, i + 1, e);
        lemma_same_failure(steps, i + 1, e, e + steps[i].commands);
        let a = written_by(steps, i as nat);
        let b = written_by(steps, (i + 1) as nat);
        let c = written_by(steps, failing(steps, i) as nat);
        assert(a =~= b.take(a.len() as int));
        assert(b =~= c.take(b.len() as int));
        assert(a =~= c.take(a.len() as int));
    }
}

/// How some steps behind others run.
pub proof fn lemma_behind(a: Seq<EncodeStep>, b: Seq<EncodeStep>, i: int, e: Seq<GpuCommand>)
    requires
        0 <= i <= a.len(),
    ensures
        failing(a + b, i) == (if failing(a, i) < a.len() {
            failing(a, i)
        } else {
            a.len() + failing(b, 0)
        }),
        encoded(a + b, i, e) == (match encoded(a, i, e).0 {
            Some(why) => encoded(a, i, e),
            None => encoded(b, 0, encoded(a, i, e).1),
        }),
        failing(a, i) < a.len() <==> encoded(a, i, e).0 is Some,
        i <= failing(a, i) <= a.len(),
        0 <= failing(b, 0) <= b.len(),
    decreases a.len() - i,
{
    lemma_shifted(a, b, 0, e);
    if i < a.len() {
        assert((a + b)[i] == a[i]);
        if a[i].error is None {
            lemma_behind(a, b, i + 1, e + a[i].commands);
        }
    }
}

proof fn lemma_shifted(a: Seq<EncodeStep>, b: Seq<EncodeStep>, j: int, e: Seq<GpuCommand>)
    requires
        0 <= j <= b.len(),
    ensures
        failing(a + b, a.len() + j) == a.len() + failing(b, j),
        encoded(a + b, a.len() + j, e) == encoded(b, j, e),
        j <= failing(b, j) <= b.len(),
    decreases b.len() - j,
{
    if j < b.len() {
        assert((a + b)[a.len() + j] == b[j]);
        if b[j].error is None {
            lemma_shifted(a, b, j + 1, e + b[j].commands);
        }
    }
}

proof fn lemma_same_failure(
    steps: Seq<EncodeStep>,
    i: int,
    e: Seq<GpuCommand>,
    f: Seq<GpuCommand>,
)
    ensures
        encoded(steps, i, e).0 == encoded(steps, i, f).0,
    decreases steps.len() - i,
{
    if 0 <= i < steps.len() && steps[i].error is None {
        lemma_same_failure(steps, i + 1, e + steps[i].commands, f + steps[i].commands);
    }
}

} // verus!
