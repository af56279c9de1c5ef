//! The linear layers of a part of a block, put on a device one after the other.

use vstd::prelude::*;
use vstd::string::*;

use crate::gpu::context;
use crate::gpu::q8;
use crate::gpu::{GpuContext, GpuQ8MatVec};
use crate::model::linear;
use crate::model::Linear;
use crate::runtime;
use crate::text;

verus! {

/// Why a layer cannot be put on a device, in eight bits or in half precision.
pub open spec fn part_error(c: context::ContextView, l: Linear, q8: bool) -> Option<Seq<char>> {
    if q8 {
        linear::q8_error(l, c.max_chunk_bytes)
    } else {
        linear::half_error(l, c.max_chunk_bytes)
    }
}

/// A device after a layer was to be put on it.
pub open spec fn part_after(c: context::ContextView, l: Linear, q8: bool) -> context::ContextView {
    if q8 {
        linear::q8_after(c, l, false)
    } else {
        linear::half_after(c, l)
    }
}

/// What becomes of a layer that is to be put on a device.
#[verifier::opaque]
pub open spec fn part_became(c: context::ContextView, l: Linear, m: Linear, q8: bool) -> bool {
    if part_error(c, l, q8) is Some {
        m == l
    } else if q8 {
        &&& m == (Linear { q8_gpu_matvec: m.q8_gpu_matvec, ..l })
        &&& m.q8_gpu_matvec is Some
        &&& q8::q8_new(
            c,
            part_after(c, l, q8),
            l.q8_weight->0,
            false,
            Ok::<GpuQ8MatVec, String>(m.q8_gpu_matvec->0),
        )
    } else {
        &&& m == (Linear { gpu_matvec: m.gpu_matvec, ..l })
        &&& m.gpu_matvec is Some
        &&& linear::half_made(c, part_after(c, l, q8), l, m.gpu_matvec->0)
    }
}

/// A device after the first `n` of some layers were to be put on it.
pub open spec fn group_after(c: context::ContextView, ls: Seq<Linear>, q8: bool, n: nat)
    -> context::ContextView
    decreases n,
{
    if n == 0 {
        c
    } else {
        part_after(group_after(c, ls, q8, (n - 1) as nat), ls[n - 1], q8)
    }
}

/// The message that a layer cannot be put on a device.
pub open spec fn part_message(head: Seq<char>, name: Seq<char>, q8: bool, why: Seq<char>) -> Seq<
    char,
> {
    head + name + (if q8 {
        ".q8_gpu: "@
    } else {
        ": "@
    }) + why
}

/// The messages of the first `n` of some layers that cannot be put on a device.
pub open spec fn group_errors(
    c: context::ContextView,
    ls: Seq<Linear>,
    head: Seq<char>,
    names: Seq<Seq<char>>,
    q8: bool,
    n: nat,
) -> Seq<Seq<char>>
    decreases n,
{
    if n == 0 {
        Seq::empty()
    } else {
        let k = n - 1;
        let before = group_errors(c, ls, head, names, q8, k as nat);
        match part_error(group_after(c, ls, q8, k as nat), ls[k], q8) {
            Some(e) => before.push(part_message(head, names[k], q8, e)),
            None => before,
        }
    }
}

/// How many of the first `n` of some layers can be put on a device.
pub open spec fn group_count(c: context::ContextView, ls: Seq<Linear>, q8: bool, n: nat) -> nat
    decreases n,
{
    if n == 0 {
        0
    } else {
        let k = n - 1;
        group_count(c, ls, q8, k as nat) + (if part_error(
            group_after(c, ls, q8, k as nat),
            ls[k],
            q8,
        ) is None {
            1nat
        } else {
            0nat
        })
    }
}

/// What becomes of some layers that are to be put on a device.
pub open spec fn group_became(
    c: context::ContextView,
    ls: Seq<Linear>,
    ms: Seq<Linear>,
    q8: bool,
) -> bool {
    &&& ms.len() == ls.len()
    &&& forall|i: int|
        0 <= i < ls.len() ==> part_became(
            group_after(c, ls, q8, i as nat),
            #[trigger] ls[i],
            ms[i],
            q8,
        )
}

/// Law: of some layers as many are put on a device as give no message.
pub proof fn law_count_and_errors(
    c: context::ContextView,
    ls: Seq<Linear>,
    head: Seq<char>,
    names: Seq<Seq<char>>,
    q8: bool,
    n: nat,
)
    ensures
        group_count(c, ls, q8, n) + group_errors(c, ls, head, names, q8, n).len() == n,
    decreases n,
{
    if n > 0 {
        law_count_and_errors(c, ls, head, names, q8, (n - 1) as nat);
    }
}

/// How one more layer adds to what becomes of some.
pub proof fn lemma_next_part(
    c: context::ContextView,
    ls: Seq<Linear>,
    head: Seq<char>,
    names: Seq<Seq<char>>,
    q8: bool,
    n: nat,
)
    ensures
        group_after(c, ls, q8, n + 1) == part_after(group_after(c, ls, q8, n), ls[n as int], q8),
        group_count(c, ls, q8, n + 1) == group_count(c, ls, q8, n) + (if part_error(
            group_after(c, ls, q8, n),
            ls[n as int],
            q8,
        ) is None {
            1nat
        } else {
            0nat
        }),
        group_errors(c, ls, head, names, q8, n + 1) == (match part_error(
            group_after(c, ls, q8, n),
            ls[n as int],
            q8,
        ) {
            Some(e) => group_errors(c, ls, head, names, q8, n).push(
                part_message(head, names[n as int], q8, e),
            ),
            None => group_errors(c, ls, head, names, q8, n),
        }),
        group_after(c, ls, q8, 0) == c,
        group_count(c, ls, q8, 0) == 0,
        group_errors(c, ls, head, names, q8, 0) == Seq::<Seq<char>>::empty(),
{
}

/// Puts a layer on a device, and notes it where it cannot be.
pub fn enable_part(
    linear: &mut Linear,
    context: &mut GpuContext,
    q8: bool,
    head: &str,
    name: &str,
    errors: &mut Vec<String>,
) -> (r: usize)
    requires
        old(linear).well_formed(),
        old(linear).on_device(old(context)@.id),
    ensures
        part_became(old(context)@, *old(linear), *final(linear), q8),
        final(context)@ == part_after(old(context)@, *old(linear), q8),
        final(context)@.id == old(context)@.id,
        final(linear).well_formed(),
        final(linear).on_device(final(context)@.id),
        r == (if part_error(old(context)@, *old(linear), q8) is None {
            1int
        } else {
            0int
        }),
        runtime::texts(final(errors)@) == (match part_error(old(context)@, *old(linear), q8) {
            Some(e) => runtime::texts(old(errors)@).push(part_message(head@, name@, q8, e)),
            None => runtime::texts(old(errors)@),
        }),
{
    let ghost before = context@;
    let ghost first = *linear;
    let ghost noted = errors@;
    let enabled = if q8 {
        linear.try_enable_q8_gpu_matvec_with_context_and_argmax(context, false)
    } else {
        linear.try_enable_gpu_matvec_with_context(context)
    };
    proof {
        linear::lemma_device_stays(before, first, false);
        reveal(part_became);
    }
    match enabled {
        Ok(()) => 1,
        Err(e) => {
            let mut s = text::joined(head, name);
            if q8 {
                s.append(".q8_gpu: ");
            } else {
                s.append(": ");
            }
            s.append(e.as_str());
            let ghost words = s@;
            errors.push(s);
            assert(runtime::texts(errors@) =~= runtime::texts(noted).push(words));
            0
        },
    }
}

} // verus!
