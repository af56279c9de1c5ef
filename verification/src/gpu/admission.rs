//! What each operation on a device takes: just what has the right shape, is on the same device and has
//! room.

use vstd::prelude::*;

use crate::gpu::attention;
use crate::gpu::matvec;
use crate::gpu::norm;
use crate::gpu::q8;
use crate::gpu::q8_batch;
use crate::gpu::q8_outputs;
use crate::gpu::q8_swiglu;
use crate::gpu::resident;
use crate::gpu::rows;
use crate::gpu::swiglu;
use crate::gpu::{
    GpuDecodeGqaAttention, GpuKvAppend, GpuMatVec, GpuQ8MatVec, GpuQ8MatVecChunk,
    GpuQ8SameInputBatch, GpuQ8SwiGluDown, GpuQkRmsNormRope, GpuQkRmsNormRopeConfig,
    GpuResidentBuffer, GpuResidualAdd, GpuRmsNorm, GpuRows,
};
use crate::tensor::Tensor;

verus! {

/// Law: a norm takes a weight of one number for each place of a row, in the order of its memory, and
/// then just the tensors and values of its shape on its device.
pub proof fn law_what_a_norm_takes(
    w: Tensor,
    shape: Seq<usize>,
    n: GpuRmsNorm,
    x: Tensor,
    a: GpuResidentBuffer,
    b: GpuResidentBuffer,
)
    requires
        x.well_formed(),
        n.well_formed(),
        w.well_formed(),
    ensures
        norm::norm_error(w, shape) is None ==> shape.len() > 0 && w.dims().len() == 1 && w.dims()[0]
            == shape.last(),
        shape.len() > 0 && w.dims() == seq![shape.last()] && w.row_major() && w.values().len()
            == shape.last() ==> norm::norm_error(w, shape) is None,
        norm::norm_input_error(n, x) is None ==> x.dims() == n.shape@,
        x.dims() == n.shape@ && x.row_major() && x.values().len() == n.rows * n.last_dim
            ==> norm::norm_input_error(n, x) is None,
        norm::norm_cache_error(n, a, b) is None <==> n.context == a.context && n.context
            == b.context && a.shape@ == n.shape@ && b.shape@ == n.shape@,
{
    if shape.len() > 0 && w.dims() == seq![shape.last()] {
        assert(w.dims()[0] == shape.last());
    }
}

/// Law: queries and keys are normed and turned together if and only if their heads have one even width,
/// there is a frequency for each pair, and each has a weight of that width.
pub proof fn law_what_turning_takes(c: GpuQkRmsNormRopeConfig<'_>)
    ensures
        norm::rope_error(c) is None <==> {
            let q = c.q_shape@;
            let k = c.k_shape@;
            &&& q.len() > 0 && k.len() > 0
            &&& q.last() == k.last() && q.last() % 2 == 0
            &&& 2 * c.inv_freq@.len() == q.last()
            &&& c.q_weight.dims() == seq![q.last()] && resident::contiguous(*c.q_weight).len()
                == q.last()
            &&& c.k_weight.dims() == seq![q.last()] && resident::contiguous(*c.k_weight).len()
                == q.last()
        },
{
}

/// Law: resident queries and keys are turned if and only if all four values are on the device and have
/// the shape of their side.
pub proof fn law_what_resident_turning_takes(
    r: GpuQkRmsNormRope,
    a: GpuResidentBuffer,
    b: GpuResidentBuffer,
    c: GpuResidentBuffer,
    d: GpuResidentBuffer,
    q: Tensor,
    k: Tensor,
)
    ensures
        norm::rope_cache_error(r, a, b, c, d) is None <==> {
            &&& r.context == a.context && r.context == b.context
            &&& r.context == c.context && r.context == d.context
            &&& a.shape@ == r.q.shape@ && c.shape@ == r.q.shape@
            &&& b.shape@ == r.k.shape@ && d.shape@ == r.k.shape@
        },
        norm::rope_input_error(r, q, k) is None <==> {
            &&& q.dims() == r.q.shape@ && k.dims() == r.k.shape@
            &&& resident::contiguous(q).len() == r.q.rows * r.q.head_dim
            &&& resident::contiguous(k).len() == r.k.rows * r.k.head_dim
        },
{
}

/// Law: a sum takes two tensors, or three values on its device, of its shape.
pub proof fn law_what_a_sum_takes(
    r: GpuResidualAdd,
    x: Tensor,
    y: Tensor,
    a: GpuResidentBuffer,
    b: GpuResidentBuffer,
    c: GpuResidentBuffer,
)
    ensures
        resident::residual_error(r, x, y) is None <==> {
            &&& x.dims() == r.shape@ && y.dims() == r.shape@
            &&& resident::contiguous(x).len() == r.len && resident::contiguous(y).len() == r.len
        },
        resident::residual_cache_error(r, a, b, c) is None <==> {
            &&& r.context == a.context && r.context == b.context && r.context == c.context
            &&& a.shape@ == r.shape@ && b.shape@ == r.shape@ && c.shape@ == r.shape@
        },
{
}

/// Law: a value takes a tensor of its shape and length, and is copied to one of its shape and length on
/// its device.
pub proof fn law_what_a_value_takes(
    shape: Seq<usize>,
    len: usize,
    t: Tensor,
    a: GpuResidentBuffer,
    b: GpuResidentBuffer,
)
    ensures
        resident::upload_error(shape, len, t) is None <==> t.dims() == shape
            && resident::contiguous(t).len() == len,
        resident::copy_error(a, b) is None <==> a.context == b.context && a.shape@ == b.shape@
            && a.len == b.len,
{
}

/// Law: keys and values take a row of all heads at a position that there is room for.
pub proof fn law_what_keys_and_values_take(
    k: GpuKvAppend,
    position: usize,
    key: nat,
    value: nat,
    a: GpuResidentBuffer,
    b: GpuResidentBuffer,
    c: GpuResidentBuffer,
    d: GpuResidentBuffer,
)
    ensures
        attention::kv_row_error(k, position, key, value) is None <==> position < k.max_len && key
            == k.num_heads * k.head_dim && value == k.num_heads * k.head_dim,
        attention::kv_cache_error(k, a, b, c, d) is None <==> {
            &&& k.context == a.context && k.context == b.context
            &&& k.context == c.context && k.context == d.context
            &&& a.len == k.num_heads * k.head_dim && b.len == k.num_heads * k.head_dim
            &&& c.shape@ == seq![k.num_heads, k.max_len, k.head_dim]
            &&& d.shape@ == seq![k.num_heads, k.max_len, k.head_dim]
        },
        attention::kv_encode_error(k, position, a, b, c, d) is None <==> {
            &&& position < k.max_len
            &&& k.context == a.context && k.context == b.context
            &&& k.context == c.context && k.context == d.context
        },
{
}

/// Law: the length that keys and values have reached is that of the last position, and never falls.
pub proof fn law_length_is_reached(k: GpuKvAppend, position: usize)
    requires
        position < usize::MAX,
    ensures
        ({
            let r = attention::reached(k, position);
            &&& r.current_len > position && r.current_len >= k.current_len
            &&& r.current_len == position + 1 || r.current_len == k.current_len
            &&& r == (GpuKvAppend { current_len: r.current_len, ..k })
        }),
{
}

/// Law: an attention takes a query of all its heads and keys and values of all its room, for at least
/// one position and no more than there is room for.
pub proof fn law_what_an_attention_takes(
    a: GpuDecodeGqaAttention,
    q: nat,
    key: nat,
    value: nat,
    len: usize,
    x: GpuResidentBuffer,
    y: GpuResidentBuffer,
    z: GpuResidentBuffer,
    o: GpuResidentBuffer,
    position: usize,
)
    ensures
        ({
            let all = a.num_kv_heads * (a.max_len * a.head_dim);
            let one = a.num_heads * a.head_dim;
            let shared = a.context == x.context && a.context == y.context && a.context == z.context
                && a.context == o.context;
            &&& attention::attention_input_error(a, q, key, value, len) is None <==> 0 < len
                <= a.max_len && q == one && key == all && value == all
            &&& attention::attention_cache_error(a, x, y, z, o) is None <==> shared && x.len == one
                && o.len == one && y.len == all && z.len == all
            &&& attention::attention_encode_error(a, x, y, z, o, position) is None <==> shared
                && position < a.max_len
        }),
{
}

/// Law: matrices share an input if and only if there is one, all have one width and all are on one
/// device.
pub proof fn law_what_shares_an_input(m: Seq<&GpuQ8MatVec>)
    ensures
        q8_batch::batch_error(m) is None <==> {
            &&& m.len() > 0
            &&& forall|i: int| 0 <= i < m.len() ==> (#[trigger] m[i]).in_features
                == m[0].in_features
            &&& forall|i: int| 0 <= i < m.len() ==> (#[trigger] m[i]).context == m[0].context
        },
{
}

/// Law: matrices with a shared input take a row if and only if they are those that share it, in their
/// order, and the row has their width.
pub proof fn law_what_a_shared_input_takes(
    b: GpuQ8SameInputBatch,
    m: Seq<&GpuQ8MatVec>,
    dims: Seq<usize>,
    len: nat,
    input: GpuResidentBuffer,
)
    ensures
        q8_batch::batch_input_error(b, m, dims) is None <==> {
            &&& m.len() == b.groups@.len()
            &&& dims == seq![1usize, b.in_features]
            &&& forall|i: int| 0 <= i < m.len() ==> suits_batch(b, #[trigger] m[i], i)
        },
        q8_batch::batch_raw_error(b, m.len(), len) is None <==> m.len() == b.groups@.len() && len
            == b.in_features,
        q8_batch::batch_copy_error(b, input) is None <==> b.context == input.context && input.len
            == b.in_features,
{
    lemma_match_from(b, m, 0);
}

/// Whether a matrix is the one of the given number that shares an input.
pub open spec fn suits_batch(b: GpuQ8SameInputBatch, m: &GpuQ8MatVec, i: int) -> bool {
    &&& m.in_features == b.in_features && m.out_features == b.out_features@[i]
    &&& m.context == b.context && m.chunks@.len() == b.groups@[i]@.len()
}

proof fn lemma_match_from(b: GpuQ8SameInputBatch, m: Seq<&GpuQ8MatVec>, i: int)
    requires
        0 <= i,
    ensures
        q8_batch::batch_match_error(b, m, i) is None <==> forall|k: int|
            i <= k < m.len() ==> suits_batch(b, #[trigger] m[k], k),
    decreases m.len() - i,
{
    if i < m.len() {
        lemma_match_from(b, m, i + 1);
        assert(suits_batch(b, m[i], i) <==> !(m[i].in_features != b.in_features || m[i].out_features
            != b.out_features@[i]) && m[i].context == b.context && m[i].chunks@.len()
            == b.groups@[i]@.len());
        if forall|k: int| i + 1 <= k < m.len() ==> suits_batch(b, #[trigger] m[k], k) {
            assert forall|k: int| i <= k < m.len() && suits_batch(b, m[i], i) implies suits_batch(
                b,
                #[trigger] m[k],
                k,
            ) by {}
        }
    }
}

/// Whether two lists of runs are the same, and each of them can be counted in thirty-two bits.
pub open spec fn pairs_suit(a: Seq<GpuRows>, b: Seq<GpuRows>) -> bool {
    forall|k: int|
        0 <= k < a.len() ==> (#[trigger] a[k]) == b[k] && a[k].out_offset <= u32::MAX
            && a[k].out_features <= u32::MAX
}

proof fn lemma_pairs_from(a: Seq<GpuRows>, b: Seq<GpuRows>, i: int, x: Seq<char>, y: Seq<char>)
    requires
        0 <= i,
    ensures
        swiglu::pairs_error(a, b, i, x, y) is None <==> forall|k: int|
            i <= k < a.len() ==> (#[trigger] a[k]) == b[k] && a[k].out_offset <= u32::MAX
                && a[k].out_features <= u32::MAX,
    decreases a.len() - i,
{
    if i < a.len() {
        lemma_pairs_from(a, b, i + 1, x, y);
    }
}

/// Law: three matrices make a gated layer if and only if the first two have one width and one height,
/// which is the width of the third, are cut into the same runs, and all are on one device; in half
/// precision and in eight bits alike.
pub proof fn law_what_makes_a_gated_layer(
    g: GpuMatVec,
    u: GpuMatVec,
    d: GpuMatVec,
    x: GpuQ8MatVec,
    y: GpuQ8MatVec,
    z: GpuQ8MatVec,
)
    ensures
        swiglu::swiglu_error(g, u, d) is None <==> {
            &&& g.in_features == u.in_features
            &&& g.out_features == u.out_features && g.out_features == d.in_features
            &&& g.chunks@.len() == u.chunks@.len()
            &&& pairs_suit(matvec::rows_of(g.chunks@), matvec::rows_of(u.chunks@))
            &&& u.context == g.context && d.context == g.context
        },
        q8_swiglu::q8_swiglu_error(x, y, z) is None <==> {
            &&& x.in_features == y.in_features
            &&& x.out_features == y.out_features && x.out_features == z.in_features
            &&& x.chunks@.len() == y.chunks@.len()
            &&& pairs_suit(q8::q8_rows_of(x.chunks@), q8::q8_rows_of(y.chunks@))
            &&& y.context == x.context && z.context == x.context
        },
{
    lemma_pairs_whatever_the_words(g, u, x, y);
}

proof fn lemma_pairs_whatever_the_words(g: GpuMatVec, u: GpuMatVec, x: GpuQ8MatVec, y: GpuQ8MatVec)
    ensures
        forall|a: Seq<char>, b: Seq<char>| #[trigger]
            swiglu::pairs_error(
                matvec::rows_of(g.chunks@),
                matvec::rows_of(u.chunks@),
                0,
                a,
                b,
            ) is None <==> pairs_suit(matvec::rows_of(g.chunks@), matvec::rows_of(u.chunks@)),
        forall|a: Seq<char>, b: Seq<char>| #[trigger]
            swiglu::pairs_error(
                q8::q8_rows_of(x.chunks@),
                q8::q8_rows_of(y.chunks@),
                0,
                a,
                b,
            ) is None <==> pairs_suit(q8::q8_rows_of(x.chunks@), q8::q8_rows_of(y.chunks@)),
{
    assert forall|a: Seq<char>, b: Seq<char>| #[trigger]
        swiglu::pairs_error(
            matvec::rows_of(g.chunks@),
            matvec::rows_of(u.chunks@),
            0,
            a,
            b,
        ) is None <==> pairs_suit(matvec::rows_of(g.chunks@), matvec::rows_of(u.chunks@)) by {
        lemma_pairs_from(matvec::rows_of(g.chunks@), matvec::rows_of(u.chunks@), 0, a, b);
    }
    assert forall|a: Seq<char>, b: Seq<char>| #[trigger]
        swiglu::pairs_error(
            q8::q8_rows_of(x.chunks@),
            q8::q8_rows_of(y.chunks@),
            0,
            a,
            b,
        ) is None <==> pairs_suit(q8::q8_rows_of(x.chunks@), q8::q8_rows_of(y.chunks@)) by {
        lemma_pairs_from(q8::q8_rows_of(x.chunks@), q8::q8_rows_of(y.chunks@), 0, a, b);
    }
}

/// Law: a gated layer takes one row of its width.
pub proof fn law_what_a_gated_layer_takes(
    g: GpuMatVec,
    u: GpuMatVec,
    d: GpuMatVec,
    x: GpuQ8MatVec,
    y: GpuQ8MatVec,
    z: GpuQ8MatVec,
    s: GpuQ8SwiGluDown,
    dims: Seq<usize>,
    len: nat,
)
    ensures
        swiglu::swiglu_error(g, u, d) is None ==> (swiglu::swiglu_input_error(g, u, d, dims) is None
            <==> dims == seq![1usize, g.in_features]),
        q8_swiglu::q8_swiglu_error(x, y, z) is None ==> (q8_swiglu::q8_swiglu_input_error(
            x,
            y,
            z,
            dims,
        ) is None <==> dims == seq![1usize, x.in_features]),
        q8_swiglu::q8_swiglu_error(x, y, z) is None ==> (q8_swiglu::q8_swiglu_raw_error(
            s,
            x,
            y,
            z,
            len,
        ) is None <==> s.context == x.context && len == x.in_features),
{
}

/// Law: a gated layer in eight bits goes from one value through another to a third if and only if all
/// are on its device and have its three widths.
pub proof fn law_what_a_resident_gated_layer_takes(
    s: GpuQ8SwiGluDown,
    x: GpuQ8MatVec,
    y: GpuQ8MatVec,
    z: GpuQ8MatVec,
    a: GpuResidentBuffer,
    b: GpuResidentBuffer,
    c: GpuResidentBuffer,
)
    requires
        q8_swiglu::q8_swiglu_error(x, y, z) is None,
    ensures
        ({
            let fits = s.context == x.context && s.context == a.context && s.context == b.context
                && s.context == c.context && a.len == x.in_features && b.len == x.out_features
                && c.len == z.out_features;
            &&& q8_swiglu::q8_swiglu_cache_error(s, x, y, z, a, b, c) is None <==> fits
            &&& q8_swiglu::q8_swiglu_hidden_error(s, x, y, z, a, b, c) is None <==> fits
        }),
{
}

/// Law: chunks can run alone if and only if each has an input and a way out of its own.
pub proof fn law_what_runs_alone(
    chunks: Seq<GpuQ8MatVecChunk>,
    who: Seq<char>,
)
    ensures
        q8::chunks_released(chunks, who) is None <==> forall|i: int|
            0 <= i < chunks.len() ==> (#[trigger] chunks[i]).input_buffer is Some
                && chunks[i].readback_buffer is Some,
    decreases chunks.len(),
{
    if chunks.len() > 0 {
        let front = chunks.drop_last();
        law_what_runs_alone(front, who);
        assert(forall|i: int| 0 <= i < front.len() ==> front[i] == #[trigger] chunks[i]);
        if q8::chunks_released(chunks, who) is None {
            assert forall|i: int| 0 <= i < chunks.len() implies (#[trigger] chunks[i]).input_buffer is Some
                && chunks[i].readback_buffer is Some by {
                if i < front.len() {
                    assert(front[i].input_buffer is Some && front[i].readback_buffer is Some);
                }
            }
        } else if forall|i: int|
            0 <= i < chunks.len() ==> (#[trigger] chunks[i]).input_buffer is Some
                && chunks[i].readback_buffer is Some {
            assert(chunks[chunks.len() - 1].input_buffer is Some);
            assert(forall|i: int|
                0 <= i < front.len() ==> (#[trigger] front[i]).input_buffer is Some
                    && front[i].readback_buffer is Some);
        }
    }
}

/// Law: the products of a matrix in eight bits are one row, part behind part; and what the matrix of a
/// number gave is behind what all before it gave.
pub proof fn law_q8_products_make_a_row(
    m: Seq<&GpuQ8MatVec>,
    one: &GpuQ8MatVec,
    parts: Seq<Seq<u32>>,
    t: Tensor,
    i: int,
    k: int,
)
    ensures
        q8_outputs::is_q8_output(*one, parts, t) ==> t.dims() == seq![1usize, one.out_features]
            && t.values() == rows::concat(parts),
        q8_outputs::q8_chunk_count(Seq::empty()) == 0,
        q8_outputs::q8_chunk_count(m.push(one)) == q8_outputs::q8_chunk_count(m)
            + one.chunks@.len(),
        0 <= i < m.len() && 0 <= k < m[i].chunks@.len() && q8_outputs::q8_chunk_count(m.take(i))
            + m[i].chunks@.len() <= parts.len() ==> q8_outputs::q8_own_parts(m, parts, i)[k]
            == parts[q8_outputs::q8_chunk_count(m.take(i)) + k],
{
    assert(m.push(one).drop_last() =~= m);
}

} // verus!
