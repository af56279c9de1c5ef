//! What holds of the cache, of its stamp and of what is recorded of a generation.

use vstd::prelude::*;
use vstd::string::*;

use crate::engine::cache;
use crate::engine::generator;
use crate::engine::generator::ProfileView;
use crate::engine::stamp;
use crate::engine::stamp::{CacheStamp, StampEvent};
use crate::error::ErrorView;
use crate::gpu::GpuSyncStats;
use crate::model::TransformerBlockProfile;
use crate::tensor::grid;
use crate::text;

verus! {

/// Law: a new cache has a number of its own, a run of the host changes the cache that there is, and
/// both are told by the next revision.
pub proof fn law_events_change_the_stamp(s: CacheStamp)
    requires
        s.cache_id < u64::MAX,
        s.revision < u64::MAX,
    ensures
        stamp::stamped(s, StampEvent::NewCache).cache_id == s.cache_id + 1,
        stamp::stamped(s, StampEvent::HostRun).cache_id == s.cache_id,
        stamp::stamped(s, StampEvent::NewCache).revision == s.revision + 1,
        stamp::stamped(s, StampEvent::HostRun).revision == s.revision + 1,
{
}

/// Law: the room of a layer holds what it must and no more than the cache may; it stays where it is
/// enough, and else is less than twice what is needed, or sixty-four positions, or all that there
/// may be.
pub proof fn law_room_grows_by_doubling(capacity: nat, required: nat, most: nat)
    requires
        capacity <= most,
        required <= most,
    ensures
        ({
            let n = cache::grown_capacity(capacity, required, most);
            &&& capacity <= n <= most && required <= n
            &&& required <= capacity ==> n == capacity
            &&& required > capacity && n < most ==> n >= 64 && (n == 64 || n < 2 * required)
            &&& required > capacity && n < most && capacity >= 64 ==> n >= 2 * capacity
        }),
{
    if required > capacity {
        let start: nat = if capacity < 64 {
            64
        } else {
            capacity
        };
        lemma_doubled_within(start, required);
    }
}

proof fn lemma_doubled_within(c: nat, r: nat)
    requires
        c > 0,
    ensures
        ({
            let d = cache::doubled(c, r);
            &&& d >= c && d >= r
            &&& c >= r ==> d == c
            &&& c < r ==> d < 2 * r && d >= 2 * c
        }),
    decreases (if c < r { r - c } else { 0 }),
{
    if c < r {
        lemma_doubled_within(2 * c, r);
    }
}

/// Law: a layer that has seen nothing holds nothing, and an append meets the layer that is there, or
/// such a one of the given heads.
pub proof fn law_first_append_meets_nothing(c: cache::CacheView, i: int, heads: usize, dim: usize)
    ensures
        cache::empty_layer(heads, dim).len == 0 && cache::empty_layer(heads, dim).capacity == 0,
        cache::empty_layer(heads, dim).num_heads == heads,
        cache::empty_layer(heads, dim).head_dim == dim,
        cache::empty_layer(heads, dim).key.len() == 0,
        cache::empty_layer(heads, dim).value.len() == 0,
        c.layers[i] matches Some(l) ==> cache::met_layer(c, i, heads, dim) == l,
        c.layers[i] is None ==> cache::met_layer(c, i, heads, dim) == cache::empty_layer(
            heads,
            dim,
        ),
{
}

/// Law: the length of a cache is that of its first layer, whichever layer grows; nothing but the layer
/// that grows, and that length, changes.
pub proof fn law_first_layer_counts(
    c: cache::CacheView,
    i: int,
    k: Seq<u32>,
    v: Seq<u32>,
    dims: Seq<usize>,
)
    requires
        0 <= i < c.layers.len(),
    ensures
        ({
            let d = cache::appended_cache(c, i, k, v, dims);
            &&& d.max_len == c.max_len && d.layers.len() == c.layers.len()
            &&& d.layers[i] is Some
            &&& i == 0 ==> d.current_len == (d.layers[0]->0).len
            &&& i != 0 ==> d.current_len == c.current_len
        }),
{
}

/// Law: an append that does not fit says which layer there is not, how many positions there are too
/// many, or which two shapes do not agree.
pub proof fn law_append_says_why(
    c: cache::CacheView,
    i: nat,
    k: Seq<usize>,
    v: Seq<usize>,
    l: cache::LayerView,
)
    ensures
        i >= c.layers.len() ==> cache::append_shape_error(c, i, k, v) == Some(
            ErrorView::DimensionError(
                "Layer index "@ + text::dec(i) + " out of range (max "@ + text::dec(c.layers.len())
                    + ")"@,
            ),
        ),
        i < c.layers.len() && (k.len() != 3 || v.len() != 3) ==> cache::append_shape_error(
            c,
            i,
            k,
            v,
        ) == Some(
            ErrorView::DimensionError(
                "KV cache append expects [num_heads, seq_len, head_dim] tensors"@,
            ),
        ),
        i < c.layers.len() && k.len() == 3 && v.len() == 3 && k != v ==> cache::append_shape_error(
            c,
            i,
            k,
            v,
        ) == Some(ErrorView::ShapeMismatch { expected: k, actual: v }),
        k.len() == 3 && l.num_heads == k[0] && l.head_dim == k[2] && l.len + k[1] > c.max_len
            ==> cache::append_layer_error(l, k, c.max_len) == Some(
            ErrorView::DimensionError(
                "KV cache length "@ + text::dec((l.len + k[1]) as nat) + " exceeds max_len "@
                    + text::dec(c.max_len as nat),
            ),
        ),
        cache::no_cache_error(i) == ErrorView::DimensionError(
            "No cache for layer "@ + text::dec(i),
        ),
{
}

/// Law: a layer goes back to any length that it has room for, and a layer that is not there only to
/// none.
pub proof fn law_what_can_be_restored(l: cache::LayerView, n: usize)
    ensures
        cache::restore_error(Some(l), Some(n)) is None <==> n <= l.capacity,
        cache::restore_error(None, Some(n)) is None <==> n == 0,
        cache::restore_error(Some(l), None) is None,
        cache::restore_error(None, None) is None,
{
}

/// Law: what is kept of some positions of each head stands head behind head and position behind
/// position, without the room behind them.
pub proof fn law_compacted_leaves_no_room(
    buffer: Seq<u32>,
    heads: nat,
    len: nat,
    capacity: nat,
    dim: nat,
    h: int,
    p: int,
    x: int,
)
    requires
        0 <= h < heads,
        0 <= p < len,
        0 <= x < dim,
    ensures
        grid::compacted(buffer, heads, len, capacity, dim).len() == heads * (len * dim),
        grid::compacted(buffer, heads, len, capacity, dim)[h * (len * dim) + (p * dim + x)]
            == buffer[h * (capacity * dim) + (p * dim + x)],
{
    let col = p * dim + x;
    assert(0 <= col < len * dim) by (nonlinear_arith)
        requires
            0 <= p < len,
            0 <= x < dim,
            col == p * dim + x,
    ;
    grid::lemma_cell_range(heads as int, (len * dim) as int, h, col);
}

/// Law: of the times of the last layer those of its parts are kept under their own names.
pub proof fn law_last_layer_is_traced(p: ProfileView, layer: usize, d: TransformerBlockProfile)
    ensures
        ({
            let t = generator::token_profile(d);
            &&& t.total_ns == d.total && t.attention_ns == d.attention && t.mlp_ns == d.mlp
            &&& t.mlp_gate_up_ns == d.mlp_gate_up && t.mlp_down_proj_ns == d.mlp_down_proj
            &&& t.mlp_q8_gate_up_dot_ns == d.mlp_q8_gate_up_dot
            &&& t.mlp_q8_down_proj_dot_ns == d.mlp_q8_down_proj_dot
        }),
        ({
            let q = generator::traced(p, layer, d);
            &&& q.final_layer_decode_trace == p.final_layer_decode_trace + seq![
                generator::token_profile(d),
            ]
            &&& p.final_layer_index is None ==> q.final_layer_index == Some(layer)
            &&& p.final_layer_index is Some ==> q.final_layer_index == p.final_layer_index
            &&& q == (ProfileView {
                final_layer_index: q.final_layer_index,
                final_layer_decode_trace: q.final_layer_decode_trace,
                ..p
            })
        }),
{
    assert(generator::traced(p, layer, d).final_layer_decode_trace
        =~= p.final_layer_decode_trace + seq![generator::token_profile(d)]);
}

/// Law: what two stretches of work cost the two sides is added count by count.
pub proof fn law_costs_are_added(a: GpuSyncStats, b: GpuSyncStats)
    requires
        a.can_record(b),
    ensures
        ({
            let s = a.recorded(b);
            &&& s.submits == a.submits + b.submits
            &&& s.poll_waits == a.poll_waits + b.poll_waits
            &&& s.map_reads == a.map_reads + b.map_reads
            &&& s.host_write_buffers == a.host_write_buffers + b.host_write_buffers
            &&& s.position_write_buffers == a.position_write_buffers + b.position_write_buffers
            &&& a.recorded(crate::gpu::context::no_stats()) == a
        }),
{
}

/// Law: what is read of a layer are its positions in use, head behind head and position behind position,
/// the keys out of the keys and the values out of the values.
pub proof fn law_layer_is_read_whole(l: cache::LayerView, h: int, p: int, x: int)
    requires
        0 <= h < l.num_heads,
        0 <= p < l.len,
        0 <= x < l.head_dim,
    ensures
        ({
            let dim = l.head_dim as int;
            let i = h * (l.len * dim) + (p * dim + x);
            let j = h * (l.capacity * dim) + (p * dim + x);
            &&& cache::compact(l, l.key).len() == l.num_heads * (l.len * dim)
            &&& cache::compact(l, l.value).len() == l.num_heads * (l.len * dim)
            &&& cache::compact(l, l.key)[i] == l.key[j]
            &&& cache::compact(l, l.value)[i] == l.value[j]
        }),
{
    let dim = l.head_dim as int;
    let len = l.len as int;
    let col = p * dim + x;
    assert(0 <= col < len * dim) by (nonlinear_arith)
        requires
            0 <= p < len,
            0 <= x < dim,
            col == p * dim + x,
    ;
    grid::lemma_cell_range(l.num_heads as int, len * dim, h, col);
}

} // verus!
