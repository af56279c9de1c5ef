//! Bringing the keys and values that an attention keeps on a device up to date.

use vstd::prelude::*;
use vstd::string::*;

use crate::engine::CachedKV;
use crate::error::{ErrorView, RsinferError};
use crate::gpu::context;
use crate::gpu::resident;
use crate::gpu::{GpuContext, GpuKvAppend, GpuWrite};
use crate::model::attention;
use crate::model::attention_decode::attention_error;
use crate::model::attention_state;
use crate::model::attention_state::{shape3, AttentionShape, ResidentAttentionRuntimeState};
use crate::model::Attention;
use crate::tensor::array;
use crate::tensor::grid;
use crate::tensor::grid::{copy_rows, zeroed};
use crate::tensor::Tensor;
use crate::text;

verus! {

/// The keys, or the values, of `len` positions out of room for `capacity` in room for `max_len`,
/// with zeros behind them.
pub open spec fn placed(
    src: Seq<u32>,
    heads: nat,
    len: nat,
    capacity: nat,
    dim: nat,
    max_len: nat,
) -> Seq<u32> {
    grid::grid(
        heads,
        max_len * dim,
        |h: int, x: int|
            if x < len * dim {
                grid::cell(src, (capacity * dim) as int, h, x)
            } else {
                0
            },
    )
}

/// Whether cached keys and values have room for what they hold.
pub open spec fn cached_ok(k: CachedKV<'_>) -> bool {
    &&& k.seq_len <= k.capacity_len
    &&& k.key@.len() == k.num_heads * (k.capacity_len * k.head_dim)
    &&& k.value@.len() == k.num_heads * (k.capacity_len * k.head_dim)
}

/// The message that cached keys and values are not those of an attention.
pub open spec fn prefix_mismatch(k: CachedKV<'_>, a: Attention) -> ErrorView {
    ErrorView::DimensionError(
        "resident attention cached prefix shape mismatch: got heads="@ + text::dec(
            k.num_heads as nat,
        ) + ", head_dim="@ + text::dec(k.head_dim as nat) + ", expected heads="@ + text::dec(
            a.num_kv_heads as nat,
        ) + ", head_dim="@ + text::dec(a.head_dim as nat),
    )
}

/// Why the cached keys and values cannot be put on a device.
pub open spec fn prefix_error(k: Option<CachedKV<'_>>, a: Attention) -> Option<ErrorView> {
    match k {
        Some(c) if c.num_heads != a.num_kv_heads || c.head_dim != a.head_dim => Some(
            prefix_mismatch(c, a),
        ),
        _ => None,
    }
}

/// The keys that are to stand on a device.
pub open spec fn device_keys(k: Option<CachedKV<'_>>, a: Attention, max_len: usize) -> Seq<u32> {
    match k {
        Some(c) => placed(
            c.key@,
            a.num_kv_heads as nat,
            c.seq_len as nat,
            c.capacity_len as nat,
            a.head_dim as nat,
            max_len as nat,
        ),
        None => Seq::new(
            (a.num_kv_heads * (max_len * a.head_dim)) as nat,
            |i: int| 0u32,
        ),
    }
}

/// The values that are to stand on a device.
pub open spec fn device_values(k: Option<CachedKV<'_>>, a: Attention, max_len: usize) -> Seq<u32> {
    match k {
        Some(c) => placed(
            c.value@,
            a.num_kv_heads as nat,
            c.seq_len as nat,
            c.capacity_len as nat,
            a.head_dim as nat,
            max_len as nat,
        ),
        None => Seq::new(
            (a.num_kv_heads * (max_len * a.head_dim)) as nat,
            |i: int| 0u32,
        ),
    }
}

/// Law: each number of a cached position stands at that position of its head.
pub proof fn law_placed_keeps(
    src: Seq<u32>,
    heads: nat,
    len: nat,
    capacity: nat,
    dim: nat,
    max_len: nat,
    h: int,
    p: int,
    d: int,
)
    requires
        len <= max_len,
        0 <= h < heads,
        0 <= p < max_len,
        0 <= d < dim,
    ensures
        grid::cell(
            placed(src, heads, len, capacity, dim, max_len),
            (max_len * dim) as int,
            h,
            p * dim + d,
        ) == (if p < len {
            grid::cell(src, (capacity * dim) as int, h, p * dim + d)
        } else {
            0u32
        }),
{
    assert(0 <= p * dim + d < max_len * dim) by (nonlinear_arith)
        requires
            0 <= p < max_len,
            0 <= d < dim,
    ;
    assert(p * dim + d < len * dim <==> p < len) by (nonlinear_arith)
        requires
            0 <= p,
            0 <= d < dim,
    ;
    let f = |h: int, x: int|
        if x < len * dim {
            grid::cell(src, (capacity * dim) as int, h, x)
        } else {
            0u32
        };
    grid::lemma_grid_cell(heads, max_len * dim, f, h, p * dim + d);
}

fn place(
    src: &[u32],
    heads: usize,
    len: usize,
    capacity: usize,
    dim: usize,
    max_len: usize,
) -> (r: Vec<u32>)
    requires
        len <= capacity,
        len <= max_len,
        src@.len() == heads * (capacity * dim),
        heads * (max_len * dim) <= usize::MAX,
        max_len * dim <= usize::MAX,
        capacity * dim <= usize::MAX,
    ensures
        r@ == placed(
            src@,
            heads as nat,
            len as nat,
            capacity as nat,
            dim as nat,
            max_len as nat,
        ),
{
    proof {
        assert(len * dim <= capacity * dim) by (nonlinear_arith)
            requires
                len <= capacity,
        ;
        assert(len * dim <= max_len * dim) by (nonlinear_arith)
            requires
                len <= max_len,
        ;
    }
    let stride: usize = max_len * dim;
    let total: usize = heads * stride;
    let mut out = zeroed(total);
    let ghost zeros = out@;
    copy_rows(&mut out, stride, 0, src, capacity * dim, len * dim, heads);
    proof {
        let f = |h: int, x: int|
            if x < len * dim {
                grid::cell(src@, (capacity * dim) as int, h, x)
            } else {
                0u32
            };
        assert forall|h: int, x: int| 0 <= h < heads && 0 <= x < stride implies #[trigger] grid::cell(
            out@,
            stride as int,
            h,
            x,
        ) == f(h, x) by {
            grid::lemma_cell_range(heads as int, stride as int, h, x);
            assert(grid::cell(zeros, stride as int, h, x) == 0);
        }
        grid::lemma_is_grid(out@, heads as nat, stride as nat, f);
    }
    out
}

/// The greater of two numbers, and the smaller of that and a third.
pub open spec fn wanted_len(cached: Option<usize>, position: usize, kv_max: usize) -> usize {
    let most = match cached {
        Some(c) => if c < position + 1 {
            (position + 1) as usize
        } else {
            c
        },
        None => if position + 1 < 64 {
            64usize
        } else {
            (position + 1) as usize
        },
    };
    if most < kv_max {
        most
    } else {
        kv_max
    }
}

/// The room that is wanted on a device: that of the cached positions, or 64, or more where the
/// position needs it; never more than the cache may have.
pub fn desired_max_len(cached: Option<usize>, position: usize, kv_max: usize) -> (r: usize)
    requires
        position < usize::MAX,
    ensures
        r == wanted_len(cached, position, kv_max),
{
    let least: usize = position + 1;
    let most: usize = match cached {
        Some(c) => if c < least {
            least
        } else {
            c
        },
        None => if least < 64 {
            64
        } else {
            least
        },
    };
    if most < kv_max {
        most
    } else {
        kv_max
    }
}

/// Law: the room that is wanted is never beyond the cache, and holds the position and what is
/// cached wherever the cache does.
pub proof fn law_room_suffices(cached: Option<usize>, position: usize, kv_max: usize)
    requires
        position < usize::MAX,
    ensures
        wanted_len(cached, position, kv_max) <= kv_max,
        position < kv_max ==> position < wanted_len(cached, position, kv_max),
        cached matches Some(c) ==> c <= kv_max ==> c <= wanted_len(cached, position, kv_max),
{
}

/// Whether what is kept is that of an attention with the sizes of `a`, on the given device.
pub open spec fn suits(s: ResidentAttentionRuntimeState, a: Attention, id: u64) -> bool {
    let shape = seq![a.num_kv_heads, s.max_len, a.head_dim];
    &&& s.resident_key_cache.context == id && s.resident_value_cache.context == id
    &&& s.resident_key_cache.shape@ == shape && s.resident_value_cache.shape@ == shape
    &&& s.resident_key_cache.len == array::numel(shape)
    &&& s.resident_value_cache.len == array::numel(shape)
    &&& a.num_kv_heads * (s.max_len * a.head_dim) <= usize::MAX
    &&& s.max_len * a.head_dim <= usize::MAX
    &&& resident::shape_fits(shape)
    &&& s.kv_gpu.max_len == s.max_len
}

/// Whether what is kept must be made anew for the wanted room.
pub open spec fn stale(s: Option<ResidentAttentionRuntimeState>, wanted: usize) -> bool {
    match s {
        Some(k) => k.max_len < wanted,
        None => true,
    }
}

/// A device after the keys and values were written to it.
pub open spec fn uploaded(
    c: context::ContextView,
    s: ResidentAttentionRuntimeState,
    cached: Option<CachedKV<'_>>,
    a: Attention,
) -> context::ContextView {
    context::written(
        context::written(
            c,
            s.resident_key_cache.buffer,
            device_keys(cached, a, s.max_len),
            GpuWrite::Uncounted,
        ),
        s.resident_value_cache.buffer,
        device_values(cached, a, s.max_len),
        GpuWrite::Uncounted,
    )
}

/// The capacity of cached keys and values.
pub open spec fn capacity_of(cached: Option<CachedKV<'_>>) -> Option<usize> {
    match cached {
        Some(k) => Some(k.capacity_len),
        None => None,
    }
}

/// The message for a length behind the end.
pub open spec fn restore_failure(position: usize, max_len: usize) -> Seq<char> {
    "GPU KV restore length "@ + text::dec(position as nat) + " exceeds max_len "@ + text::dec(
        max_len as nat,
    )
}

impl Attention {
    /// The keys and values that are to stand on a device with room for `max_len` positions.
    pub fn build_resident_cache_tensors(&self, cached: Option<CachedKV<'_>>, max_len: usize) -> (r:
        Result<(Tensor, Tensor), RsinferError>)
        requires
            cached matches Some(k) ==> cached_ok(k) && (k.num_heads == self.num_kv_heads
                && k.head_dim == self.head_dim ==> k.seq_len <= max_len && k.capacity_len
                * k.head_dim <= usize::MAX),
            self.num_kv_heads * (max_len * self.head_dim) <= usize::MAX,
            max_len * self.head_dim <= usize::MAX,
            resident::shape_fits(seq![self.num_kv_heads, max_len, self.head_dim]),
        ensures
            match r {
                Ok(p) => {
                    &&& prefix_error(cached, *self) is None
                    &&& p.0.dims() == seq![self.num_kv_heads, max_len, self.head_dim]
                    &&& p.1.dims() == seq![self.num_kv_heads, max_len, self.head_dim]
                    &&& p.0.row_major() && p.1.row_major()
                    &&& p.0.well_formed() && p.1.well_formed()
                    &&& p.0.values() == device_keys(cached, *self, max_len)
                    &&& p.1.values() == device_values(cached, *self, max_len)
                },
                Err(e) => prefix_error(cached, *self) == Some(e@),
            },
    {
        let shape = shape3(self.num_kv_heads, max_len, self.head_dim);
        let total: usize = self.num_kv_heads * (max_len * self.head_dim);
        let (key, value) = match cached {
            Some(k) => {
                if k.num_heads != self.num_kv_heads || k.head_dim != self.head_dim {
                    let mut s =
                        "resident attention cached prefix shape mismatch: got heads=".to_owned();
                    text::push_size(&mut s, k.num_heads);
                    s.append(", head_dim=");
                    text::push_size(&mut s, k.head_dim);
                    s.append(", expected heads=");
                    text::push_size(&mut s, self.num_kv_heads);
                    s.append(", head_dim=");
                    text::push_size(&mut s, self.head_dim);
                    return Err(RsinferError::DimensionError(s));
                }
                (
                    place(
                        k.key,
                        self.num_kv_heads,
                        k.seq_len,
                        k.capacity_len,
                        self.head_dim,
                        max_len,
                    ),
                    place(
                        k.value,
                        self.num_kv_heads,
                        k.seq_len,
                        k.capacity_len,
                        self.head_dim,
                        max_len,
                    ),
                )
            },
            None => (zeroed(total), zeroed(total)),
        };
        proof {
            array::lemma_numel3(self.num_kv_heads, max_len, self.head_dim);
            array::lemma_numel_extent(shape@);
            assert(self.num_kv_heads * max_len * self.head_dim == self.num_kv_heads * (max_len
                * self.head_dim)) by (nonlinear_arith);
            assert(key@.len() == total);
            assert(value@.len() == total);
        }
        let k = match Tensor::from_f32_vec(&shape, key) {
            Ok(t) => t,
            Err(e) => {
                return Err(e);
            },
        };
        let v = match Tensor::from_f32_vec(&shape, value) {
            Ok(t) => t,
            Err(e) => {
                return Err(e);
            },
        };
        Ok((k, v))
    }

    /// Makes what is kept on a device anew where it has too little room.  Where it cannot be made,
    /// what was kept comes back.
    fn make_room(
        &self,
        context: &mut GpuContext,
        kept: Option<ResidentAttentionRuntimeState>,
        wanted: usize,
        position_buffer: usize,
    ) -> (r: Result<
        ResidentAttentionRuntimeState,
        (String, Option<ResidentAttentionRuntimeState>),
    >)
        requires
            kept matches Some(s) ==> suits(s, *self, old(context)@.id),
            room_fits(*self, wanted),
        ensures
            context::quiet(old(context)@, final(context)@),
            final(context)@.id == old(context)@.id,
            match r {
                Ok(s) => {
                    &&& is_roomed(
                        *self,
                        old(context)@,
                        kept,
                        wanted,
                        position_buffer,
                        final(context)@,
                        s,
                    )
                    &&& suits(s, *self, old(context)@.id)
                },
                Err(p) => {
                    &&& stale(kept, wanted)
                    &&& room_failed(*self, old(context)@, wanted, final(context)@, p.0@)
                    &&& p.1 == kept
                },
            },
    {
        let ghost c = context@;
        let rebuild = match &kept {
            Some(s) => s.max_len < wanted,
            None => true,
        };
        if rebuild {
            let given = self.shape();
            proof {
                lemma_kinds_stay(c, given, wanted);
                array::lemma_numel3(self.num_kv_heads, wanted, self.head_dim);
            }
            match ResidentAttentionRuntimeState::new(context, given, wanted, position_buffer) {
                Ok(s) => Ok(s),
                Err(e) => Err((e, kept)),
            }
        } else {
            match kept {
                Some(s) => Ok(s),
                None => Err(("".to_owned(), None)),
            }
        }
    }

    /// Writes the keys and values of a cache where those on a device are not of it as it is, and
    /// goes back to the position.
    fn synchronize(
        &self,
        context: &mut GpuContext,
        state: &mut ResidentAttentionRuntimeState,
        cache_id: u64,
        revision: u64,
        cached: Option<CachedKV<'_>>,
        position: usize,
    ) -> (r: Result<(), RsinferError>)
        requires
            suits(*old(state), *self, old(context)@.id),
            cached matches Some(k) ==> {
                &&& cached_ok(k)
                &&& k.seq_len <= old(state).max_len
                &&& k.capacity_len * k.head_dim <= usize::MAX
            },
        ensures
            context::quiet(old(context)@, final(context)@),
            is_synchronized(
                *self,
                old(context)@,
                *old(state),
                cache_id,
                revision,
                cached,
                position,
                final(context)@,
                *final(state),
                r,
            ),
            suits(*final(state), *self, old(context)@.id),
            final(context)@.id == old(context)@.id,
    {
        let ghost c = context@;
        let ghost s = *state;
        if state.synced_cache_id != cache_id || state.synced_cache_revision != revision {
            match self.build_resident_cache_tensors(cached, state.max_len) {
                Ok((key, value)) => {
                    match state.resident_key_cache.upload(context, &key) {
                        Ok(()) => {},
                        Err(e) => {
                            return Err(attention_error(e.as_str()));
                        },
                    }
                    match state.resident_value_cache.upload(context, &value) {
                        Ok(()) => {},
                        Err(e) => {
                            return Err(attention_error(e.as_str()));
                        },
                    }
                    assert(context@ == uploaded(c, s, cached, *self));
                },
                Err(e) => {
                    return Err(e);
                },
            }
        }
        match state.kv_gpu.restore_len(position) {
            Ok(()) => {
                state.synced_cache_id = cache_id;
                state.synced_cache_revision = revision;
                Ok(())
            },
            Err(e) => Err(attention_error(e.as_str())),
        }
    }

    /// Brings what is kept on a device up to date with a cache: makes it anew where it has too
    /// little room, writes the keys and values where those there are not of the cache as it is, and
    /// goes back to the position.
    pub fn ensure_resident_runtime_state(
        &mut self,
        context: &mut GpuContext,
        kv_max: usize,
        cache_id: u64,
        revision: u64,
        cached: Option<CachedKV<'_>>,
        position: usize,
        position_buffer: usize,
    ) -> (r: Result<(), RsinferError>)
        requires
            position < usize::MAX,
            prefix_fits(cached, kv_max),
            old(self).resident_runtime_state matches Some(s) ==> suits(
                s,
                *old(self),
                old(context)@.id,
            ),
            room_fits(*old(self), wanted_len(capacity_of(cached), position, kv_max)),
        ensures
            context::quiet(old(context)@, final(context)@),
            is_ensured(
                *old(self),
                *final(self),
                old(context)@,
                final(context)@,
                kv_max,
                cache_id,
                revision,
                cached,
                position,
                position_buffer,
                r,
            ),
            final(self).resident_runtime_state matches Some(s) ==> suits(
                s,
                *final(self),
                old(context)@.id,
            ),
            final(context)@.id == old(context)@.id,
            old(self).well_formed(old(context)@.id) ==> final(self).well_formed(
                old(context)@.id,
            ),
    {
        let ghost a = *self;
        let ghost c = context@;
        let capacity = match &cached {
            Some(k) => Some(k.capacity_len),
            None => None,
        };
        let wanted: usize = desired_max_len(capacity, position, kv_max);
        proof {
            law_room_suffices(capacity, position, kv_max);
        }
        let mut kept: Option<ResidentAttentionRuntimeState> = None;
        std::mem::swap(&mut kept, &mut self.resident_runtime_state);
        proof {
            assert(kept == a.resident_runtime_state);
            assert forall|shape: AttentionShape<'_>| #[trigger]
                self.has_shape(shape) implies attention_state::sizes_fit(shape, wanted) by {
                assert(a.has_shape(shape));
            }
        }
        match self.make_room(context, kept, wanted, position_buffer) {
            Ok(made) => {
                let mut state = made;
                let ghost c1 = context@;
                let ghost s1 = state;
                proof {
                    lemma_same_room(*self, a, c, kept, wanted, position_buffer, c1, s1);
                }
                let r = self.synchronize(
                    context,
                    &mut state,
                    cache_id,
                    revision,
                    cached,
                    position,
                );
                proof {
                    lemma_same_sync(
                        *self,
                        a,
                        c1,
                        s1,
                        cache_id,
                        revision,
                        cached,
                        position,
                        context@,
                        state,
                        r,
                    );
                }
                self.resident_runtime_state = Some(state);
                r
            },
            Err((e, back)) => {
                proof {
                    lemma_same_failure(*self, a, c, wanted, context@, e@);
                }
                self.resident_runtime_state = back;
                assert(*self == a);
                Err(attention_error(e.as_str()))
            },
        }
    }
}

/// Sizes of an attention with the given room whose products can be held.
pub open spec fn room_fits(a: Attention, wanted: usize) -> bool {
    &&& forall|shape: AttentionShape<'_>| #[trigger]
        a.has_shape(shape) ==> attention_state::sizes_fit(shape, wanted)
    &&& wanted * a.head_dim <= usize::MAX
}

/// Whether cached keys and values have room for what they hold, and no more than the cache may.
pub open spec fn prefix_fits(cached: Option<CachedKV<'_>>, kv_max: usize) -> bool {
    cached matches Some(k) ==> {
        &&& cached_ok(k)
        &&& k.capacity_len <= kv_max
        &&& k.capacity_len * k.head_dim <= usize::MAX
    }
}

/// Whether what is kept has the wanted room: as it was, or made anew.
pub open spec fn is_roomed(
    a: Attention,
    c: context::ContextView,
    kept: Option<ResidentAttentionRuntimeState>,
    wanted: usize,
    position_buffer: usize,
    after: context::ContextView,
    s: ResidentAttentionRuntimeState,
) -> bool {
    if stale(kept, wanted) {
        exists|shape: AttentionShape<'_>| #[trigger]
            a.has_shape(shape) && attention_state::state_error(c, shape, wanted) is None
                && attention_state::is_state(c, shape, wanted, position_buffer, s) && after
                == attention_state::state_made(c, shape, wanted)
    } else {
        Some(s) == kept && after == c
    }
}

/// Whether making room fails with the given words.
pub open spec fn room_failed(
    a: Attention,
    c: context::ContextView,
    wanted: usize,
    after: context::ContextView,
    why: Seq<char>,
) -> bool {
    exists|shape: AttentionShape<'_>| #[trigger]
        a.has_shape(shape) && attention_state::state_error(c, shape, wanted) == Some((why, after))
}

/// What writing the keys and values and going back to the position leaves.
pub open spec fn is_synchronized(
    a: Attention,
    c: context::ContextView,
    s: ResidentAttentionRuntimeState,
    cache_id: u64,
    revision: u64,
    cached: Option<CachedKV<'_>>,
    position: usize,
    after: context::ContextView,
    t: ResidentAttentionRuntimeState,
    r: Result<(), RsinferError>,
) -> bool {
    let synced = s.synced_cache_id == cache_id && s.synced_cache_revision == revision;
    let c2 = if synced {
        c
    } else {
        uploaded(c, s, cached, a)
    };
    if !synced && prefix_error(cached, a) is Some {
        &&& r matches Err(e) && Some(e@) == prefix_error(cached, a)
        &&& after == c
        &&& t == s
    } else if position > s.max_len {
        &&& r matches Err(e) && e@ == attention::attention_failure(
            restore_failure(position, s.max_len),
        )
        &&& after == c2
        &&& t == s
    } else {
        &&& r is Ok
        &&& after == c2
        &&& t == (ResidentAttentionRuntimeState {
            kv_gpu: GpuKvAppend { current_len: position, ..s.kv_gpu },
            synced_cache_id: cache_id,
            synced_cache_revision: revision,
            ..s
        })
    }
}

/// What bringing an attention up to date with a cache leaves.
pub open spec fn is_ensured(
    a: Attention,
    b: Attention,
    c: context::ContextView,
    after: context::ContextView,
    kv_max: usize,
    cache_id: u64,
    revision: u64,
    cached: Option<CachedKV<'_>>,
    position: usize,
    position_buffer: usize,
    r: Result<(), RsinferError>,
) -> bool {
    let wanted = wanted_len(capacity_of(cached), position, kv_max);
    let kept = a.resident_runtime_state;
    ||| {
        &&& stale(kept, wanted)
        &&& b == a
        &&& r is Err
        &&& exists|why: Seq<char>| #[trigger]
            room_failed(a, c, wanted, after, why) && r->Err_0@ == attention::attention_failure(why)
    }
    ||| {
        &&& b == (Attention { resident_runtime_state: b.resident_runtime_state, ..a })
        &&& b.resident_runtime_state is Some
        &&& exists|c1: context::ContextView, s1: ResidentAttentionRuntimeState| #[trigger]
            is_roomed(a, c, kept, wanted, position_buffer, c1, s1) && is_synchronized(
                a,
                c1,
                s1,
                cache_id,
                revision,
                cached,
                position,
                after,
                b.resident_runtime_state->0,
                r,
            )
    }
}

/// Law: after an attention was brought up to date it is as long as the position, and stands for the
/// cache as it is; what is kept for another state of a cache never stays as it is.
pub proof fn law_up_to_date(
    a: Attention,
    b: Attention,
    c: context::ContextView,
    after: context::ContextView,
    kv_max: usize,
    cache_id: u64,
    revision: u64,
    cached: Option<CachedKV<'_>>,
    position: usize,
    position_buffer: usize,
    r: Result<(), RsinferError>,
)
    requires
        is_ensured(
            a,
            b,
            c,
            after,
            kv_max,
            cache_id,
            revision,
            cached,
            position,
            position_buffer,
            r,
        ),
        r is Ok,
    ensures
        b.resident_runtime_state matches Some(s) && s.kv_gpu.current_len == position
            && s.synced_cache_id == cache_id && s.synced_cache_revision == revision && position
            <= s.max_len,
{
}

proof fn lemma_same_room(
    a: Attention,
    b: Attention,
    c: context::ContextView,
    kept: Option<ResidentAttentionRuntimeState>,
    wanted: usize,
    position_buffer: usize,
    after: context::ContextView,
    s: ResidentAttentionRuntimeState,
)
    requires
        is_roomed(a, c, kept, wanted, position_buffer, after, s),
        a == (Attention { resident_runtime_state: a.resident_runtime_state, ..b }),
    ensures
        is_roomed(b, c, kept, wanted, position_buffer, after, s),
{
    if stale(kept, wanted) {
        let shape = choose|shape: AttentionShape<'_>| #[trigger]
            a.has_shape(shape) && attention_state::state_error(c, shape, wanted) is None
                && attention_state::is_state(c, shape, wanted, position_buffer, s) && after
                == attention_state::state_made(c, shape, wanted);
        assert(b.has_shape(shape));
    }
}

proof fn lemma_same_failure(
    a: Attention,
    b: Attention,
    c: context::ContextView,
    wanted: usize,
    after: context::ContextView,
    why: Seq<char>,
)
    requires
        room_failed(a, c, wanted, after, why),
        a == (Attention { resident_runtime_state: a.resident_runtime_state, ..b }),
    ensures
        room_failed(b, c, wanted, after, why),
{
    let shape = choose|shape: AttentionShape<'_>| #[trigger]
        a.has_shape(shape) && attention_state::state_error(c, shape, wanted) == Some((why, after));
    assert(b.has_shape(shape));
}

proof fn lemma_same_sync(
    a: Attention,
    b: Attention,
    c: context::ContextView,
    s: ResidentAttentionRuntimeState,
    cache_id: u64,
    revision: u64,
    cached: Option<CachedKV<'_>>,
    position: usize,
    after: context::ContextView,
    t: ResidentAttentionRuntimeState,
    r: Result<(), RsinferError>,
)
    requires
        is_synchronized(a, c, s, cache_id, revision, cached, position, after, t, r),
        a == (Attention { resident_runtime_state: a.resident_runtime_state, ..b }),
    ensures
        is_synchronized(b, c, s, cache_id, revision, cached, position, after, t, r),
{
    assert(device_keys(cached, a, s.max_len) == device_keys(cached, b, s.max_len));
    assert(device_values(cached, a, s.max_len) == device_values(cached, b, s.max_len));
    assert(prefix_error(cached, a) == prefix_error(cached, b));
}

proof fn lemma_kinds_stay(c: context::ContextView, a: AttentionShape<'_>, max_len: usize)
    ensures
        attention_state::state_made(c, a, max_len).id == c.id,
        attention_state::state_error(c, a, max_len) matches Some(p) ==> p.1.id == c.id,
{
    reveal_with_fuel(attention_state::buffers_made, 9);
}

} // verus!
