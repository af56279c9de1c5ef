//! The key/value cache of the attention layers.
//!
//! Each layer keeps, head by head, the keys and values of the positions seen so far.  A head
//! has room for `capacity` positions of `head_dim` numbers each; the first `len` are in use.

use vstd::prelude::*;
use vstd::string::*;

use crate::error::{dimension_error, shape_mismatch, ErrorView, RsinferError};
use crate::tensor::grid;
use crate::tensor::tensor;
use crate::tensor::Tensor;
use crate::text;

verus! {

#[derive(Clone)]
struct KVCacheLayer {
    key: Vec<u32>,
    value: Vec<u32>,
    num_heads: usize,
    head_dim: usize,
    current_len: usize,
    capacity_len: usize,
}

/// The cached keys and values of one layer, as they lie in memory.
pub struct CachedKV<'a> {
    pub key: &'a [u32],
    pub value: &'a [u32],
    pub num_heads: usize,
    pub seq_len: usize,
    pub head_dim: usize,
    pub capacity_len: usize,
}

/// The lengths of a cache at one moment.
#[derive(Clone, Debug)]
pub struct KVCacheSnapshot {
    layer_lengths: Vec<Option<usize>>,
    current_len: usize,
}

/// The cache of all layers.
#[derive(Clone)]
pub struct KVCache {
    layers: Vec<Option<KVCacheLayer>>,
    current_len: usize,
    max_len: usize,
}

/// What one layer holds.
pub struct LayerView {
    pub num_heads: usize,
    pub head_dim: usize,
    pub len: usize,
    pub capacity: usize,
    pub key: Seq<u32>,
    pub value: Seq<u32>,
}

/// What a cache holds.
pub struct CacheView {
    pub layers: Seq<Option<LayerView>>,
    pub current_len: usize,
    pub max_len: usize,
}

/// What a snapshot holds.
pub struct SnapshotView {
    pub lengths: Seq<Option<usize>>,
    pub current_len: usize,
}

impl LayerView {
    /// The numbers that one head has room for.
    pub open spec fn stride(&self) -> nat {
        (self.capacity * self.head_dim) as nat
    }

    /// The numbers of one head that are in use.
    pub open spec fn used(&self) -> nat {
        (self.len * self.head_dim) as nat
    }

    /// The buffers have room for `capacity` positions, at most `max_len` of them.
    pub open spec fn well_formed(&self, max_len: usize) -> bool {
        &&& self.len <= self.capacity <= max_len
        &&& self.key.len() == self.num_heads * self.stride()
        &&& self.value.len() == self.num_heads * self.stride()
    }

    /// The keys in use of head `h`.
    pub open spec fn head_keys(&self, h: int) -> Seq<u32> {
        Seq::new(self.used(), |x: int| grid::cell(self.key, self.stride() as int, h, x))
    }

    /// The values in use of head `h`.
    pub open spec fn head_values(&self, h: int) -> Seq<u32> {
        Seq::new(self.used(), |x: int| grid::cell(self.value, self.stride() as int, h, x))
    }
}

impl CacheView {
    /// Every layer is well formed.
    pub open spec fn well_formed(&self) -> bool {
        forall|i: int|
            0 <= i < self.layers.len() ==> match #[trigger] self.layers[i] {
                Some(l) => l.well_formed(self.max_len),
                None => true,
            }
    }
}

/// `c` doubled until it is at least `r`.
pub open spec fn doubled(c: nat, r: nat) -> nat
    decreases (if c < r { r - c } else { 0 }),
{
    if c >= r || c == 0 {
        c
    } else {
        doubled(2 * c, r)
    }
}

/// The room for positions after `required` of them were asked for.
pub open spec fn grown_capacity(capacity: nat, required: nat, max_len: nat) -> nat {
    if required <= capacity {
        capacity
    } else {
        let wanted = doubled(
            if capacity < 64 {
                64
            } else {
                capacity
            },
            required,
        );
        if wanted < max_len {
            wanted
        } else {
            max_len
        }
    }
}

/// A buffer moved to rows with room for `capacity` positions; what was not in use is zero.
pub open spec fn regrown(l: LayerView, buffer: Seq<u32>, capacity: usize) -> Seq<u32> {
    if capacity == l.capacity {
        buffer
    } else {
        grid::grid(
            l.num_heads as nat,
            (capacity * l.head_dim) as nat,
            |h: int, x: int|
                if x < l.used() {
                    grid::cell(buffer, l.stride() as int, h, x)
                } else {
                    0u32
                },
        )
    }
}

/// A buffer with `n` new positions behind the `len` of every head.
pub open spec fn extended(l: LayerView, buffer: Seq<u32>, new: Seq<u32>, n: usize) -> Seq<u32> {
    grid::grid(
        l.num_heads as nat,
        l.stride(),
        |h: int, x: int|
            if l.used() <= x < l.used() + n * l.head_dim {
                grid::cell(new, n * l.head_dim, h, x - l.used())
            } else {
                grid::cell(buffer, l.stride() as int, h, x)
            },
    )
}

/// A layer with room for more positions.
pub open spec fn grown_layer(l: LayerView, capacity: usize) -> LayerView {
    LayerView {
        capacity,
        key: regrown(l, l.key, capacity),
        value: regrown(l, l.value, capacity),
        ..l
    }
}

/// A layer with `n` new positions.
pub open spec fn appended_layer(l: LayerView, k: Seq<u32>, v: Seq<u32>, n: usize, max_len: usize)
    -> LayerView {
    let g = grown_layer(
        l,
        grown_capacity(l.capacity as nat, (l.len + n) as nat, max_len as nat) as usize,
    );
    LayerView {
        len: (l.len + n) as usize,
        key: extended(g, g.key, k, n),
        value: extended(g, g.value, v, n),
        ..g
    }
}

/// A layer that has seen nothing yet.
pub open spec fn empty_layer(num_heads: usize, head_dim: usize) -> LayerView {
    LayerView {
        num_heads,
        head_dim,
        len: 0,
        capacity: 0,
        key: Seq::empty(),
        value: Seq::empty(),
    }
}

/// The layer that an append meets: the one that is there, or an empty one.
pub open spec fn met_layer(c: CacheView, i: int, num_heads: usize, head_dim: usize) -> LayerView {
    match c.layers[i] {
        Some(l) => l,
        None => empty_layer(num_heads, head_dim),
    }
}

/// Why an append is refused before the layer is looked at.
pub open spec fn append_shape_error(
    c: CacheView,
    i: nat,
    k: Seq<usize>,
    v: Seq<usize>,
) -> Option<ErrorView> {
    if i >= c.layers.len() {
        Some(
            ErrorView::DimensionError(
                "Layer index "@ + text::dec(i) + " out of range (max "@ + text::dec(c.layers.len())
                    + ")"@,
            ),
        )
    } else if k.len() != 3 || v.len() != 3 {
        Some(
            ErrorView::DimensionError(
                "KV cache append expects [num_heads, seq_len, head_dim] tensors"@,
            ),
        )
    } else if k != v {
        Some(ErrorView::ShapeMismatch { expected: k, actual: v })
    } else {
        None
    }
}

/// Why a layer refuses an append of shape `k`.
pub open spec fn append_layer_error(l: LayerView, k: Seq<usize>, max_len: usize) -> Option<
    ErrorView,
> {
    if l.num_heads != k[0] || l.head_dim != k[2] {
        Some(
            ErrorView::ShapeMismatch {
                expected: seq![l.num_heads, l.len, l.head_dim],
                actual: k,
            },
        )
    } else if l.len + k[1] > max_len {
        Some(
            ErrorView::DimensionError(
                "KV cache length "@ + text::dec((l.len + k[1]) as nat) + " exceeds max_len "@
                    + text::dec(max_len as nat),
            ),
        )
    } else {
        None
    }
}

/// The cache after layer `i` was given its new value.
pub open spec fn with_layer(c: CacheView, i: int, l: LayerView) -> CacheView {
    CacheView { layers: c.layers.update(i, Some(l)), ..c }
}

/// The cache after layer `i` was given new positions of shape `dims`.
pub open spec fn appended_cache(
    c: CacheView,
    i: int,
    k: Seq<u32>,
    v: Seq<u32>,
    dims: Seq<usize>,
) -> CacheView {
    let a = appended_layer(met_layer(c, i, dims[0], dims[2]), k, v, dims[1], c.max_len);
    CacheView {
        current_len: if i == 0 {
            a.len
        } else {
            c.current_len
        },
        ..with_layer(c, i, a)
    }
}

/// The buffers of an append fit in memory.
pub open spec fn append_fits(c: CacheView, i: nat, k: Seq<usize>, v: Seq<usize>) -> bool {
    append_shape_error(c, i, k, v) is None && append_layer_error(
        met_layer(c, i as int, k[0], k[2]),
        k,
        c.max_len,
    ) is None ==> {
        let l = met_layer(c, i as int, k[0], k[2]);
        k[0] * (grown_capacity(l.capacity as nat, (l.len + k[1]) as nat, c.max_len as nat) * k[2])
            * 4 <= isize::MAX
    }
}

/// Why a layer cannot go back to a length, if it cannot.
pub open spec fn restore_error(l: Option<LayerView>, length: Option<usize>) -> Option<ErrorView> {
    match (l, length) {
        (Some(l), Some(n)) => if n <= l.capacity {
            None
        } else {
            Some(
                ErrorView::DimensionError(
                    "KV cache snapshot length "@ + text::dec(n as nat) + " exceeds layer capacity"@,
                ),
            )
        },
        (None, Some(n)) => if n == 0 {
            None
        } else {
            Some(ErrorView::DimensionError("KV cache snapshot references missing layer"@))
        },
        _ => None,
    }
}

/// A layer at another length.
pub open spec fn restored_layer(l: Option<LayerView>, length: Option<usize>) -> Option<LayerView> {
    match l {
        Some(l) => Some(
            LayerView {
                len: match length {
                    Some(n) => n,
                    None => 0,
                },
                ..l
            },
        ),
        None => None,
    }
}

/// The cache with its first `n` layers at the lengths of a snapshot.
pub open spec fn restored_front(c: CacheView, s: SnapshotView, n: int) -> CacheView {
    CacheView {
        layers: Seq::new(
            c.layers.len(),
            |i: int|
                if i < n {
                    restored_layer(c.layers[i], s.lengths[i])
                } else {
                    c.layers[i]
                },
        ),
        ..c
    }
}

/// The first layer that cannot go back, given that one cannot.
pub open spec fn first_restore_failure(c: CacheView, s: SnapshotView, n: int) -> bool {
    &&& 0 <= n < c.layers.len()
    &&& restore_error(c.layers[n], s.lengths[n]) is Some
    &&& forall|i: int| 0 <= i < n ==> restore_error(#[trigger] c.layers[i], s.lengths[i]) is None
}

/// The lengths of a cache.
pub open spec fn snapshot_of(c: CacheView) -> SnapshotView {
    SnapshotView {
        lengths: c.layers.map_values(
            |l: Option<LayerView>|
                match l {
                    Some(l) => Some(l.len),
                    None => None,
                },
        ),
        current_len: c.current_len,
    }
}

/// The cache with nothing in use.
pub open spec fn emptied(c: CacheView) -> CacheView {
    CacheView {
        layers: c.layers.map_values(|l: Option<LayerView>| restored_layer(l, None)),
        current_len: 0,
        ..c
    }
}

/// The keys or values in use, head behind head.
pub open spec fn compact(l: LayerView, buffer: Seq<u32>) -> Seq<u32> {
    grid::grid(
        l.num_heads as nat,
        l.used(),
        |h: int, x: int| grid::cell(buffer, l.stride() as int, h, x),
    )
}

/// The line for a layer that holds nothing.
pub open spec fn no_cache_error(i: nat) -> ErrorView {
    ErrorView::DimensionError("No cache for layer "@ + text::dec(i))
}

proof fn lemma_doubled_grows(c: nat, r: nat)
    ensures
        doubled(c, r) >= c,
    decreases (if c < r { r - c } else { 0 }),
{
    if c < r && c > 0 {
        lemma_doubled_grows(2 * c, r);
    }
}

proof fn lemma_doubled_reaches(c: nat, r: nat)
    requires
        c > 0,
    ensures
        doubled(c, r) >= r,
        doubled(c, r) >= c,
    decreases (if c < r { r - c } else { 0 }),
{
    if c < r {
        lemma_doubled_reaches(2 * c, r);
    }
}

/// Where the rows of all heads fit in memory, so do the shorter rows of one.
proof fn lemma_room(heads: int, capacity: int, dim: int, smaller: int, used: int)
    requires
        0 <= heads,
        0 <= used <= smaller <= capacity,
        0 <= dim,
        heads * (capacity * dim) * 4 <= isize::MAX,
    ensures
        heads > 0 ==> 0 <= used * dim <= smaller * dim <= capacity * dim <= isize::MAX,
        heads * (capacity * dim) <= isize::MAX,
        heads * (smaller * dim) <= heads * (capacity * dim),
{
    assert(0 <= used * dim <= smaller * dim && smaller * dim <= capacity * dim)
        by (nonlinear_arith)
        requires
            0 <= used <= smaller <= capacity,
            0 <= dim,
    ;
    let c = capacity * dim;
    let d = smaller * dim;
    assert(heads > 0 && c >= 0 ==> heads * c >= c) by (nonlinear_arith);
    assert(heads * c >= 0) by (nonlinear_arith)
        requires
            heads >= 0,
            c >= 0,
    ;
    assert(heads * d <= heads * c) by (nonlinear_arith)
        requires
            heads >= 0,
            d <= c,
    ;
}

proof fn lemma_regrown(l: LayerView, buffer: Seq<u32>, capacity: usize, result: Seq<u32>)
    requires
        capacity != l.capacity,
        l.len <= l.capacity <= capacity,
        buffer.len() == l.num_heads * l.stride(),
        result.len() == l.num_heads * ((capacity * l.head_dim) as nat),
        l.num_heads > 0 ==> forall|h: int, x: int|
            0 <= h < l.num_heads && 0 <= x < capacity * l.head_dim ==> #[trigger] grid::cell(
                result,
                capacity * l.head_dim,
                h,
                x,
            ) == grid::copied_cell(
                Seq::new(result.len(), |i: int| 0u32),
                capacity * l.head_dim,
                0,
                buffer,
                l.stride() as int,
                l.used() as int,
                h,
                x,
            ),
    ensures
        result == regrown(l, buffer, capacity),
{
    let stride = (capacity * l.head_dim) as nat;
    let f = |h: int, x: int|
        if x < l.used() {
            grid::cell(buffer, l.stride() as int, h, x)
        } else {
            0u32
        };
    assert forall|h: int, x: int| 0 <= h < l.num_heads && 0 <= x < stride implies #[trigger] grid::cell(
        result,
        stride as int,
        h,
        x,
    ) == f(h, x) by {
        grid::lemma_cell_range(l.num_heads as int, stride as int, h, x);
    }
    grid::lemma_is_grid(result, l.num_heads as nat, stride, f);
}

impl KVCacheLayer {
    spec fn view(&self) -> LayerView {
        LayerView {
            num_heads: self.num_heads,
            head_dim: self.head_dim,
            len: self.current_len,
            capacity: self.capacity_len,
            key: self.key@,
            value: self.value@,
        }
    }

    /// Makes room for `required_len` positions.
    fn ensure_capacity(&mut self, required_len: usize, max_len: usize) -> (r: Result<
        (),
        RsinferError,
    >)
        requires
            old(self).view().well_formed(max_len),
            old(self).current_len <= required_len,
            required_len <= max_len ==> old(self).num_heads * (grown_capacity(
                old(self).capacity_len as nat,
                required_len as nat,
                max_len as nat,
            ) * old(self).head_dim) * 4 <= isize::MAX,
        ensures
            match r {
                Ok(_) => {
                    let c = grown_capacity(
                        old(self).capacity_len as nat,
                        required_len as nat,
                        max_len as nat,
                    ) as usize;
                    &&& required_len <= max_len
                    &&& required_len <= c
                    &&& final(self).view() == grown_layer(old(self).view(), c)
                    &&& final(self).view().well_formed(max_len)
                },
                Err(e) => {
                    &&& required_len > max_len
                    &&& e@ == ErrorView::DimensionError(
                        "KV cache required length "@ + text::dec(required_len as nat)
                            + " exceeds max_len "@ + text::dec(max_len as nat),
                    )
                    &&& *final(self) == *old(self)
                },
            },
    {
        let ghost before = self.view();
        if required_len <= self.capacity_len {
            return Ok(());
        }
        let mut next: usize = if self.capacity_len < 64 {
            64
        } else {
            self.capacity_len
        };
        let ghost start = next as nat;
        while next < required_len
            invariant
                next > 0,
                doubled(next as nat, required_len as nat) == doubled(start, required_len as nat) || (
                next == usize::MAX && doubled(start, required_len as nat) >= usize::MAX),
            decreases usize::MAX - next,
        {
            proof {
                if 2 * next > usize::MAX {
                    lemma_doubled_grows(2 * next as nat, required_len as nat);
                }
            }
            next = next.saturating_add(next);
        }
        if next > max_len {
            next = max_len;
        }
        proof {
            lemma_doubled_reaches(start, required_len as nat);
        }
        if next < required_len {
            let mut message = "KV cache required length ".to_owned();
            text::push_size(&mut message, required_len);
            message.append(" exceeds max_len ");
            text::push_size(&mut message, max_len);
            return Err(RsinferError::DimensionError(message));
        }
        let ghost want = grown_capacity(
            before.capacity as nat,
            required_len as nat,
            max_len as nat,
        );
        assert(next == want);
        let old_capacity: usize = self.capacity_len;
        let heads: usize = self.num_heads;
        let dim: usize = self.head_dim;
        let used: usize = self.current_len;
        proof {
            lemma_room(heads as int, next as int, dim as int, old_capacity as int, used as int);
        }
        let (old_head_len, new_head_len, used_head_len): (usize, usize, usize) = if heads == 0 {
            (0, 0, 0)
        } else {
            (old_capacity * dim, next * dim, used * dim)
        };
        let total: usize = heads * new_head_len;
        let mut key = grid::zeroed(total);
        let mut value = grid::zeroed(total);
        proof {
            if heads == 0 {
                assert(0 * before.stride() == 0) by (nonlinear_arith);
            }
        }
        grid::copy_rows(&mut key, new_head_len, 0, &self.key, old_head_len, used_head_len, heads);
        grid::copy_rows(
            &mut value,
            new_head_len,
            0,
            &self.value,
            old_head_len,
            used_head_len,
            heads,
        );
        proof {
            lemma_regrown(before, before.key, next, key@);
            lemma_regrown(before, before.value, next, value@);
        }
        self.key = key;
        self.value = value;
        self.capacity_len = next;
        Ok(())
    }

    /// Puts `n` positions behind those in use.
    fn append_rows(&mut self, k: &[u32], v: &[u32], n: usize, max_len: usize)
        requires
            old(self).view().well_formed(max_len),
            old(self).current_len + n <= max_len,
            k@.len() == old(self).num_heads * (n * old(self).head_dim),
            v@.len() == old(self).num_heads * (n * old(self).head_dim),
            old(self).num_heads * (grown_capacity(
                old(self).capacity_len as nat,
                (old(self).current_len + n) as nat,
                max_len as nat,
            ) * old(self).head_dim) * 4 <= isize::MAX,
        ensures
            final(self).view() == appended_layer(old(self).view(), k@, v@, n, max_len),
            final(self).view().well_formed(max_len),
    {
        let ghost before = self.view();
        let required: usize = self.current_len + n;
        let grown = self.ensure_capacity(required, max_len);
        assert(grown is Ok);
        let ghost g = self.view();
        let heads: usize = self.num_heads;
        let dim: usize = self.head_dim;
        let capacity: usize = self.capacity_len;
        let len: usize = self.current_len;
        proof {
            lemma_room(heads as int, capacity as int, dim as int, required as int, len as int);
            lemma_room(heads as int, capacity as int, dim as int, required as int, n as int);
            assert(required * dim == len * dim + n * dim) by (nonlinear_arith)
                requires
                    required == len + n,
            ;
        }
        if heads > 0 {
            let new_head_len: usize = n * dim;
            let cache_head_len: usize = capacity * dim;
            let offset: usize = len * dim;
            let ghost key_before = self.key@;
            let ghost value_before = self.value@;
            grid::copy_rows(
                &mut self.key,
                cache_head_len,
                offset,
                k,
                new_head_len,
                new_head_len,
                heads,
            );
            grid::copy_rows(
                &mut self.value,
                cache_head_len,
                offset,
                v,
                new_head_len,
                new_head_len,
                heads,
            );
            proof {
                lemma_extended(g, key_before, k@, n, self.key@);
                lemma_extended(g, value_before, v@, n, self.value@);
            }
        } else {
            proof {
                assert(0 * g.stride() == 0) by (nonlinear_arith);
                assert(extended(g, g.key, k@, n) =~= g.key);
                assert(extended(g, g.value, v@, n) =~= g.value);
            }
        }
        self.current_len = required;
    }
}

proof fn lemma_extended(l: LayerView, buffer: Seq<u32>, new: Seq<u32>, n: usize, result: Seq<u32>)
    requires
        l.len + n <= l.capacity,
        buffer.len() == l.num_heads * l.stride(),
        result.len() == buffer.len(),
        forall|h: int, x: int|
            0 <= h < l.num_heads && 0 <= x < l.stride() ==> #[trigger] grid::cell(
                result,
                l.stride() as int,
                h,
                x,
            ) == grid::copied_cell(
                buffer,
                l.stride() as int,
                l.used() as int,
                new,
                n * l.head_dim,
                n * l.head_dim,
                h,
                x,
            ),
    ensures
        result == extended(l, buffer, new, n),
{
    let f = |h: int, x: int|
        if l.used() <= x < l.used() + n * l.head_dim {
            grid::cell(new, n * l.head_dim, h, x - l.used())
        } else {
            grid::cell(buffer, l.stride() as int, h, x)
        };
    assert forall|h: int, x: int|
        0 <= h < l.num_heads && 0 <= x < l.stride() implies #[trigger] grid::cell(
        result,
        l.stride() as int,
        h,
        x,
    ) == f(h, x) by {}
    grid::lemma_is_grid(result, l.num_heads as nat, l.stride(), f);
}

spec fn layer_view(l: Option<KVCacheLayer>) -> Option<LayerView> {
    match l {
        Some(l) => Some(l.view()),
        None => None,
    }
}

impl View for KVCache {
    type V = CacheView;

    closed spec fn view(&self) -> CacheView {
        CacheView {
            layers: self.layers@.map_values(|l: Option<KVCacheLayer>| layer_view(l)),
            current_len: self.current_len,
            max_len: self.max_len,
        }
    }
}

impl View for KVCacheSnapshot {
    type V = SnapshotView;

    closed spec fn view(&self) -> SnapshotView {
        SnapshotView { lengths: self.layer_lengths@, current_len: self.current_len }
    }
}

impl KVCache {
    /// A cache for `num_layers` layers that holds nothing.
    pub fn new(num_layers: usize, max_len: usize) -> (r: KVCache)
        ensures
            r@.layers == Seq::new(num_layers as nat, |i: int| None::<LayerView>),
            r@.current_len == 0,
            r@.max_len == max_len,
            r@.well_formed(),
    {
        let mut layers: Vec<Option<KVCacheLayer>> = Vec::with_capacity(num_layers);
        let mut i: usize = 0;
        while i < num_layers
            invariant
                i <= num_layers,
                layers.len() == i,
                forall|j: int| 0 <= j < i ==> layers@[j] is None,
            decreases num_layers - i,
        {
            layers.push(None);
            i += 1;
        }
        let r = KVCache { layers, current_len: 0, max_len };
        assert(r@.layers =~= Seq::new(num_layers as nat, |i: int| None::<LayerView>));
        r
    }

    /// Puts the keys and values of new positions, `[num_heads, seq_len, head_dim]` each,
    /// behind those of a layer.
    pub fn append(&mut self, layer_idx: usize, new_k: &Tensor, new_v: &Tensor) -> (r: Result<
        (),
        RsinferError,
    >)
        requires
            old(self)@.well_formed(),
            append_fits(old(self)@, layer_idx as nat, new_k.dims(), new_v.dims()),
        ensures
            final(self)@.well_formed(),
            match append_shape_error(old(self)@, layer_idx as nat, new_k.dims(), new_v.dims()) {
                Some(error) => {
                    &&& r matches Err(e) && e@ == error
                    &&& final(self)@ == old(self)@
                },
                None => {
                    let k = new_k.dims();
                    let l = met_layer(old(self)@, layer_idx as int, k[0], k[2]);
                    match append_layer_error(l, k, old(self)@.max_len) {
                        Some(error) => {
                            &&& r matches Err(e) && e@ == error
                            &&& final(self)@ == with_layer(old(self)@, layer_idx as int, l)
                        },
                        None => {
                            &&& r is Ok
                            &&& final(self)@ == appended_cache(
                                old(self)@,
                                layer_idx as int,
                                new_k.values(),
                                new_v.values(),
                                k,
                            )
                            &&& reads_extended(
                                old(self)@,
                                final(self)@,
                                layer_idx as int,
                                new_k.values(),
                                new_v.values(),
                                k,
                            )
                        },
                    }
                },
            },
    {
        let ghost before = self@;
        let count: usize = self.layers.len();
        if layer_idx >= count {
            let mut message = "Layer index ".to_owned();
            text::push_size(&mut message, layer_idx);
            message.append(" out of range (max ");
            text::push_size(&mut message, count);
            message.append(")");
            return Err(RsinferError::DimensionError(message));
        }
        let k_shape = new_k.shape();
        let v_shape = new_v.shape();
        if k_shape.len() != 3 || v_shape.len() != 3 {
            return Err(
                dimension_error("KV cache append expects [num_heads, seq_len, head_dim] tensors"),
            );
        }
        if k_shape[0] != v_shape[0] || k_shape[1] != v_shape[1] || k_shape[2] != v_shape[2] {
            return Err(
                shape_mismatch(
                    vstd::slice::slice_to_vec(k_shape),
                    vstd::slice::slice_to_vec(v_shape),
                ),
            );
        }
        assert(new_k.dims() =~= new_v.dims());
        let num_heads: usize = k_shape[0];
        let new_seq_len: usize = k_shape[1];
        let head_dim: usize = k_shape[2];
        let max_len: usize = self.max_len;
        let mut layer = match self.layers[layer_idx].take() {
            Some(layer) => layer,
            None => KVCacheLayer {
                key: Vec::new(),
                value: Vec::new(),
                num_heads,
                head_dim,
                current_len: 0,
                capacity_len: 0,
            },
        };
        let ghost l = met_layer(before, layer_idx as int, num_heads, head_dim);
        proof {
            assert(before.layers[layer_idx as int] == layer_view(
                old(self).layers@[layer_idx as int],
            ));
            if before.layers[layer_idx as int] is None {
                assert(layer.view().key =~= Seq::<u32>::empty());
                assert(layer.view().value =~= Seq::<u32>::empty());
                assert(0 * head_dim == 0) by (nonlinear_arith);
                assert(num_heads * 0 == 0) by (nonlinear_arith);
            }
            assert(layer.view() == l);
            assert(l.well_formed(max_len));
        }
        if layer.num_heads != num_heads || layer.head_dim != head_dim {
            let mut expected: Vec<usize> = Vec::new();
            expected.push(layer.num_heads);
            expected.push(layer.current_len);
            expected.push(layer.head_dim);
            assert(expected@ =~= seq![l.num_heads, l.len, l.head_dim]);
            let actual = vstd::slice::slice_to_vec(k_shape);
            self.layers.set(layer_idx, Some(layer));
            assert(self@.layers =~= before.layers.update(layer_idx as int, Some(l)));
            return Err(shape_mismatch(expected, actual));
        }
        let total: u128 = layer.current_len as u128 + new_seq_len as u128;
        if total > max_len as u128 {
            let mut message = "KV cache length ".to_owned();
            text::push_dec(&mut message, total);
            message.append(" exceeds max_len ");
            text::push_size(&mut message, max_len);
            self.layers.set(layer_idx, Some(layer));
            assert(self@.layers =~= before.layers.update(layer_idx as int, Some(l)));
            return Err(RsinferError::DimensionError(message));
        }
        let k = new_k.standard_values();
        let v = new_v.standard_values();
        proof {
            assert(new_k.dims() =~= seq![num_heads, new_seq_len, head_dim]);
            assert(new_v.dims() =~= seq![num_heads, new_seq_len, head_dim]);
            crate::tensor::array::lemma_numel3(num_heads, new_seq_len, head_dim);
            assert(num_heads * new_seq_len * head_dim == num_heads * (new_seq_len * head_dim))
                by (nonlinear_arith);
        }
        layer.append_rows(&k, &v, new_seq_len, max_len);
        if layer_idx == 0 {
            self.current_len = layer.current_len;
        }
        self.layers.set(layer_idx, Some(layer));
        proof {
            let a = appended_layer(l, k@, v@, new_seq_len, max_len);
            assert(self@.layers =~= before.layers.update(layer_idx as int, Some(a)));
            let dims = new_k.dims();
            let i = layer_idx as int;
            let after = appended_cache(before, i, k@, v@, dims);
            assert(self@ =~= after);
            assert forall|h: int| 0 <= h < dims[0] implies {
                let n = (dims[1] * dims[2]) as nat;
                &&& #[trigger] read_keys(after, i, h) == read_keys(before, i, h) + row(k@, n, h)
                &&& read_values(after, i, h) == read_values(before, i, h) + row(v@, n, h)
            } by {
                law_append_is_read(before, i, k@, v@, dims, h);
            }
        }
        Ok(())
    }

    /// The keys and values of a layer as they lie in memory.
    pub fn get_cached(&self, layer_idx: usize) -> (r: Result<CachedKV<'_>, RsinferError>)
        ensures
            match r {
                Ok(c) => layer_idx < self@.layers.len() && self@.layers[layer_idx as int] == Some(
                    LayerView {
                        num_heads: c.num_heads,
                        head_dim: c.head_dim,
                        len: c.seq_len,
                        capacity: c.capacity_len,
                        key: c.key@,
                        value: c.value@,
                    },
                ),
                Err(e) => {
                    &&& layer_idx >= self@.layers.len() || self@.layers[layer_idx as int] is None
                    &&& e@ == no_cache_error(layer_idx as nat)
                },
            },
    {
        if layer_idx < self.layers.len() {
            assert(self@.layers[layer_idx as int] == layer_view(self.layers@[layer_idx as int]));
            match &self.layers[layer_idx] {
                Some(layer) => {
                    return Ok(
                        CachedKV {
                            key: layer.key.as_slice(),
                            value: layer.value.as_slice(),
                            num_heads: layer.num_heads,
                            seq_len: layer.current_len,
                            head_dim: layer.head_dim,
                            capacity_len: layer.capacity_len,
                        },
                    );
                },
                None => {},
            }
        }
        let mut message = "No cache for layer ".to_owned();
        text::push_size(&mut message, layer_idx);
        Err(RsinferError::DimensionError(message))
    }

    /// The keys and values in use of a layer, `[num_heads, seq_len, head_dim]` each.
    pub fn get(&self, layer_idx: usize) -> (r: Result<(Tensor, Tensor), RsinferError>)
        requires
            self@.well_formed(),
        ensures
            match r {
                Ok(pair) => {
                    &&& layer_idx < self@.layers.len()
                    &&& self@.layers[layer_idx as int] is Some
                    &&& {
                        let l = self@.layers[layer_idx as int]->0;
                        &&& pair.0.dims() == seq![l.num_heads, l.len, l.head_dim]
                        &&& pair.1.dims() == seq![l.num_heads, l.len, l.head_dim]
                        &&& pair.0.values() == compact(l, l.key)
                        &&& pair.1.values() == compact(l, l.value)
                        &&& pair.0.row_major() && pair.1.row_major()
                        &&& pair.0.well_formed() && pair.1.well_formed()
                    }
                },
                Err(e) => if layer_idx < self@.layers.len()
                    && self@.layers[layer_idx as int] is Some {
                    let l = self@.layers[layer_idx as int]->0;
                    tensor::build_error(
                        seq![l.num_heads, l.len, l.head_dim],
                        (l.num_heads * l.used()) as nat,
                    ) == Some(e@)
                } else {
                    e@ == no_cache_error(layer_idx as nat)
                },
            },
    {
        let cached = match self.get_cached(layer_idx) {
            Ok(c) => c,
            Err(e) => {
                return Err(e);
            },
        };
        let ghost l = self@.layers[layer_idx as int]->0;
        assert(l.well_formed(self@.max_len));
        let heads: usize = cached.num_heads;
        let mut shape: Vec<usize> = Vec::new();
        shape.push(heads);
        shape.push(cached.seq_len);
        shape.push(cached.head_dim);
        assert(shape@ =~= seq![l.num_heads, l.len, l.head_dim]);
        let key = compact_rows(
            cached.key,
            heads,
            cached.seq_len,
            cached.capacity_len,
            cached.head_dim,
            Ghost(l),
        );
        let value = compact_rows(
            cached.value,
            heads,
            cached.seq_len,
            cached.capacity_len,
            cached.head_dim,
            Ghost(l),
        );
        let first = match Tensor::from_f32_vec(&shape, key) {
            Ok(t) => t,
            Err(e) => {
                return Err(e);
            },
        };
        match Tensor::from_f32_vec(&shape, value) {
            Ok(t) => Ok((first, t)),
            Err(e) => Err(e),
        }
    }

    /// The number of positions that the first layer has seen.
    pub fn current_len(&self) -> (r: usize)
        ensures
            r == self@.current_len,
    {
        self.current_len
    }

    /// The number of positions that there can be.
    pub fn max_len(&self) -> (r: usize)
        ensures
            r == self@.max_len,
    {
        self.max_len
    }

    /// Sets the number of positions that the cache holds in all, where a device keeps some of its
    /// layers.
    pub fn set_current_len(&mut self, len: usize) -> (r: Result<(), RsinferError>)
        ensures
            match r {
                Ok(()) => {
                    &&& len <= old(self)@.max_len
                    &&& final(self)@ == (CacheView { current_len: len, ..old(self)@ })
                },
                Err(e) => {
                    &&& len > old(self)@.max_len
                    &&& e@ == ErrorView::DimensionError(
                        "KV cache length "@ + text::dec(len as nat) + " exceeds max_len "@
                            + text::dec(old(self)@.max_len as nat),
                    )
                    &&& final(self)@ == old(self)@
                },
            },
    {
        if len > self.max_len {
            let mut s = "KV cache length ".to_owned();
            text::push_size(&mut s, len);
            s.append(" exceeds max_len ");
            text::push_size(&mut s, self.max_len);
            return Err(RsinferError::DimensionError(s));
        }
        self.current_len = len;
        Ok(())
    }

    /// The lengths of the layers.
    pub fn snapshot(&self) -> (r: KVCacheSnapshot)
        ensures
            r@ == snapshot_of(self@),
    {
        let mut layer_lengths: Vec<Option<usize>> = Vec::with_capacity(self.layers.len());
        let mut i: usize = 0;
        while i < self.layers.len()
            invariant
                i <= self.layers.len(),
                layer_lengths.len() == i,
                forall|j: int|
                    0 <= j < i ==> layer_lengths@[j] == #[trigger] snapshot_of(self@).lengths[j],
            decreases self.layers.len() - i,
        {
            assert(self@.layers[i as int] == layer_view(self.layers@[i as int]));
            match &self.layers[i] {
                Some(layer) => {
                    layer_lengths.push(Some(layer.current_len));
                },
                None => {
                    layer_lengths.push(None);
                },
            }
            i += 1;
        }
        let r = KVCacheSnapshot { layer_lengths, current_len: self.current_len };
        assert(r@.lengths =~= snapshot_of(self@).lengths);
        r
    }

    /// Sets the layers back to the lengths of a snapshot.  Where a layer cannot go back, those
    /// before it have done so.
    pub fn restore(&mut self, snapshot: KVCacheSnapshot) -> (r: Result<(), RsinferError>)
        requires
            old(self)@.well_formed(),
        ensures
            final(self)@.well_formed(),
            match r {
                Ok(_) => {
                    &&& snapshot@.lengths.len() == old(self)@.layers.len()
                    &&& forall|i: int|
                        0 <= i < old(self)@.layers.len() ==> restore_error(
                            #[trigger] old(self)@.layers[i],
                            snapshot@.lengths[i],
                        ) is None
                    &&& final(self)@ == (CacheView {
                        current_len: snapshot@.current_len,
                        ..restored_front(
                            old(self)@,
                            snapshot@,
                            old(self)@.layers.len() as int,
                        )
                    })
                },
                Err(e) => if snapshot@.lengths.len() != old(self)@.layers.len() {
                    &&& e@ == ErrorView::DimensionError(
                        "KV cache snapshot layer count "@ + text::dec(snapshot@.lengths.len())
                            + " does not match cache layer count "@ + text::dec(
                            old(self)@.layers.len(),
                        ),
                    )
                    &&& final(self)@ == old(self)@
                } else {
                    exists|n: int| #[trigger]
                        first_restore_failure(old(self)@, snapshot@, n) && restore_error(
                            old(self)@.layers[n],
                            snapshot@.lengths[n],
                        ) == Some(e@) && final(self)@ == restored_front(old(self)@, snapshot@, n)
                },
            },
    {
        let ghost before = self@;
        let count: usize = self.layers.len();
        let given: usize = snapshot.layer_lengths.len();
        if given != count {
            let mut message = "KV cache snapshot layer count ".to_owned();
            text::push_size(&mut message, given);
            message.append(" does not match cache layer count ");
            text::push_size(&mut message, count);
            return Err(RsinferError::DimensionError(message));
        }
        let mut i: usize = 0;
        assert(self@.layers =~= restored_front(before, snapshot@, 0).layers);
        while i < count
            invariant
                i <= count,
                count == self.layers.len(),
                count == before.layers.len(),
                count == snapshot@.lengths.len(),
                before.well_formed(),
                before == old(self)@,
                self@ == restored_front(before, snapshot@, i as int),
                self@.well_formed(),
                forall|j: int|
                    0 <= j < i ==> restore_error(
                        #[trigger] before.layers[j],
                        snapshot@.lengths[j],
                    ) is None,
            decreases count - i,
        {
            let ghost mid = self@;
            assert(mid.layers[i as int] == before.layers[i as int]);
            assert(mid.layers[i as int] == layer_view(self.layers@[i as int]));
            let length: Option<usize> = snapshot.layer_lengths[i];
            assert(length == snapshot@.lengths[i as int]);
            let slot = self.layers[i].take();
            match slot {
                Some(mut layer) => {
                    let ghost old_layer = layer.view();
                    match length {
                        Some(n) => {
                            if n > layer.capacity_len {
                                let mut message = "KV cache snapshot length ".to_owned();
                                text::push_size(&mut message, n);
                                message.append(" exceeds layer capacity");
                                self.layers.set(i, Some(layer));
                                assert(self@.layers =~= mid.layers);
                                assert(first_restore_failure(before, snapshot@, i as int));
                                return Err(RsinferError::DimensionError(message));
                            }
                            layer.current_len = n;
                        },
                        None => {
                            layer.current_len = 0;
                        },
                    }
                    self.layers.set(i, Some(layer));
                },
                None => {
                    assert(self@.layers =~= mid.layers);
                    match length {
                        Some(n) => {
                            if n != 0 {
                                assert(first_restore_failure(before, snapshot@, i as int));
                                return Err(
                                    dimension_error("KV cache snapshot references missing layer"),
                                );
                            }
                        },
                        None => {},
                    }
                },
            }
            proof {
                assert(layer_view(self.layers@[i as int]) == restored_layer(
                    before.layers[i as int],
                    length,
                ));
                assert forall|j: int| 0 <= j < count && j != i implies #[trigger] self@.layers[j]
                    == mid.layers[j] by {
                    assert(self@.layers[j] == layer_view(self.layers@[j]));
                }
                assert(self@.layers =~= restored_front(before, snapshot@, i + 1).layers);
            }
            i += 1;
        }
        self.current_len = snapshot.current_len;
        Ok(())
    }

    /// Takes everything out of use, for a new session.
    pub fn reset(&mut self)
        requires
            old(self)@.well_formed(),
        ensures
            final(self)@ == emptied(old(self)@),
            final(self)@.well_formed(),
    {
        let ghost before = self@;
        let count: usize = self.layers.len();
        let mut i: usize = 0;
        assert(self@.layers =~= Seq::new(count as nat, |j: int| before.layers[j]));
        while i < count
            invariant
                i <= count,
                count == self.layers.len(),
                count == before.layers.len(),
                before.well_formed(),
                self@.max_len == before.max_len,
                self@.layers == Seq::new(
                    count as nat,
                    |j: int|
                        if j < i {
                            restored_layer(before.layers[j], None)
                        } else {
                            before.layers[j]
                        },
                ),
            decreases count - i,
        {
            let ghost mid = self@;
            assert(mid.layers[i as int] == layer_view(self.layers@[i as int]));
            match self.layers[i].take() {
                Some(mut layer) => {
                    layer.current_len = 0;
                    self.layers.set(i, Some(layer));
                },
                None => {},
            }
            proof {
                assert(layer_view(self.layers@[i as int]) == restored_layer(
                    before.layers[i as int],
                    None,
                ));
                assert forall|j: int| 0 <= j < count && j != i implies #[trigger] self@.layers[j]
                    == mid.layers[j] by {
                    assert(self@.layers[j] == layer_view(self.layers@[j]));
                }
            }
            i += 1;
            assert(self@.layers =~= Seq::new(
                count as nat,
                |j: int|
                    if j < i {
                        restored_layer(before.layers[j], None)
                    } else {
                        before.layers[j]
                    },
            ));
        }
        self.current_len = 0;
        assert(self@.layers =~= emptied(before).layers);
    }
}

/// The numbers in use of every head, head behind head.
fn compact_rows(
    buffer: &[u32],
    heads: usize,
    len: usize,
    capacity: usize,
    dim: usize,
    Ghost(l): Ghost<LayerView>,
) -> (r: Vec<u32>)
    requires
        heads == l.num_heads,
        len == l.len,
        capacity == l.capacity,
        dim == l.head_dim,
        len <= capacity,
        buffer@.len() == heads * l.stride(),
    ensures
        r@ == compact(l, buffer@),
        r@.len() == l.num_heads * l.used(),
{
    if heads == 0 {
        let r: Vec<u32> = Vec::new();
        assert(0 * l.used() == 0) by (nonlinear_arith);
        assert(r@ =~= compact(l, buffer@));
        return r;
    }
    let size: usize = buffer.len();
    proof {
        let stride = l.stride() as int;
        assert(heads * stride >= stride) by (nonlinear_arith)
            requires
                heads >= 1,
                stride >= 0,
        ;
        assert(0 <= len * dim <= capacity * dim) by (nonlinear_arith)
            requires
                0 <= len <= capacity,
                0 <= dim,
        ;
        let used = l.used() as int;
        assert(heads * used <= heads * stride) by (nonlinear_arith)
            requires
                heads >= 1,
                used <= stride,
        ;
    }
    let row: usize = len * dim;
    let stride: usize = capacity * dim;
    let total: usize = heads * row;
    let mut out = grid::zeroed(total);
    grid::copy_rows(&mut out, row, 0, buffer, stride, row, heads);
    proof {
        let f = |h: int, x: int| grid::cell(buffer@, l.stride() as int, h, x);
        grid::lemma_is_grid(out@, l.num_heads as nat, l.used(), f);
    }
    out
}

/// Row `h` of a buffer of rows of the given width.
pub open spec fn row(s: Seq<u32>, width: nat, h: int) -> Seq<u32> {
    Seq::new(width, |x: int| grid::cell(s, width as int, h, x))
}

proof fn lemma_stride_order(a: int, b: int, dim: int)
    requires
        0 <= a <= b,
        0 <= dim,
    ensures
        0 <= a * dim <= b * dim,
{
    assert(0 <= a * dim <= b * dim) by (nonlinear_arith)
        requires
            0 <= a <= b,
            0 <= dim,
    ;
}

proof fn lemma_grown_capacity(capacity: nat, required: nat, max_len: nat)
    requires
        capacity <= max_len,
        required <= max_len,
    ensures
        required <= grown_capacity(capacity, required, max_len) <= max_len,
        capacity <= grown_capacity(capacity, required, max_len),
{
    let start = if capacity < 64 {
        64
    } else {
        capacity
    };
    lemma_doubled_reaches(start, required);
}

/// The cells of a layer after an append: the old ones, then the new ones.
proof fn lemma_appended_cell(
    l: LayerView,
    buffer: Seq<u32>,
    new: Seq<u32>,
    n: usize,
    max_len: usize,
    h: int,
    x: int,
)
    requires
        l.well_formed(max_len),
        l.len + n <= max_len,
        0 <= h < l.num_heads,
        0 <= x < (l.len + n) * l.head_dim,
    ensures
        ({
            let c = grown_capacity(l.capacity as nat, (l.len + n) as nat, max_len as nat) as usize;
            let g = grown_layer(l, c);
            grid::cell(
                extended(g, regrown(l, buffer, c), new, n),
                c * l.head_dim,
                h,
                x,
            ) == (if x < l.used() {
                grid::cell(buffer, l.stride() as int, h, x)
            } else {
                grid::cell(new, n * l.head_dim, h, x - l.used())
            })
        }),
{
    lemma_grown_capacity(l.capacity as nat, (l.len + n) as nat, max_len as nat);
    let c = grown_capacity(l.capacity as nat, (l.len + n) as nat, max_len as nat) as usize;
    let g = grown_layer(l, c);
    lemma_stride_order(l.len + n, c as int, l.head_dim as int);
    lemma_stride_order(l.len as int, l.capacity as int, l.head_dim as int);
    assert((l.len + n) * l.head_dim == l.len * l.head_dim + n * l.head_dim) by (nonlinear_arith);
    let f = |h: int, x: int|
        if g.used() <= x < g.used() + n * g.head_dim {
            grid::cell(new, n * g.head_dim, h, x - g.used())
        } else {
            grid::cell(regrown(l, buffer, c), g.stride() as int, h, x)
        };
    grid::lemma_grid_cell(g.num_heads as nat, g.stride(), f, h, x);
    assert(extended(g, regrown(l, buffer, c), new, n) == grid::grid(
        g.num_heads as nat,
        g.stride(),
        f,
    ));
    if x < l.used() && c != l.capacity {
        let old = |h: int, x: int|
            if x < l.used() {
                grid::cell(buffer, l.stride() as int, h, x)
            } else {
                0u32
            };
        grid::lemma_grid_cell(l.num_heads as nat, (c * l.head_dim) as nat, old, h, x);
        assert(regrown(l, buffer, c) == grid::grid(
            l.num_heads as nat,
            (c * l.head_dim) as nat,
            old,
        ));
    }
}

/// Law: an append leaves every head with what it held, followed by its new row.
pub proof fn law_append_extends(
    l: LayerView,
    k: Seq<u32>,
    v: Seq<u32>,
    n: usize,
    max_len: usize,
    h: int,
)
    requires
        l.well_formed(max_len),
        l.len + n <= max_len,
        0 <= h < l.num_heads,
    ensures
        ({
            let a = appended_layer(l, k, v, n, max_len);
            &&& a.head_keys(h) == l.head_keys(h) + row(k, (n * l.head_dim) as nat, h)
            &&& a.head_values(h) == l.head_values(h) + row(v, (n * l.head_dim) as nat, h)
        }),
{
    let a = appended_layer(l, k, v, n, max_len);
    lemma_grown_capacity(l.capacity as nat, (l.len + n) as nat, max_len as nat);
    assert((l.len + n) * l.head_dim == l.len * l.head_dim + n * l.head_dim) by (nonlinear_arith);
    lemma_stride_order(0, l.len as int, l.head_dim as int);
    lemma_stride_order(0, n as int, l.head_dim as int);
    assert forall|x: int| 0 <= x < a.used() implies a.head_keys(h)[x] == (l.head_keys(h) + row(
        k,
        (n * l.head_dim) as nat,
        h,
    ))[x] && a.head_values(h)[x] == (l.head_values(h) + row(v, (n * l.head_dim) as nat, h))[x] by {
        lemma_appended_cell(l, l.key, k, n, max_len, h, x);
        lemma_appended_cell(l, l.value, v, n, max_len, h, x);
    }
    assert(a.head_keys(h) =~= l.head_keys(h) + row(k, (n * l.head_dim) as nat, h));
    assert(a.head_values(h) =~= l.head_values(h) + row(v, (n * l.head_dim) as nat, h));
}

/// Law: what `get` returns holds the keys and values in use, head behind head.
pub proof fn law_get_reads_heads(l: LayerView, h: int)
    requires
        0 <= h < l.num_heads,
    ensures
        row(compact(l, l.key), l.used(), h) == l.head_keys(h),
        row(compact(l, l.value), l.used(), h) == l.head_values(h),
{
    assert forall|x: int| 0 <= x < l.used() implies row(compact(l, l.key), l.used(), h)[x]
        == l.head_keys(h)[x] && row(compact(l, l.value), l.used(), h)[x] == l.head_values(h)[x] by {
        grid::lemma_grid_cell(
            l.num_heads as nat,
            l.used(),
            |h: int, x: int| grid::cell(l.key, l.stride() as int, h, x),
            h,
            x,
        );
        grid::lemma_grid_cell(
            l.num_heads as nat,
            l.used(),
            |h: int, x: int| grid::cell(l.value, l.stride() as int, h, x),
            h,
            x,
        );
    }
    assert(row(compact(l, l.key), l.used(), h) =~= l.head_keys(h));
    assert(row(compact(l, l.value), l.used(), h) =~= l.head_values(h));
}

/// The keys of head `h` in what `get` returns for layer `i`; nothing where it has no cache.
pub open spec fn read_keys(c: CacheView, i: int, h: int) -> Seq<u32> {
    match c.layers[i] {
        Some(l) => row(compact(l, l.key), l.used(), h),
        None => Seq::empty(),
    }
}

/// The values of head `h` in what `get` returns for layer `i`; nothing where it has no cache.
pub open spec fn read_values(c: CacheView, i: int, h: int) -> Seq<u32> {
    match c.layers[i] {
        Some(l) => row(compact(l, l.value), l.used(), h),
        None => Seq::empty(),
    }
}

/// Whether what is read of a layer is, head by head, what was read of it before, followed by rows of
/// the given sizes.
pub open spec fn reads_extended(
    before: CacheView,
    after: CacheView,
    i: int,
    k: Seq<u32>,
    v: Seq<u32>,
    dims: Seq<usize>,
) -> bool {
    let n = (dims[1] * dims[2]) as nat;
    forall|h: int|
        0 <= h < dims[0] ==> {
            &&& #[trigger] read_keys(after, i, h) == read_keys(before, i, h) + row(k, n, h)
            &&& read_values(after, i, h) == read_values(before, i, h) + row(v, n, h)
        }
}

/// Law: what is read of a layer after an append is, head by head, what was read of it before,
/// followed by the new rows; also where nothing was there before and where the storage grows.
/// What is read of the other layers stays, and the length of the cache is that of its first
/// layer.
pub proof fn law_append_is_read(
    c: CacheView,
    i: int,
    k: Seq<u32>,
    v: Seq<u32>,
    dims: Seq<usize>,
    h: int,
)
    requires
        c.well_formed(),
        0 <= i < c.layers.len(),
        dims.len() == 3,
        append_layer_error(met_layer(c, i, dims[0], dims[2]), dims, c.max_len) is None,
        0 <= h < dims[0],
    ensures
        ({
            let d = appended_cache(c, i, k, v, dims);
            let n = (dims[1] * dims[2]) as nat;
            &&& read_keys(d, i, h) == read_keys(c, i, h) + row(k, n, h)
            &&& read_values(d, i, h) == read_values(c, i, h) + row(v, n, h)
            &&& forall|j: int|
                0 <= j < c.layers.len() && j != i ==> #[trigger] d.layers[j] == c.layers[j]
            &&& d.layers.len() == c.layers.len()
            &&& d.current_len == (if i == 0 {
                met_layer(c, i, dims[0], dims[2]).len + dims[1]
            } else {
                c.current_len as int
            })
        }),
{
    let l = met_layer(c, i, dims[0], dims[2]);
    let d = appended_cache(c, i, k, v, dims);
    let a = d.layers[i]->0;
    assert(l.well_formed(c.max_len)) by (nonlinear_arith)
        requires
            c.well_formed(),
            0 <= i < c.layers.len(),
            l == met_layer(c, i, dims[0], dims[2]),
    ;
    law_append_extends(l, k, v, dims[1], c.max_len, h);
    law_get_reads_heads(a, h);
    law_get_reads_heads(l, h);
    if c.layers[i] is None {
        assert(l.used() == 0) by (nonlinear_arith)
            requires
                l.len == 0,
                l.used() == l.len * l.head_dim,
        ;
        assert(l.head_keys(h) =~= Seq::<u32>::empty());
        assert(l.head_values(h) =~= Seq::<u32>::empty());
    }
}

/// Whether layer `b` still holds what layer `a` has in use, at the front of every head.
pub open spec fn layer_keeps(a: LayerView, b: LayerView) -> bool {
    &&& a.num_heads == b.num_heads
    &&& a.head_dim == b.head_dim
    &&& a.len <= b.len
    &&& forall|h: int, x: int|
        0 <= h < a.num_heads && 0 <= x < a.used() ==> {
            &&& #[trigger] grid::cell(b.key, b.stride() as int, h, x) == grid::cell(
                a.key,
                a.stride() as int,
                h,
                x,
            )
            &&& grid::cell(b.value, b.stride() as int, h, x) == grid::cell(
                a.value,
                a.stride() as int,
                h,
                x,
            )
        }
}

/// Whether cache `b` still holds what cache `a` has in use.
pub open spec fn cache_keeps(a: CacheView, b: CacheView) -> bool {
    &&& a.layers.len() == b.layers.len()
    &&& a.max_len == b.max_len
    &&& forall|i: int|
        0 <= i < a.layers.len() && a.layers[i] is Some ==> (#[trigger] b.layers[i]) is Some
            && layer_keeps(a.layers[i]->0, b.layers[i]->0)
}

/// Law: a cache keeps what it holds when it keeps it twice.
pub proof fn law_keeps_chains(a: CacheView, b: CacheView, c: CacheView)
    requires
        cache_keeps(a, b),
        cache_keeps(b, c),
    ensures
        cache_keeps(a, c),
{
    assert forall|i: int| 0 <= i < a.layers.len() && a.layers[i] is Some implies (
    #[trigger] c.layers[i]) is Some && layer_keeps(a.layers[i]->0, c.layers[i]->0) by {
        assert(b.layers[i] is Some);
        assert(c.layers[i] is Some);
        let x = a.layers[i]->0;
        let y = b.layers[i]->0;
        let z = c.layers[i]->0;
        assert(layer_keeps(x, y) && layer_keeps(y, z));
        lemma_stride_order(x.len as int, y.len as int, x.head_dim as int);
        assert forall|h: int, p: int| 0 <= h < x.num_heads && 0 <= p < x.used() implies {
            &&& #[trigger] grid::cell(z.key, z.stride() as int, h, p) == grid::cell(
                x.key,
                x.stride() as int,
                h,
                p,
            )
            &&& grid::cell(z.value, z.stride() as int, h, p) == grid::cell(
                x.value,
                x.stride() as int,
                h,
                p,
            )
        } by {
            assert(p < y.used());
            assert(grid::cell(y.key, y.stride() as int, h, p) == grid::cell(
                x.key,
                x.stride() as int,
                h,
                p,
            ));
            assert(grid::cell(z.key, z.stride() as int, h, p) == grid::cell(
                y.key,
                y.stride() as int,
                h,
                p,
            ));
        }
        assert(x.len <= z.len);
        assert(layer_keeps(x, z));
    }
}

/// Law: an append keeps what every layer holds.
pub proof fn law_append_keeps(c: CacheView, i: int, k: Seq<u32>, v: Seq<u32>, dims: Seq<usize>)
    requires
        c.well_formed(),
        0 <= i < c.layers.len(),
        dims.len() == 3,
        append_layer_error(met_layer(c, i, dims[0], dims[2]), dims, c.max_len) is None,
    ensures
        cache_keeps(
            c,
            with_layer(
                c,
                i,
                appended_layer(met_layer(c, i, dims[0], dims[2]), k, v, dims[1], c.max_len),
            ),
        ),
{
    let l = met_layer(c, i, dims[0], dims[2]);
    let n = dims[1];
    let a = appended_layer(l, k, v, n, c.max_len);
    let d = with_layer(c, i, a);
    assert forall|j: int| 0 <= j < c.layers.len() && c.layers[j] is Some implies (
    #[trigger] d.layers[j]) is Some && layer_keeps(c.layers[j]->0, d.layers[j]->0) by {
        if j == i {
            assert(l.well_formed(c.max_len));
            lemma_grown_capacity(l.capacity as nat, (l.len + n) as nat, c.max_len as nat);
            lemma_stride_order(l.len as int, l.len + n, l.head_dim as int);
            assert forall|h: int, x: int| 0 <= h < l.num_heads && 0 <= x < l.used() implies {
                &&& #[trigger] grid::cell(a.key, a.stride() as int, h, x) == grid::cell(
                    l.key,
                    l.stride() as int,
                    h,
                    x,
                )
                &&& grid::cell(a.value, a.stride() as int, h, x) == grid::cell(
                    l.value,
                    l.stride() as int,
                    h,
                    x,
                )
            } by {
                lemma_appended_cell(l, l.key, k, n, c.max_len, h, x);
                lemma_appended_cell(l, l.value, v, n, c.max_len, h, x);
            }
        }
    }
}

/// Law: a snapshot brings back what was in use when it was taken, after anything that keeps it.
pub proof fn law_restore_brings_back(a: CacheView, b: CacheView)
    requires
        a.well_formed(),
        b.well_formed(),
        cache_keeps(a, b),
    ensures
        snapshot_of(a).lengths.len() == b.layers.len(),
        forall|i: int|
            0 <= i < b.layers.len() ==> restore_error(
                #[trigger] b.layers[i],
                snapshot_of(a).lengths[i],
            ) is None,
        forall|i: int, h: int|
            #![trigger a.layers[i]->0.head_keys(h)]
            0 <= i < a.layers.len() && a.layers[i] is Some && 0 <= h < (a.layers[i]->0).num_heads
                ==> {
                let r = restored_front(b, snapshot_of(a), b.layers.len() as int).layers[i];
                &&& r is Some
                &&& (r->0).len == (a.layers[i]->0).len
                &&& (r->0).head_keys(h) == (a.layers[i]->0).head_keys(h)
                &&& (r->0).head_values(h) == (a.layers[i]->0).head_values(h)
            },
        forall|i: int|
            0 <= i < a.layers.len() && (#[trigger] a.layers[i]) is None ==> {
                let r = restored_front(b, snapshot_of(a), b.layers.len() as int).layers[i];
                r is Some ==> (r->0).len == 0
            },
{
    let s = snapshot_of(a);
    assert forall|i: int| 0 <= i < b.layers.len() implies restore_error(
        #[trigger] b.layers[i],
        s.lengths[i],
    ) is None by {
        if a.layers[i] is Some {
            assert(b.layers[i] is Some);
        }
    }
    assert forall|i: int, h: int|
        #![trigger a.layers[i]->0.head_keys(h)]
        0 <= i < a.layers.len() && a.layers[i] is Some && 0 <= h < (a.layers[i]->0).num_heads implies {
        let r = restored_front(b, s, b.layers.len() as int).layers[i];
        &&& r is Some
        &&& (r->0).len == (a.layers[i]->0).len
        &&& (r->0).head_keys(h) == (a.layers[i]->0).head_keys(h)
        &&& (r->0).head_values(h) == (a.layers[i]->0).head_values(h)
    } by {
        assert(b.layers[i] is Some);
        let r = restored_front(b, s, b.layers.len() as int).layers[i];
        let x = a.layers[i]->0;
        let y = b.layers[i]->0;
        assert((r->0).head_keys(h) =~= x.head_keys(h)) by {
            assert forall|p: int| 0 <= p < x.used() implies (r->0).head_keys(h)[p] == x.head_keys(
                h,
            )[p] by {
                assert(grid::cell(y.key, y.stride() as int, h, p) == grid::cell(
                    x.key,
                    x.stride() as int,
                    h,
                    p,
                ));
            }
        }
        assert((r->0).head_values(h) =~= x.head_values(h)) by {
            assert forall|p: int| 0 <= p < x.used() implies (r->0).head_values(h)[p]
                == x.head_values(h)[p] by {
                assert(grid::cell(y.key, y.stride() as int, h, p) == grid::cell(
                    x.key,
                    x.stride() as int,
                    h,
                    p,
                ));
            }
        }
    }
}

/// Law: after a reset nothing is in use.
pub proof fn law_reset_empties(c: CacheView)
    ensures
        emptied(c).current_len == 0,
        forall|i: int|
            0 <= i < c.layers.len() && (#[trigger] emptied(c).layers[i]) is Some ==> (
            emptied(c).layers[i]->0).used() == 0,
{
    assert forall|i: int| 0 <= i < c.layers.len() && (#[trigger] emptied(c).layers[i]) is Some implies (
    emptied(c).layers[i]->0).used() == 0 by {
        let l = emptied(c).layers[i]->0;
        assert(0 * l.head_dim == 0) by (nonlinear_arith);
    }
}

/// Law: an append is taken where the layer is there, keys and values have one shape of three axes
/// that suits what the layer holds, if anything, and the positions have room.
pub proof fn law_what_an_append_takes(c: CacheView, i: nat, k: Seq<usize>, v: Seq<usize>)
    ensures
        append_shape_error(c, i, k, v) is None <==> i < c.layers.len() && k.len() == 3 && v == k,
        append_shape_error(c, i, k, v) is None ==> (append_layer_error(
            met_layer(c, i as int, k[0], k[2]),
            k,
            c.max_len,
        ) is None <==> match c.layers[i as int] {
            Some(l) => l.num_heads == k[0] && l.head_dim == k[2] && l.len + k[1] <= c.max_len,
            None => k[1] <= c.max_len,
        }),
{
}

/// Law: in memory each head has room for as many positions as the layer can take, position behind
/// position; a new position stands there as it was given, and those before it where they stood among
/// the positions of their head.
pub proof fn law_positions_lie_in_order(
    l: LayerView,
    k: Seq<u32>,
    v: Seq<u32>,
    n: usize,
    max_len: usize,
    h: int,
    p: int,
    x: int,
)
    requires
        l.well_formed(max_len),
        l.len + n <= max_len,
        0 <= h < l.num_heads,
        0 <= p < l.len + n,
        0 <= x < l.head_dim,
    ensures
        ({
            let a = appended_layer(l, k, v, n, max_len);
            let dim = l.head_dim as int;
            let at = h * (a.capacity * dim) + (p * dim + x);
            &&& a.len == l.len + n
            &&& a.num_heads == l.num_heads && a.head_dim == l.head_dim
            &&& a.len <= a.capacity <= max_len
            &&& a.key[at] == (if p < l.len {
                l.key[h * (l.capacity * dim) + (p * dim + x)]
            } else {
                k[h * (n * dim) + ((p - l.len) * dim + x)]
            })
            &&& a.value[at] == (if p < l.len {
                l.value[h * (l.capacity * dim) + (p * dim + x)]
            } else {
                v[h * (n * dim) + ((p - l.len) * dim + x)]
            })
        }),
{
    let dim = l.head_dim as int;
    let y = p * dim + x;
    lemma_grown_capacity(l.capacity as nat, (l.len + n) as nat, max_len as nat);
    assert(0 <= y < (l.len + n) * dim) by (nonlinear_arith)
        requires
            y == p * dim + x,
            0 <= p < l.len + n,
            0 <= x < dim,
    ;
    if p < l.len {
        assert(y < l.len * dim) by (nonlinear_arith)
            requires
                y == p * dim + x,
                p < l.len,
                0 <= x < dim,
        ;
    } else {
        assert(y >= l.len * dim && y - l.len * dim == (p - l.len) * dim + x) by (nonlinear_arith)
            requires
                y == p * dim + x,
                p >= l.len,
                0 <= x,
                dim >= 0,
        ;
    }
    lemma_appended_cell(l, l.key, k, n, max_len, h, y);
    lemma_appended_cell(l, l.value, v, n, max_len, h, y);
}

/// Law: a snapshot holds the length of every layer and of the cache; going back to it gives each
/// layer that length and touches no number.
pub proof fn law_snapshot_holds_lengths(c: CacheView, s: SnapshotView, i: int)
    requires
        0 <= i < c.layers.len(),
    ensures
        snapshot_of(c).lengths.len() == c.layers.len(),
        snapshot_of(c).current_len == c.current_len,
        c.layers[i] is None ==> snapshot_of(c).lengths[i] is None,
        c.layers[i] matches Some(l) ==> snapshot_of(c).lengths[i] == Some(l.len),
        ({
            let r = restored_front(c, s, c.layers.len() as int);
            &&& r.layers.len() == c.layers.len() && r.max_len == c.max_len
            &&& c.layers[i] is None ==> r.layers[i] is None
            &&& c.layers[i] matches Some(l) ==> r.layers[i] == Some(
                LayerView {
                    len: if s.lengths[i] is Some {
                        s.lengths[i]->0
                    } else {
                        0
                    },
                    ..l
                },
            )
        }),
        restore_error(c.layers[i], s.lengths[i]) is None <==> match (c.layers[i], s.lengths[i]) {
            (Some(l), Some(n)) => n <= l.capacity,
            (None, Some(n)) => n == 0,
            (_, None) => true,
        },
{
}

} // verus!
