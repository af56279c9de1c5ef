//! What the kernels of the engine work on: which shapes they take, and where each number is found.

use vstd::prelude::*;
use vstd::string::*;

use crate::error::{dimension_error, shape_mismatch, ErrorView, RsinferError};
use crate::tensor::array;
use crate::tensor::Tensor;
use crate::text;

verus! {

/// A weight in eight bits: each output row has a scale of its own, `w = q * scale`.
#[derive(Clone, Debug)]
pub struct Q8LinearWeight {
    pub qweight: Vec<i8>,
    pub scales: Vec<u32>,
    pub out_features: usize,
    pub in_features: usize,
}

impl Q8LinearWeight {
    /// One number for each place of the matrix, and one scale for each row.
    pub open spec fn well_formed(&self) -> bool {
        &&& self.qweight@.len() == self.out_features * self.in_features
        &&& self.scales@.len() == self.out_features
    }
}

fn sized(head: &str, n: usize, tail: &str) -> (r: RsinferError)
    ensures
        r@ == ErrorView::DimensionError(head@ + text::dec(n as nat) + tail@),
{
    let mut s = head.to_owned();
    text::push_size(&mut s, n);
    s.append(tail);
    RsinferError::DimensionError(s)
}

fn mismatch2(a: usize, b: usize, c: usize, d: usize) -> (r: RsinferError)
    ensures
        r@ == (ErrorView::ShapeMismatch { expected: seq![a, b], actual: seq![c, d] }),
{
    let e = vec![a, b];
    let f = vec![c, d];
    assert(e@ =~= seq![a, b]);
    assert(f@ =~= seq![c, d]);
    shape_mismatch(e, f)
}

fn mismatch1(a: usize, b: usize) -> (r: RsinferError)
    ensures
        r@ == (ErrorView::ShapeMismatch { expected: seq![a], actual: seq![b] }),
{
    let e = vec![a];
    let f = vec![b];
    assert(e@ =~= seq![a]);
    assert(f@ =~= seq![b]);
    shape_mismatch(e, f)
}

fn mismatch3(a: usize, b: usize, c: usize, d: usize, e: usize, f: usize) -> (r: RsinferError)
    ensures
        r@ == (ErrorView::ShapeMismatch { expected: seq![a, b, c], actual: seq![d, e, f] }),
{
    let g = vec![a, b, c];
    let h = vec![d, e, f];
    assert(g@ =~= seq![a, b, c]);
    assert(h@ =~= seq![d, e, f]);
    shape_mismatch(g, h)
}

/// Why a linear layer does not take an input.
pub open spec fn linear_input_error(dims: Seq<usize>, in_features: usize, q8: bool) -> Option<
    ErrorView,
> {
    if dims.len() != 2 {
        Some(
            ErrorView::DimensionError(
                (if q8 {
                    "linear_forward_q8 需要 2D 输入, got "@
                } else {
                    "linear_forward 需要 2D 输入, got "@
                }) + text::dec(dims.len()) + "D"@,
            ),
        )
    } else if dims[1] != in_features {
        Some(
            ErrorView::ShapeMismatch {
                expected: seq![dims[0], in_features],
                actual: seq![dims[0], dims[1]],
            },
        )
    } else {
        None
    }
}

/// The number of rows of an input that a linear layer takes.
pub fn check_linear_input(x: &Tensor, in_features: usize, q8: bool) -> (r: Result<
    usize,
    RsinferError,
>)
    ensures
        match r {
            Ok(m) => {
                &&& linear_input_error(x.dims(), in_features, q8) is None
                &&& m == x.dims()[0]
            },
            Err(e) => linear_input_error(x.dims(), in_features, q8) == Some(e@),
        },
{
    let shape = x.shape();
    if shape.len() != 2 {
        if q8 {
            return Err(sized("linear_forward_q8 需要 2D 输入, got ", shape.len(), "D"));
        }
        return Err(sized("linear_forward 需要 2D 输入, got ", shape.len(), "D"));
    }
    if shape[1] != in_features {
        return Err(mismatch2(shape[0], in_features, shape[0], shape[1]));
    }
    Ok(shape[0])
}

/// Whether `b` has the rows of `a` as columns: `a` has `n` rows of `m` numbers.
pub open spec fn is_flipped(a: Seq<u32>, b: Seq<u32>, n: nat, m: nat) -> bool {
    &&& b.len() == m * n
    &&& forall|i: int, j: int|
        0 <= i < m && 0 <= j < n ==> #[trigger] b[i * n + j] == a[j * m + i]
}

/// The outputs of a linear layer, feature by feature, as they are row by row.
pub fn flip_outputs(a: &[u32], n: usize, m: usize) -> (b: Vec<u32>)
    requires
        a@.len() == n * m,
    ensures
        is_flipped(a@, b@, n as nat, m as nat),
{
    let total: usize = a.len();
    let mut b: Vec<u32> = Vec::new();
    let mut i: usize = 0;
    while i < m
        invariant
            i <= m,
            total == n * m,
            a@.len() == total,
            b@.len() == i * n,
            forall|x: int, y: int|
                0 <= x < i && 0 <= y < n ==> #[trigger] b@[x * n + y] == a@[y * m + x],
        decreases m - i,
    {
        let mut j: usize = 0;
        while j < n
            invariant
                i < m,
                j <= n,
                total == n * m,
                a@.len() == total,
                b@.len() == i * n + j,
                forall|x: int, y: int|
                    0 <= x && 0 <= y < n && (x < i || (x == i && y < j)) ==> #[trigger] b@[x * n
                        + y] == a@[y * m + x],
            decreases n - j,
        {
            proof {
                assert(0 <= j * m && j * m + i < n * m) by (nonlinear_arith)
                    requires
                        0 <= j < n,
                        0 <= i < m,
                ;
            }
            let ghost before = b@;
            b.push(a[j * m + i]);
            proof {
                assert forall|x: int, y: int|
                    0 <= x && 0 <= y < n && (x < i || (x == i && y < j + 1)) implies #[trigger] b@[x
                    * n + y] == a@[y * m + x] by {
                    if x < i || y < j {
                        assert(0 <= x * n + y < i * n + j) by (nonlinear_arith)
                            requires
                                0 <= x,
                                0 <= y < n,
                                0 <= j,
                                x < i || (x == i && y < j),
                        ;
                        assert(before[x * n + y] == a@[y * m + x]);
                    }
                }
            }
            j += 1;
        }
        assert(i * n + n == (i + 1) * n) by (nonlinear_arith);
        i += 1;
    }
    b
}

/// Law: flipping outputs twice gives them back.
pub proof fn law_flip_back(a: Seq<u32>, b: Seq<u32>, c: Seq<u32>, n: nat, m: nat)
    requires
        a.len() == n * m,
        is_flipped(a, b, n, m),
        is_flipped(b, c, m, n),
    ensures
        c == a,
{
    assert forall|x: int| 0 <= x < a.len() implies c[x] == a[x] by {
        assert(m > 0) by (nonlinear_arith)
            requires
                0 <= x < n * m,
        ;
        let j = x / (m as int);
        let i = x % (m as int);
        vstd::arithmetic::div_mod::lemma_fundamental_div_mod(x, m as int);
        vstd::arithmetic::div_mod::lemma_mod_bound(x, m as int);
        assert(0 <= j < n) by (nonlinear_arith)
            requires
                x == m * j + i,
                0 <= i < m,
                0 <= x < n * m,
        ;
        assert(j * m + i == x) by (nonlinear_arith)
            requires
                x == m * j + i,
        ;
        assert(c[j * m + i] == b[i * n + j]);
        assert(b[i * n + j] == a[j * m + i]);
    }
    assert(c =~= a);
}

/// Why two tensors cannot be multiplied as matrices.
pub open spec fn matmul_error(a: Seq<usize>, b: Seq<usize>) -> Option<ErrorView> {
    if a.len() != 2 || b.len() != 2 {
        Some(
            ErrorView::DimensionError(
                "matmul requires 2D tensors, got "@ + text::dec(a.len()) + "D and "@ + text::dec(
                    b.len(),
                ) + "D"@,
            ),
        )
    } else if a[1] != b[0] {
        Some(ErrorView::ShapeMismatch { expected: seq![a[1]], actual: seq![b[0]] })
    } else {
        None
    }
}

/// The shape of the product of two matrices.
pub fn check_matmul(a: &Tensor, b: &Tensor) -> (r: Result<(usize, usize), RsinferError>)
    ensures
        match r {
            Ok(s) => matmul_error(a.dims(), b.dims()) is None && s.0 == a.dims()[0] && s.1
                == b.dims()[1],
            Err(e) => matmul_error(a.dims(), b.dims()) == Some(e@),
        },
{
    let x = a.shape();
    let y = b.shape();
    if x.len() != 2 || y.len() != 2 {
        let mut s = "matmul requires 2D tensors, got ".to_owned();
        text::push_size(&mut s, x.len());
        s.append("D and ");
        text::push_size(&mut s, y.len());
        s.append("D");
        return Err(RsinferError::DimensionError(s));
    }
    if x[1] != y[0] {
        return Err(mismatch1(x[1], y[0]));
    }
    Ok((x[0], y[1]))
}

/// Whether there is a softmax along an axis.
pub fn check_softmax(x: &Tensor, dim: usize) -> (r: Result<(), RsinferError>)
    ensures
        match r {
            Ok(()) => dim < x.dims().len(),
            Err(e) => {
                &&& dim >= x.dims().len()
                &&& e@ == ErrorView::DimensionError(
                    "softmax dim "@ + text::dec(dim as nat) + " out of range for "@ + text::dec(
                        x.dims().len(),
                    ) + "D tensor"@,
                )
            },
        },
{
    if dim >= x.ndim() {
        let mut s = "softmax dim ".to_owned();
        text::push_size(&mut s, dim);
        s.append(" out of range for ");
        text::push_size(&mut s, x.ndim());
        s.append("D tensor");
        return Err(RsinferError::DimensionError(s));
    }
    Ok(())
}

/// Why queries and keys cannot be turned.
pub open spec fn rope_error(q: Seq<usize>, k: Seq<usize>, freqs: Option<nat>) -> Option<ErrorView> {
    if q.len() != 3 || k.len() != 3 {
        Some(
            ErrorView::DimensionError(
                "RoPE requires 3D tensors [seq_len, num_heads, head_dim]"@,
            ),
        )
    } else {
        match freqs {
            Some(n) if n != q[2] / 2 => Some(
                ErrorView::ShapeMismatch {
                    expected: seq![(q[2] / 2) as usize],
                    actual: seq![n as usize],
                },
            ),
            _ => None,
        }
    }
}

/// The number of positions, and of frequencies, with which queries and keys are turned.
pub fn check_rope(q: &Tensor, k: &Tensor, freqs: Option<usize>) -> (r: Result<
    (usize, usize),
    RsinferError,
>)
    ensures
        ({
            let why = rope_error(
                q.dims(),
                k.dims(),
                match freqs {
                    Some(n) => Some(n as nat),
                    None => None,
                },
            );
            match r {
                Ok(p) => why is None && p.0 == q.dims()[0] && p.1 == q.dims()[2] / 2,
                Err(e) => why == Some(e@),
            }
        }),
{
    let s = q.shape();
    if s.len() != 3 || k.ndim() != 3 {
        return Err(
            dimension_error("RoPE requires 3D tensors [seq_len, num_heads, head_dim]"),
        );
    }
    let half: usize = s[2] / 2;
    match freqs {
        Some(n) => {
            if n != half {
                return Err(mismatch1(half, n));
            }
        },
        None => {},
    }
    Ok((s[0], half))
}

/// The places of the two numbers that a frequency turns, in a block of `heads` heads of `dim`
/// numbers.
pub open spec fn rope_pair(heads: nat, dim: nat, p: int, h: int, f: int) -> (int, int) {
    let start = (p * heads + h) * dim + f;
    (start, start + dim / 2)
}

/// Law: the two numbers that a frequency turns lie in one head, and no number is turned by two
/// frequencies.
pub proof fn law_rope_pairs(heads: nat, dim: nat, p: int, h: int, f: int, g: int)
    requires
        0 <= p,
        0 <= h < heads,
        0 <= f < dim / 2,
        0 <= g < dim / 2,
    ensures
        ({
            let a = rope_pair(heads, dim, p, h, f);
            let b = rope_pair(heads, dim, p, h, g);
            let start = (p * heads + h) * dim;
            &&& start <= a.0 < a.1 < start + dim
            &&& f != g ==> a.0 != b.0 && a.0 != b.1 && a.1 != b.0 && a.1 != b.1
        }),
{
}

/// Law: in each head the first number that a frequency turns stands as far behind the start of the
/// head as the frequency is high, and the second half a head behind it.  The heads of a position
/// follow one another, and so do the positions.
pub proof fn law_rope_pair_places(heads: nat, dim: nat, p: int, h: int, f: int)
    requires
        0 <= p,
        0 <= h < heads,
        0 <= f < dim / 2,
    ensures
        rope_pair(heads, dim, p, h, f).0 == p * heads * dim + h * dim + f,
        rope_pair(heads, dim, p, h, f).1 == p * heads * dim + h * dim + f + dim / 2,
        rope_pair(heads, dim, 0, 0, f).0 == f,
        rope_pair(heads, dim, p, h + 1, f).0 == rope_pair(heads, dim, p, h, f).0 + dim,
        rope_pair(heads, dim, p + 1, h, f).0 == rope_pair(heads, dim, p, h, f).0 + heads * dim,
{
    assert((p * heads + h) * dim == p * heads * dim + h * dim) by (nonlinear_arith);
    assert((p * heads + (h + 1)) * dim == (p * heads + h) * dim + dim) by (nonlinear_arith);
    assert(((p + 1) * heads + h) * dim == (p * heads + h) * dim + heads * dim) by (nonlinear_arith);
    assert((0 * heads + 0) * dim == 0) by (nonlinear_arith);
}

/// The places of the two numbers that a frequency turns.
pub fn rope_places(heads: usize, dim: usize, p: usize, h: usize, f: usize) -> (r: (usize, usize))
    requires
        h < heads,
        f < dim / 2,
        (p + 1) * heads * dim <= usize::MAX,
    ensures
        (r.0 as int, r.1 as int) == rope_pair(heads as nat, dim as nat, p as int, h as int, f as int),
        r.0 == (p * heads + h) * dim + f,
        r.1 == (p * heads + h) * dim + f + dim / 2,
{
    proof {
        assert(p * heads + h + 1 <= (p + 1) * heads) by (nonlinear_arith)
            requires
                h < heads,
        ;
        assert((p * heads + h) * dim + dim == (p * heads + h + 1) * dim) by (nonlinear_arith);
        assert((p * heads + h + 1) * dim <= (p + 1) * heads * dim) by (nonlinear_arith)
            requires
                p * heads + h + 1 <= (p + 1) * heads,
        ;
        assert(0 <= p * heads) by (nonlinear_arith);
        assert(p * heads + h <= (p * heads + h) * dim) by (nonlinear_arith)
            requires
                dim >= 1,
                0 <= p * heads + h,
        ;
    }
    let start: usize = (p * heads + h) * dim + f;
    (start, start + dim / 2)
}

/// The keys and values that queries attend to.
#[derive(Clone, Copy, Debug)]
pub struct CachedAttention<'a> {
    pub key: &'a [u32],
    pub value: &'a [u32],
    pub num_kv_heads: usize,
    pub seq_len_k: usize,
    pub head_dim: usize,
    pub max_len: usize,
}

/// What queries attend to: the sizes, and how far apart the rows of one head are from those of the
/// next.
#[derive(Clone, Copy, Debug)]
pub struct AttentionPlan {
    pub num_heads: usize,
    pub seq_len_q: usize,
    pub head_dim: usize,
    pub num_kv_heads: usize,
    pub seq_len_k: usize,
    pub room_k: usize,
    pub group: usize,
}

/// Why queries, keys and values do not fit together.
pub open spec fn gqa_error(q: Seq<usize>, k: Seq<usize>, v: Seq<usize>, group: usize) -> Option<
    ErrorView,
> {
    if q.len() != 3 || k.len() != 3 || v.len() != 3 {
        Some(ErrorView::DimensionError("GQA attention expects q/k/v to be 3D tensors"@))
    } else if group == 0 || k[0] * group != q[0] || v[0] != k[0] || v[1] != k[1] || k[2] != q[2]
        || v[2] != q[2] {
        Some(
            ErrorView::ShapeMismatch {
                expected: seq![q[0], q[1], q[2]],
                actual: seq![k[0], k[1], k[2]],
            },
        )
    } else if q[1] > k[1] {
        Some(
            ErrorView::DimensionError(
                "GQA attention seq_len_q "@ + text::dec(q[1] as nat) + " exceeds seq_len_k "@
                    + text::dec(k[1] as nat),
            ),
        )
    } else {
        None
    }
}

fn product_is(a: usize, b: usize, c: usize) -> (r: bool)
    ensures
        r == (a * b == c),
{
    match a.checked_mul(b) {
        Some(p) => p == c,
        None => false,
    }
}

fn product_at_most(a: usize, b: usize, c: usize, n: usize) -> (r: bool)
    ensures
        r == (a * b * c <= n),
{
    proof {
        assert(a * b * c == (a * b) * c);
    }
    match a.checked_mul(b) {
        Some(p) => match p.checked_mul(c) {
            Some(t) => t <= n,
            None => false,
        },
        None => {
            if c == 0 {
                assert((a * b) * c == 0) by (nonlinear_arith)
                    requires
                        c == 0,
                ;
                true
            } else {
                assert((a * b) * c >= a * b) by (nonlinear_arith)
                    requires
                        c >= 1,
                        a * b >= 0,
                ;
                false
            }
        },
    }
}

/// What queries attend to in keys and values of their own.
pub fn check_gqa(q: &Tensor, k: &Tensor, v: &Tensor, group: usize) -> (r: Result<
    AttentionPlan,
    RsinferError,
>)
    ensures
        ({
            let why = gqa_error(q.dims(), k.dims(), v.dims(), group);
            match r {
                Ok(p) => {
                    &&& why is None
                    &&& p == (AttentionPlan {
                        num_heads: q.dims()[0],
                        seq_len_q: q.dims()[1],
                        head_dim: q.dims()[2],
                        num_kv_heads: k.dims()[0],
                        seq_len_k: k.dims()[1],
                        room_k: k.dims()[1],
                        group,
                    })
                    &&& p.well_formed()
                },
                Err(e) => why == Some(e@),
            }
        }),
{
    let a = q.shape();
    let b = k.shape();
    let c = v.shape();
    if a.len() != 3 || b.len() != 3 || c.len() != 3 {
        return Err(dimension_error("GQA attention expects q/k/v to be 3D tensors"));
    }
    if group == 0 || !product_is(b[0], group, a[0]) || c[0] != b[0] || c[1] != b[1] || b[2] != a[2]
        || c[2] != a[2] {
        return Err(mismatch3(a[0], a[1], a[2], b[0], b[1], b[2]));
    }
    if a[1] > b[1] {
        let mut s = "GQA attention seq_len_q ".to_owned();
        text::push_size(&mut s, a[1]);
        s.append(" exceeds seq_len_k ");
        text::push_size(&mut s, b[1]);
        return Err(RsinferError::DimensionError(s));
    }
    Ok(
        AttentionPlan {
            num_heads: a[0],
            seq_len_q: a[1],
            head_dim: a[2],
            num_kv_heads: b[0],
            seq_len_k: b[1],
            room_k: b[1],
            group,
        },
    )
}

/// Why queries and cached keys and values do not fit together.
pub open spec fn cached_error(q: Seq<usize>, c: CachedAttention<'_>, group: usize) -> Option<
    ErrorView,
> {
    if q.len() != 3 {
        Some(ErrorView::DimensionError("cached GQA attention expects q to be 3D"@))
    } else if group == 0 || c.num_kv_heads * group != q[0] || c.head_dim != q[2] || q[1]
        > c.seq_len_k || c.key@.len() < c.num_kv_heads * c.max_len * c.head_dim || c.value@.len()
        < c.num_kv_heads * c.max_len * c.head_dim {
        Some(
            ErrorView::ShapeMismatch {
                expected: seq![q[0], q[1], q[2]],
                actual: seq![c.num_kv_heads, c.seq_len_k, c.head_dim],
            },
        )
    } else {
        None
    }
}

/// What queries attend to in cached keys and values.
pub fn check_cached(q: &Tensor, c: &CachedAttention<'_>, group: usize) -> (r: Result<
    AttentionPlan,
    RsinferError,
>)
    ensures
        ({
            let why = cached_error(q.dims(), *c, group);
            match r {
                Ok(p) => {
                    &&& why is None
                    &&& p == (AttentionPlan {
                        num_heads: q.dims()[0],
                        seq_len_q: q.dims()[1],
                        head_dim: q.dims()[2],
                        num_kv_heads: c.num_kv_heads,
                        seq_len_k: c.seq_len_k,
                        room_k: c.max_len,
                        group,
                    })
                    &&& p.well_formed()
                },
                Err(e) => why == Some(e@),
            }
        }),
{
    let a = q.shape();
    if a.len() != 3 {
        return Err(dimension_error("cached GQA attention expects q to be 3D"));
    }
    if group == 0 || !product_is(c.num_kv_heads, group, a[0]) || c.head_dim != a[2] || a[1]
        > c.seq_len_k || !product_at_most(c.num_kv_heads, c.max_len, c.head_dim, c.key.len())
        || !product_at_most(c.num_kv_heads, c.max_len, c.head_dim, c.value.len()) {
        return Err(mismatch3(a[0], a[1], a[2], c.num_kv_heads, c.seq_len_k, c.head_dim));
    }
    Ok(
        AttentionPlan {
            num_heads: a[0],
            seq_len_q: a[1],
            head_dim: a[2],
            num_kv_heads: c.num_kv_heads,
            seq_len_k: c.seq_len_k,
            room_k: c.max_len,
            group,
        },
    )
}

impl AttentionPlan {
    /// The heads share keys and values evenly, and no query stands behind the keys.
    pub open spec fn well_formed(&self) -> bool {
        &&& self.group > 0
        &&& self.num_kv_heads * self.group == self.num_heads
        &&& self.seq_len_q <= self.seq_len_k
    }

    /// The head of keys and values that a head of queries attends to.
    pub fn kv_head(&self, h: usize) -> (r: usize)
        requires
            self.well_formed(),
            h < self.num_heads,
        ensures
            r == h as nat / self.group as nat,
            r < self.num_kv_heads,
    {
        proof {
            law_heads_share(*self, h as int);
        }
        h / self.group
    }

    /// The last key that a query attends to.
    pub fn causal_limit(&self, i: usize) -> (r: usize)
        requires
            self.well_formed(),
            i < self.seq_len_q,
        ensures
            r == self.seq_len_k - self.seq_len_q + i,
            r < self.seq_len_k,
    {
        self.seq_len_k - self.seq_len_q + i
    }

    /// Where the numbers of a query start.
    pub fn q_row(&self, h: usize, i: usize) -> (r: usize)
        requires
            h < self.num_heads,
            i < self.seq_len_q,
            self.num_heads * (self.seq_len_q * self.head_dim) <= usize::MAX,
        ensures
            r == h * (self.seq_len_q * self.head_dim) + i * self.head_dim,
            r + self.head_dim <= self.num_heads * (self.seq_len_q * self.head_dim),
    {
        proof {
            lemma_row(
                self.num_heads as nat,
                self.seq_len_q as nat,
                self.head_dim as nat,
                h as int,
                i as int,
            );
        }
        h * (self.seq_len_q * self.head_dim) + i * self.head_dim
    }

    /// Where the numbers of a key, or of a value, start.
    pub fn k_row(&self, kv_head: usize, j: usize) -> (r: usize)
        requires
            kv_head < self.num_kv_heads,
            j < self.room_k,
            self.num_kv_heads * (self.room_k * self.head_dim) <= usize::MAX,
        ensures
            r == kv_head * (self.room_k * self.head_dim) + j * self.head_dim,
            r + self.head_dim <= self.num_kv_heads * (self.room_k * self.head_dim),
    {
        proof {
            lemma_row(
                self.num_kv_heads as nat,
                self.room_k as nat,
                self.head_dim as nat,
                kv_head as int,
                j as int,
            );
        }
        kv_head * (self.room_k * self.head_dim) + j * self.head_dim
    }
}

proof fn lemma_row(heads: nat, rows: nat, dim: nat, h: int, i: int)
    requires
        0 <= h < heads,
        0 <= i < rows,
    ensures
        0 <= i * dim,
        i * dim + dim <= rows * dim,
        0 <= h * (rows * dim),
        h * (rows * dim) + i * dim + dim <= heads * (rows * dim),
        rows * dim <= heads * (rows * dim),
{
    assert(0 <= i * dim && i * dim + dim <= rows * dim) by (nonlinear_arith)
        requires
            0 <= i < rows,
    ;
    let stride = rows * dim;
    assert(0 <= h * stride && h * stride + stride <= heads * stride) by (nonlinear_arith)
        requires
            0 <= h < heads,
    ;
}

/// Law: every head of queries has a head of keys and values, and each of those has as many heads of
/// queries as the group is large, one behind the other.
pub proof fn law_heads_share(p: AttentionPlan, h: int)
    requires
        p.well_formed(),
        0 <= h < p.num_heads,
    ensures
        0 <= h / (p.group as int) < p.num_kv_heads,
        (h / (p.group as int)) * p.group <= h < (h / (p.group as int) + 1) * p.group,
{
    let g = p.group as int;
    vstd::arithmetic::div_mod::lemma_fundamental_div_mod(h, g);
    vstd::arithmetic::div_mod::lemma_mod_bound(h, g);
    let q = h / g;
    let n = p.num_kv_heads as int;
    assert(0 <= q < n) by (nonlinear_arith)
        requires
            h == g * q + h % g,
            0 <= h % g < g,
            0 <= h < n * g,
    ;
    assert(q * g <= h < (q + 1) * g) by (nonlinear_arith)
        requires
            h == g * q + h % g,
            0 <= h % g < g,
    ;
}

/// Law: the last query attends to every key, each earlier one to one key less, and none to a key
/// behind its own place.
pub proof fn law_causal(p: AttentionPlan, i: int)
    requires
        p.well_formed(),
        0 <= i < p.seq_len_q,
    ensures
        ({
            let limit = p.seq_len_k - p.seq_len_q + i;
            &&& 0 <= limit < p.seq_len_k
            &&& i == p.seq_len_q - 1 ==> limit == p.seq_len_k - 1
            &&& p.seq_len_q == p.seq_len_k ==> limit == i
        }),
{
}

/// Whether `t` repeats each head of `s` so many times, one behind the other; a head has `size`
/// numbers.
pub open spec fn is_repeated(s: Seq<u32>, t: Seq<u32>, heads: nat, times: nat, size: nat) -> bool {
    &&& t.len() == heads * times * size
    &&& forall|h: int, x: int|
        0 <= h < heads * times && 0 <= x < size ==> #[trigger] t[h * size + x] == s[(h / (
        times as int)) * size + x]
}

/// Why heads cannot be repeated.
pub open spec fn repeat_error(dims: Seq<usize>, times: usize) -> Option<ErrorView> {
    if times != 1 && dims.len() != 3 {
        Some(
            ErrorView::DimensionError(
                "repeat_kv expects 3D tensor [num_kv_heads, seq_len, head_dim]"@,
            ),
        )
    } else {
        None
    }
}

fn repeat_heads(s: &[u32], heads: usize, times: usize, size: usize) -> (t: Vec<u32>)
    requires
        s@.len() == heads * size,
        heads * times <= usize::MAX,
        times > 0,
    ensures
        is_repeated(s@, t@, heads as nat, times as nat, size as nat),
{
    let total: usize = s.len();
    let count: usize = heads * times;
    let mut t: Vec<u32> = Vec::new();
    let mut h: usize = 0;
    while h < count
        invariant
            h <= count,
            count == heads * times,
            times > 0,
            total == heads * size,
            s@.len() == total,
            t@.len() == h * size,
            forall|g: int, x: int|
                0 <= g < h && 0 <= x < size ==> #[trigger] t@[g * size + x] == s@[(g / (
                times as int)) * size + x],
        decreases count - h,
    {
        let from: usize = h / times;
        proof {
            vstd::arithmetic::div_mod::lemma_fundamental_div_mod(h as int, times as int);
            vstd::arithmetic::div_mod::lemma_mod_bound(h as int, times as int);
            let r = h as int % times as int;
            assert(0 <= from < heads) by (nonlinear_arith)
                requires
                    h == times * from + r,
                    0 <= r < times,
                    h < heads * times,
                    0 <= from,
            ;
            assert(0 <= from * size && from * size + size <= heads * size) by (nonlinear_arith)
                requires
                    0 <= from < heads,
            ;
        }
        let start: usize = from * size;
        let ghost before = t@;
        let mut part = vstd::slice::slice_to_vec(
            vstd::slice::slice_subrange(s, start, start + size),
        );
        let ghost added = part@;
        t.append(&mut part);
        proof {
            assert(h * size + size == (h + 1) * size) by (nonlinear_arith);
            assert forall|g: int, x: int| 0 <= g < h + 1 && 0 <= x < size implies #[trigger] t@[g
                * size + x] == s@[(g / (times as int)) * size + x] by {
                if g < h {
                    assert(0 <= g * size && g * size + x < h * size) by (nonlinear_arith)
                        requires
                            0 <= g < h,
                            0 <= x < size,
                    ;
                    assert(t@[g * size + x] == before[g * size + x]);
                } else {
                    assert(t@[h * size + x] == added[x]);
                }
            }
        }
        h += 1;
    }
    t
}

/// Each head of keys or values so many times, one behind the other.
pub fn repeat_kv(x: &Tensor, num_repeats: usize) -> (r: Result<Tensor, RsinferError>)
    requires
        x.dims().len() == 3 ==> {
            &&& array::extent(
                seq![(x.dims()[0] * num_repeats) as usize, x.dims()[1], x.dims()[2]],
            ) <= isize::MAX
            &&& x.dims()[0] * num_repeats <= usize::MAX
            &&& x.dims()[1] * x.dims()[2] <= usize::MAX
        },
    ensures
        match r {
            Ok(t) => {
                let d = x.dims();
                &&& repeat_error(d, num_repeats) is None
                &&& if num_repeats == 1 {
                    t.dims() == d && t.values() == x.values()
                } else {
                    &&& t.dims() == seq![(d[0] * num_repeats) as usize, d[1], d[2]]
                    &&& is_repeated(
                        x.values(),
                        t.values(),
                        d[0] as nat,
                        num_repeats as nat,
                        (d[1] * d[2]) as nat,
                    )
                }
            },
            Err(e) => repeat_error(x.dims(), num_repeats) == Some(e@),
        },
{
    if num_repeats == 1 {
        return Ok(x.clone());
    }
    let shape = x.shape();
    if shape.len() != 3 {
        return Err(
            dimension_error("repeat_kv expects 3D tensor [num_kv_heads, seq_len, head_dim]"),
        );
    }
    let heads: usize = shape[0];
    let size: usize = shape[1] * shape[2];
    let out = vec![heads * num_repeats, shape[1], shape[2]];
    proof {
        assert(x.dims() =~= seq![shape@[0], shape@[1], shape@[2]]);
        assert(out@ =~= seq![(heads * num_repeats) as usize, shape@[1], shape@[2]]);
        array::lemma_numel3(shape@[0], shape@[1], shape@[2]);
        array::lemma_numel3((heads * num_repeats) as usize, shape@[1], shape@[2]);
        let b = shape@[1] as int;
        let c = shape@[2] as int;
        assert(heads * b * c == heads * (b * c)) by (nonlinear_arith);
        let t = heads * num_repeats;
        assert(t * b * c == t * (b * c)) by (nonlinear_arith);
    }
    if num_repeats == 0 {
        let none: Vec<u32> = Vec::new();
        proof {
            let all = (heads as nat) * (num_repeats as nat);
            assert(all == 0 && all * (size as nat) == 0) by (nonlinear_arith)
                requires
                    num_repeats == 0,
                    all == (heads as nat) * (num_repeats as nat),
            ;
        }
        return Tensor::from_f32_vec(&out, none);
    }
    let data = repeat_heads(&x.standard_values(), heads, num_repeats, size);
    Tensor::from_f32_vec(&out, data)
}

} // verus!
