//! Heads and positions, turned round for the attention and back.

use vstd::prelude::*;

use crate::error::RsinferError;
use crate::model::attention_state::shape3;
use crate::tensor::array;
use crate::tensor::tensor;
use crate::tensor::Tensor;

verus! {

/// The number at three indices of a block whose last two axes have the given lengths.
pub open spec fn at(s: Seq<u32>, b: nat, c: nat, i: int, j: int, k: int) -> u32 {
    s[(i * b + j) * c + k]
}

/// Whether `t` has the first `n` of the middle indices of `s` in front, and its first `m` front
/// indices in the middle; the middle axis of `s` has length `b`, the last one `c`.
pub open spec fn is_turned(s: Seq<u32>, t: Seq<u32>, m: nat, n: nat, b: nat, c: nat) -> bool {
    &&& t.len() == n * m * c
    &&& forall|i: int, j: int, k: int|
        0 <= i < n && 0 <= j < m && 0 <= k < c ==> #[trigger] at(t, m, c, i, j, k) == at(
            s,
            b,
            c,
            j,
            i,
            k,
        )
}

/// Law: turning all heads and positions round and back again changes nothing.
pub proof fn law_turn_back(s: Seq<u32>, t: Seq<u32>, u: Seq<u32>, m: nat, n: nat, c: nat)
    requires
        s.len() == m * n * c,
        is_turned(s, t, m, n, n, c),
        is_turned(t, u, n, m, m, c),
    ensures
        u == s,
{
    assert forall|x: int| 0 <= x < s.len() implies u[x] == s[x] by {
        assert(c > 0) by (nonlinear_arith)
            requires
                0 <= x < m * n * c,
        ;
        assert(n > 0) by (nonlinear_arith)
            requires
                0 <= x < m * n * c,
        ;
        let p = x / (c as int);
        let k = x % (c as int);
        let i = p / (n as int);
        let j = p % (n as int);
        vstd::arithmetic::div_mod::lemma_fundamental_div_mod(x, c as int);
        vstd::arithmetic::div_mod::lemma_fundamental_div_mod(p, n as int);
        vstd::arithmetic::div_mod::lemma_mod_bound(x, c as int);
        vstd::arithmetic::div_mod::lemma_mod_bound(p, n as int);
        let q = m * n;
        assert(0 <= p < q) by (nonlinear_arith)
            requires
                x == c * p + k,
                0 <= k < c,
                0 <= x < q * c,
        ;
        assert(0 <= i < m) by (nonlinear_arith)
            requires
                p == n * i + j,
                0 <= j < n,
                0 <= p < m * n,
        ;
        assert(i * n + j == p) by (nonlinear_arith)
            requires
                p == n * i + j,
        ;
        assert(p * c + k == x) by (nonlinear_arith)
            requires
                x == c * p + k,
        ;
        assert(at(u, n, c, i, j, k) == at(t, m, c, j, i, k));
        assert(at(t, m, c, j, i, k) == at(s, n, c, i, j, k));
    }
    assert(m * n * c == n * m * c) by (nonlinear_arith);
    assert(u =~= s);
}

fn swap_axes(s: &[u32], m: usize, n: usize, b: usize, c: usize) -> (t: Vec<u32>)
    requires
        n <= b,
        s@.len() == m * b * c,
    ensures
        is_turned(s@, t@, m as nat, n as nat, b as nat, c as nat),
{
    let mut t: Vec<u32> = Vec::new();
    let total: usize = s.len();
    let mut i: usize = 0;
    while i < n
        invariant
            i <= n,
            n <= b,
            total == m * b * c,
            s@.len() == total,
            t@.len() == i * m * c,
            forall|x: int, y: int, z: int|
                0 <= x < i && 0 <= y < m && 0 <= z < c ==> #[trigger] at(
                    t@,
                    m as nat,
                    c as nat,
                    x,
                    y,
                    z,
                ) == at(s@, b as nat, c as nat, y, x, z),
        decreases n - i,
    {
        let mut j: usize = 0;
        assert(i * m * c == (i * m + j) * c);
        while j < m
            invariant
                i < n,
                j <= m,
                n <= b,
                total == m * b * c,
                s@.len() == total,
                t@.len() == (i * m + j) * c,
                forall|x: int, y: int, z: int|
                    0 <= x && 0 <= y < m && 0 <= z < c && (x < i || (x == i && y < j))
                        ==> #[trigger] at(t@, m as nat, c as nat, x, y, z) == at(
                        s@,
                        b as nat,
                        c as nat,
                        y,
                        x,
                        z,
                    ),
            decreases m - j,
        {
            proof {
                assert(j * b + i < m * b) by (nonlinear_arith)
                    requires
                        j < m,
                        i < b,
                ;
                assert((j * b + i) * c + c <= m * b * c) by (nonlinear_arith)
                    requires
                        j * b + i < m * b,
                ;
                assert(0 <= j * b) by (nonlinear_arith);
                assert(c == 0 || j * b + i <= (j * b + i) * c) by (nonlinear_arith)
                    requires
                        0 <= j * b + i,
                ;
            }
            let mut k: usize = 0;
            if c > 0 {
                let start: usize = (j * b + i) * c;
                let ghost base = t@;
                assert(base + s@.subrange(start as int, start + 0) =~= base);
                while k < c
                    invariant
                        i < n,
                        j < m,
                        k <= c,
                        n <= b,
                        total == m * b * c,
                        s@.len() == total,
                        start == (j * b + i) * c,
                        start + c <= total,
                        base.len() == (i * m + j) * c,
                        t@ == base + s@.subrange(start as int, start + k),
                    decreases c - k,
                {
                    t.push(s[start + k]);
                    assert(t@ =~= base + s@.subrange(start as int, start + (k + 1)));
                    k += 1;
                }
                proof {
                    assert((i * m + j) * c + c == (i * m + (j + 1)) * c) by (nonlinear_arith);
                    assert forall|x: int, y: int, z: int|
                        0 <= x && 0 <= y < m && 0 <= z < c && (x < i || (x == i && y < j
                            + 1)) implies #[trigger] at(t@, m as nat, c as nat, x, y, z) == at(
                        s@,
                        b as nat,
                        c as nat,
                        y,
                        x,
                        z,
                    ) by {
                        if x < i || y < j {
                            assert((x * m + y) < i * m + j) by (nonlinear_arith)
                                requires
                                    0 <= x,
                                    0 <= y < m,
                                    0 <= j,
                                    x < i || (x == i && y < j),
                            ;
                            let p = x * m + y;
                            let q = i * m + j;
                            assert(p * c + z < q * c) by (nonlinear_arith)
                                requires
                                    p < q,
                                    0 <= z < c,
                            ;
                            assert(0 <= p * c + z) by (nonlinear_arith)
                                requires
                                    0 <= x,
                                    0 <= y,
                                    0 <= z,
                                    0 <= m,
                                    0 <= c,
                                    p == x * m + y,
                            ;
                            assert(t@[p * c + z] == base[p * c + z]);
                            assert(at(base, m as nat, c as nat, x, y, z) == at(
                                s@,
                                b as nat,
                                c as nat,
                                y,
                                x,
                                z,
                            ));
                        } else {
                            assert(x == i && y == j);
                            assert(t@[base.len() + z] == s@[start + z]);
                        }
                    }
                }
            } else {
                assert((i * m + j) * c == 0 && (i * m + (j + 1)) * c == 0) by (nonlinear_arith)
                    requires
                        c == 0,
                ;
            }
            j += 1;
        }
        assert((i * m + m) * c == (i + 1) * m * c) by (nonlinear_arith);
        i += 1;
    }
    t
}

fn turned(x: &Tensor, m: usize, n: usize, b: usize, c: usize) -> (r: Result<Tensor, RsinferError>)
    requires
        x.dims() == seq![m, b, c],
        n <= b,
    ensures
        r matches Ok(t) && t.dims() == seq![n, m, c] && t.row_major() && t.well_formed()
            && is_turned(x.values(), t.values(), m as nat, n as nat, b as nat, c as nat),
{
    let shape = x.shape();
    proof {
        array::lemma_numel3(m, b, c);
        array::lemma_numel3(n, m, c);
        lemma_smaller(m, n, b, c);
    }
    let data = swap_axes(&x.standard_values(), m, n, b, c);
    Tensor::from_f32_vec(&shape3(n, m, c), data)
}

proof fn lemma_smaller(m: usize, n: usize, b: usize, c: usize)
    requires
        n <= b,
        array::extent(seq![m, b, c]) <= isize::MAX,
    ensures
        array::extent(seq![n, m, c]) <= isize::MAX,
{
    lemma_extent3(m, b, c);
    lemma_extent3(n, m, c);
    let p = array_factor(m);
    let q = array_factor(b);
    let r = array_factor(c);
    let s = array_factor(n);
    assert(s * p * r <= p * q * r) by (nonlinear_arith)
        requires
            1 <= s <= q,
            1 <= p,
            1 <= r,
    ;
}

/// What an axis adds to the extent of a shape.
spec fn array_factor(a: usize) -> nat {
    if a == 0 {
        1
    } else {
        a as nat
    }
}

proof fn lemma_extent3(a: usize, b: usize, c: usize)
    ensures
        array::extent(seq![a, b, c]) == array_factor(a) * array_factor(b) * array_factor(c),
{
    let s3 = seq![a, b, c];
    let s2 = seq![a, b];
    let s1 = seq![a];
    assert(s3.drop_last() =~= s2);
    assert(s2.drop_last() =~= s1);
    assert(s1.drop_last() =~= Seq::<usize>::empty());
    lemma_extent_last(s1);
    lemma_extent_last(s2);
    lemma_extent_last(s3);
    assert(1 * array_factor(a) == array_factor(a)) by (nonlinear_arith);
}

proof fn lemma_extent_last(s: Seq<usize>)
    requires
        s.len() > 0,
    ensures
        array::extent(s) == array::extent(s.drop_last()) * array_factor(s.last()),
{
    let e = array::extent(s.drop_last());
    assert(e * 1 == e) by (nonlinear_arith);
}

/// Positions, heads and numbers as heads, positions and numbers.
pub fn transpose_for_attention(x: &Tensor, num_heads: usize) -> (r: Result<Tensor, RsinferError>)
    requires
        x.dims().len() == 3,
        x.dims()[0] != 1 ==> num_heads <= x.dims()[1],
    ensures
        ({
            let d = x.dims();
            match r {
                Ok(t) => {
                    &&& t.dims() == seq![num_heads, d[0], d[2]]
                    &&& t.row_major() && t.well_formed()
                    &&& d[0] == 1 ==> num_heads == d[1] || d[2] == 0
                    &&& is_turned(
                        x.values(),
                        t.values(),
                        d[0] as nat,
                        num_heads as nat,
                        d[1] as nat,
                        d[2] as nat,
                    )
                },
                Err(e) => d[0] == 1 && tensor::reshape_error(
                    d,
                    x.row_major(),
                    seq![num_heads, 1usize, d[2]],
                ) == Some(e@),
            }
        }),
{
    let shape = x.shape();
    let seq_len: usize = shape[0];
    let heads: usize = shape[1];
    let head_dim: usize = shape[2];
    assert(x.dims() =~= seq![seq_len, heads, head_dim]);
    if seq_len == 1 {
        let r = x.reshape(&shape3(num_heads, 1, head_dim));
        proof {
            array::lemma_numel3(1, heads, head_dim);
            array::lemma_numel3(num_heads, 1, head_dim);
            lemma_one_turned(x.values(), num_heads as nat, heads as nat, head_dim as nat);
        }
        return r;
    }
    turned(x, seq_len, num_heads, heads, head_dim)
}

/// Heads, positions and numbers as positions, heads and numbers.
pub fn transpose_back(x: &Tensor, seq_len: usize, num_heads: usize) -> (r: Result<
    Tensor,
    RsinferError,
>)
    requires
        x.dims().len() == 3,
        seq_len != 1 ==> seq_len <= x.dims()[1] && num_heads == x.dims()[0],
    ensures
        ({
            let d = x.dims();
            match r {
                Ok(t) => {
                    &&& t.dims() == seq![seq_len, num_heads, d[2]]
                    &&& t.row_major() && t.well_formed()
                    &&& if seq_len == 1 {
                        t.values() == x.values()
                    } else {
                        is_turned(
                            x.values(),
                            t.values(),
                            d[0] as nat,
                            seq_len as nat,
                            d[1] as nat,
                            d[2] as nat,
                        )
                    }
                },
                Err(e) => seq_len == 1 && tensor::reshape_error(
                    d,
                    x.row_major(),
                    seq![1usize, num_heads, d[2]],
                ) == Some(e@),
            }
        }),
{
    let shape = x.shape();
    let heads: usize = shape[0];
    let positions: usize = shape[1];
    let head_dim: usize = shape[2];
    assert(x.dims() =~= seq![heads, positions, head_dim]);
    if seq_len == 1 {
        return x.reshape(&shape3(1, num_heads, head_dim));
    }
    turned(x, heads, seq_len, positions, head_dim)
}

proof fn lemma_one_turned(s: Seq<u32>, n: nat, b: nat, c: nat)
    requires
        s.len() == 1 * b * c,
    ensures
        n * 1 * c == s.len() ==> (n == b || c == 0) && is_turned(s, s, 1, n, b, c),
{
    if n * 1 * c == s.len() {
        assert(n == b || c == 0) by (nonlinear_arith)
            requires
                n * 1 * c == 1 * b * c,
        ;
        assert forall|i: int, j: int, k: int|
            0 <= i < n && 0 <= j < 1 && 0 <= k < c implies #[trigger] at(s, 1, c, i, j, k) == at(
            s,
            b,
            c,
            j,
            i,
            k,
        ) by {
            assert(i * 1 + j == j * b + i) by (nonlinear_arith)
                requires
                    j == 0,
            ;
        }
    }
}

} // verus!
