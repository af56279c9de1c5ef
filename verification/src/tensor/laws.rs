//! What holds of numbers and shapes: which number a bit pattern stands for, which inputs the kernels
//! take, and which heads share their keys and values.

use vstd::arithmetic::power2::pow2;
use vstd::prelude::*;

use crate::tensor::array;
use crate::tensor::dtypes;
use crate::tensor::ops;
use crate::tensor::ops::CachedAttention;
use crate::tensor::order;
use crate::tensor::tensor;

verus! {

/// The magnitude of a single-precision pattern, in units of the smallest number: the pattern without
/// its sign is `p`.  Infinity counts as the next power of two.
pub open spec fn single_units(p: int) -> int {
    let e = p / 0x80_0000;
    let m = p % 0x80_0000;
    if e == 0 {
        m
    } else {
        (0x80_0000 + m) * pow2((e - 1) as nat)
    }
}

/// The magnitude of a half-precision pattern, in units of the smallest number: the pattern without
/// its sign is `p`.  Infinity counts as the next power of two.
pub open spec fn half_units(p: int) -> int {
    let e = p / 1024;
    let m = p % 1024;
    if e == 0 {
        m
    } else {
        (1024 + m) * pow2((e - 1) as nat)
    }
}

/// The number that a single-precision pattern stands for, in units of the smallest number.
pub open spec fn single_value(s: u32) -> int {
    if s >= 0x8000_0000 {
        -single_units(s - 0x8000_0000)
    } else {
        single_units(s as int)
    }
}

proof fn lemma_pow2_mul(a: nat, b: nat)
    ensures
        pow2(a) * pow2(b) == pow2(a + b),
        pow2(a) > 0,
{
    vstd::arithmetic::power2::lemma_pow2_adds(a, b);
    vstd::arithmetic::power2::lemma_pow2_pos(a);
}

proof fn lemma_units_grow(a: int, b: int)
    requires
        0 <= a < b < 0x8000_0000,
    ensures
        0 <= single_units(a) < single_units(b),
{
    let (e, m) = (a / 0x80_0000, a % 0x80_0000);
    let (f, n) = (b / 0x80_0000, b % 0x80_0000);
    vstd::arithmetic::power2::lemma2_to64();
    if e == f {
        if e > 0 {
            let p = pow2((e - 1) as nat) as int;
            vstd::arithmetic::power2::lemma_pow2_pos((e - 1) as nat);
            assert(0 <= (0x80_0000 + m) * p < (0x80_0000 + n) * p) by (nonlinear_arith)
                requires
                    0 <= m < n,
                    p > 0,
            ;
        }
    } else {
        let q = pow2((f - 1) as nat) as int;
        vstd::arithmetic::power2::lemma_pow2_pos((f - 1) as nat);
        assert((0x80_0000 + n) * q >= 0x80_0000 * q) by (nonlinear_arith)
            requires
                n >= 0,
                q > 0,
        ;
        if e == 0 {
            assert(0x80_0000 * q >= 0x80_0000);
        } else {
            let p = pow2((e - 1) as nat) as int;
            vstd::arithmetic::power2::lemma_pow2_pos((e - 1) as nat);
            vstd::arithmetic::power2::lemma_pow2_unfold(e as nat);
            if e < f - 1 {
                vstd::arithmetic::power2::lemma_pow2_strictly_increases(e as nat, (f - 1) as nat);
            }
            assert(q >= 2 * p);
            assert(0 <= (0x80_0000 + m) * p < 0x100_0000 * p) by (nonlinear_arith)
                requires
                    0 <= m < 0x80_0000,
                    p > 0,
            ;
        }
    }
}

/// Law: patterns that are numbers are ordered as the numbers that they stand for, and one that is no
/// number is neither greater nor less than any.
pub proof fn law_order_is_that_of_the_numbers(a: u32, b: u32)
    ensures
        a % 0x8000_0000 > 0x7F80_0000 || b % 0x8000_0000 > 0x7F80_0000 ==> !order::greater(a, b),
        a % 0x8000_0000 <= 0x7F80_0000 && b % 0x8000_0000 <= 0x7F80_0000 ==> (order::greater(a, b)
            <==> single_value(a) > single_value(b)),
        a % 0x8000_0000 <= 0x7F80_0000 ==> (order::rank(a) <= 0 <==> single_value(a) <= 0),
{
    let x = if a >= 0x8000_0000 {
        a - 0x8000_0000
    } else {
        a as int
    };
    let y = if b >= 0x8000_0000 {
        b - 0x8000_0000
    } else {
        b as int
    };
    if x > 0 {
        lemma_units_grow(0, x);
    }
    if y > 0 {
        lemma_units_grow(0, y);
    }
    if x < y {
        lemma_units_grow(x, y);
    }
    if y < x {
        lemma_units_grow(y, x);
    }
}

/// Law: widening a half-precision number keeps its sign and the number that it stands for; infinity
/// stays infinity, and what is no number stays none.
pub proof fn law_widening_keeps_the_number(h: u16)
    ensures
        ({
            let s = dtypes::widened(h);
            let p = (s % 0x8000_0000) as int;
            &&& s / 0x8000_0000 == h / 0x8000
            &&& h % 0x8000 < 0x7C00 ==> single_units(p) == half_units((h % 0x8000) as int) * pow2(
                125,
            )
            &&& h % 0x8000 == 0x7C00 ==> p == 0x7F80_0000
            &&& h % 0x8000 > 0x7C00 ==> p > 0x7F80_0000
        }),
{
    let s = dtypes::widened(h);
    let e = ((h / 1024) % 32) as int;
    let m = (h % 1024) as int;
    let q = (h % 0x8000) as int;
    assert(q / 1024 == e && q % 1024 == m);
    vstd::arithmetic::power2::lemma2_to64();
    if 0 < e < 31 {
        let p = (e + 112) * 0x80_0000 + m * 8192;
        assert(s % 0x8000_0000 == p && s / 0x8000_0000 == h / 0x8000);
        assert(p / 0x80_0000 == e + 112 && p % 0x80_0000 == m * 8192);
        lemma_pow2_mul((e - 1) as nat, 125);
        lemma_pow2_mul(13, (e + 111) as nat);
        let a = pow2((e + 111) as nat) as int;
        let b = pow2((e - 1) as nat) as int;
        let c = pow2(125) as int;
        assert(pow2(13) == 8192);
        assert(8192 * a == b * c);
        assert((0x80_0000 + m * 8192) * a == (1024 + m) * b * c) by (nonlinear_arith)
            requires
                8192 * a == b * c,
        ;
    } else if e == 0 && m > 0 {
        let top = dtypes::lemma_top_bit_bounds(m as nat, 9);
        let scale = pow2((23 - top) as nat) as int;
        lemma_pow2_mul(top, (23 - top) as nat);
        lemma_pow2_mul((23 - top) as nat, (top + 102) as nat);
        vstd::arithmetic::power2::lemma_pow2_unfold(top + 1);
        let rest = (m - pow2(top)) * scale;
        assert(pow2(top) * scale == 0x80_0000);
        assert(0 <= rest < 0x80_0000 && 0x80_0000 + rest == m * scale) by (nonlinear_arith)
            requires
                rest == (m - pow2(top)) * scale,
                pow2(top) * scale == 0x80_0000,
                pow2(top) <= m < 2 * pow2(top),
                scale > 0,
        ;
        let p = (top + 103) * 0x80_0000 + rest;
        assert(p / 0x80_0000 == top + 103 && p % 0x80_0000 == rest);
        let a = pow2((top + 102) as nat) as int;
        assert(m * scale * a == m * pow2(125)) by (nonlinear_arith)
            requires
                scale * a == pow2(125),
        ;
    }
}

proof fn lemma_half_steps(p: int)
    requires
        0 <= p < 0x7FFF,
    ensures
        0 <= half_units(p) <= half_units(p + 1),
        p < 2048 ==> half_units(p) == p,
{
    let (e, m) = (p / 1024, p % 1024);
    vstd::arithmetic::power2::lemma2_to64();
    if e == 1 {
        assert(pow2((e - 1) as nat) == 1);
        assert((1024 + m) * 1 == p);
    }
    if e > 0 {
        let q = pow2((e - 1) as nat) as int;
        vstd::arithmetic::power2::lemma_pow2_pos((e - 1) as nat);
        vstd::arithmetic::power2::lemma_pow2_unfold(e as nat);
        assert(0 <= (1024 + m) * q <= (1025 + m) * q) by (nonlinear_arith)
            requires
                q > 0,
                m >= 0,
        ;
        if m == 1023 {
            assert((1025 + m) * q == 1024 * (2 * q)) by (nonlinear_arith)
                requires
                    m == 1023,
            ;
        }
    }
}

proof fn lemma_normal_step(e: int, m: int)
    requires
        1 <= e <= 30,
        0 <= m < 1024,
    ensures
        half_units(e * 1024 + m) == (1024 + m) * pow2((e - 1) as nat),
        half_units(e * 1024 + m + 1) == (1025 + m) * pow2((e - 1) as nat),
{
    vstd::arithmetic::power2::lemma_pow2_unfold(e as nat);
    let q = pow2((e - 1) as nat) as int;
    if m == 1023 {
        assert((1025 + m) * q == 1024 * (2 * q)) by (nonlinear_arith)
            requires
                m == 1023,
        ;
    }
}

/// Law: narrowing gives the half-precision number that is nearest: the number lies between the
/// middles to the next smaller and the next greater one, and on a middle the even one is taken.  The
/// sign stays, what lies beyond the last middle becomes infinite, and what is no number stays none.
pub proof fn law_narrowing_is_nearest(s: u32)
    ensures
        ({
            let h = dtypes::narrowed(s);
            let k = (h % 0x8000) as int;
            let u = single_units((s % 0x8000_0000) as int);
            &&& h / 0x8000 == s / 0x8000_0000
            &&& s % 0x8000_0000 > 0x7F80_0000 ==> k > 0x7C00
            &&& s % 0x8000_0000 <= 0x7F80_0000 ==> {
                &&& k <= 0x7C00
                &&& k < 0x7C00 ==> {
                    let middle = (half_units(k) + half_units(k + 1)) * pow2(125);
                    2 * u < middle || (2 * u == middle && k % 2 == 0)
                }
                &&& k > 0 ==> {
                    let middle = (half_units(k - 1) + half_units(k)) * pow2(125);
                    2 * u > middle || (2 * u == middle && k % 2 == 0)
                }
            }
        }),
{
    let h = dtypes::narrowed(s);
    let k = (h % 0x8000) as int;
    let x = (s % 0x8000_0000) as int;
    let e = ((s / 0x80_0000) % 256) as int;
    let m = (s % 0x80_0000) as int;
    let u = single_units(x);
    assert(x / 0x80_0000 == e && x % 0x80_0000 == m);
    vstd::arithmetic::power2::lemma2_to64();
    vstd::arithmetic::power2::lemma_pow2_pos(125);
    let unit = pow2(125) as int;
    if e == 255 {
        if m == 0 {
            assert(k == 0x7C00);
            lemma_units_grow(0x4780_0000, x);
            lemma_infinite(u);
        }
    } else if e >= 143 {
        assert(k == 0x7C00);
        if x > 0x4780_0000 {
            lemma_units_grow(0x4780_0000, x);
        }
        lemma_infinite(u);
    } else if e > 112 {
        let y = (e - 112) * 0x80_0000 + m;
        let q = y / 8192;
        let r = y % 8192;
        let m0 = m / 8192;
        assert(q == (e - 112) * 1024 + m0 && r == m % 8192);
        let p = pow2((e - 1) as nat) as int;
        let a = pow2((e - 113) as nat) as int;
        lemma_pow2_mul(13, (e - 1) as nat);
        lemma_pow2_mul((e - 113) as nat, 125);
        lemma_pow2_mul((e - 1) as nat, 0);
        assert(a * unit == 8192 * p);
        lemma_normal_step(e - 112, m0);
        lemma_half_steps(q);
        lemma_half_steps(q + 1);
        if q > 0 {
            lemma_half_steps(q - 1);
        }
        assert(0x80_0000 + m == (1024 + m0) * 8192 + r);
        assert(u == (1024 + m0) * (8192 * p) + r * p) by (nonlinear_arith)
            requires
                u == (0x80_0000 + m) * p,
                0x80_0000 + m == (1024 + m0) * 8192 + r,
        ;
        lemma_near(u, q, r, 8192, p, 1024 + m0, a, unit);
        assert(k == dtypes::rounded(y, 8192));
        assert(half_units(q) == (1024 + m0) * a && half_units(q + 1) == (1025 + m0) * a);
        lemma_chosen(u, q, k, r, 8192, unit);
    } else if e >= 102 {
        let y = 0x80_0000 + m;
        let d = pow2((126 - e) as nat) as int;
        lemma_pow2_mul((126 - e) as nat, (e - 1) as nat);
        lemma_pow2_mul((e - 1) as nat, 0);
        let p = pow2((e - 1) as nat) as int;
        assert(d * p == unit);
        let q = y / d;
        let r = y % d;
        vstd::arithmetic::div_mod::lemma_fundamental_div_mod(y, d);
        vstd::arithmetic::div_mod::lemma_mod_bound(y, d);
        if e < 112 {
            vstd::arithmetic::power2::lemma_pow2_strictly_increases(14, (126 - e) as nat);
        }
        assert(pow2(14) == 16384);
        assert(d >= 16384);
        assert(0 <= q < 1024) by (nonlinear_arith)
            requires
                y == d * q + r,
                0 <= r < d,
                d >= 16384,
                0 <= y < 0x100_0000,
        ;
        lemma_half_steps(q);
        lemma_half_steps(q + 1);
        lemma_half_steps(q + 2);
        if q > 0 {
            lemma_half_steps(q - 1);
        }
        assert(u == q * unit + r * p) by (nonlinear_arith)
            requires
                u == y * p,
                y == d * q + r,
                d * p == unit,
        ;
        assert(k == dtypes::rounded(y, d));
        assert(half_units(q) == q && half_units(q + 1) == q + 1);
        lemma_near_flat(u, q, r, d, p, unit);
        lemma_chosen(u, q, k, r, d, unit);
    } else {
        assert(k == 0);
        lemma_half_steps(0);
        lemma_half_steps(1);
        lemma_units_grow(x, 102int * 0x80_0000);
        let t = 102int * 0x80_0000;
        assert(t / 0x80_0000 == 102 && t % 0x80_0000 == 0);
        lemma_pow2_mul(23, 101);
        vstd::arithmetic::power2::lemma_pow2_unfold(125);
        assert(pow2(23) == 0x80_0000);
        assert(2 * u < unit);
        assert((half_units(0) + half_units(1)) * unit == unit) by (nonlinear_arith)
            requires
                half_units(0) == 0,
                half_units(1) == 1,
        ;
    }
}

proof fn lemma_infinite(u: int)
    requires
        u >= single_units(0x4780_0000),
    ensures
        2 * u > (half_units(0x7BFF) + half_units(0x7C00)) * pow2(125),
{
    vstd::arithmetic::power2::lemma2_to64();
    lemma_pow2_mul(23, 142);
    lemma_pow2_mul(29, 125);
    lemma_pow2_mul(30, 125);
    lemma_pow2_mul(10, 155);
    lemma_pow2_mul(1, 154);
    let t = 0x4780_0000int;
    assert(t / 0x80_0000 == 143 && t % 0x80_0000 == 0);
    assert(half_units(0x7BFF) == 2047 * pow2(29));
    assert(half_units(0x7C00) == 1024 * pow2(30));
    let a = pow2(29) as int;
    let b = pow2(30) as int;
    let c = pow2(125) as int;
    let w = pow2(154) as int;
    assert(a * c == w && b * c == 2 * w);
    assert((2047 * a + 1024 * b) * c == 2047 * w + 2048 * w) by (nonlinear_arith)
        requires
            a * c == w,
            b * c == 2 * w,
    ;
    assert(single_units(t) == 0x80_0000 * pow2(142));
    assert(0x80_0000 * pow2(142) == pow2(165));
    assert(pow2(165) == 1024 * pow2(155));
    assert(pow2(155) == 2 * w);
    assert(w > 0) by {
        vstd::arithmetic::power2::lemma_pow2_pos(154);
    }
}

proof fn lemma_near(u: int, q: int, r: int, d: int, p: int, n: int, a: int, unit: int)
    requires
        u == n * (d * p) + r * p,
        a * unit == d * p,
        half_units(q) == n * a,
        half_units(q + 1) == (n + 1) * a,
        p > 0,
        0 <= r < d,
    ensures
        half_units(q) * unit <= u < half_units(q + 1) * unit,
        2 * r < d ==> 2 * u < (half_units(q) + half_units(q + 1)) * unit,
        2 * r == d ==> 2 * u == (half_units(q) + half_units(q + 1)) * unit,
        2 * r > d ==> 2 * u > (half_units(q) + half_units(q + 1)) * unit,
{
    assert(n * a * unit == n * (d * p) && (n + 1) * a * unit == n * (d * p) + d * p && (n * a + (n
        + 1) * a) * unit == 2 * (n * (d * p)) + d * p) by (nonlinear_arith)
        requires
            a * unit == d * p,
    ;
    assert(0 <= r * p && r * p < d * p && (2 * r < d ==> 2 * (r * p) < d * p) && (2 * r == d ==> 2
        * (r * p) == d * p) && (2 * r > d ==> 2 * (r * p) > d * p)) by (nonlinear_arith)
        requires
            p > 0,
            0 <= r < d,
    ;
}

proof fn lemma_near_flat(u: int, q: int, r: int, d: int, p: int, unit: int)
    requires
        u == q * unit + r * p,
        unit == d * p,
        half_units(q) == q,
        half_units(q + 1) == q + 1,
        p > 0,
        0 <= r < d,
    ensures
        half_units(q) * unit <= u < half_units(q + 1) * unit,
        2 * r < d ==> 2 * u < (half_units(q) + half_units(q + 1)) * unit,
        2 * r == d ==> 2 * u == (half_units(q) + half_units(q + 1)) * unit,
        2 * r > d ==> 2 * u > (half_units(q) + half_units(q + 1)) * unit,
{
    lemma_near(u, q, r, d, p, q, 1, unit);
}

proof fn lemma_chosen(u: int, q: int, k: int, r: int, d: int, unit: int)
    requires
        k == (if 2 * r > d || (2 * r == d && q % 2 == 1) {
            q + 1
        } else {
            q
        }),
        0 <= q < 0x7C00,
        unit > 0,
        half_units(q) * unit <= u < half_units(q + 1) * unit,
        2 * r < d ==> 2 * u < (half_units(q) + half_units(q + 1)) * unit,
        2 * r == d ==> 2 * u == (half_units(q) + half_units(q + 1)) * unit,
        2 * r > d ==> 2 * u > (half_units(q) + half_units(q + 1)) * unit,
        q > 0 ==> half_units(q - 1) <= half_units(q),
        half_units(q + 1) <= half_units(q + 2),
    ensures
        k < 0x7C00 ==> {
            let middle = (half_units(k) + half_units(k + 1)) * unit;
            2 * u < middle || (2 * u == middle && k % 2 == 0)
        },
        k > 0 ==> {
            let middle = (half_units(k - 1) + half_units(k)) * unit;
            2 * u > middle || (2 * u == middle && k % 2 == 0)
        },
{
    let a = half_units(q);
    let b = half_units(q + 1);
    if k == q {
        if q > 0 {
            let z = half_units(q - 1);
            lemma_below(q);
            assert((z + a) * unit < 2 * (a * unit)) by (nonlinear_arith)
                requires
                    z < a,
                    unit > 0,
            ;
        }
    } else {
        let c = half_units(q + 2);
        assert((b + c) * unit >= 2 * (b * unit)) by (nonlinear_arith)
            requires
                b <= c,
                unit > 0,
        ;
    }
}

proof fn lemma_below(q: int)
    requires
        0 < q < 0x7C00,
    ensures
        half_units(q - 1) < half_units(q),
{
    let p = q - 1;
    let (e, m) = (p / 1024, p % 1024);
    vstd::arithmetic::power2::lemma2_to64();
    if e > 0 {
        vstd::arithmetic::power2::lemma_pow2_pos((e - 1) as nat);
        lemma_normal_step(e, m);
        let w = pow2((e - 1) as nat) as int;
        assert((1024 + m) * w < (1025 + m) * w) by (nonlinear_arith)
            requires
                w > 0,
        ;
        assert(p == e * 1024 + m);
    } else {
        lemma_half_steps(p);
        lemma_half_steps(q);
    }
}

/// Law: a `bfloat16` number is the front half of a single-precision one; what is no number keeps its
/// sign and stays none.
pub proof fn law_bf16_is_the_front_half(b: u16)
    ensures
        dtypes::bf16_widened(b) % 65536 == 0,
        b % 0x8000 <= 0x7F80 ==> dtypes::bf16_widened(b) / 65536 == b,
        b % 0x8000 > 0x7F80 ==> dtypes::bf16_widened(b) % 0x8000_0000 > 0x7F80_0000
            && dtypes::bf16_widened(b) / 0x8000_0000 == b / 0x8000,
{
}

/// Law: a word has the byte that comes first as its lowest, and each further one above it.
pub proof fn law_low_bytes_come_first(bytes: Seq<u8>, i: int)
    ensures
        dtypes::word16(bytes, i) % 256 == bytes[2 * i],
        dtypes::word16(bytes, i) / 256 == bytes[2 * i + 1],
        dtypes::word32(bytes, i) % 256 == bytes[4 * i],
        (dtypes::word32(bytes, i) / 256) % 256 == bytes[4 * i + 1],
        (dtypes::word32(bytes, i) / 65536) % 256 == bytes[4 * i + 2],
        dtypes::word32(bytes, i) / 16777216 == bytes[4 * i + 3],
{
}

/// Law: numbers take four bytes in single precision and two in the others.
pub proof fn law_sizes_of_numbers(d: dtypes::DType)
    ensures
        d is F32 <==> dtypes::dtype_size(d) == 4,
        d is F16 || d is BF16 <==> dtypes::dtype_size(d) == 2,
{
}

/// Law: a tensor can be built of just as many numbers as its shape has places, and a tensor in the
/// order of its memory takes every shape with as many places.
pub proof fn law_shapes_that_fit(s: Seq<usize>, len: nat, from: Seq<usize>, row_major: bool)
    ensures
        tensor::build_error(s, len) is None <==> array::numel(s) == len && array::extent(s)
            <= isize::MAX,
        tensor::reshape_error(from, row_major, s) is None <==> array::numel(s) == array::numel(from)
            && array::extent(s) <= isize::MAX && row_major,
{
}

/// Law: the places of a shape are the product of its sizes.
pub proof fn law_places_are_the_product(s: Seq<usize>, n: usize)
    ensures
        array::numel(Seq::empty()) == 1,
        array::numel(s.push(n)) == array::numel(s) * n,
        array::extent(s.push(n)) == array::extent(s) * (if n == 0 {
            1int
        } else {
            n as int
        }),
{
    assert(s.push(n).drop_last() =~= s);
}

/// Law: a linear layer takes every row of its width; matrices are multiplied where the columns of
/// one are the rows of the other; queries and keys of three axes are turned by half as many
/// frequencies as a head is wide; heads attend in groups of equal size to as many keys as there are
/// queries, or more.
pub proof fn law_kernels_take_what_fits(
    x: Seq<usize>,
    y: Seq<usize>,
    z: Seq<usize>,
    n: usize,
    q8: bool,
    freqs: nat,
    c: CachedAttention<'_>,
)
    ensures
        ops::linear_input_error(x, n, q8) is None <==> x.len() == 2 && x[1] == n,
        ops::matmul_error(x, y) is None <==> x.len() == 2 && y.len() == 2 && x[1] == y[0],
        ops::rope_error(x, y, None) is None <==> x.len() == 3 && y.len() == 3,
        ops::rope_error(x, y, Some(freqs)) is None <==> x.len() == 3 && y.len() == 3 && freqs
            == x[2] / 2,
        ops::gqa_error(x, y, z, n) is None <==> {
            &&& x.len() == 3 && y.len() == 3 && z.len() == 3
            &&& n > 0 && y[0] * n == x[0]
            &&& z[0] == y[0] && z[1] == y[1]
            &&& y[2] == x[2] && z[2] == x[2]
            &&& x[1] <= y[1]
        },
        ops::cached_error(x, c, n) is None <==> {
            &&& x.len() == 3
            &&& n > 0 && c.num_kv_heads * n == x[0]
            &&& c.head_dim == x[2] && x[1] <= c.seq_len_k
            &&& c.num_kv_heads * c.max_len * c.head_dim <= c.key@.len()
            &&& c.num_kv_heads * c.max_len * c.head_dim <= c.value@.len()
        },
        ops::repeat_error(x, n) is None <==> n == 1 || x.len() == 3,
{
}

/// Law: where heads are repeated, each stands as often as was asked, one behind the other, with all
/// of its numbers.
pub proof fn law_repeated_heads_follow(
    s: Seq<u32>,
    t: Seq<u32>,
    heads: nat,
    times: nat,
    size: nat,
    h: int,
    k: int,
    x: int,
)
    requires
        ops::is_repeated(s, t, heads, times, size),
        0 <= h < heads,
        0 <= k < times,
        0 <= x < size,
    ensures
        t.len() == heads * times * size,
        t[(h * times + k) * size + x] == s[h * size + x],
{
    let g = h * times + k;
    assert(0 <= g < heads * times) by (nonlinear_arith)
        requires
            g == h * times + k,
            0 <= h < heads,
            0 <= k < times,
    ;
    vstd::arithmetic::div_mod::lemma_fundamental_div_mod_converse(g, times as int, h, k);
    assert(t[g * size + x] == s[(g / (times as int)) * size + x]);
}

/// Law: flipped outputs hold each number once, with its row and column exchanged.
pub proof fn law_flipped_exchanges(a: Seq<u32>, b: Seq<u32>, n: nat, m: nat, i: int, j: int)
    requires
        ops::is_flipped(a, b, n, m),
        0 <= i < m,
        0 <= j < n,
    ensures
        b.len() == m * n,
        b[i * n + j] == a[j * m + i],
{
}

} // verus!
