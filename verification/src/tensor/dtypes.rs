//! The number formats of weights, and the conversions between their bit patterns.
//!
//! A single-precision number is carried as a `u32`, a half-precision one and a `bfloat16` as
//! a `u16`.

use vstd::arithmetic::power2::pow2;
use vstd::prelude::*;

verus! {

/// The formats in which weights are stored.
#[derive(Debug, Clone, Copy, PartialEq, Eq, Structural)]
pub enum DType {
    F32,
    F16,
    BF16,
}

/// The bytes that one number takes.
pub open spec fn dtype_size(d: DType) -> nat {
    match d {
        DType::F32 => 4,
        DType::F16 => 2,
        DType::BF16 => 2,
    }
}

impl DType {
    /// The bytes that one number takes.
    pub fn size_in_bytes(&self) -> (r: usize)
        ensures
            r == dtype_size(*self),
    {
        match self {
            DType::F32 => 4,
            DType::F16 => 2,
            DType::BF16 => 2,
        }
    }
}

/// The 16-bit word in little-endian order at byte `2 * i`.
pub open spec fn word16(bytes: Seq<u8>, i: int) -> u16 {
    (bytes[2 * i] + 256 * bytes[2 * i + 1]) as u16
}

/// The 32-bit word in little-endian order at byte `4 * i`.
pub open spec fn word32(bytes: Seq<u8>, i: int) -> u32 {
    (bytes[4 * i] + 256 * bytes[4 * i + 1] + 65536 * bytes[4 * i + 2] + 16777216 * bytes[4 * i
        + 3]) as u32
}

/// The position of the highest bit that is set.
pub open spec fn top_bit(m: nat) -> nat
    decreases m,
{
    if m < 2 {
        0
    } else {
        1 + top_bit(m / 2)
    }
}

/// Whether a half-precision bit pattern is not a number.
pub open spec fn half_is_nan(h: u16) -> bool {
    (h % 32768) > 31744
}

/// The single-precision bit pattern of the number that a half-precision one stands for; a
/// pattern that is not a number keeps its payload and becomes quiet.
pub open spec fn widened(h: u16) -> u32 {
    let sign = (h / 32768) as int;
    let exponent = (h / 1024) % 32;
    let mantissa = (h % 1024) as nat;
    let magnitude: int = if exponent == 31 {
        if mantissa == 0 {
            0x7F80_0000
        } else if mantissa < 512 {
            0x7FC0_0000 + (mantissa as int) * 8192
        } else {
            0x7F80_0000 + (mantissa as int) * 8192
        }
    } else if exponent > 0 {
        (exponent + 112) * 0x80_0000 + mantissa * 8192
    } else if mantissa > 0 {
        let top = top_bit(mantissa);
        (top + 103) * 0x80_0000 + (mantissa - pow2(top)) * pow2((23 - top) as nat)
    } else {
        0
    };
    (sign * 0x8000_0000 + magnitude) as u32
}

/// The single-precision bit pattern of the number that a `bfloat16` one stands for; a pattern
/// that is not a number becomes quiet.
pub open spec fn bf16_widened(b: u16) -> u32 {
    if b % 32768 > 0x7F80 && b % 128 < 64 {
        ((b + 64) * 65536) as u32
    } else {
        (b * 65536) as u32
    }
}

/// `x / d` rounded to the nearest integer, to the even one where two are as near.
pub open spec fn rounded(x: int, d: int) -> int {
    let q = x / d;
    let r = x % d;
    if 2 * r > d || (2 * r == d && q % 2 == 1) {
        q + 1
    } else {
        q
    }
}

/// Whether a single-precision bit pattern is not a number.
pub open spec fn single_is_nan(s: u32) -> bool {
    s % 0x8000_0000 > 0x7F80_0000
}

/// The half-precision bit pattern nearest to a single-precision one; what is too large becomes
/// infinite, and what is not a number keeps the front of its payload and becomes quiet.
pub open spec fn narrowed(s: u32) -> u16 {
    let sign = (s / 0x8000_0000) as int;
    let exponent = ((s / 0x80_0000) % 256) as int;
    let mantissa = (s % 0x80_0000) as int;
    let magnitude: int = if exponent == 255 {
        if mantissa == 0 {
            0x7C00
        } else if mantissa / 8192 < 512 {
            0x7E00 + mantissa / 8192
        } else {
            0x7C00 + mantissa / 8192
        }
    } else if exponent >= 143 {
        0x7C00
    } else if exponent > 112 {
        rounded((exponent - 112) * 0x80_0000 + mantissa, 8192)
    } else if exponent >= 102 {
        rounded(0x80_0000 + mantissa, pow2((126 - exponent) as nat) as int)
    } else {
        0
    };
    (sign * 0x8000 + magnitude) as u16
}

fn round_div(x: u32, d: u32) -> (r: u32)
    requires
        d > 1,
        x < 0x8000_0000,
        d < 0x8000_0000,
    ensures
        r == rounded(x as int, d as int),
        r <= x / d + 1,
{
    let q: u32 = x / d;
    let m: u32 = x % d;
    proof {
        vstd::arithmetic::div_mod::lemma_div_is_ordered_by_denominator(x as int, 1, d as int);
        assert(q <= x) by (nonlinear_arith)
            requires
                q == x / d,
                d > 1,
        ;
    }
    if 2 * m > d || (2 * m == d && q % 2 == 1) {
        q + 1
    } else {
        q
    }
}

proof fn lemma_pow2_small()
    ensures
        pow2(0) == 1,
        pow2(10) == 1024,
        pow2(14) == 16384,
        pow2(23) == 0x80_0000,
        pow2(24) == 0x100_0000,
{
    vstd::arithmetic::power2::lemma2_to64();
}

/// The position of the highest bit is fixed by the powers of two around the number.
proof fn lemma_top_bit(m: nat, t: nat)
    requires
        pow2(t) <= m < pow2(t + 1),
    ensures
        top_bit(m) == t,
    decreases m,
{
    vstd::arithmetic::power2::lemma2_to64();
    if t == 0 {
    } else {
        vstd::arithmetic::power2::lemma_pow2_unfold(t);
        vstd::arithmetic::power2::lemma_pow2_unfold(t + 1);
        vstd::arithmetic::power2::lemma_pow2_pos((t - 1) as nat);
        lemma_top_bit(m / 2, (t - 1) as nat);
    }
}

/// The single-precision pattern of a half-precision number.
pub fn half_to_single(h: u16) -> (r: u32)
    ensures
        r == widened(h),
{
    let sign: u32 = (h / 32768) as u32;
    let exponent: u32 = ((h / 1024) % 32) as u32;
    let mantissa: u32 = (h % 1024) as u32;
    if exponent == 31 {
        if mantissa == 0 {
            return sign * 0x8000_0000 + 0x7F80_0000;
        }
        if mantissa < 512 {
            return sign * 0x8000_0000 + 0x7FC0_0000 + mantissa * 8192;
        }
        return sign * 0x8000_0000 + 0x7F80_0000 + mantissa * 8192;
    }
    if exponent > 0 {
        return sign * 0x8000_0000 + (exponent + 112) * 0x80_0000 + mantissa * 8192;
    }
    if mantissa == 0 {
        return sign * 0x8000_0000;
    }
    let mut top: u32 = 0;
    let mut power: u32 = 1;
    let mut scale: u32 = 0x80_0000;
    proof {
        lemma_pow2_small();
    }
    while power * 2 <= mantissa
        invariant
            0 < mantissa < 1024,
            top <= 9,
            power == pow2(top as nat),
            scale == pow2((23 - top) as nat),
            0 < power <= mantissa,
            power * scale == 0x80_0000,
        decreases mantissa - power,
    {
        proof {
            vstd::arithmetic::power2::lemma_pow2_unfold((top + 1) as nat);
            vstd::arithmetic::power2::lemma_pow2_unfold((23 - top) as nat);
            lemma_pow2_small();
            if top == 9 {
                assert(pow2(10) == 1024);
            }
            let half = scale as int / 2;
            assert((power * 2) * half == 0x80_0000) by (nonlinear_arith)
                requires
                    power * scale == 0x80_0000,
                    scale == 2 * half,
            ;
        }
        power = power * 2;
        scale = scale / 2;
        top = top + 1;
    }
    proof {
        vstd::arithmetic::power2::lemma_pow2_unfold((top + 1) as nat);
        lemma_top_bit(mantissa as nat, top as nat);
        assert((mantissa - power) * scale <= power * scale) by (nonlinear_arith)
            requires
                mantissa < 2 * power,
                scale >= 0,
        ;
        assert((mantissa - power) * scale >= 0) by (nonlinear_arith)
            requires
                mantissa >= power,
                scale >= 0,
        ;
    }
    sign * 0x8000_0000 + (top + 103) * 0x80_0000 + (mantissa - power) * scale
}

/// The half-precision pattern nearest to a single-precision number.
pub fn single_to_half(s: u32) -> (r: u16)
    ensures
        r == narrowed(s),
{
    let sign: u32 = s / 0x8000_0000;
    let exponent: u32 = (s / 0x80_0000) % 256;
    let mantissa: u32 = s % 0x80_0000;
    if exponent == 255 {
        if mantissa == 0 {
            return (sign * 0x8000 + 0x7C00) as u16;
        }
        if mantissa / 8192 < 512 {
            return (sign * 0x8000 + 0x7E00 + mantissa / 8192) as u16;
        }
        return (sign * 0x8000 + 0x7C00 + mantissa / 8192) as u16;
    }
    if exponent >= 143 {
        return (sign * 0x8000 + 0x7C00) as u16;
    }
    if exponent > 112 {
        let m: u32 = round_div((exponent - 112) * 0x80_0000 + mantissa, 8192);
        return (sign * 0x8000 + m) as u16;
    }
    if exponent < 102 {
        return (sign * 0x8000) as u16;
    }
    let mut d: u32 = 16384;
    let mut e: u32 = 112;
    proof {
        lemma_pow2_small();
    }
    while e > exponent
        invariant
            102 <= exponent <= e <= 112,
            d == pow2((126 - e) as nat),
            16384 <= d <= 0x100_0000,
        decreases e,
    {
        proof {
            vstd::arithmetic::power2::lemma_pow2_unfold((127 - e) as nat);
            lemma_pow2_small();
            vstd::arithmetic::power2::lemma_pow2_strictly_increases((126 - e) as nat, 24);
            if 127 - e < 24 {
                vstd::arithmetic::power2::lemma_pow2_strictly_increases((127 - e) as nat, 24);
            }
        }
        d = d * 2;
        e = e - 1;
    }
    let m: u32 = round_div(0x80_0000 + mantissa, d);
    proof {
        assert((0x80_0000 + mantissa) / (d as int) <= 1023) by (nonlinear_arith)
            requires
                mantissa < 0x80_0000,
                d >= 16384,
        ;
    }
    (sign * 0x8000 + m) as u16
}

/// Law: a half-precision number comes back unchanged from single precision.
pub proof fn law_half_survives_single(h: u16)
    requires
        !half_is_nan(h),
    ensures
        narrowed(widened(h)) == h,
{
    let sign = (h / 32768) as int;
    let exponent = ((h / 1024) % 32) as int;
    let mantissa = (h % 1024) as nat;
    lemma_pow2_small();
    if exponent == 0 && mantissa > 0 {
        let top = lemma_top_bit_bounds(mantissa, 9);
        let scale = pow2((23 - top) as nat);
        vstd::arithmetic::power2::lemma_pow2_adds(top, (23 - top) as nat);
        vstd::arithmetic::power2::lemma_pow2_unfold(top + 1);
        vstd::arithmetic::power2::lemma_pow2_pos((23 - top) as nat);
        let rest = (mantissa - pow2(top)) * scale;
        assert(pow2(top) * scale == 0x80_0000);
        assert(rest + 0x80_0000 == mantissa * scale) by (nonlinear_arith)
            requires
                rest == (mantissa - pow2(top)) * scale,
                pow2(top) * scale == 0x80_0000,
        ;
        assert(0 <= rest < 0x80_0000) by (nonlinear_arith)
            requires
                rest == (mantissa - pow2(top)) * scale,
                pow2(top) * scale == 0x80_0000,
                pow2(top) <= mantissa < 2 * pow2(top),
                scale > 0,
        ;
        let s = widened(h);
        assert(s == sign * 0x8000_0000 + (top + 103) * 0x80_0000 + rest);
        assert((s / 0x80_0000) % 256 == top + 103);
        assert(s % 0x80_0000 == rest);
        assert(s / 0x8000_0000 == sign);
        let product = (mantissa * scale) as int;
        let d = scale as int;
        vstd::arithmetic::div_mod::lemma_fundamental_div_mod_converse(
            product,
            d,
            mantissa as int,
            0,
        );
        assert(rounded(0x80_0000 + rest, d) == mantissa);
    } else {
        let s = widened(h);
        assert(s / 0x8000_0000 == sign);
    }
}

/// The highest bit of a positive number below a power of two.
pub proof fn lemma_top_bit_bounds(m: nat, limit: nat) -> (t: nat)
    requires
        0 < m < pow2(limit + 1),
    ensures
        t == top_bit(m),
        t <= limit,
        pow2(t) <= m < pow2(t + 1),
    decreases limit,
{
    if m >= pow2(limit) {
        lemma_top_bit(m, limit);
        limit
    } else if limit == 0 {
        vstd::arithmetic::power2::lemma2_to64();
        0
    } else {
        lemma_top_bit_bounds(m, (limit - 1) as nat)
    }
}

/// `half::bf16::to_f32`: the pattern becomes the upper half of the single-precision one, and one that
/// is not a number becomes quiet.
#[verifier::external_body]
fn bf16_to_single(b: u16) -> (r: u32)
    ensures
        r == bf16_widened(b),
{
    half::bf16::from_bits(b).to_f32().to_bits()
}

fn le16(bytes: &[u8], i: usize) -> (r: u16)
    requires
        2 * i + 1 < bytes.len(),
    ensures
        r == word16(bytes@, i as int),
{
    bytes[2 * i] as u16 + 256 * (bytes[2 * i + 1] as u16)
}

/// The 32-bit word in little-endian order at byte `4 * i`.
pub fn le32(bytes: &[u8], i: usize) -> (r: u32)
    requires
        4 * i + 3 < bytes.len(),
    ensures
        r == word32(bytes@, i as int),
{
    bytes[4 * i] as u32 + 256 * (bytes[4 * i + 1] as u32) + 65536 * (bytes[4 * i + 2] as u32)
        + 16777216 * (bytes[4 * i + 3] as u32)
}

/// Half-precision bytes as single-precision patterns; an odd byte at the end is left out.
pub fn f16_bytes_to_f32(bytes: &[u8]) -> (r: Vec<u32>)
    ensures
        r@ == Seq::new(bytes@.len() / 2, |i: int| widened(word16(bytes@, i))),
{
    let n: usize = bytes.len() / 2;
    let mut out: Vec<u32> = Vec::with_capacity(n);
    let mut i: usize = 0;
    while i < n
        invariant
            i <= n,
            n == bytes@.len() / 2,
            out@ == Seq::new(i as nat, |k: int| widened(word16(bytes@, k))),
        decreases n - i,
    {
        out.push(half_to_single(le16(bytes, i)));
        i += 1;
        assert(out@ =~= Seq::new(i as nat, |k: int| widened(word16(bytes@, k))));
    }
    out
}

/// `bfloat16` bytes as single-precision patterns; an odd byte at the end is left out.
pub fn bf16_bytes_to_f32(bytes: &[u8]) -> (r: Vec<u32>)
    ensures
        r@ == Seq::new(bytes@.len() / 2, |i: int| bf16_widened(word16(bytes@, i))),
{
    let n: usize = bytes.len() / 2;
    let mut out: Vec<u32> = Vec::with_capacity(n);
    let mut i: usize = 0;
    while i < n
        invariant
            i <= n,
            n == bytes@.len() / 2,
            out@ == Seq::new(i as nat, |k: int| bf16_widened(word16(bytes@, k))),
        decreases n - i,
    {
        out.push(bf16_to_single(le16(bytes, i)));
        i += 1;
        assert(out@ =~= Seq::new(i as nat, |k: int| bf16_widened(word16(bytes@, k))));
    }
    out
}

/// Single-precision bytes as patterns; up to three bytes at the end are left out.
pub fn f32_bytes_to_f32(bytes: &[u8]) -> (r: Vec<u32>)
    ensures
        r@ == Seq::new(bytes@.len() / 4, |i: int| word32(bytes@, i)),
{
    let n: usize = bytes.len() / 4;
    let mut out: Vec<u32> = Vec::with_capacity(n);
    let mut i: usize = 0;
    while i < n
        invariant
            i <= n,
            n == bytes@.len() / 4,
            out@ == Seq::new(i as nat, |k: int| word32(bytes@, k)),
        decreases n - i,
    {
        out.push(le32(bytes, i));
        i += 1;
        assert(out@ =~= Seq::new(i as nat, |k: int| word32(bytes@, k)));
    }
    out
}

/// Half-precision bytes as patterns of half precision; an odd byte at the end is left out.
pub fn f16_bytes_to_f16(bytes: &[u8]) -> (r: Vec<u16>)
    ensures
        r@ == Seq::new(bytes@.len() / 2, |i: int| word16(bytes@, i)),
{
    let n: usize = bytes.len() / 2;
    let mut out: Vec<u16> = Vec::with_capacity(n);
    let mut i: usize = 0;
    while i < n
        invariant
            i <= n,
            n == bytes@.len() / 2,
            out@ == Seq::new(i as nat, |k: int| word16(bytes@, k)),
        decreases n - i,
    {
        out.push(le16(bytes, i));
        i += 1;
        assert(out@ =~= Seq::new(i as nat, |k: int| word16(bytes@, k)));
    }
    out
}

/// Half-precision patterns as single-precision ones.
pub fn f16_slice_to_f32(data: &[u16]) -> (r: Vec<u32>)
    ensures
        r@ == data@.map_values(|h: u16| widened(h)),
{
    let mut out: Vec<u32> = Vec::with_capacity(data.len());
    let mut i: usize = 0;
    while i < data.len()
        invariant
            i <= data.len(),
            out@ == data@.take(i as int).map_values(|h: u16| widened(h)),
        decreases data.len() - i,
    {
        out.push(half_to_single(data[i]));
        i += 1;
        assert(out@ =~= data@.take(i as int).map_values(|h: u16| widened(h)));
    }
    assert(data@.take(data@.len() as int) =~= data@);
    out
}

/// Single-precision patterns as the nearest half-precision ones.
pub fn f32_slice_to_f16(data: &[u32]) -> (r: Vec<u16>)
    ensures
        r@ == data@.map_values(|s: u32| narrowed(s)),
{
    let mut out: Vec<u16> = Vec::with_capacity(data.len());
    let mut i: usize = 0;
    while i < data.len()
        invariant
            i <= data.len(),
            out@ == data@.take(i as int).map_values(|s: u32| narrowed(s)),
        decreases data.len() - i,
    {
        out.push(single_to_half(data[i]));
        i += 1;
        assert(out@ =~= data@.take(i as int).map_values(|s: u32| narrowed(s)));
    }
    assert(data@.take(data@.len() as int) =~= data@);
    out
}

} // verus!
