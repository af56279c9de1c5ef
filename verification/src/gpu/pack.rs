//! Signed bytes packed into 32-bit words, four to a word, the first one lowest.

use vstd::prelude::*;

verus! {

/// The eight bits of a signed byte, as a number.
pub open spec fn bits_of(v: i8) -> int {
    if v < 0 {
        v + 256
    } else {
        v as int
    }
}

/// The signed byte with the given eight bits.
pub open spec fn signed(b: int) -> int {
    if b >= 128 {
        b - 256
    } else {
        b
    }
}

/// The bits at place `i` of a row; behind its end they are zero.
pub open spec fn bits_at(row: Seq<i8>, i: int) -> int {
    if 0 <= i < row.len() {
        bits_of(row[i])
    } else {
        0
    }
}

/// Word `w` of a packed row.
pub open spec fn word_at(row: Seq<i8>, w: int) -> u32 {
    (bits_at(row, 4 * w) + 256 * bits_at(row, 4 * w + 1) + 65536 * bits_at(row, 4 * w + 2)
        + 16777216 * bits_at(row, 4 * w + 3)) as u32
}

/// The words that a row of `n` bytes needs.
pub open spec fn words_for(n: nat) -> nat {
    (n + 3) / 4
}

/// A packed row.
pub open spec fn packed(row: Seq<i8>) -> Seq<u32> {
    Seq::new(words_for(row.len()), |w: int| word_at(row, w))
}

/// Byte `lane` of a word, as a kernel takes it out.
pub open spec fn lane_of(word: u32, lane: int) -> int {
    if lane == 0 {
        word as int % 256
    } else if lane == 1 {
        word as int / 256 % 256
    } else if lane == 2 {
        word as int / 65536 % 256
    } else {
        word as int / 16777216 % 256
    }
}

/// Law: every byte of a row comes back out of its packed words.
pub proof fn law_unpack_packed(row: Seq<i8>, i: int)
    requires
        0 <= i < row.len(),
    ensures
        0 <= i / 4 < packed(row).len(),
        signed(lane_of(packed(row)[i / 4], i % 4)) == row[i],
{
    let w = i / 4;
    let a = bits_at(row, 4 * w);
    let b = bits_at(row, 4 * w + 1);
    let c = bits_at(row, 4 * w + 2);
    let d = bits_at(row, 4 * w + 3);
    let sum = a + 256 * b + 65536 * c + 16777216 * d;
    assert(0 <= sum <= 0xffff_ffff);
    assert(packed(row)[w] as int == sum);
    lemma_lanes(a, b, c, d);
}

proof fn lemma_lanes(a: int, b: int, c: int, d: int)
    requires
        0 <= a < 256,
        0 <= b < 256,
        0 <= c < 256,
        0 <= d < 256,
    ensures
        ({
            let sum = a + 256 * b + 65536 * c + 16777216 * d;
            &&& sum % 256 == a
            &&& sum / 256 % 256 == b
            &&& sum / 65536 % 256 == c
            &&& sum / 16777216 % 256 == d
        }),
{
    let sum = a + 256 * b + 65536 * c + 16777216 * d;
    assert(sum == 256 * (b + 256 * c + 65536 * d) + a);
    assert(sum / 256 == b + 256 * c + 65536 * d);
    assert(sum / 65536 == c + 256 * d);
    assert(sum / 16777216 == d);
}

/// The eight bits of a signed byte.
pub fn bits(v: i8) -> (r: u32)
    ensures
        r == bits_of(v),
{
    let b = v as u8;
    assert(b as int == bits_of(v)) by {
        assert(v < 0 ==> (v as u8) == v + 256) by (bit_vector);
        assert(v >= 0 ==> (v as u8) == v) by (bit_vector);
    }
    b as u32
}

fn bits_in(row: &[i8], start: usize, len: usize, i: usize) -> (r: u32)
    requires
        start + len <= row@.len(),
        row@.len() <= usize::MAX,
    ensures
        r == bits_at(row@.subrange(start as int, start + len), i as int),
        r < 256,
{
    if i < len {
        bits(row[start + i])
    } else {
        0
    }
}

/// The number of words that a row of `n` bytes needs.
pub fn words_per_row(n: usize) -> (r: usize)
    ensures
        r == words_for(n as nat),
{
    if n % 4 == 0 {
        n / 4
    } else {
        n / 4 + 1
    }
}

/// Packs `len` bytes from `start` on and appends the words.
pub fn pack_i8_row_to_u32(input: &[i8], start: usize, len: usize, output: &mut Vec<u32>)
    requires
        start + len <= input@.len(),
        len + 3 <= usize::MAX,
    ensures
        final(output)@ == old(output)@ + packed(input@.subrange(start as int, start + len)),
{
    let total: usize = input.len();
    let ghost row = input@.subrange(start as int, start + len);
    let ghost before = output@;
    let words: usize = words_per_row(len);
    let mut w: usize = 0;
    assert(before + packed(row).take(0) =~= before);
    while w < words
        invariant
            w <= words,
            words == words_for(len as nat),
            len + 3 <= usize::MAX,
            total == input@.len(),
            start + len <= input@.len(),
            row == input@.subrange(start as int, start + len),
            output@ == before + packed(row).take(w as int),
        decreases words - w,
    {
        let i: usize = 4 * w;
        let a: u32 = bits_in(input, start, len, i);
        let b: u32 = bits_in(input, start, len, i + 1);
        let c: u32 = bits_in(input, start, len, i + 2);
        let d: u32 = bits_in(input, start, len, i + 3);
        output.push(a + 256 * b + 65536 * c + 16777216 * d);
        w += 1;
        assert(output@ =~= before + packed(row).take(w as int));
    }
    assert(packed(row).take(words as int) =~= packed(row));
}

/// The packed rows of a matrix with rows of `width` bytes, from row `first` on.
pub open spec fn packed_rows(m: Seq<i8>, width: int, first: int, rows: nat) -> Seq<u32>
    decreases rows,
{
    if rows == 0 {
        Seq::empty()
    } else {
        let r = first + rows - 1;
        packed_rows(m, width, first, (rows - 1) as nat) + packed(
            m.subrange(r * width, r * width + width),
        )
    }
}

/// Packs `rows` rows of `width` bytes from row `first` on.
pub fn pack_rows(m: &[i8], width: usize, first: usize, rows: usize) -> (r: Vec<u32>)
    requires
        (first + rows) * width <= m@.len(),
        width + 3 <= usize::MAX,
    ensures
        r@ == packed_rows(m@, width as int, first as int, rows as nat),
{
    let total: usize = m.len();
    let mut out: Vec<u32> = Vec::new();
    let mut k: usize = 0;
    while k < rows
        invariant
            k <= rows,
            total == m@.len(),
            (first + rows) * width <= m@.len(),
            width + 3 <= usize::MAX,
            out@ == packed_rows(m@, width as int, first as int, k as nat),
        decreases rows - k,
    {
        proof {
            let at = first + k;
            assert(at * width + width <= (first + rows) * width && at * width >= 0)
                by (nonlinear_arith)
                requires
                    0 <= at,
                    at + 1 <= first + rows,
                    width >= 0,
            ;
            if width > 0 {
                assert(at <= at * width) by (nonlinear_arith)
                    requires
                        at >= 0,
                        width >= 1,
                ;
            }
        }
        if width > 0 {
            let start: usize = (first + k) * width;
            pack_i8_row_to_u32(m, start, width, &mut out);
        } else {
            proof {
                let r = first + k;
                assert(r * width == 0) by (nonlinear_arith)
                    requires
                        width == 0,
                ;
                assert(packed(m@.subrange(r * width, r * width + width)) =~= Seq::<u32>::empty());
                assert(out@ + packed(m@.subrange(r * width, r * width + width)) =~= out@);
            }
        }
        k += 1;
    }
    out
}

} // verus!
