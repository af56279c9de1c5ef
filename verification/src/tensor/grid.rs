//! Flat buffers seen as rows of equal length.

use vstd::prelude::*;

verus! {

/// The element at column `x` of row `h`, where rows are `stride` long.
pub open spec fn cell(s: Seq<u32>, stride: int, h: int, x: int) -> u32 {
    s[h * stride + x]
}

/// The buffer of `rows` rows of length `stride` whose elements `f` gives by row and column.
pub open spec fn grid(rows: nat, stride: nat, f: spec_fn(int, int) -> u32) -> Seq<u32> {
    Seq::new(rows * stride, |i: int| f(i / (stride as int), i % (stride as int)))
}

/// A row and a column within a grid give a position in its buffer.
pub proof fn lemma_cell_range(rows: int, stride: int, h: int, x: int)
    requires
        0 <= h < rows,
        0 <= x < stride,
    ensures
        0 <= h * stride + x < rows * stride,
        (h * stride + x) / stride == h,
        (h * stride + x) % stride == x,
{
    assert(0 <= h * stride) by (nonlinear_arith)
        requires
            0 <= h,
            0 < stride,
    ;
    assert(h * stride + stride <= rows * stride) by (nonlinear_arith)
        requires
            h + 1 <= rows,
            0 < stride,
    ;
    vstd::arithmetic::div_mod::lemma_fundamental_div_mod_converse(h * stride + x, stride, h, x);
}

/// A position in the buffer of a grid is that of one row and one column.
pub proof fn lemma_position(rows: int, stride: int, i: int)
    requires
        0 <= i < rows * stride,
        0 <= stride,
        0 <= rows,
    ensures
        stride > 0,
        0 <= i / stride < rows,
        0 <= i % stride < stride,
        (i / stride) * stride + i % stride == i,
{
    if stride == 0 {
        assert(rows * stride == 0) by (nonlinear_arith)
            requires
                stride == 0,
        ;
    }
    vstd::arithmetic::div_mod::lemma_fundamental_div_mod(i, stride);
    assert(stride * (i / stride) == (i / stride) * stride) by (nonlinear_arith);
    assert(0 <= i / stride) by (nonlinear_arith)
        requires
            0 <= i,
            stride > 0,
    ;
    assert(i / stride < rows) by (nonlinear_arith)
        requires
            i < rows * stride,
            stride > 0,
            stride * (i / stride) + i % stride == i,
            0 <= i % stride,
    ;
}

/// The cells of a grid are the elements that its function gives.
pub proof fn lemma_grid_cell(
    rows: nat,
    stride: nat,
    f: spec_fn(int, int) -> u32,
    h: int,
    x: int,
)
    requires
        0 <= h < rows,
        0 <= x < stride,
    ensures
        cell(grid(rows, stride, f), stride as int, h, x) == f(h, x),
{
    lemma_cell_range(rows as int, stride as int, h, x);
}

/// A buffer of the right length whose cells are those of a grid is the grid.
pub proof fn lemma_is_grid(s: Seq<u32>, rows: nat, stride: nat, f: spec_fn(int, int) -> u32)
    requires
        s.len() == rows * stride,
        forall|h: int, x: int|
            0 <= h < rows && 0 <= x < stride ==> #[trigger] cell(s, stride as int, h, x) == f(h, x),
    ensures
        s == grid(rows, stride, f),
{
    let g = grid(rows, stride, f);
    assert forall|i: int| 0 <= i < s.len() implies s[i] == g[i] by {
        lemma_position(rows as int, stride as int, i);
        let h = i / (stride as int);
        let x = i % (stride as int);
        assert(cell(s, stride as int, h, x) == f(h, x));
    }
    assert(s =~= g);
}

/// What `copy_rows` leaves in row `h`, column `x`.
pub open spec fn copied_cell(
    dst: Seq<u32>,
    dst_stride: int,
    dst_off: int,
    src: Seq<u32>,
    src_stride: int,
    width: int,
    h: int,
    x: int,
) -> u32 {
    if dst_off <= x < dst_off + width {
        cell(src, src_stride, h, x - dst_off)
    } else {
        cell(dst, dst_stride, h, x)
    }
}

/// Copies the first `width` elements of each of `rows` rows of `src` into the rows of `dst`,
/// from column `dst_off` on.
pub fn copy_rows(
    dst: &mut Vec<u32>,
    dst_stride: usize,
    dst_off: usize,
    src: &[u32],
    src_stride: usize,
    width: usize,
    rows: usize,
)
    requires
        width <= src_stride,
        dst_off + width <= dst_stride,
        rows * src_stride <= src@.len(),
        rows * dst_stride <= old(dst)@.len(),
    ensures
        final(dst)@.len() == old(dst)@.len(),
        forall|h: int, x: int|
            0 <= h < rows && 0 <= x < dst_stride ==> #[trigger] cell(
                final(dst)@,
                dst_stride as int,
                h,
                x,
            ) == copied_cell(
                old(dst)@,
                dst_stride as int,
                dst_off as int,
                src@,
                src_stride as int,
                width as int,
                h,
                x,
            ),
        forall|i: int| rows * dst_stride <= i < old(dst)@.len() ==> final(dst)@[i] == old(dst)@[i],
{
    let ghost before = dst@;
    let size: usize = dst.len();
    let src_size: usize = src.len();
    let mut h: usize = 0;
    while h < rows
        invariant
            h <= rows,
            size == before.len(),
            src_size == src@.len(),
            width <= src_stride,
            dst_off + width <= dst_stride,
            rows * src_stride <= src@.len(),
            rows * dst_stride <= before.len(),
            dst@.len() == before.len(),
            forall|r: int, x: int|
                0 <= r < rows && 0 <= x < dst_stride ==> #[trigger] cell(
                    dst@,
                    dst_stride as int,
                    r,
                    x,
                ) == (if r < h {
                    copied_cell(
                        before,
                        dst_stride as int,
                        dst_off as int,
                        src@,
                        src_stride as int,
                        width as int,
                        r,
                        x,
                    )
                } else {
                    cell(before, dst_stride as int, r, x)
                }),
            forall|i: int| rows * dst_stride <= i < before.len() ==> dst@[i] == before[i],
        decreases rows - h,
    {
        let mut w: usize = 0;
        while w < width
            invariant
                h < rows,
                size == before.len(),
            src_size == src@.len(),
                w <= width,
                width <= src_stride,
                dst_off + width <= dst_stride,
                rows * src_stride <= src@.len(),
                rows * dst_stride <= before.len(),
                dst@.len() == before.len(),
                forall|r: int, x: int|
                    0 <= r < rows && 0 <= x < dst_stride ==> #[trigger] cell(
                        dst@,
                        dst_stride as int,
                        r,
                        x,
                    ) == (if r < h || (r == h && x < dst_off + w) {
                        copied_cell(
                            before,
                            dst_stride as int,
                            dst_off as int,
                            src@,
                            src_stride as int,
                            width as int,
                            r,
                            x,
                        )
                    } else {
                        cell(before, dst_stride as int, r, x)
                    }),
                forall|i: int| rows * dst_stride <= i < before.len() ==> dst@[i] == before[i],
            decreases width - w,
        {
            proof {
                lemma_cell_range(rows as int, dst_stride as int, h as int, dst_off + w);
                lemma_cell_range(rows as int, src_stride as int, h as int, w as int);
                assert(h * dst_stride <= h * dst_stride + dst_off + w);
                assert(h * src_stride <= h * src_stride + w);
            }
            let ghost mid = dst@;
            let at: usize = h * dst_stride + dst_off + w;
            let v: u32 = src[h * src_stride + w];
            dst.set(at, v);
            proof {
                assert forall|r: int, x: int|
                    0 <= r < rows && 0 <= x < dst_stride implies #[trigger] cell(
                    dst@,
                    dst_stride as int,
                    r,
                    x,
                ) == (if r < h || (r == h && x < dst_off + w + 1) {
                    copied_cell(
                        before,
                        dst_stride as int,
                        dst_off as int,
                        src@,
                        src_stride as int,
                        width as int,
                        r,
                        x,
                    )
                } else {
                    cell(before, dst_stride as int, r, x)
                }) by {
                    lemma_cell_range(rows as int, dst_stride as int, r, x);
                    assert(cell(mid, dst_stride as int, r, x) == mid[r * dst_stride + x]);
                    if r * dst_stride + x == at {
                        assert(r == h && x == dst_off + w);
                    }
                }
            }
            w += 1;
        }
        h += 1;
    }
}

/// A buffer of `n` zeros.
pub fn zeroed(n: usize) -> (r: Vec<u32>)
    ensures
        r@ == Seq::new(n as nat, |i: int| 0u32),
{
    let v: Vec<u32> = vec![0u32; n];
    assert(v@ =~= Seq::new(n as nat, |i: int| 0u32));
    v
}

/// The first `len` positions of each of `heads` heads, each position `dim` numbers wide, out of a
/// buffer that has room for `capacity` positions a head.
pub open spec fn compacted(buffer: Seq<u32>, heads: nat, len: nat, capacity: nat, dim: nat) -> Seq<
    u32,
> {
    grid(heads, len * dim, |h: int, x: int| cell(buffer, (capacity * dim) as int, h, x))
}

/// The first `len` positions of every head, head behind head.
pub fn compact_heads(buffer: &[u32], heads: usize, len: usize, capacity: usize, dim: usize) -> (r:
    Vec<u32>)
    requires
        heads > 0,
        len <= capacity,
        buffer@.len() == heads * (capacity * dim),
    ensures
        r@ == compacted(buffer@, heads as nat, len as nat, capacity as nat, dim as nat),
        r@.len() == heads * (len * dim),
{
    let size: usize = buffer.len();
    proof {
        let stride = capacity * dim;
        assert(stride >= 0 && heads * stride >= stride) by (nonlinear_arith)
            requires
                heads >= 1,
                stride == capacity * dim,
                capacity >= 0,
                dim >= 0,
        ;
        assert(0 <= len * dim <= capacity * dim) by (nonlinear_arith)
            requires
                0 <= len <= capacity,
                0 <= dim,
        ;
        let used = len * dim;
        assert(heads * used <= heads * stride) by (nonlinear_arith)
            requires
                heads >= 1,
                used <= stride,
        ;
    }
    let row: usize = len * dim;
    let stride: usize = capacity * dim;
    let total: usize = heads * row;
    let mut out = zeroed(total);
    copy_rows(&mut out, row, 0, buffer, stride, row, heads);
    proof {
        let f = |h: int, x: int| cell(buffer@, (capacity as nat * dim as nat) as int, h, x);
        lemma_is_grid(out@, heads as nat, (len as nat * dim as nat) as nat, f);
    }
    out
}

} // verus!
