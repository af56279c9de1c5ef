//! The storage of tensors: `ndarray` arrays of 32-bit words.
//!
//! An array is modelled by its shape, by its elements in row-major order of their
//! indices, and by whether it keeps them in that order in memory.

use vstd::prelude::*;

verus! {

/// The number of elements of an array of shape `s`.
pub open spec fn numel(s: Seq<usize>) -> nat
    decreases s.len(),
{
    if s.len() == 0 {
        1
    } else {
        numel(s.drop_last()) * (s.last() as nat)
    }
}

/// The product of the axis lengths of `s` that are not zero.
pub open spec fn extent(s: Seq<usize>) -> nat
    decreases s.len(),
{
    if s.len() == 0 {
        1
    } else if s.last() == 0 {
        extent(s.drop_last())
    } else {
        extent(s.drop_last()) * (s.last() as nat)
    }
}

/// Why a buffer of `len` elements cannot have shape `s`, if it cannot.
pub open spec fn build_failure(s: Seq<usize>, len: nat) -> Option<Seq<char>> {
    if extent(s) > isize::MAX {
        Some("ShapeError/Overflow: arithmetic overflow"@)
    } else if numel(s) > len {
        Some("ShapeError/OutOfBounds: out of bounds indexing"@)
    } else if numel(s) != len {
        Some("ShapeError/IncompatibleShape: incompatible shapes"@)
    } else {
        None
    }
}

/// Why an array of `len` elements cannot take shape `s`, if it cannot.
pub open spec fn reshape_failure(s: Seq<usize>, len: nat, row_major: bool) -> Option<Seq<char>> {
    if extent(s) > isize::MAX || numel(s) != len {
        Some("ShapeError/IncompatibleShape: incompatible shapes"@)
    } else if !row_major {
        Some("ShapeError/IncompatibleLayout: incompatible memory layout"@)
    } else {
        None
    }
}

/// An `ndarray::ArrayD<u32>`.  Every value is made by the functions below, so its elements lie
/// in memory in row-major order or, behind a transposition, in column-major order.
#[verifier::external_body]
#[derive(Debug)]
pub struct NdArray {
    inner: ndarray::ArrayD<u32>,
}

/// The axis lengths of `a`.
pub uninterp spec fn array_shape(a: NdArray) -> Seq<usize>;

/// The elements of `a`, the last index varying fastest.
pub uninterp spec fn array_elements(a: NdArray) -> Seq<u32>;

/// Whether `a` keeps its elements in that order in memory.
pub uninterp spec fn array_row_major(a: NdArray) -> bool;

/// `ArrayD::from_shape_vec`: an array of the given shape over `v` in row-major order, or the
/// text of the `ShapeError`.
#[verifier::external_body]
pub(crate) fn array_from_vec(shape: &[usize], v: Vec<u32>) -> (r: Result<NdArray, String>)
    ensures
        match r {
            Ok(a) => {
                &&& build_failure(shape@, v@.len()) is None
                &&& array_shape(a) == shape@
                &&& array_elements(a) == v@
                &&& array_row_major(a)
            },
            Err(e) => build_failure(shape@, v@.len()) == Some(e@),
        },
{
    match ndarray::ArrayD::from_shape_vec(ndarray::IxDyn(shape), v) {
        Ok(inner) => Ok(NdArray { inner }),
        Err(e) => Err(e.to_string()),
    }
}

/// `ArrayD::zeros`: an array of zeros.  It panics where the axis lengths, or the bytes of the
/// elements, do not fit in an `isize`.
#[verifier::external_body]
pub(crate) fn array_zeros(shape: &[usize]) -> (a: NdArray)
    requires
        extent(shape@) <= isize::MAX,
        numel(shape@) * 4 <= isize::MAX,
    ensures
        array_shape(a) == shape@,
        array_elements(a) == Seq::new(numel(shape@), |i: int| 0u32),
        array_row_major(a),
{
    NdArray { inner: ndarray::ArrayD::zeros(ndarray::IxDyn(shape)) }
}

/// `ArrayBase::shape`: the axis lengths.  With them comes what holds of every array.
#[verifier::external_body]
pub(crate) fn array_dims(a: &NdArray) -> (r: &[usize])
    ensures
        r@ == array_shape(*a),
        array_elements(*a).len() == numel(r@),
        extent(r@) <= isize::MAX,
{
    a.inner.shape()
}

/// `ArrayBase::ndim`: the number of axes.
#[verifier::external_body]
pub(crate) fn array_ndim(a: &NdArray) -> (r: usize)
    ensures
        r == array_shape(*a).len(),
{
    a.inner.ndim()
}

/// `ArrayBase::len`: the number of elements.
#[verifier::external_body]
pub(crate) fn array_len(a: &NdArray) -> (r: usize)
    ensures
        r == array_elements(*a).len(),
        r == numel(array_shape(*a)),
{
    a.inner.len()
}

/// `ArrayBase::as_slice`: the elements, where they lie in row-major order.
#[verifier::external_body]
pub(crate) fn array_slice(a: &NdArray) -> (r: Option<&[u32]>)
    ensures
        match r {
            Some(s) => array_row_major(*a) && s@ == array_elements(*a),
            None => !array_row_major(*a),
        },
{
    a.inner.as_slice()
}

/// `ArrayBase::as_standard_layout`: the elements in row-major order, copied.
#[verifier::external_body]
pub(crate) fn array_standard(a: &NdArray) -> (r: Vec<u32>)
    ensures
        r@ == array_elements(*a),
{
    a.inner.as_standard_layout().iter().copied().collect()
}

/// `ArrayBase::clone`: the same elements in the same layout.
#[verifier::external_body]
pub(crate) fn array_clone(a: &NdArray) -> (r: NdArray)
    ensures
        array_shape(r) == array_shape(*a),
        array_elements(r) == array_elements(*a),
        array_row_major(r) == array_row_major(*a),
{
    NdArray { inner: a.inner.clone() }
}

/// `ArrayBase::into_shape_with_order`: the same elements under another shape, or the text of
/// the `ShapeError`.
#[verifier::external_body]
pub(crate) fn array_reshaped(a: NdArray, shape: &[usize]) -> (r: Result<NdArray, String>)
    ensures
        match r {
            Ok(b) => {
                &&& reshape_failure(shape@, array_elements(a).len(), array_row_major(a)) is None
                &&& array_shape(b) == shape@
                &&& array_elements(b) == array_elements(a)
                &&& array_row_major(b)
            },
            Err(e) => reshape_failure(shape@, array_elements(a).len(), array_row_major(a)) == Some(
                e@,
            ),
        },
{
    match a.inner.into_shape_with_order(ndarray::IxDyn(shape)) {
        Ok(inner) => Ok(NdArray { inner }),
        Err(e) => Err(e.to_string()),
    }
}

/// `ArrayBase::t` and `into_owned`: the axes of a matrix exchanged.  The elements keep their
/// places in memory, so their order changes unless one of the axes is at most one long.
#[verifier::external_body]
pub(crate) fn array_t(a: &NdArray) -> (r: NdArray)
    requires
        array_shape(*a).len() == 2,
    ensures
        array_shape(r) == seq![array_shape(*a)[1], array_shape(*a)[0]],
        array_elements(r).len() == array_elements(*a).len(),
        forall|i: int, j: int|
            0 <= i < array_shape(*a)[1] && 0 <= j < array_shape(*a)[0] ==> array_elements(r)[i
                * array_shape(*a)[0] + j] == #[trigger] array_elements(*a)[j * array_shape(*a)[1]
                + i],
        array_row_major(r) == (array_shape(*a)[0] <= 1 || array_shape(*a)[1] <= 1
            || !array_row_major(*a)),
{
    NdArray { inner: a.inner.t().into_owned() }
}

/// `ArrayBase::slice_axis` along the first axis, and `to_owned`: the rows from `start` to
/// `end`, none where `end` comes first.  It panics where a bound is past the axis.  The layout
/// is stated of a row-major array only.
#[verifier::external_body]
pub(crate) fn array_rows(a: &NdArray, start: usize, end: usize) -> (r: NdArray)
    requires
        array_shape(*a).len() > 0,
        start <= array_shape(*a)[0],
        end <= array_shape(*a)[0],
    ensures
        array_shape(r) == array_shape(*a).update(
            0,
            (if end < start {
                0
            } else {
                end - start
            }) as usize,
        ),
        array_elements(r) == (if end < start {
            Seq::<u32>::empty()
        } else {
            array_elements(*a).subrange(
                start * numel(array_shape(*a).drop_first()),
                end * numel(array_shape(*a).drop_first()),
            )
        }),
        array_row_major(*a) ==> array_row_major(r),
{
    let range = ndarray::Slice::from(start..end);
    NdArray { inner: a.inner.slice_axis(ndarray::Axis(0), range).to_owned() }
}

/// The number of elements of a vector.
pub proof fn lemma_numel1(a: usize)
    ensures
        numel(seq![a]) == a,
{
    let s = seq![a];
    assert(s.drop_last() =~= Seq::<usize>::empty());
    assert(numel(s.drop_last()) == 1);
    assert(numel(s) == 1 * (s.last() as nat));
}

/// The extent of a vector.
pub proof fn lemma_extent1(a: usize)
    ensures
        extent(seq![a]) == (if a == 0 {
            1
        } else {
            a as nat
        }),
{
    let s = seq![a];
    assert(s.drop_last() =~= Seq::<usize>::empty());
    assert(extent(s.drop_last()) == 1);
    if a != 0 {
        assert(extent(s) == 1 * (s.last() as nat));
    }
}

/// The first axis as a factor of the number of elements.
pub proof fn lemma_numel_front(s: Seq<usize>)
    requires
        s.len() > 0,
    ensures
        numel(s) == (s[0] as nat) * numel(s.drop_first()),
    decreases s.len(),
{
    if s.len() == 1 {
        assert(s.drop_last() =~= Seq::<usize>::empty());
        assert(s.drop_first() =~= Seq::<usize>::empty());
        assert(numel(s) == 1 * (s.last() as nat));
    } else {
        lemma_numel_front(s.drop_last());
        assert(s.drop_last().drop_first() =~= s.drop_first().drop_last());
        let a = s[0] as nat;
        let m = numel(s.drop_first().drop_last());
        let z = s.last() as nat;
        assert((a * m) * z == a * (m * z)) by (nonlinear_arith);
    }
}

/// The number of elements of a matrix.
pub proof fn lemma_numel2(a: usize, b: usize)
    ensures
        numel(seq![a, b]) == (a as nat) * (b as nat),
{
    let s = seq![a, b];
    assert(s.drop_last() =~= seq![a]);
    lemma_numel1(a);
    assert(numel(s) == numel(s.drop_last()) * (s.last() as nat));
}

/// The number of elements of an array of three axes.
pub proof fn lemma_numel3(a: usize, b: usize, c: usize)
    ensures
        numel(seq![a, b, c]) == (a as nat) * (b as nat) * (c as nat),
{
    let s = seq![a, b, c];
    assert(s.drop_last() =~= seq![a, b]);
    lemma_numel2(a, b);
    assert(numel(s) == numel(s.drop_last()) * (s.last() as nat));
}

/// An array without elements has an axis of length zero; any other fits where its extent does.
pub proof fn lemma_numel_extent(s: Seq<usize>)
    ensures
        numel(s) == extent(s) || numel(s) == 0,
        extent(s) >= 1,
        numel(s) <= extent(s),
    decreases s.len(),
{
    if s.len() > 0 {
        lemma_numel_extent(s.drop_last());
        let p = numel(s.drop_last());
        let e = extent(s.drop_last());
        let d = s.last() as nat;
        assert(d == 0 ==> p * d == 0) by (nonlinear_arith);
        assert(p == 0 ==> p * d == 0) by (nonlinear_arith);
        assert(d >= 1 && e >= 1 ==> e * d >= 1) by (nonlinear_arith);
    }
}

/// The number of elements of shape `s`, where a `usize` can hold it.
pub fn checked_numel(s: &[usize]) -> (r: Option<usize>)
    ensures
        match r {
            Some(n) => n == numel(s@),
            None => numel(s@) > usize::MAX,
        },
{
    let mut i: usize = 0;
    let mut zero = false;
    while i < s.len()
        invariant
            i <= s.len(),
            zero <==> exists|j: int| 0 <= j < i && s@[j] == 0,
        decreases s.len() - i,
    {
        if s[i] == 0 {
            zero = true;
        }
        i += 1;
    }
    if zero {
        proof {
            let j = choose|j: int| 0 <= j < s@.len() && s@[j] == 0;
            lemma_numel_zero(s@, j);
        }
        return Some(0);
    }
    let mut n: usize = 1;
    i = 0;
    proof {
        assert(s@.take(0) =~= Seq::<usize>::empty());
    }
    while i < s.len()
        invariant
            i <= s.len(),
            forall|j: int| 0 <= j < s@.len() ==> s@[j] != 0,
            n == numel(s@.take(i as int)),
        decreases s.len() - i,
    {
        proof {
            assert(s@.take(i + 1).drop_last() =~= s@.take(i as int));
            assert(s@.take(i + 1).last() == s@[i as int]);
        }
        match n.checked_mul(s[i]) {
            Some(m) => {
                n = m;
            },
            None => {
                proof {
                    lemma_numel_grows(s@, i + 1);
                }
                return None;
            },
        }
        i += 1;
    }
    assert(s@.take(s@.len() as int) =~= s@);
    Some(n)
}

proof fn lemma_numel_zero(s: Seq<usize>, j: int)
    requires
        0 <= j < s.len(),
        s[j] == 0,
    ensures
        numel(s) == 0,
    decreases s.len(),
{
    if j == s.len() - 1 {
        assert(numel(s.drop_last()) * 0 == 0) by (nonlinear_arith);
    } else {
        lemma_numel_zero(s.drop_last(), j);
        assert(0 * (s.last() as nat) == 0) by (nonlinear_arith);
    }
}

proof fn lemma_numel_grows(s: Seq<usize>, i: int)
    requires
        0 <= i <= s.len(),
        forall|j: int| 0 <= j < s.len() ==> s[j] != 0,
    ensures
        numel(s.take(i)) <= numel(s),
    decreases s.len() - i,
{
    if i == s.len() {
        assert(s.take(i) =~= s);
    } else {
        lemma_numel_grows(s, i + 1);
        assert(s.take(i + 1).drop_last() =~= s.take(i));
        let p = numel(s.take(i));
        let d = s[i] as nat;
        assert(p * d >= p) by (nonlinear_arith)
            requires
                d >= 1,
        ;
    }
}

} // verus!
