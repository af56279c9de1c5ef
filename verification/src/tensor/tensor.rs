//! Tensors of single-precision numbers.

use vstd::prelude::*;

use crate::error::{dimension_error, shape_mismatch, ErrorView, RsinferError};
use crate::tensor::array;
use crate::tensor::array::NdArray;
use crate::tensor::dtypes;
use crate::text;
use vstd::string::*;

verus! {

/// A tensor of any number of dimensions; each element is a single-precision bit pattern.
#[derive(Debug)]
pub struct Tensor {
    data: NdArray,
}

/// Why `len` elements cannot be a tensor of shape `s`, if they cannot.
pub open spec fn build_error(s: Seq<usize>, len: nat) -> Option<ErrorView> {
    if array::numel(s) != len {
        Some(ErrorView::ShapeMismatch { expected: s, actual: seq![len as usize] })
    } else {
        match array::build_failure(s, len) {
            Some(message) => Some(ErrorView::DimensionError(message)),
            None => None,
        }
    }
}

/// Why a tensor of shape `from` cannot be reshaped to `to`, if it cannot.
pub open spec fn reshape_error(from: Seq<usize>, row_major: bool, to: Seq<usize>) -> Option<
    ErrorView,
> {
    if array::numel(to) != array::numel(from) {
        Some(ErrorView::ShapeMismatch { expected: to, actual: from })
    } else {
        match array::reshape_failure(to, array::numel(from), row_major) {
            Some(message) => Some(ErrorView::DimensionError(message)),
            None => None,
        }
    }
}

impl Clone for Tensor {
    /// The same tensor once more.
    fn clone(&self) -> (t: Tensor)
        ensures
            t.dims() == self.dims(),
            t.values() == self.values(),
            t.row_major() == self.row_major(),
            t.well_formed(),
    {
        let dims = array::array_dims(&self.data);
        Tensor { data: array::array_clone(&self.data) }
    }
}

impl Tensor {
    /// The axis lengths.
    pub closed spec fn dims(&self) -> Seq<usize> {
        array::array_shape(self.data)
    }

    /// The elements, the last index varying fastest.
    pub closed spec fn values(&self) -> Seq<u32> {
        array::array_elements(self.data)
    }

    /// Whether the elements lie in memory in that order.
    pub closed spec fn row_major(&self) -> bool {
        array::array_row_major(self.data)
    }

    /// As many elements as the shape says, and axis lengths whose product an `isize` holds.
    pub open spec fn well_formed(&self) -> bool {
        &&& self.values().len() == array::numel(self.dims())
        &&& array::extent(self.dims()) <= isize::MAX
    }

    /// A tensor of the given shape over single-precision bit patterns in row-major order.
    pub fn from_f32_slice(shape: &[usize], data: &[u32]) -> (r: Result<Tensor, RsinferError>)
        ensures
            match r {
                Ok(t) => {
                    &&& build_error(shape@, data@.len()) is None
                    &&& t.dims() == shape@
                    &&& t.values() == data@
                    &&& t.row_major()
                    &&& t.well_formed()
                },
                Err(e) => build_error(shape@, data@.len()) == Some(e@),
            },
    {
        Tensor::from_f32_vec(shape, vstd::slice::slice_to_vec(data))
    }

    /// As `from_f32_slice`, over a vector that the tensor takes.
    pub fn from_f32_vec(shape: &[usize], data: Vec<u32>) -> (r: Result<Tensor, RsinferError>)
        ensures
            match r {
                Ok(t) => {
                    &&& build_error(shape@, data@.len()) is None
                    &&& t.dims() == shape@
                    &&& t.values() == data@
                    &&& t.row_major()
                    &&& t.well_formed()
                },
                Err(e) => build_error(shape@, data@.len()) == Some(e@),
            },
    {
        let len: usize = data.len();
        let fits = match array::checked_numel(shape) {
            Some(n) => n == len,
            None => false,
        };
        if !fits {
            let mut actual: Vec<usize> = Vec::new();
            actual.push(len);
            assert(actual@ =~= seq![len]);
            return Err(shape_mismatch(vstd::slice::slice_to_vec(shape), actual));
        }
        match array::array_from_vec(shape, data) {
            Ok(data) => Ok(Tensor { data }),
            Err(message) => Err(RsinferError::DimensionError(message)),
        }
    }

    /// A tensor of half-precision bytes.
    pub fn from_f16_bytes(shape: &[usize], bytes: &[u8]) -> (r: Result<Tensor, RsinferError>)
        ensures
            match r {
                Ok(t) => {
                    &&& build_error(shape@, bytes@.len() / 2) is None
                    &&& t.dims() == shape@
                    &&& t.values() == Seq::new(
                        bytes@.len() / 2,
                        |i: int| dtypes::widened(dtypes::word16(bytes@, i)),
                    )
                    &&& t.row_major()
                    &&& t.well_formed()
                },
                Err(e) => build_error(shape@, bytes@.len() / 2) == Some(e@),
            },
    {
        Tensor::from_f32_vec(shape, dtypes::f16_bytes_to_f32(bytes))
    }

    /// A tensor of `bfloat16` bytes.
    pub fn from_bf16_bytes(shape: &[usize], bytes: &[u8]) -> (r: Result<Tensor, RsinferError>)
        ensures
            match r {
                Ok(t) => {
                    &&& build_error(shape@, bytes@.len() / 2) is None
                    &&& t.dims() == shape@
                    &&& t.values() == Seq::new(
                        bytes@.len() / 2,
                        |i: int| dtypes::bf16_widened(dtypes::word16(bytes@, i)),
                    )
                    &&& t.row_major()
                    &&& t.well_formed()
                },
                Err(e) => build_error(shape@, bytes@.len() / 2) == Some(e@),
            },
    {
        Tensor::from_f32_vec(shape, dtypes::bf16_bytes_to_f32(bytes))
    }

    /// A tensor of single-precision bytes.
    pub fn from_f32_bytes(shape: &[usize], bytes: &[u8]) -> (r: Result<Tensor, RsinferError>)
        ensures
            match r {
                Ok(t) => {
                    &&& build_error(shape@, bytes@.len() / 4) is None
                    &&& t.dims() == shape@
                    &&& t.values() == Seq::new(
                        bytes@.len() / 4,
                        |i: int| dtypes::word32(bytes@, i),
                    )
                    &&& t.row_major()
                    &&& t.well_formed()
                },
                Err(e) => build_error(shape@, bytes@.len() / 4) == Some(e@),
            },
    {
        Tensor::from_f32_vec(shape, dtypes::f32_bytes_to_f32(bytes))
    }

    /// A tensor of zeros.
    pub fn zeros(shape: &[usize]) -> (t: Tensor)
        requires
            array::extent(shape@) <= isize::MAX,
            array::numel(shape@) * 4 <= isize::MAX,
        ensures
            t.dims() == shape@,
            t.values() == Seq::new(array::numel(shape@), |i: int| 0u32),
            t.row_major(),
            t.well_formed(),
    {
        Tensor { data: array::array_zeros(shape) }
    }

    /// The axis lengths.
    pub fn shape(&self) -> (r: &[usize])
        ensures
            r@ == self.dims(),
            self.values().len() == array::numel(r@),
            array::extent(r@) <= isize::MAX,
            self.well_formed(),
    {
        array::array_dims(&self.data)
    }

    /// The number of axes.
    pub fn ndim(&self) -> (r: usize)
        ensures
            r == self.dims().len(),
    {
        array::array_ndim(&self.data)
    }

    /// The number of elements.
    pub fn numel(&self) -> (r: usize)
        ensures
            r == self.values().len(),
            r == array::numel(self.dims()),
    {
        array::array_len(&self.data)
    }

    /// The same elements under another shape.
    pub fn reshape(&self, new_shape: &[usize]) -> (r: Result<Tensor, RsinferError>)
        ensures
            match r {
                Ok(t) => {
                    &&& reshape_error(self.dims(), self.row_major(), new_shape@) is None
                    &&& t.dims() == new_shape@
                    &&& t.values() == self.values()
                    &&& t.row_major()
                    &&& t.well_formed()
                },
                Err(e) => reshape_error(self.dims(), self.row_major(), new_shape@) == Some(e@),
            },
    {
        let len: usize = self.numel();
        let fits = match array::checked_numel(new_shape) {
            Some(n) => n == len,
            None => false,
        };
        if !fits {
            return Err(
                shape_mismatch(
                    vstd::slice::slice_to_vec(new_shape),
                    vstd::slice::slice_to_vec(self.shape()),
                ),
            );
        }
        match array::array_reshaped(array::array_clone(&self.data), new_shape) {
            Ok(data) => Ok(Tensor { data }),
            Err(message) => Err(RsinferError::DimensionError(message)),
        }
    }

    /// The transpose of a matrix.  Its elements stay where they are in memory, so it is in
    /// row-major order only where an axis is at most one long or the matrix was not.
    pub fn t(&self) -> (r: Result<Tensor, RsinferError>)
        ensures
            match r {
                Ok(t) => {
                    &&& self.dims().len() == 2
                    &&& t.dims() == seq![self.dims()[1], self.dims()[0]]
                    &&& t.values().len() == self.values().len()
                    &&& forall|i: int, j: int|
                        0 <= i < self.dims()[1] && 0 <= j < self.dims()[0] ==> t.values()[i
                            * self.dims()[0] + j] == #[trigger] self.values()[j * self.dims()[1]
                            + i]
                    &&& t.row_major() == (self.dims()[0] <= 1 || self.dims()[1] <= 1
                        || !self.row_major())
                    &&& t.well_formed()
                },
                Err(e) => self.dims().len() != 2 && e@ == ErrorView::DimensionError(
                    "transpose requires 2D tensor, got "@ + text::dec(self.dims().len()) + "D"@,
                ),
            },
    {
        let n: usize = self.ndim();
        if n != 2 {
            let mut message = "transpose requires 2D tensor, got ".to_owned();
            text::push_size(&mut message, n);
            message.append("D");
            return Err(RsinferError::DimensionError(message));
        }
        let t = Tensor { data: array::array_t(&self.data) };
        let dims = t.shape();
        Ok(t)
    }

    /// The rows from `start` to `end` of a matrix.
    pub fn slice_rows(&self, start: usize, end: usize) -> (r: Result<Tensor, RsinferError>)
        requires
            self.dims().len() == 0 || (self.dims().len() == 2 && start <= self.dims()[0] && end
                <= self.dims()[0]),
        ensures
            match r {
                Ok(t) => {
                    &&& self.dims().len() == 2
                    &&& t.dims() == seq![
                        (if end < start {
                            0
                        } else {
                            end - start
                        }) as usize,
                        self.dims()[1],
                    ]
                    &&& t.values() == (if end < start {
                        Seq::<u32>::empty()
                    } else {
                        self.values().subrange(start * self.dims()[1], end * self.dims()[1])
                    })
                    &&& self.row_major() ==> t.row_major()
                    &&& t.well_formed()
                },
                Err(e) => self.dims().len() == 0 && e@ == ErrorView::DimensionError(
                    "Cannot slice 0D tensor"@,
                ),
            },
    {
        if self.ndim() < 1 {
            return Err(dimension_error("Cannot slice 0D tensor"));
        }
        let t = Tensor { data: array::array_rows(&self.data, start, end) };
        proof {
            assert(self.dims().drop_first() =~= seq![self.dims()[1]]);
            array::lemma_numel1(self.dims()[1]);
            assert(t.dims() =~= seq![
                (if end < start {
                    0
                } else {
                    end - start
                }) as usize,
                self.dims()[1],
            ]);
        }
        let dims = t.shape();
        Ok(t)
    }

    /// The last row, as a tensor with as many axes.
    pub fn last_row(&self) -> (r: Result<Tensor, RsinferError>)
        requires
            self.dims().len() > 0 ==> self.dims()[0] > 0,
        ensures
            match r {
                Ok(t) => {
                    &&& 1 <= self.dims().len() <= 3
                    &&& t.dims() == self.dims().update(0, 1)
                    &&& t.values() == self.values().skip(
                        (self.dims()[0] - 1) * array::numel(self.dims().drop_first()),
                    )
                    &&& self.row_major() ==> t.row_major()
                    &&& t.well_formed()
                },
                Err(e) => {
                    ||| self.dims().len() == 0 && e@ == ErrorView::DimensionError(
                        "Cannot get last row of 0D tensor"@,
                    )
                    ||| self.dims().len() > 3 && e@ == ErrorView::DimensionError(
                        "Unsupported dimension for last_row"@,
                    )
                },
            },
    {
        let n: usize = self.ndim();
        if n < 1 {
            return Err(dimension_error("Cannot get last row of 0D tensor"));
        }
        if n > 3 {
            return Err(dimension_error("Unsupported dimension for last_row"));
        }
        let dims = self.shape();
        let rows: usize = dims[0];
        let t = Tensor { data: array::array_rows(&self.data, rows - 1, rows) };
        proof {
            array::lemma_numel_front(self.dims());
            assert(t.dims() =~= self.dims().update(0, 1));
            let width = array::numel(self.dims().drop_first());
            assert(rows * width == self.values().len());
            assert(t.values() =~= self.values().skip((rows - 1) * width));
        }
        let shown = t.shape();
        Ok(t)
    }

    /// The elements in one row.
    pub fn to_1d(&self) -> (r: Result<Tensor, RsinferError>)
        ensures
            match r {
                Ok(t) => {
                    &&& self.row_major()
                    &&& t.dims() == seq![self.values().len() as usize]
                    &&& t.values() == self.values()
                    &&& t.row_major()
                    &&& t.well_formed()
                },
                Err(e) => !self.row_major() && e@ == ErrorView::DimensionError(
                    "ShapeError/IncompatibleLayout: incompatible memory layout"@,
                ),
            },
    {
        let shape = self.shape();
        let n: usize = self.numel();
        let mut flat: Vec<usize> = Vec::new();
        flat.push(n);
        proof {
            assert(flat@ =~= seq![n]);
            array::lemma_numel1(n);
            array::lemma_numel_extent(self.dims());
            array::lemma_numel_extent(flat@);
            array::lemma_extent1(n);
        }
        match array::array_reshaped(array::array_clone(&self.data), &flat) {
            Ok(data) => Ok(Tensor { data }),
            Err(message) => Err(RsinferError::DimensionError(message)),
        }
    }

    /// The elements where they lie in row-major order, and none where they do not.
    pub fn as_slice(&self) -> (r: &[u32])
        ensures
            r@ == (if self.row_major() {
                self.values()
            } else {
                Seq::<u32>::empty()
            }),
    {
        match array::array_slice(&self.data) {
            Some(s) => s,
            None => {
                let none: &[u32] = &[];
                assert(none@ =~= Seq::<u32>::empty());
                none
            },
        }
    }

    /// The elements in row-major order, copied.
    pub fn standard_values(&self) -> (r: Vec<u32>)
        ensures
            r@ == self.values(),
    {
        array::array_standard(&self.data)
    }
}

} // verus!
