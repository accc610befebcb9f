use vstd::prelude::*;

use crate::error::Error;
use crate::kinds::{
    matrix_to_tensor_kind, spec_code_channels, spec_code_kind, spec_code_supported,
    spec_elem_size, ElementKind,
};
use crate::layout::{
    elem_at, flat_index, flat_offset, in_range, read_element_bytes, strides_fit, suffix_prod,
    total_elems, lemma_flat_index_bounds,
};

verus! {

/// Element count of the shape, or `None` when some suffix product (and so
/// some row-major stride, or the count itself) does not fit this machine.
pub fn checked_total(shape: &Vec<usize>) -> (r: Option<usize>)
    ensures
        match r {
            Some(t) => strides_fit(shape@) && t == total_elems(shape@),
            None => !strides_fit(shape@),
        },
{
    let len = shape.len();
    let mut acc: usize = 1;
    for k in 0..len
        invariant
            len == shape@.len(),
            acc == suffix_prod(shape@, len - k),
            forall|i: int| len - k <= i <= len ==> suffix_prod(shape@, i) <= usize::MAX,
    {
        let i = len - 1 - k;
        proof {
            assert(suffix_prod(shape@, i as int) == shape@[i as int] * suffix_prod(
                shape@,
                i as int + 1,
            ));
            assert(shape@[i as int] * suffix_prod(shape@, i as int + 1) == suffix_prod(
                shape@,
                i as int + 1,
            ) * shape@[i as int]) by (nonlinear_arith);
        }
        acc = match acc.checked_mul(shape[i]) {
            Some(next) => next,
            None => {
                return None;
            },
        };
    }
    Some(acc)
}

/// Dense strided array used for numeric computation: a scalar kind, a shape,
/// and the elements packed row-major in a byte buffer.
#[derive(Debug, Clone, PartialEq, Eq)]
pub struct Tensor {
    pub kind: ElementKind,
    pub shape: Vec<usize>,
    pub data: Vec<u8>,
}

impl Tensor {
    /// The byte buffer holds exactly the packed row-major elements, and every
    /// row-major stride of the shape is representable.
    pub open spec fn wf(self) -> bool {
        &&& strides_fit(self.shape@)
        &&& self.data@.len() == total_elems(self.shape@) * spec_elem_size(self.kind)
    }

    /// Bytes of the element the index addresses, in spec terms.
    pub open spec fn spec_element(self, idx: Seq<usize>) -> Seq<u8> {
        elem_at(self.data@, spec_elem_size(self.kind), flat_index(self.shape@, idx))
    }

    /// Wraps a packed byte buffer as a tensor. Fails with `BufferTooSmall`
    /// when the buffer does not hold exactly the bytes the shape asks for, or
    /// when the shape's extent is not representable on this machine.
    pub fn new(kind: ElementKind, shape: Vec<usize>, data: Vec<u8>) -> (r: Result<Tensor, Error>)
        ensures
            match r {
                Ok(t) => {
                    &&& t == (Tensor { kind, shape, data })
                    &&& t.wf()
                },
                Err(e) => {
                    &&& e == Error::BufferTooSmall
                    &&& !(strides_fit(shape@) && data@.len() == total_elems(shape@)
                        * spec_elem_size(kind))
                },
            },
    {
        let total = match checked_total(&shape) {
            Some(t) => t,
            None => {
                return Err(Error::BufferTooSmall);
            },
        };
        let n = data.len();
        let expected = match total.checked_mul(kind.elem_size()) {
            Some(e) => e,
            None => {
                proof {
                    assert(n <= usize::MAX);
                }
                return Err(Error::BufferTooSmall);
            },
        };
        if n != expected {
            return Err(Error::BufferTooSmall);
        }
        Ok(Tensor { kind, shape, data })
    }

    pub fn rank(&self) -> (r: usize)
        ensures
            r == self.shape@.len(),
    {
        self.shape.len()
    }

    /// Bytes of the element at the given index, read at its row-major offset.
    pub fn read_element(&self, idx: &Vec<usize>) -> (r: Vec<u8>)
        requires
            self.wf(),
            in_range(self.shape@, idx@),
        ensures
            r@ == self.spec_element(idx@),
            r@.len() == spec_elem_size(self.kind),
    {
        proof {
            lemma_flat_index_bounds(self.shape@, idx@);
        }
        let off = flat_offset(&self.shape, idx);
        proof {
            assert((off as int + 1) * spec_elem_size(self.kind) <= total_elems(self.shape@)
                * spec_elem_size(self.kind)) by (nonlinear_arith)
                requires
                    off as int + 1 <= total_elems(self.shape@),
                    spec_elem_size(self.kind) >= 0,
            ;
        }
        read_element_bytes(&self.data, off, kind_size(self.kind))
    }
}

fn kind_size(kind: ElementKind) -> (r: usize)
    ensures
        r == spec_elem_size(kind),
{
    kind.elem_size()
}

/// Dense row-major matrix with an explicit trailing channel count packed into
/// its type code, typically image data. `dims` are the per-axis extents,
/// outermost first, excluding the channel axis. `contiguous` records whether
/// the buffer is row-major with no padding; only then does `data` hold the
/// packed bytes, and only then may the buffer be reinterpreted in place.
#[derive(Debug, Clone, PartialEq, Eq)]
pub struct Matrix {
    pub code: i32,
    pub dims: Vec<usize>,
    pub contiguous: bool,
    pub data: Vec<u8>,
}

impl Matrix {
    /// Scalar kind packed in the type code.
    pub open spec fn spec_kind(self) -> ElementKind {
        spec_code_kind(self.code as int)
    }

    /// Channel count packed in the type code.
    pub open spec fn spec_channels(self) -> int {
        spec_code_channels(self.code as int)
    }

    /// Full shape of the element grid: the per-axis extents with the channel
    /// count appended as the trailing axis.
    pub open spec fn spec_shape(self) -> Seq<usize> {
        self.dims@.push(self.spec_channels() as usize)
    }

    /// The type code is in the table, and a contiguous buffer holds exactly
    /// the packed row-major elements of the full shape, every stride of
    /// which is representable.
    pub open spec fn wf(self) -> bool {
        &&& spec_code_supported(self.code as int)
        &&& self.contiguous ==> {
            &&& strides_fit(self.spec_shape())
            &&& self.data@.len() == total_elems(self.spec_shape()) * spec_elem_size(
                self.spec_kind(),
            )
        }
    }

    /// Bytes of the element the index (per-axis positions, then channel)
    /// addresses, in spec terms.
    pub open spec fn spec_element(self, idx: Seq<usize>) -> Seq<u8> {
        elem_at(
            self.data@,
            spec_elem_size(self.spec_kind()),
            flat_index(self.spec_shape(), idx),
        )
    }

    /// Wraps a byte buffer as a matrix. Fails with `UnsupportedEncoding` when
    /// the type code is absent from the table, and with `BufferTooSmall` when
    /// a buffer declared contiguous does not hold exactly the bytes the
    /// declared layout asks for (or that layout's extent is not representable
    /// on this machine). A non-contiguous matrix carries its allocation
    /// opaquely: only its code is validated, and no conversion will read it.
    pub fn from_parts(code: i32, dims: Vec<usize>, contiguous: bool, data: Vec<u8>) -> (r: Result<
        Matrix,
        Error,
    >)
        ensures
            match r {
                Ok(m) => {
                    &&& m == (Matrix { code, dims, contiguous, data })
                    &&& m.wf()
                },
                Err(e) => {
                    &&& !spec_code_supported(code as int) ==> e == (Error::UnsupportedEncoding {
                        code,
                        channels: 0usize,
                    })
                    &&& spec_code_supported(code as int) ==> {
                        &&& e == Error::BufferTooSmall
                        &&& contiguous
                        &&& !(strides_fit(dims@.push(spec_code_channels(code as int) as usize))
                            && data@.len() == total_elems(
                            dims@.push(spec_code_channels(code as int) as usize),
                        ) * spec_elem_size(spec_code_kind(code as int)))
                    }
                },
            },
    {
        let (kind, channels) = match matrix_to_tensor_kind(code) {
            Ok(p) => p,
            Err(e) => {
                return Err(e);
            },
        };
        if !contiguous {
            return Ok(Matrix { code, dims, contiguous, data });
        }
        let mut shape = clone_dims(&dims);
        shape.push(channels);
        let total = match checked_total(&shape) {
            Some(t) => t,
            None => {
                return Err(Error::BufferTooSmall);
            },
        };
        let n = data.len();
        let expected = match total.checked_mul(kind.elem_size()) {
            Some(e) => e,
            None => {
                proof {
                    assert(n <= usize::MAX);
                }
                return Err(Error::BufferTooSmall);
            },
        };
        if n != expected {
            return Err(Error::BufferTooSmall);
        }
        Ok(Matrix { code, dims, contiguous, data })
    }

    /// Scalar kind and channel count packed in the type code.
    pub fn kind_channels(&self) -> (r: (ElementKind, usize))
        requires
            self.wf(),
        ensures
            r.0 == self.spec_kind(),
            r.1 == self.spec_channels(),
    {
        match matrix_to_tensor_kind(self.code) {
            Ok(p) => p,
            Err(_) => {
                proof {
                    assert(false);
                }
                (ElementKind::Uint8, 0)
            },
        }
    }

    pub fn is_contiguous(&self) -> (r: bool)
        ensures
            r == self.contiguous,
    {
        self.contiguous
    }

    /// Full shape of the element grid: the per-axis extents with the channel
    /// count appended.
    pub fn shape_vec(&self) -> (r: Vec<usize>)
        requires
            self.wf(),
        ensures
            r@ == self.spec_shape(),
    {
        let (_, channels) = self.kind_channels();
        let mut shape = clone_dims(&self.dims);
        shape.push(channels);
        shape
    }

    /// Tensor-side kind and the (width, height, channels) extents of a
    /// two-dimensional matrix, the form a rank-2 reinterpretation wants.
    /// Fails with `UnsupportedShape` on any other dimensionality.
    pub fn kind_shape_2d(&self) -> (r: Result<(ElementKind, (usize, usize, usize)), Error>)
        requires
            self.wf(),
        ensures
            match r {
                Ok(p) => {
                    &&& self.dims@.len() == 2
                    &&& p.0 == self.spec_kind()
                    &&& p.1 == (self.dims@[1], self.dims@[0], self.spec_channels() as usize)
                },
                Err(e) => {
                    &&& self.dims@.len() != 2
                    &&& e matches Error::UnsupportedShape { shape: s } && s@ == self.dims@
                },
            },
    {
        if self.dims.len() != 2 {
            return Err(Error::UnsupportedShape { shape: clone_dims(&self.dims) });
        }
        let (kind, channels) = self.kind_channels();
        Ok((kind, (self.dims[1], self.dims[0], channels)))
    }

    /// Tensor-side kind and full N-dimensional shape of the matrix: the
    /// per-axis extents with the channel count appended as the trailing axis.
    pub fn kind_shape_nd(&self) -> (r: (ElementKind, Vec<usize>))
        requires
            self.wf(),
        ensures
            r.0 == self.spec_kind(),
            r.1@ == self.spec_shape(),
    {
        let (kind, _) = self.kind_channels();
        (kind, self.shape_vec())
    }

    /// Bytes of the element at the given index (per-axis positions, then
    /// channel), read at its row-major offset.
    pub fn read_element(&self, idx: &Vec<usize>) -> (r: Vec<u8>)
        requires
            self.wf(),
            self.contiguous,
            in_range(self.spec_shape(), idx@),
        ensures
            r@ == self.spec_element(idx@),
            r@.len() == spec_elem_size(self.spec_kind()),
    {
        let shape = self.shape_vec();
        proof {
            lemma_flat_index_bounds(self.spec_shape(), idx@);
        }
        let off = flat_offset(&shape, idx);
        let (kind, _) = self.kind_channels();
        proof {
            assert((off as int + 1) * spec_elem_size(self.spec_kind()) <= total_elems(
                self.spec_shape(),
            ) * spec_elem_size(self.spec_kind())) by (nonlinear_arith)
                requires
                    off as int + 1 <= total_elems(self.spec_shape()),
                    spec_elem_size(self.spec_kind()) >= 0,
            ;
        }
        read_element_bytes(&self.data, off, kind_size(kind))
    }
}

/// Copy of a byte buffer.
pub(crate) fn clone_bytes(data: &Vec<u8>) -> (r: Vec<u8>)
    ensures
        r@ == data@,
{
    let mut r: Vec<u8> = Vec::new();
    let len = data.len();
    for i in 0..len
        invariant
            len == data@.len(),
            r@ == data@.subrange(0, i as int),
    {
        r.push(data[i]);
        proof {
            assert(r@ =~= data@.subrange(0, i as int + 1));
        }
    }
    proof {
        assert(data@.subrange(0, len as int) =~= data@);
    }
    r
}

/// Copy of a dimension vector.
pub(crate) fn clone_dims(dims: &Vec<usize>) -> (r: Vec<usize>)
    ensures
        r@ == dims@,
{
    let mut r: Vec<usize> = Vec::new();
    let len = dims.len();
    for i in 0..len
        invariant
            len == dims@.len(),
            r@ == dims@.subrange(0, i as int),
    {
        r.push(dims[i]);
        proof {
            assert(r@ =~= dims@.subrange(0, i as int + 1));
        }
    }
    proof {
        assert(dims@.subrange(0, len as int) =~= dims@);
    }
    r
}

} // verus!
