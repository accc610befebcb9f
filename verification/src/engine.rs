use vstd::prelude::*;

use crate::buffers::{clone_bytes, clone_dims, Matrix, Tensor};
use crate::convention::{resolve, spec_resolve, ShapeConvention, TensorAsImage};
use crate::convention::lemma_resolve_canonical;
use crate::error::Error;
use crate::kinds::{
    lemma_encode_then_decode, spec_encode, tensor_to_matrix_encoding,
};
use crate::layout::{
    compute_nd_shape_and_strides, flat_index, in_range, lemma_flat_push_zero,
    lemma_strides_fit_push_one, strides_fit,
};
use crate::permute::{perm_image, permute_copy, permuted_rel};
use crate::view::TensorFromMat;

verus! {

/// The tensor is the matrix's buffer read in place: same scalar kind, the
/// matrix's full shape (extents then channel count), and byte-for-byte the
/// matrix's data.
pub open spec fn mat_to_tensor_rel(m: Matrix, t: Tensor) -> bool {
    &&& t.kind == m.spec_kind()
    &&& t.shape@ == m.spec_shape()
    &&& t.data@ == m.data@
    &&& t.wf()
}

/// Matrix index (row, column, channel) at which a tensor element lands after
/// the canonicalising permutation: the image of its index, with the channel
/// position 0 appended when the tensor had no channel axis.
pub open spec fn canonical_index(src: Seq<usize>, perm: Seq<usize>) -> Seq<usize> {
    if perm.len() == 3 {
        perm_image(src, perm)
    } else {
        perm_image(src, perm).push(0usize)
    }
}

/// The matrix holds the tensor's elements in canonical height-width-channel
/// order under the declared convention: canonical extents as its dimensions
/// and channel count, the tensor's kind, and every element of the tensor at
/// its canonical matrix index.
pub open spec fn convention_mat_rel(t: Tensor, convention: ShapeConvention, m: Matrix) -> bool {
    let res = spec_resolve(t.shape@, convention).unwrap();
    &&& spec_resolve(t.shape@, convention) is Some
    &&& m.wf()
    &&& m.contiguous
    &&& m.spec_kind() == t.kind
    &&& m.spec_channels() == res.1 as int
    &&& m.dims@ == seq![res.2, res.3]
    &&& forall|src: Seq<usize>|
        #[trigger] in_range(t.shape@, src) ==> m.spec_element(canonical_index(src, res.0))
            == t.spec_element(src)
}

/// Zero-copy conversion: reinterprets a contiguous matrix buffer as a tensor
/// by computing the full shape and row-major strides and moving the matrix
/// into the view that borrows it. Fails with `NonContiguousBuffer` on a
/// non-contiguous matrix, and then no view exists.
pub fn matrix_into_tensor_view(m: Matrix) -> (r: Result<TensorFromMat, Error>)
    requires
        m.wf(),
    ensures
        match r {
            Ok(v) => {
                &&& m.contiguous
                &&& v.mat == m
                &&& v.wf()
            },
            Err(e) => {
                &&& e == Error::NonContiguousBuffer
                &&& !m.contiguous
            },
        },
{
    if !m.is_contiguous() {
        return Err(Error::NonContiguousBuffer);
    }
    let (kind, channels) = m.kind_channels();
    let (shape, strides) = compute_nd_shape_and_strides(&m.dims, channels);
    Ok(TensorFromMat { mat: m, kind, shape, strides })
}

/// Copying conversion: a fresh tensor with the matrix's kind, its full shape,
/// and a copy of its bytes. Fails with `NonContiguousBuffer` on a
/// non-contiguous matrix, and then no tensor exists.
pub fn matrix_to_tensor_copy(m: &Matrix) -> (r: Result<Tensor, Error>)
    requires
        m.wf(),
    ensures
        match r {
            Ok(t) => {
                &&& m.contiguous
                &&& mat_to_tensor_rel(*m, t)
            },
            Err(e) => {
                &&& e == Error::NonContiguousBuffer
                &&& !m.contiguous
            },
        },
{
    if !m.is_contiguous() {
        return Err(Error::NonContiguousBuffer);
    }
    let (kind, _) = m.kind_channels();
    let shape = m.shape_vec();
    let data = clone_bytes(&m.data);
    Ok(Tensor { kind, shape, data })
}

/// Convention-driven copy into a matrix: resolves the declared axis order,
/// permutes the tensor to canonical height-width-channel order, maps the kind
/// and channel count through the type table, and wraps the permuted bytes as
/// a contiguous matrix of the canonical extents. Fails with
/// `UnsupportedEncoding` when the canonical channel count is outside 1 to 4,
/// and with `BufferTooSmall` when a stride of the permuted shape is not
/// representable (possible only beside a zero extent).
pub fn tensor_to_matrix_copy(img: &TensorAsImage) -> (r: Result<Matrix, Error>)
    requires
        img.wf(),
    ensures
        ({
            let res = spec_resolve(img.tensor.shape@, img.convention).unwrap();
            match r {
                Ok(m) => {
                    &&& strides_fit(perm_image(img.tensor.shape@, res.0))
                    &&& 1 <= res.1 <= 4
                    &&& convention_mat_rel(img.tensor, img.convention, m)
                },
                Err(e) => {
                    ||| {
                        &&& !strides_fit(perm_image(img.tensor.shape@, res.0))
                        &&& e == Error::BufferTooSmall
                    }
                    ||| {
                        &&& strides_fit(perm_image(img.tensor.shape@, res.0))
                        &&& !(1 <= res.1 <= 4)
                        &&& e == (Error::UnsupportedEncoding {
                            code: spec_encode(img.tensor.kind, 1) as i32,
                            channels: res.1,
                        })
                    }
                },
            }
        }),
{
    let ghost t = img.tensor;
    let ghost res = spec_resolve(img.tensor.shape@, img.convention).unwrap();
    let resolved = match resolve(&img.tensor.shape, img.convention) {
        Ok(resolved) => resolved,
        Err(_) => {
            proof {
                assert(false);
            }
            return Err(Error::BufferTooSmall);
        },
    };
    proof {
        lemma_resolve_canonical(img.tensor.shape@, img.convention);
    }
    let permuted = match permute_copy(&img.tensor, &resolved.perm) {
        Ok(permuted) => permuted,
        Err(e) => {
            return Err(e);
        },
    };
    let code = match tensor_to_matrix_encoding(img.tensor.kind, resolved.channels) {
        Ok(code) => code,
        Err(e) => {
            return Err(e);
        },
    };
    let mut dims: Vec<usize> = Vec::new();
    dims.push(resolved.height);
    dims.push(resolved.width);
    let m = Matrix { code, dims, contiguous: true, data: permuted.data };
    proof {
        lemma_encode_then_decode(t.kind, resolved.channels as int);
        assert(m.spec_kind() == t.kind && m.spec_channels() == resolved.channels as int);
        assert(m.dims@ =~= seq![res.2, res.3]);
        let rank = t.shape@.len();
        if rank == 3 {
            assert(m.spec_shape() =~= permuted.shape@);
            assert(m.wf());
            assert forall|src: Seq<usize>| #[trigger]
                in_range(t.shape@, src) implies m.spec_element(canonical_index(src, res.0))
                == t.spec_element(src) by {
                assert(permuted.spec_element(perm_image(src, res.0)) == t.spec_element(src));
            }
        } else {
            assert(m.spec_shape() =~= permuted.shape@.push(1usize));
            lemma_strides_fit_push_one(permuted.shape@);
            assert(m.wf());
            assert forall|src: Seq<usize>| #[trigger]
                in_range(t.shape@, src) implies m.spec_element(canonical_index(src, res.0))
                == t.spec_element(src) by {
                assert(permuted.spec_element(perm_image(src, res.0)) == t.spec_element(src));
                lemma_flat_push_zero(permuted.shape@, perm_image(src, res.0), 0);
                assert(canonical_index(src, res.0) == perm_image(src, res.0).push(0usize));
            }
        }
    }
    Ok(m)
}

/// The matrix is the tensor's raw single-channel copy: the tensor's shape as
/// its dimensions, one scalar channel per element, the tensor's kind, and
/// byte-for-byte the tensor's data.
pub open spec fn rawcopy_rel(t: Tensor, m: Matrix) -> bool {
    &&& m.code == spec_encode(t.kind, 1) as i32
    &&& m.dims@ == t.shape@
    &&& m.contiguous
    &&& m.data@ == t.data@
    &&& m.wf()
    &&& m.spec_kind() == t.kind
    &&& m.spec_channels() == 1
}

/// Plain N-dimensional copy into a matrix, ignoring conventions: the tensor's
/// shape becomes the matrix's dimensions with one scalar channel per element,
/// the kind maps through the single-channel column of the type table, and the
/// bytes are copied unchanged. Succeeds for every well-formed tensor.
pub fn tensor_to_matrix_rawcopy(t: &Tensor) -> (r: Result<Matrix, Error>)
    requires
        t.wf(),
    ensures
        match r {
            Ok(m) => rawcopy_rel(*t, m),
            Err(_) => false,
        },
{
    let code = match tensor_to_matrix_encoding(t.kind, 1) {
        Ok(code) => code,
        Err(_) => {
            proof {
                assert(false);
            }
            return Err(Error::BufferTooSmall);
        },
    };
    let dims = clone_dims(&t.shape);
    let data = clone_bytes(&t.data);
    let m = Matrix { code, dims, contiguous: true, data };
    proof {
        lemma_encode_then_decode(t.kind, 1);
        assert(m.spec_shape() =~= t.shape@.push(1usize));
        lemma_strides_fit_push_one(t.shape@);
        assert(m.wf());
    }
    Ok(m)
}

/// An element of the raw copy sits at the matrix index that is the tensor
/// index with channel 0 appended, holding the very bytes of the tensor
/// element.
pub proof fn lemma_rawcopy_elements(t: Tensor, m: Matrix, src: Seq<usize>)
    requires
        t.wf(),
        in_range(t.shape@, src),
        m.dims@ == t.shape@,
        m.data@ == t.data@,
        m.spec_kind() == t.kind,
        m.spec_channels() == 1,
    ensures
        m.spec_element(src.push(0usize)) == t.spec_element(src),
{
    assert(m.spec_shape() =~= t.shape@.push(1usize));
    lemma_flat_push_zero(t.shape@, src, 0);
    assert(flat_index(m.spec_shape(), src.push(0usize)) == flat_index(t.shape@, src));
}

} // verus!
