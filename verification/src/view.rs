use vstd::prelude::*;

use crate::buffers::{clone_bytes, clone_dims, Matrix, Tensor};
use crate::kinds::spec_elem_size;
use crate::layout::{
    elem_at, flat_index, in_range, lemma_flat_index_bounds, lemma_strided_sum_is_flat,
    read_element_bytes, strided_offset, strided_sum, suffix_prod, total_elems,
};

verus! {

/// A tensor-shaped view borrowing a matrix's buffer without copying it.
///
/// The view owns the matrix outright, so the backing buffer cannot be
/// released while the view is alive: dropping the view releases the
/// reinterpreted handle and the owner together, exactly once. Reads go
/// through the view's own shape and strides straight into the matrix's
/// bytes.
#[derive(Debug, PartialEq, Eq)]
pub struct TensorFromMat {
    pub mat: Matrix,
    pub kind: crate::kinds::ElementKind,
    pub shape: Vec<usize>,
    pub strides: Vec<usize>,
}

impl TensorFromMat {
    /// The owned matrix is contiguous and the view's layout is exactly the
    /// matrix's: same scalar kind, the matrix's full shape, and row-major
    /// strides (each the product of the later extents).
    pub open spec fn wf(self) -> bool {
        &&& self.mat.wf()
        &&& self.mat.contiguous
        &&& self.kind == self.mat.spec_kind()
        &&& self.shape@ == self.mat.spec_shape()
        &&& self.strides@.len() == self.shape@.len()
        &&& forall|i: int|
            0 <= i < self.shape@.len() ==> self.strides@[i] == suffix_prod(self.shape@, i + 1)
    }

    /// Bytes of the element at the given index, reached by walking the view's
    /// strides over the borrowed matrix bytes. The result is the matrix's own
    /// element at the same index: the view reinterprets, it does not move.
    pub fn read_element(&self, idx: &Vec<usize>) -> (r: Vec<u8>)
        requires
            self.wf(),
            in_range(self.shape@, idx@),
        ensures
            r@ == self.mat.spec_element(idx@),
            r@.len() == spec_elem_size(self.kind),
    {
        proof {
            lemma_strided_sum_is_flat(self.shape@, self.strides@, idx@, 0);
            lemma_flat_index_bounds(self.shape@, idx@);
        }
        let off = strided_offset(&self.strides, idx);
        proof {
            assert((off as int + 1) * spec_elem_size(self.kind) <= total_elems(self.shape@)
                * spec_elem_size(self.kind)) by (nonlinear_arith)
                requires
                    off as int + 1 <= total_elems(self.shape@),
                    spec_elem_size(self.kind) >= 0,
            ;
        }
        let esize = self.kind_size();
        read_element_bytes(&self.mat.data, off, esize)
    }

    fn kind_size(&self) -> (r: usize)
        ensures
            r == spec_elem_size(self.kind),
    {
        self.kind.elem_size()
    }

    /// The borrowed bytes materialised as an owned tensor: same kind, the
    /// view's shape, and byte-for-byte the matrix's buffer — the view imposed
    /// a layout without moving an element.
    pub fn tensor(&self) -> (r: Tensor)
        requires
            self.wf(),
        ensures
            r.kind == self.kind,
            r.shape@ == self.shape@,
            r.data@ == self.mat.data@,
            r.wf(),
    {
        Tensor {
            kind: self.kind,
            shape: clone_dims(&self.shape),
            data: clone_bytes(&self.mat.data),
        }
    }

    pub fn shape_vec(&self) -> (r: Vec<usize>)
        ensures
            r@ == self.shape@,
    {
        clone_dims(&self.shape)
    }

    pub fn strides_vec(&self) -> (r: Vec<usize>)
        ensures
            r@ == self.strides@,
    {
        clone_dims(&self.strides)
    }

    /// Writes the bytes of one element through the view into the borrowed
    /// matrix buffer: afterwards the element at `idx` holds exactly `bytes`,
    /// every other element is untouched, and the layout (kind, shape,
    /// strides, matrix header) is what it was.
    pub fn write_element(&mut self, idx: &Vec<usize>, bytes: &Vec<u8>)
        requires
            old(self).wf(),
            in_range(old(self).shape@, idx@),
            bytes@.len() == spec_elem_size(old(self).kind),
        ensures
            final(self).wf(),
            final(self).kind == old(self).kind,
            final(self).shape@ == old(self).shape@,
            final(self).strides@ == old(self).strides@,
            final(self).mat.code == old(self).mat.code,
            final(self).mat.dims@ == old(self).mat.dims@,
            final(self).mat.contiguous == old(self).mat.contiguous,
            final(self).mat.data@.len() == old(self).mat.data@.len(),
            final(self).mat.spec_element(idx@) == bytes@,
            forall|idx2: Seq<usize>|
                in_range(old(self).shape@, idx2) && flat_index(old(self).shape@, idx2)
                    != flat_index(old(self).shape@, idx@) ==> final(self).mat.spec_element(idx2)
                    == old(self).mat.spec_element(idx2),
    {
        let ghost es = spec_elem_size(self.kind);
        let ghost orig = self.mat.data@;
        let ghost shape = self.shape@;
        proof {
            lemma_strided_sum_is_flat(self.shape@, self.strides@, idx@, 0);
            lemma_flat_index_bounds(self.shape@, idx@);
        }
        let off = strided_offset(&self.strides, idx);
        proof {
            assert((off as int + 1) * es <= total_elems(self.shape@) * es) by (nonlinear_arith)
                requires
                    off as int + 1 <= total_elems(self.shape@),
                    es >= 0,
            ;
            assert((off as int + 1) * es == off as int * es + es) by (nonlinear_arith);
        }
        let esize = self.kind_size();
        let n = self.mat.data.len();
        let start = off * esize;
        for j in 0..esize
            invariant
                start == off as int * es,
                esize == es,
                bytes@.len() == es,
                start + es <= n <= usize::MAX,
                n == self.mat.data@.len(),
                n == orig.len(),
                self.kind == old(self).kind,
                self.shape == old(self).shape,
                self.strides == old(self).strides,
                self.mat.code == old(self).mat.code,
                self.mat.dims == old(self).mat.dims,
                self.mat.contiguous == old(self).mat.contiguous,
                forall|m: int|
                    0 <= m < orig.len() ==> self.mat.data@[m] == if start <= m < start + j {
                        bytes@[m - start]
                    } else {
                        orig[m]
                    },
        {
            self.mat.data[start + j] = bytes[j];
        }
        proof {
            let fin = self.mat.data@;
            assert(elem_at(fin, es, off as int) =~= bytes@);
            assert(self.mat.spec_shape() == old(self).mat.spec_shape());
            assert(flat_index(self.mat.spec_shape(), idx@) == off as int);
            assert(self.mat.wf());
            assert forall|idx2: Seq<usize>|
                in_range(shape, idx2) && flat_index(shape, idx2) != flat_index(
                shape,
                idx@,
            ) implies elem_at(fin, es, flat_index(shape, idx2)) == elem_at(
                orig,
                es,
                flat_index(shape, idx2),
            ) by {
                lemma_flat_index_bounds(shape, idx2);
                let f2 = flat_index(shape, idx2);
                if f2 < off as int {
                    assert((f2 + 1) * es <= off as int * es) by (nonlinear_arith)
                        requires
                            f2 + 1 <= off as int,
                            es >= 1,
                    ;
                    assert((f2 + 1) * es == f2 * es + es) by (nonlinear_arith);
                    assert(f2 * es >= 0) by (nonlinear_arith)
                        requires
                            f2 >= 0,
                            es >= 1,
                    ;
                } else {
                    assert((off as int + 1) * es <= f2 * es) by (nonlinear_arith)
                        requires
                            off as int + 1 <= f2,
                            es >= 1,
                    ;
                    assert((f2 + 1) * es == f2 * es + es) by (nonlinear_arith);
                    assert(f2 * es + es <= total_elems(shape) * es) by (nonlinear_arith)
                        requires
                            f2 + 1 <= total_elems(shape),
                            es >= 1,
                    ;
                }
                assert(elem_at(fin, es, f2) =~= elem_at(orig, es, f2));
            }
        }
    }

    /// Releases the view and hands the owning matrix back untouched.
    pub fn into_matrix(self) -> (r: Matrix)
        ensures
            r == self.mat,
    {
        self.mat
    }
}

/// Reading any in-range index through the view gives exactly the bytes the
/// matrix holds for that index: the zero-copy view and direct row-major
/// access agree everywhere.
pub proof fn lemma_view_reads_match_matrix(v: TensorFromMat, idx: Seq<usize>)
    requires
        v.wf(),
        in_range(v.mat.spec_shape(), idx),
    ensures
        flat_index(v.shape@, idx) == flat_index(v.mat.spec_shape(), idx),
        strided_sum(v.strides@, idx, 0) == flat_index(v.mat.spec_shape(), idx),
{
    lemma_strided_sum_is_flat(v.shape@, v.strides@, idx, 0);
}

} // verus!
