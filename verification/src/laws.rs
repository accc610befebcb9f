use vstd::prelude::*;

use crate::buffers::{Matrix, Tensor};
use crate::convention::{spec_resolve, ShapeConvention};
use crate::engine::{canonical_index, convention_mat_rel, mat_to_tensor_rel, rawcopy_rel};
use crate::layout::{in_range, lemma_flat_push_zero, flat_index};
use crate::permute::{perm_image, permuted_rel};

verus! {

/// Round-trip law: raw-copying any well-formed tensor into a matrix and
/// copying that matrix back gives the tensor again, up to the trailing
/// channel axis of extent 1 that the raw copy makes explicit — same kind,
/// byte-identical data, and at every index the very same element.
pub proof fn lemma_raw_round_trip(t: Tensor, m: Matrix, t2: Tensor)
    requires
        t.wf(),
        rawcopy_rel(t, m),
        mat_to_tensor_rel(m, t2),
    ensures
        t2.kind == t.kind,
        t2.shape@ == t.shape@.push(1usize),
        t2.data@ == t.data@,
        forall|src: Seq<usize>|
            #[trigger] in_range(t.shape@, src) ==> t2.spec_element(src.push(0usize))
                == t.spec_element(src),
{
    assert(m.spec_shape() =~= t.shape@.push(1usize));
    assert forall|src: Seq<usize>| #[trigger]
        in_range(t.shape@, src) implies t2.spec_element(src.push(0usize)) == t.spec_element(
        src,
    ) by {
        lemma_flat_push_zero(t.shape@, src, 0);
        assert(flat_index(t2.shape@, src.push(0usize)) == flat_index(t.shape@, src));
    }
}

/// Convention law for the channel-height-width order: in the matrix produced
/// under it, the pixel at (row, column) holds in channel `k` exactly the
/// tensor element at (k, row, column).
pub proof fn lemma_chw_pixels(t: Tensor, m: Matrix, k: usize, row: usize, col: usize)
    requires
        t.wf(),
        t.shape@.len() == 3,
        convention_mat_rel(t, ShapeConvention::Chw, m),
        k < t.shape@[0],
        row < t.shape@[1],
        col < t.shape@[2],
    ensures
        m.spec_element(seq![row, col, k]) == t.spec_element(seq![k, row, col]),
{
    let src = seq![k, row, col];
    let perm = spec_resolve(t.shape@, ShapeConvention::Chw).unwrap().0;
    assert(in_range(t.shape@, src));
    assert(canonical_index(src, perm) =~= seq![row, col, k]);
}

/// Convention inverse law: a channel-height-width tensor taken to a matrix
/// under its convention, copied back to a tensor (canonical
/// height-width-channel order), and permuted by the axis order (2, 0, 1)
/// reproduces the original tensor's shape and every element.
pub proof fn lemma_convention_inverse(t: Tensor, m: Matrix, t2: Tensor, back: Tensor)
    requires
        t.wf(),
        t.shape@.len() == 3,
        convention_mat_rel(t, ShapeConvention::Chw, m),
        mat_to_tensor_rel(m, t2),
        permuted_rel(t2, seq![2usize, 0usize, 1usize], back),
    ensures
        back.kind == t.kind,
        back.shape@ =~= t.shape@,
        forall|src: Seq<usize>|
            #[trigger] in_range(t.shape@, src) ==> back.spec_element(src) == t.spec_element(src),
{
    let res = spec_resolve(t.shape@, ShapeConvention::Chw).unwrap();
    let q = seq![2usize, 0usize, 1usize];
    assert(m.spec_shape() =~= seq![res.2, res.3, res.1 as usize]);
    assert(back.shape@ =~= t.shape@);
    assert forall|src: Seq<usize>| #[trigger]
        in_range(t.shape@, src) implies back.spec_element(src) == t.spec_element(src) by {
        let cidx = seq![src[1], src[2], src[0]];
        assert(canonical_index(src, res.0) =~= cidx);
        assert(m.spec_element(cidx) == t.spec_element(src));
        assert(t2.spec_element(cidx) == m.spec_element(cidx));
        assert(in_range(t2.shape@, cidx));
        assert(perm_image(cidx, q) =~= src);
        assert(back.spec_element(src) == t2.spec_element(cidx));
    }
}

} // verus!
