use vstd::prelude::*;

use crate::buffers::Tensor;
use crate::error::Error;
use crate::kinds::spec_elem_size;
use crate::layout::{elem_at, flat_from, flat_index, in_range, strides_fit, suffix_prod, total_elems};

verus! {

/// `perm` rearranges the axes of a rank-`rank` shape: one entry per axis,
/// each an axis position, no two alike.
pub open spec fn valid_perm(perm: Seq<usize>, rank: int) -> bool {
    &&& perm.len() == rank
    &&& forall|k: int| 0 <= k < rank ==> (perm[k] as int) < rank
    &&& forall|k1: int, k2: int| 0 <= k1 < k2 < rank ==> perm[k1] != perm[k2]
}

/// The sequence read through the permutation: entry `k` is `src[perm[k]]`.
/// Applied to a shape it gives the permuted shape; applied to an index of the
/// original shape it gives the index of the same element after permutation.
pub open spec fn perm_image(src: Seq<usize>, perm: Seq<usize>) -> Seq<usize> {
    Seq::new(perm.len(), |k: int| src[perm[k] as int])
}

/// `r` holds the elements of `t` with the axes rearranged by `perm`: the
/// permuted shape is the image of `t`'s shape, and the element that sat at
/// `src` sits at the image of `src`.
pub open spec fn permuted_rel(t: Tensor, perm: Seq<usize>, r: Tensor) -> bool {
    &&& r.kind == t.kind
    &&& r.shape@ == perm_image(t.shape@, perm)
    &&& r.wf()
    &&& forall|src: Seq<usize>|
        #[trigger] in_range(t.shape@, src) ==> r.spec_element(perm_image(src, perm))
            == t.spec_element(src)
}

/// Out-of-place axis permutation for rank-2 and rank-3 tensors: the gathered
/// copy whose axes are rearranged by `perm`. Fails with `BufferTooSmall` only
/// when a row-major stride of the permuted shape would not be representable
/// on this machine (possible only with a zero extent beside oversized ones).
pub fn permute_copy(t: &Tensor, perm: &Vec<usize>) -> (r: Result<Tensor, Error>)
    requires
        t.wf(),
        valid_perm(perm@, t.shape@.len() as int),
        2 <= t.shape@.len() <= 3,
    ensures
        match r {
            Ok(rt) => permuted_rel(*t, perm@, rt),
            Err(e) => {
                &&& e == Error::BufferTooSmall
                &&& !strides_fit(perm_image(t.shape@, perm@))
            },
        },
{
    if t.shape.len() == 2 {
        permute_copy2(t, perm)
    } else {
        permute_copy3(t, perm)
    }
}

/// Source index whose image under a rank-2 `perm` is `[a, b]`.
spec fn src2(perm: Seq<usize>, a: usize, b: usize) -> Seq<usize> {
    Seq::new(2, |j: int| if perm[0] == j { a } else { b })
}

/// Source index whose image under a rank-3 `perm` is `[a, b, c]`.
spec fn src3(perm: Seq<usize>, a: usize, b: usize, c: usize) -> Seq<usize> {
    Seq::new(
        3,
        |j: int|
            if perm[0] == j {
                a
            } else if perm[1] == j {
                b
            } else {
                c
            },
    )
}

fn permute_copy2(t: &Tensor, perm: &Vec<usize>) -> (r: Result<Tensor, Error>)
    requires
        t.wf(),
        valid_perm(perm@, 2),
        t.shape@.len() == 2,
    ensures
        match r {
            Ok(rt) => permuted_rel(*t, perm@, rt),
            Err(e) => {
                &&& e == Error::BufferTooSmall
                &&& !strides_fit(perm_image(t.shape@, perm@))
            },
        },
{
    let ghost out_shape = perm_image(t.shape@, perm@);
    let p0 = perm[0];
    let p1 = perm[1];
    let a_len = t.shape[p0];
    let b_len = t.shape[p1];
    let esize = t.kind.elem_size();
    let ghost es = spec_elem_size(t.kind);
    let mut out: Vec<u8> = Vec::new();
    proof {
        assert(0 * b_len * es == 0) by (nonlinear_arith);
    }
    for a in 0..a_len
        invariant
            t.wf(),
            valid_perm(perm@, 2),
            t.shape@.len() == 2,
            p0 == perm@[0] && p1 == perm@[1],
            a_len == t.shape@[p0 as int] && b_len == t.shape@[p1 as int],
            es == spec_elem_size(t.kind),
            esize == es,
            out@.len() == a * b_len * es,
            forall|x: usize, y: usize|
                x < a && y < b_len ==> #[trigger] elem_at(out@, es, x * b_len + y)
                    == t.spec_element(src2(perm@, x, y)),
    {
        for b in 0..b_len
            invariant
                t.wf(),
                valid_perm(perm@, 2),
                t.shape@.len() == 2,
                p0 == perm@[0] && p1 == perm@[1],
                a_len == t.shape@[p0 as int] && b_len == t.shape@[p1 as int],
                es == spec_elem_size(t.kind),
                esize == es,
                a < a_len,
                out@.len() == (a * b_len + b) * es,
                forall|x: usize, y: usize|
                    x < a_len && y < b_len && (x < a || (x == a && y < b)) ==> #[trigger] elem_at(
                        out@,
                        es,
                        x * b_len + y,
                    ) == t.spec_element(src2(perm@, x, y)),
        {
            let mut src: Vec<usize> = Vec::new();
            src.push(if p0 == 0 { a } else { b });
            src.push(if p0 == 1 { a } else { b });
            proof {
                assert(src@ =~= src2(perm@, a, b));
                assert(in_range(t.shape@, src@));
            }
            let mut bytes = t.read_element(&src);
            let ghost old_out = out@;
            let ghost new_bytes = bytes@;
            out.append(&mut bytes);
            proof {
                assert(out@ == old_out + new_bytes);
                lemma_append_keeps_elems(old_out, new_bytes, es);
                lemma_append_new_elem(old_out, new_bytes, es, a * b_len + b);
                assert(a * b_len + b >= 0) by (nonlinear_arith);
                assert(elem_at(out@, es, a * b_len + b) == t.spec_element(src2(perm@, a, b)));
                assert forall|x: usize, y: usize|
                    x < a_len && y < b_len && (x < a || (x == a && y < b + 1)) implies #[trigger] elem_at(
                    out@,
                    es,
                    x * b_len + y,
                ) == t.spec_element(src2(perm@, x, y)) by {
                    if !(x == a && y == b) {
                        lemma_pos2_lt(x, y, a, b, b_len);
                        assert((x * b_len + y) * es + es <= (a * b_len + b) * es)
                            by (nonlinear_arith)
                            requires
                                x * b_len + y < a * b_len + b,
                                es >= 1,
                        ;
                    }
                }
                assert((a * b_len + (b + 1)) * es == (a * b_len + b) * es + es)
                    by (nonlinear_arith);
            }
        }
        proof {
            assert((a * b_len + b_len) * es == (a + 1) * b_len * es) by (nonlinear_arith);
        }
    }
    proof {
        assert(perm@ =~= seq![p0, p1]);
        lemma_perm_product2(t.shape@, p0 as int, p1 as int);
        assert(out@.len() == total_elems(out_shape) * es);
    }
    let mut shape: Vec<usize> = Vec::new();
    shape.push(a_len);
    shape.push(b_len);
    proof {
        assert(shape@ =~= out_shape);
    }
    let rt = match Tensor::new(t.kind, shape, out) {
        Ok(rt) => rt,
        Err(_) => {
            return Err(Error::BufferTooSmall);
        },
    };
    proof {
        assert forall|src: Seq<usize>| #[trigger]
            in_range(t.shape@, src) implies rt.spec_element(perm_image(src, perm@))
            == t.spec_element(src) by {
            let x = src[p0 as int];
            let y = src[p1 as int];
            assert(src =~= src2(perm@, x, y));
            assert(perm_image(src, perm@) =~= seq![x, y]);
            lemma_flat2(out_shape, x, y, b_len);
        }
    }
    Ok(rt)
}

/// Row-major offset in a rank-2 shape `[_, b_len]`: `x * b_len + y`.
proof fn lemma_flat2(shape: Seq<usize>, x: usize, y: usize, b_len: usize)
    requires
        shape.len() == 2,
        shape[1] == b_len,
    ensures
        flat_index(shape, seq![x, y]) == x * b_len + y,
{
    let idx = seq![x, y];
    assert(suffix_prod(shape, 2) == 1);
    assert(suffix_prod(shape, 1) == shape[1] * suffix_prod(shape, 2));
    assert(flat_from(shape, idx, 2) == 0);
    assert(flat_from(shape, idx, 1) == y * 1 + 0);
    assert(flat_index(shape, idx) == x * suffix_prod(shape, 1) + flat_from(shape, idx, 1));
}

/// A lexicographically earlier pair sits at a strictly smaller offset.
proof fn lemma_pos2_lt(x: usize, y: usize, a: usize, b: usize, b_len: usize)
    requires
        y < b_len,
        x < a || (x == a && y < b),
    ensures
        x * b_len + y < a * b_len + b,
        x * b_len + y >= 0,
{
    assert(x * b_len >= 0) by (nonlinear_arith);
    if x < a {
        assert(x * b_len + y < a * b_len + b) by (nonlinear_arith)
            requires
                x < a,
                y < b_len,
        ;
    }
}

/// The element count is unchanged by reading the two extents in either order.
proof fn lemma_perm_product2(shape: Seq<usize>, p0: int, p1: int)
    requires
        shape.len() == 2,
        0 <= p0 < 2,
        0 <= p1 < 2,
        p0 != p1,
    ensures
        shape[p0] * shape[p1] == total_elems(shape),
        total_elems(perm_image(shape, seq![p0 as usize, p1 as usize])) == total_elems(shape),
{
    let img = perm_image(shape, seq![p0 as usize, p1 as usize]);
    assert(img.len() == 2);
    assert(suffix_prod(shape, 2) == 1);
    assert(suffix_prod(shape, 1) == shape[1] * suffix_prod(shape, 2));
    assert(total_elems(shape) == shape[0] * suffix_prod(shape, 1));
    assert(suffix_prod(img, 2) == 1);
    assert(suffix_prod(img, 1) == img[1] * suffix_prod(img, 2));
    assert(total_elems(img) == img[0] * suffix_prod(img, 1));
    assert(img[0] == shape[p0] && img[1] == shape[p1]);
    assert(shape[p0] * (shape[p1] * 1) == shape[0] * (shape[1] * 1)) by (nonlinear_arith)
        requires
            (p0 == 0 && p1 == 1) || (p0 == 1 && p1 == 0),
            shape.len() == 2,
    ;
    assert(shape[p0] * shape[p1] == shape[p0] * (shape[p1] * 1)) by (nonlinear_arith);
}

/// Appending bytes to a packed buffer moves no element already in it.
proof fn lemma_append_keeps_elems(old_out: Seq<u8>, bytes: Seq<u8>, es: int)
    requires
        es >= 1,
    ensures
        forall|off: int|
            0 <= off && (off + 1) * es <= old_out.len() ==> #[trigger] elem_at(
                old_out + bytes,
                es,
                off,
            ) == elem_at(old_out, es, off),
{
    assert forall|off: int|
        0 <= off && (off + 1) * es <= old_out.len() implies #[trigger] elem_at(
        old_out + bytes,
        es,
        off,
    ) == elem_at(old_out, es, off) by {
        assert((off + 1) * es == off * es + es) by (nonlinear_arith);
        assert(off * es >= 0) by (nonlinear_arith)
            requires
                off >= 0,
                es >= 1,
        ;
        assert(elem_at(old_out + bytes, es, off) =~= elem_at(old_out, es, off));
    }
}

/// The appended bytes become the element at the next offset of a packed
/// buffer.
proof fn lemma_append_new_elem(old_out: Seq<u8>, bytes: Seq<u8>, es: int, n: int)
    requires
        es >= 1,
        bytes.len() == es,
        n >= 0,
        old_out.len() == n * es,
    ensures
        elem_at(old_out + bytes, es, n) == bytes,
{
    assert(elem_at(old_out + bytes, es, n) =~= bytes);
}

fn permute_copy3(t: &Tensor, perm: &Vec<usize>) -> (r: Result<Tensor, Error>)
    requires
        t.wf(),
        valid_perm(perm@, 3),
        t.shape@.len() == 3,
    ensures
        match r {
            Ok(rt) => permuted_rel(*t, perm@, rt),
            Err(e) => {
                &&& e == Error::BufferTooSmall
                &&& !strides_fit(perm_image(t.shape@, perm@))
            },
        },
{
    let ghost out_shape = perm_image(t.shape@, perm@);
    let p0 = perm[0];
    let p1 = perm[1];
    let p2 = perm[2];
    let a_len = t.shape[p0];
    let b_len = t.shape[p1];
    let c_len = t.shape[p2];
    let esize = t.kind.elem_size();
    let ghost es = spec_elem_size(t.kind);
    let mut out: Vec<u8> = Vec::new();
    proof {
        assert(0 * (b_len * c_len) * es == 0) by (nonlinear_arith);
    }
    for a in 0..a_len
        invariant
            t.wf(),
            valid_perm(perm@, 3),
            t.shape@.len() == 3,
            p0 == perm@[0] && p1 == perm@[1] && p2 == perm@[2],
            a_len == t.shape@[p0 as int] && b_len == t.shape@[p1 as int] && c_len == t.shape@[
                p2 as int
            ],
            es == spec_elem_size(t.kind),
            esize == es,
            out@.len() == a * (b_len * c_len) * es,
            forall|x: usize, y: usize, z: usize|
                x < a && y < b_len && z < c_len ==> #[trigger] elem_at(
                    out@,
                    es,
                    (x * b_len + y) * c_len + z,
                ) == t.spec_element(src3(perm@, x, y, z)),
    {
        proof {
            assert(a * (b_len * c_len) * es == (a * b_len + 0) * c_len * es) by (nonlinear_arith);
        }
        for b in 0..b_len
            invariant
                t.wf(),
                valid_perm(perm@, 3),
                t.shape@.len() == 3,
                p0 == perm@[0] && p1 == perm@[1] && p2 == perm@[2],
                a_len == t.shape@[p0 as int] && b_len == t.shape@[p1 as int] && c_len == t.shape@[
                    p2 as int
                ],
                es == spec_elem_size(t.kind),
                esize == es,
                a < a_len,
                out@.len() == (a * b_len + b) * c_len * es,
                forall|x: usize, y: usize, z: usize|
                    x < a_len && y < b_len && z < c_len && (x < a || (x == a && y < b))
                        ==> #[trigger] elem_at(out@, es, (x * b_len + y) * c_len + z)
                        == t.spec_element(src3(perm@, x, y, z)),
        {
            for c in 0..c_len
                invariant
                    t.wf(),
                    valid_perm(perm@, 3),
                    t.shape@.len() == 3,
                    p0 == perm@[0] && p1 == perm@[1] && p2 == perm@[2],
                    a_len == t.shape@[p0 as int] && b_len == t.shape@[p1 as int] && c_len
                        == t.shape@[p2 as int],
                    es == spec_elem_size(t.kind),
                    esize == es,
                    a < a_len,
                    b < b_len,
                    out@.len() == ((a * b_len + b) * c_len + c) * es,
                    forall|x: usize, y: usize, z: usize|
                        x < a_len && y < b_len && z < c_len && (x < a || (x == a && (y < b || (y
                            == b && z < c)))) ==> #[trigger] elem_at(
                            out@,
                            es,
                            (x * b_len + y) * c_len + z,
                        ) == t.spec_element(src3(perm@, x, y, z)),
            {
                let mut src: Vec<usize> = Vec::new();
                src.push(
                    if p0 == 0 {
                        a
                    } else if p1 == 0 {
                        b
                    } else {
                        c
                    },
                );
                src.push(
                    if p0 == 1 {
                        a
                    } else if p1 == 1 {
                        b
                    } else {
                        c
                    },
                );
                src.push(
                    if p0 == 2 {
                        a
                    } else if p1 == 2 {
                        b
                    } else {
                        c
                    },
                );
                proof {
                    assert(src@ =~= src3(perm@, a, b, c));
                    assert(in_range(t.shape@, src@));
                }
                let mut bytes = t.read_element(&src);
                let ghost old_out = out@;
                let ghost new_bytes = bytes@;
                out.append(&mut bytes);
                proof {
                    assert(out@ == old_out + new_bytes);
                    lemma_append_keeps_elems(old_out, new_bytes, es);
                    assert((a * b_len + b) * c_len + c >= 0) by (nonlinear_arith);
                    lemma_append_new_elem(old_out, new_bytes, es, (a * b_len + b) * c_len + c);
                    assert(elem_at(out@, es, (a * b_len + b) * c_len + c) == t.spec_element(
                        src3(perm@, a, b, c),
                    ));
                    assert forall|x: usize, y: usize, z: usize|
                        x < a_len && y < b_len && z < c_len && (x < a || (x == a && (y < b || (y
                            == b && z < c + 1)))) implies #[trigger] elem_at(
                        out@,
                        es,
                        (x * b_len + y) * c_len + z,
                    ) == t.spec_element(src3(perm@, x, y, z)) by {
                        if !(x == a && y == b && z == c) {
                            lemma_pos3_lt(x, y, z, a, b, c, b_len, c_len);
                            assert(((x * b_len + y) * c_len + z) * es + es <= ((a * b_len + b)
                                * c_len + c) * es) by (nonlinear_arith)
                                requires
                                    (x * b_len + y) * c_len + z < (a * b_len + b) * c_len + c,
                                    es >= 1,
                            ;
                            assert((x * b_len + y) * c_len + z >= 0) by (nonlinear_arith)
                                requires
                                    x >= 0,
                                    y >= 0,
                                    z >= 0,
                                    b_len >= 0,
                                    c_len >= 0,
                            ;
                        }
                    }
                    assert(((a * b_len + b) * c_len + (c + 1)) * es == ((a * b_len + b) * c_len
                        + c) * es + es) by (nonlinear_arith);
                }
            }
            proof {
                assert(((a * b_len + b) * c_len + c_len) * es == (a * b_len + (b + 1)) * c_len
                    * es) by (nonlinear_arith);
            }
        }
        proof {
            assert((a * b_len + b_len) * c_len * es == (a + 1) * (b_len * c_len) * es)
                by (nonlinear_arith);
        }
    }
    proof {
        assert(perm@ =~= seq![p0, p1, p2]);
        lemma_perm_product3(t.shape@, p0 as int, p1 as int, p2 as int);
        assert(out@.len() == total_elems(out_shape) * es);
    }
    let mut shape: Vec<usize> = Vec::new();
    shape.push(a_len);
    shape.push(b_len);
    shape.push(c_len);
    proof {
        assert(shape@ =~= out_shape);
    }
    let rt = match Tensor::new(t.kind, shape, out) {
        Ok(rt) => rt,
        Err(_) => {
            return Err(Error::BufferTooSmall);
        },
    };
    proof {
        assert forall|src: Seq<usize>| #[trigger]
            in_range(t.shape@, src) implies rt.spec_element(perm_image(src, perm@))
            == t.spec_element(src) by {
            let x = src[p0 as int];
            let y = src[p1 as int];
            let z = src[p2 as int];
            lemma_perm3_covers(perm@);
            assert(src =~= src3(perm@, x, y, z));
            assert(perm_image(src, perm@) =~= seq![x, y, z]);
            lemma_flat3(out_shape, x, y, z, b_len, c_len);
        }
    }
    Ok(rt)
}

/// A rank-3 permutation reaches every axis: each of the three positions is
/// one of its entries.
proof fn lemma_perm3_covers(perm: Seq<usize>)
    requires
        valid_perm(perm, 3),
    ensures
        perm[0] == 0 || perm[1] == 0 || perm[2] == 0,
        perm[0] == 1 || perm[1] == 1 || perm[2] == 1,
        perm[0] == 2 || perm[1] == 2 || perm[2] == 2,
{
    assert(perm[0] != perm[1] && perm[0] != perm[2] && perm[1] != perm[2]);
}

/// Row-major offset in a rank-3 shape `[_, b_len, c_len]`.
proof fn lemma_flat3(shape: Seq<usize>, x: usize, y: usize, z: usize, b_len: usize, c_len: usize)
    requires
        shape.len() == 3,
        shape[1] == b_len,
        shape[2] == c_len,
    ensures
        flat_index(shape, seq![x, y, z]) == (x * b_len + y) * c_len + z,
{
    let idx = seq![x, y, z];
    assert(suffix_prod(shape, 3) == 1);
    assert(suffix_prod(shape, 2) == shape[2] * suffix_prod(shape, 3));
    assert(suffix_prod(shape, 1) == shape[1] * suffix_prod(shape, 2));
    assert(flat_from(shape, idx, 3) == 0);
    assert(flat_from(shape, idx, 2) == z * 1 + 0);
    assert(flat_from(shape, idx, 1) == y * suffix_prod(shape, 2) + flat_from(shape, idx, 2));
    assert(flat_index(shape, idx) == x * suffix_prod(shape, 1) + flat_from(shape, idx, 1));
    assert(x * (b_len * (c_len * 1)) + (y * (c_len * 1) + (z * 1 + 0)) == (x * b_len + y) * c_len
        + z) by (nonlinear_arith);
}

/// A lexicographically earlier triple sits at a strictly smaller offset.
proof fn lemma_pos3_lt(
    x: usize,
    y: usize,
    z: usize,
    a: usize,
    b: usize,
    c: usize,
    b_len: usize,
    c_len: usize,
)
    requires
        y < b_len,
        z < c_len,
        x < a || (x == a && (y < b || (y == b && z < c))),
    ensures
        (x * b_len + y) * c_len + z < (a * b_len + b) * c_len + c,
{
    assert((x * b_len + y) * c_len + z < (a * b_len + b) * c_len + c) by (nonlinear_arith)
        requires
            y < b_len,
            z < c_len,
            x >= 0 && y >= 0 && z >= 0 && a >= 0 && b >= 0 && c >= 0,
            x < a || (x == a && (y < b || (y == b && z < c))),
    ;
}

/// The element count is unchanged by reading the three extents in any order.
proof fn lemma_perm_product3(shape: Seq<usize>, p0: int, p1: int, p2: int)
    requires
        shape.len() == 3,
        0 <= p0 < 3,
        0 <= p1 < 3,
        0 <= p2 < 3,
        p0 != p1 && p0 != p2 && p1 != p2,
    ensures
        shape[p0] * (shape[p1] * shape[p2]) == total_elems(shape),
        total_elems(perm_image(shape, seq![p0 as usize, p1 as usize, p2 as usize])) == total_elems(
            shape,
        ),
{
    let img = perm_image(shape, seq![p0 as usize, p1 as usize, p2 as usize]);
    assert(img.len() == 3);
    assert(suffix_prod(shape, 3) == 1);
    assert(suffix_prod(shape, 2) == shape[2] * suffix_prod(shape, 3));
    assert(suffix_prod(shape, 1) == shape[1] * suffix_prod(shape, 2));
    assert(total_elems(shape) == shape[0] * suffix_prod(shape, 1));
    assert(suffix_prod(img, 3) == 1);
    assert(suffix_prod(img, 2) == img[2] * suffix_prod(img, 3));
    assert(suffix_prod(img, 1) == img[1] * suffix_prod(img, 2));
    assert(total_elems(img) == img[0] * suffix_prod(img, 1));
    assert(img[0] == shape[p0] && img[1] == shape[p1] && img[2] == shape[p2]);
    assert(shape[p0] * (shape[p1] * (shape[p2] * 1)) == shape[0] * (shape[1] * (shape[2] * 1)))
        by (nonlinear_arith)
        requires
            shape.len() == 3,
            (p0 == 0 || p0 == 1 || p0 == 2) && (p1 == 0 || p1 == 1 || p1 == 2) && (p2 == 0 || p2
                == 1 || p2 == 2),
            p0 != p1 && p0 != p2 && p1 != p2,
    ;
    assert(shape[p0] * (shape[p1] * shape[p2]) == shape[p0] * (shape[p1] * (shape[p2] * 1)))
        by (nonlinear_arith);
}

} // verus!
