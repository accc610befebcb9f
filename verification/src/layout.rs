use vstd::prelude::*;

verus! {

// A shape is an ordered sequence of dimension extents; its rank is its
// length. A buffer is row-major contiguous when the stride of each axis is
// the product of all later extents, the trailing axis having stride 1.

/// Product of the extents from position `i` to the end of the shape; 1 at or
/// past the end. `suffix_prod(shape, 0)` is the element count of the whole
/// shape, and `suffix_prod(shape, i + 1)` is the row-major stride of axis `i`.
pub open spec fn suffix_prod(shape: Seq<usize>, i: int) -> int
    decreases shape.len() - i
{
    if i < 0 || i >= shape.len() {
        1
    } else {
        shape[i] * suffix_prod(shape, i + 1)
    }
}

/// Element count of the whole shape.
pub open spec fn total_elems(shape: Seq<usize>) -> int {
    suffix_prod(shape, 0)
}

/// Every suffix product of the shape is representable on this machine; in
/// particular every row-major stride and the element count are.
pub open spec fn strides_fit(shape: Seq<usize>) -> bool {
    forall|i: int| 0 <= i <= shape.len() ==> suffix_prod(shape, i) <= usize::MAX
}

/// `idx` addresses one element of a buffer of the given shape.
pub open spec fn in_range(shape: Seq<usize>, idx: Seq<usize>) -> bool {
    &&& idx.len() == shape.len()
    &&& forall|i: int| 0 <= i < shape.len() ==> (idx[i] as int) < (shape[i] as int)
}

/// Row-major offset contribution of the axes from position `i` on.
pub open spec fn flat_from(shape: Seq<usize>, idx: Seq<usize>, i: int) -> int
    decreases shape.len() - i
{
    if i < 0 || i >= shape.len() {
        0
    } else {
        idx[i] * suffix_prod(shape, i + 1) + flat_from(shape, idx, i + 1)
    }
}

/// Row-major element offset of `idx` in a contiguous buffer of the given
/// shape.
pub open spec fn flat_index(shape: Seq<usize>, idx: Seq<usize>) -> int {
    flat_from(shape, idx, 0)
}

/// Element offset reached by walking explicit per-axis strides: the sum of
/// `idx[j] * strides[j]` from position `k` on.
pub open spec fn strided_sum(strides: Seq<usize>, idx: Seq<usize>, k: int) -> int
    decreases strides.len() - k
{
    if k < 0 || k >= strides.len() {
        0
    } else {
        idx[k] * strides[k] + strided_sum(strides, idx, k + 1)
    }
}

/// The bytes of the element at element offset `off`, each element `esize`
/// bytes wide.
pub open spec fn elem_at(data: Seq<u8>, esize: int, off: int) -> Seq<u8> {
    data.subrange(off * esize, off * esize + esize)
}

pub proof fn lemma_suffix_prod_nonneg(shape: Seq<usize>, i: int)
    ensures
        suffix_prod(shape, i) >= 0,
    decreases shape.len() - i
{
    if 0 <= i < shape.len() {
        lemma_suffix_prod_nonneg(shape, i + 1);
        assert(shape[i] * suffix_prod(shape, i + 1) >= 0) by (nonlinear_arith)
            requires
                shape[i] >= 0,
                suffix_prod(shape, i + 1) >= 0,
        ;
    }
}

/// With every extent from position `i` on at least 1, the suffix product is
/// at least 1.
pub proof fn lemma_suffix_prod_pos(shape: Seq<usize>, i: int)
    requires
        forall|j: int| i <= j < shape.len() ==> shape[j] >= 1,
    ensures
        suffix_prod(shape, i) >= 1,
    decreases shape.len() - i
{
    if 0 <= i < shape.len() {
        lemma_suffix_prod_pos(shape, i + 1);
        assert(shape[i] * suffix_prod(shape, i + 1) >= 1) by (nonlinear_arith)
            requires
                shape[i] >= 1,
                suffix_prod(shape, i + 1) >= 1,
        ;
    }
}

/// An in-range index forces every extent to be at least 1.
pub proof fn lemma_in_range_dims_pos(shape: Seq<usize>, idx: Seq<usize>)
    requires
        in_range(shape, idx),
    ensures
        forall|j: int| 0 <= j < shape.len() ==> shape[j] >= 1,
{
}

/// The row-major offset of an in-range index lies within the element count:
/// `0 <= flat_from(shape, idx, i) < suffix_prod(shape, i)`.
pub proof fn lemma_flat_from_bounds(shape: Seq<usize>, idx: Seq<usize>, i: int)
    requires
        in_range(shape, idx),
        0 <= i <= shape.len(),
    ensures
        0 <= flat_from(shape, idx, i),
        flat_from(shape, idx, i) < suffix_prod(shape, i),
    decreases shape.len() - i
{
    if i == shape.len() {
    } else {
        lemma_flat_from_bounds(shape, idx, i + 1);
        lemma_in_range_dims_pos(shape, idx);
        lemma_suffix_prod_pos(shape, i + 1);
        assert(idx[i] * suffix_prod(shape, i + 1) >= 0) by (nonlinear_arith)
            requires
                idx[i] >= 0,
                suffix_prod(shape, i + 1) >= 0,
        ;
        assert(idx[i] * suffix_prod(shape, i + 1) + flat_from(shape, idx, i + 1) < suffix_prod(
            shape,
            i,
        )) by (nonlinear_arith)
            requires
                idx[i] < shape[i],
                idx[i] >= 0,
                suffix_prod(shape, i + 1) >= 1,
                flat_from(shape, idx, i + 1) < suffix_prod(shape, i + 1),
                suffix_prod(shape, i) == shape[i] * suffix_prod(shape, i + 1),
        ;
    }
}

pub proof fn lemma_flat_index_bounds(shape: Seq<usize>, idx: Seq<usize>)
    requires
        in_range(shape, idx),
    ensures
        0 <= flat_index(shape, idx),
        flat_index(shape, idx) < total_elems(shape),
{
    lemma_flat_from_bounds(shape, idx, 0);
}

/// Reading through row-major strides reaches the same element as direct
/// row-major indexing: when `strides[j]` is the product of the extents after
/// axis `j`, the strided offset of an index equals its row-major offset.
pub proof fn lemma_strided_sum_is_flat(shape: Seq<usize>, strides: Seq<usize>, idx: Seq<usize>, k: int)
    requires
        strides.len() == shape.len(),
        idx.len() == shape.len(),
        forall|j: int| 0 <= j < shape.len() ==> strides[j] == suffix_prod(shape, j + 1),
        0 <= k <= shape.len(),
    ensures
        strided_sum(strides, idx, k) == flat_from(shape, idx, k),
    decreases shape.len() - k
{
    if k < shape.len() {
        lemma_strided_sum_is_flat(shape, strides, idx, k + 1);
    }
}

pub proof fn lemma_strided_sum_nonneg(strides: Seq<usize>, idx: Seq<usize>, k: int)
    ensures
        strided_sum(strides, idx, k) >= 0,
    decreases strides.len() - k
{
    if 0 <= k < strides.len() {
        lemma_strided_sum_nonneg(strides, idx, k + 1);
        assert(idx[k] * strides[k] >= 0) by (nonlinear_arith)
            requires
                idx[k] >= 0,
                strides[k] >= 0,
        ;
    }
}

/// Partial strided sums never exceed the whole sum.
pub proof fn lemma_strided_sum_prefix(strides: Seq<usize>, idx: Seq<usize>, k: int)
    requires
        0 <= k <= strides.len(),
        idx.len() == strides.len(),
    ensures
        strided_sum(strides, idx, k) <= strided_sum(strides, idx, 0),
    decreases k
{
    if k > 0 {
        lemma_strided_sum_prefix(strides, idx, k - 1);
        assert(idx[k - 1] * strides[k - 1] >= 0) by (nonlinear_arith)
            requires
                idx[k - 1] >= 0,
                strides[k - 1] >= 0,
        ;
    }
}

/// Appending a trailing axis of extent 1 changes no suffix product: the
/// element count and all strides of the old axes stay what they were.
pub proof fn lemma_suffix_prod_push_one(shape: Seq<usize>, i: int)
    requires
        0 <= i <= shape.len(),
    ensures
        suffix_prod(shape.push(1usize), i) == suffix_prod(shape, i),
    decreases shape.len() - i
{
    let pushed = shape.push(1usize);
    if i == shape.len() {
        assert(suffix_prod(pushed, i) == pushed[i] * suffix_prod(pushed, i + 1));
    } else {
        lemma_suffix_prod_push_one(shape, i + 1);
    }
}

/// A shape with a trailing axis of extent 1 keeps all its strides
/// representable and its element count unchanged.
pub proof fn lemma_strides_fit_push_one(shape: Seq<usize>)
    requires
        strides_fit(shape),
    ensures
        strides_fit(shape.push(1usize)),
        total_elems(shape.push(1usize)) == total_elems(shape),
{
    let pushed = shape.push(1usize);
    assert forall|i: int| 0 <= i <= pushed.len() implies suffix_prod(pushed, i)
        <= usize::MAX by {
        if i <= shape.len() {
            lemma_suffix_prod_push_one(shape, i);
        } else {
            assert(suffix_prod(pushed, i) == 1);
        }
    }
    lemma_suffix_prod_push_one(shape, 0);
}

/// Appending a trailing axis of extent 1 and indexing its only position
/// changes no row-major offset.
pub proof fn lemma_flat_push_zero(shape: Seq<usize>, idx: Seq<usize>, i: int)
    requires
        0 <= i <= shape.len(),
        idx.len() == shape.len(),
    ensures
        flat_from(shape.push(1usize), idx.push(0usize), i) == flat_from(shape, idx, i),
    decreases shape.len() - i
{
    let s2 = shape.push(1usize);
    let i2 = idx.push(0usize);
    if i == shape.len() {
        assert(flat_from(s2, i2, i) == i2[i] * suffix_prod(s2, i + 1) + flat_from(s2, i2, i + 1));
        assert(i2[i] == 0);
        assert(flat_from(s2, i2, i + 1) == 0);
    } else {
        lemma_flat_push_zero(shape, idx, i + 1);
        lemma_suffix_prod_push_one(shape, i + 1);
        assert(flat_from(s2, i2, i) == i2[i] * suffix_prod(s2, i + 1) + flat_from(s2, i2, i + 1));
        assert(i2[i] == idx[i]);
    }
}

/// Row-major strides of a shape, suffix products of its extents: the stride
/// of axis `i` is the product of all extents after `i`, and the trailing
/// axis has stride 1.
pub fn strides_of(shape: &Vec<usize>) -> (r: Vec<usize>)
    requires
        strides_fit(shape@),
    ensures
        r@.len() == shape@.len(),
        forall|i: int| 0 <= i < shape@.len() ==> r@[i] == suffix_prod(shape@, i + 1),
{
    let len = shape.len();
    let mut rev: Vec<usize> = Vec::new();
    let mut acc: usize = 1;
    for k in 0..len
        invariant
            len == shape@.len(),
            strides_fit(shape@),
            rev@.len() == k,
            acc == suffix_prod(shape@, len - k),
            forall|j: int| 0 <= j < k ==> rev@[j] == suffix_prod(shape@, len - j),
    {
        rev.push(acc);
        let i = len - 1 - k;
        proof {
            assert(suffix_prod(shape@, i as int) == shape@[i as int] * suffix_prod(
                shape@,
                i as int + 1,
            ));
            lemma_suffix_prod_nonneg(shape@, i as int + 1);
            assert(shape@[i as int] * suffix_prod(shape@, i as int + 1) == suffix_prod(
                shape@,
                i as int + 1,
            ) * shape@[i as int]) by (nonlinear_arith);
        }
        acc = acc * shape[i];
    }
    let mut strides: Vec<usize> = Vec::new();
    for i in 0..len
        invariant
            len == shape@.len(),
            rev@.len() == len,
            forall|j: int| 0 <= j < len ==> rev@[j] == suffix_prod(shape@, len - j),
            strides@.len() == i,
            forall|j: int| 0 <= j < i ==> strides@[j] == suffix_prod(shape@, j + 1),
    {
        strides.push(rev[len - 1 - i]);
    }
    strides
}

/// Shape and row-major strides for reinterpreting a contiguous matrix buffer
/// as a tensor: the per-axis extents with the channel count appended as the
/// trailing axis, and for each axis the product of all later extents (the
/// channel axis always has stride 1).
pub fn compute_nd_shape_and_strides(dims: &Vec<usize>, channels: usize) -> (r: (
    Vec<usize>,
    Vec<usize>,
))
    requires
        strides_fit(dims@.push(channels)),
    ensures
        r.0@ == dims@.push(channels),
        r.1@.len() == r.0@.len(),
        forall|i: int| 0 <= i < r.0@.len() ==> r.1@[i] == suffix_prod(r.0@, i + 1),
{
    let mut shape = crate::buffers::clone_dims(dims);
    shape.push(channels);
    let strides = strides_of(&shape);
    (shape, strides)
}

/// Element offset reached by walking explicit per-axis strides.
pub fn strided_offset(strides: &Vec<usize>, idx: &Vec<usize>) -> (r: usize)
    requires
        idx@.len() == strides@.len(),
        strided_sum(strides@, idx@, 0) <= usize::MAX,
    ensures
        r == strided_sum(strides@, idx@, 0),
{
    let len = strides.len();
    let mut acc: usize = 0;
    for k in 0..len
        invariant
            len == strides@.len(),
            idx@.len() == len,
            strided_sum(strides@, idx@, 0) <= usize::MAX,
            acc == strided_sum(strides@, idx@, 0) - strided_sum(strides@, idx@, k as int),
    {
        proof {
            lemma_strided_sum_nonneg(strides@, idx@, k as int + 1);
            lemma_strided_sum_prefix(strides@, idx@, k as int);
            assert(strided_sum(strides@, idx@, k as int) == idx@[k as int] * strides@[k as int]
                + strided_sum(strides@, idx@, k as int + 1));
            assert(idx@[k as int] * strides@[k as int] >= 0) by (nonlinear_arith)
                requires
                    idx@[k as int] >= 0,
                    strides@[k as int] >= 0,
            ;
        }
        acc = acc + idx[k] * strides[k];
    }
    acc
}

/// Row-major element offset of an in-range index in a contiguous buffer.
pub fn flat_offset(shape: &Vec<usize>, idx: &Vec<usize>) -> (r: usize)
    requires
        in_range(shape@, idx@),
        total_elems(shape@) <= usize::MAX,
    ensures
        r == flat_index(shape@, idx@),
{
    proof {
        lemma_in_range_dims_pos(shape@, idx@);
        assert forall|i: int| 0 <= i <= shape@.len() implies suffix_prod(shape@, i)
            <= usize::MAX by {
            lemma_suffix_prod_sandwich(shape@, i);
        }
    }
    let strides = strides_of(shape);
    proof {
        lemma_strided_sum_is_flat(shape@, strides@, idx@, 0);
        lemma_flat_from_bounds(shape@, idx@, 0);
    }
    strided_offset(&strides, idx)
}

/// With every extent at least 1, each suffix product divides into the whole
/// element count, so it is no larger.
pub proof fn lemma_suffix_prod_sandwich(shape: Seq<usize>, i: int)
    requires
        forall|j: int| 0 <= j < shape.len() ==> shape[j] >= 1,
        0 <= i <= shape.len(),
    ensures
        suffix_prod(shape, i) <= total_elems(shape),
    decreases i
{
    if i == 0 {
    } else {
        lemma_suffix_prod_sandwich(shape, i - 1);
        lemma_suffix_prod_pos(shape, i);
        assert(suffix_prod(shape, i) <= shape[i - 1] * suffix_prod(shape, i)) by (nonlinear_arith)
            requires
                shape[i - 1] >= 1,
                suffix_prod(shape, i) >= 1,
        ;
    }
}

/// The bytes of the element at element offset `off` of a packed byte buffer,
/// each element `esize` bytes wide.
pub fn read_element_bytes(data: &Vec<u8>, off: usize, esize: usize) -> (r: Vec<u8>)
    requires
        (off as int + 1) * esize <= data@.len(),
    ensures
        r@ == elem_at(data@, esize as int, off as int),
        r@.len() == esize,
{
    let n = data.len();
    proof {
        assert((off as int + 1) * esize == off as int * esize + esize) by (nonlinear_arith);
        assert(off as int * esize + esize <= n);
    }
    let start = off * esize;
    let mut r: Vec<u8> = Vec::new();
    for j in 0..esize
        invariant
            (off as int + 1) * esize <= data@.len(),
            start == off as int * esize,
            start + esize <= data@.len(),
            start + esize <= usize::MAX,
            r@.len() == j,
            forall|m: int| 0 <= m < j ==> r@[m] == data@[start + m],
    {
        r.push(data[start + j]);
    }
    proof {
        assert(r@ =~= elem_at(data@, esize as int, off as int));
    }
    r
}

} // verus!
