use cv_convert::buffers::{Matrix, Tensor};
use cv_convert::convention::{resolve, ShapeConvention, TensorAsImage};
use cv_convert::engine::{
    matrix_into_tensor_view, matrix_to_tensor_copy, tensor_to_matrix_copy,
    tensor_to_matrix_rawcopy,
};
use cv_convert::kinds::{matrix_to_tensor_kind, tensor_to_matrix_encoding, ElementKind};
use cv_convert::permute::permute_copy;
use cv_convert::Error;

fn f32_tensor(shape: Vec<usize>, values: &[f32]) -> Tensor {
    let mut data = Vec::new();
    for v in values {
        data.extend_from_slice(&v.to_le_bytes());
    }
    Tensor::new(ElementKind::Float32, shape, data).expect("well-formed tensor")
}

fn f32_of(bytes: &[u8]) -> f32 {
    f32::from_le_bytes([bytes[0], bytes[1], bytes[2], bytes[3]])
}

/// Pseudo-random but deterministic values, one per flat position.
fn pattern(n: usize) -> Vec<f32> {
    (0..n).map(|i| ((i * 37 + 11) % 251) as f32 - 40.5).collect()
}

#[test]
fn tensor_mat_conv() {
    let size = vec![2usize, 3, 4, 5];
    let n: usize = 2 * 3 * 4 * 5;
    let before = f32_tensor(size.clone(), &pattern(n));

    let mat = tensor_to_matrix_rawcopy(&before).expect("raw copy");
    assert_eq!(mat.dims, size);

    // compare Tensor and Mat values at every index
    for i0 in 0..2usize {
        for i1 in 0..3usize {
            for i2 in 0..4usize {
                for i3 in 0..5usize {
                    let t_val = before.read_element(&vec![i0, i1, i2, i3]);
                    let m_val = mat.read_element(&vec![i0, i1, i2, i3, 0]);
                    assert_eq!(t_val, m_val, "value mismatch");
                }
            }
        }
    }

    // compare original and recovered Tensor values
    let after = matrix_to_tensor_copy(&mat).expect("copy back");
    assert_eq!(after.kind, ElementKind::Float32);
    assert_eq!(after.shape, vec![2usize, 3, 4, 5, 1]);
    assert_eq!(after.data, before.data, "value mismatch");

    // reshaping to the original shape reproduces the tensor exactly
    let reshaped = Tensor::new(after.kind, size.clone(), after.data.clone()).expect("reshape");
    assert_eq!(reshaped, before, "value mismatch");
}

#[test]
fn tensor_as_image_and_mat_conv() {
    let c = 3usize;
    let h = 16usize;
    let w = 8usize;

    let before = f32_tensor(vec![c, h, w], &pattern(c * h * w));
    let img = TensorAsImage::new(before.clone(), ShapeConvention::Chw).expect("rank 3");
    let mat = tensor_to_matrix_copy(&img).expect("conversion");
    assert_eq!(mat.dims, vec![h, w]);

    // compare Tensor and Mat values: the pixel at (row, col) holds the three
    // channels (T[0,row,col], T[1,row,col], T[2,row,col])
    for row in 0..h {
        for col in 0..w {
            for k in 0..c {
                let pixel_chan = mat.read_element(&vec![row, col, k]);
                let t_val = before.read_element(&vec![k, row, col]);
                assert_eq!(pixel_chan, t_val, "value mismatch");
            }
        }
    }

    // compare original and recovered Tensor values
    let recovered = matrix_to_tensor_copy(&mat).expect("copy back");
    assert_eq!(recovered.shape, vec![h, w, c]);
    let after = permute_copy(&recovered, &vec![2usize, 0, 1]).expect("permute back");
    assert_eq!(after.shape, before.shape, "size mismatch: {:?} vs. {:?}", after.shape, before.shape);
    assert_eq!(after.data, before.data, "value mismatch");
}

#[test]
fn tensor_from_mat_conv() {
    let c = 3usize;
    let h = 16usize;
    let w = 8usize;

    let before = f32_tensor(vec![c, h, w], &pattern(c * h * w));
    let img = TensorAsImage::new(before.clone(), ShapeConvention::Chw).expect("rank 3");
    let mat = tensor_to_matrix_copy(&img).expect("conversion");
    let after = matrix_into_tensor_view(mat).expect("zero-copy view");

    // the view is the matrix read in height-width-channel order
    assert_eq!(after.shape_vec(), vec![h, w, c], "size mismatch");
    let expected = permute_copy(&before, &vec![1usize, 2, 0]).expect("permute");
    assert_eq!(&expected, &after.tensor(), "value mismatch");
}

#[test]
fn type_table_known_codes() {
    // depth digit + (channels - 1) * 8
    assert_eq!(matrix_to_tensor_kind(16), Ok((ElementKind::Uint8, 3)));
    assert_eq!(matrix_to_tensor_kind(0), Ok((ElementKind::Uint8, 1)));
    assert_eq!(matrix_to_tensor_kind(29), Ok((ElementKind::Float32, 4)));
    assert_eq!(matrix_to_tensor_kind(6), Ok((ElementKind::Float64, 1)));
    assert_eq!(matrix_to_tensor_kind(31), Ok((ElementKind::Half, 4)));
    assert_eq!(tensor_to_matrix_encoding(ElementKind::Uint8, 3), Ok(16));
    assert_eq!(tensor_to_matrix_encoding(ElementKind::Float32, 4), Ok(29));
    assert_eq!(tensor_to_matrix_encoding(ElementKind::Int16, 2), Ok(11));
}

#[test]
fn type_table_round_trip_all() {
    for kind in [
        ElementKind::Uint8,
        ElementKind::Int8,
        ElementKind::Int16,
        ElementKind::Half,
        ElementKind::Int32,
        ElementKind::Float32,
        ElementKind::Float64,
    ] {
        for channels in 1..=4usize {
            let code = tensor_to_matrix_encoding(kind, channels).expect("in table");
            assert_eq!(matrix_to_tensor_kind(code), Ok((kind, channels)));
        }
    }
}

#[test]
fn type_table_rejects_unknown() {
    // depth digit 2 (unsigned 16-bit) has no tensor counterpart
    assert_eq!(
        matrix_to_tensor_kind(2),
        Err(Error::UnsupportedEncoding { code: 2, channels: 0 })
    );
    // out of the packed range entirely
    assert_eq!(
        matrix_to_tensor_kind(32),
        Err(Error::UnsupportedEncoding { code: 32, channels: 0 })
    );
    assert_eq!(
        matrix_to_tensor_kind(-1),
        Err(Error::UnsupportedEncoding { code: -1, channels: 0 })
    );
    // a fifth channel is not representable
    assert_eq!(
        tensor_to_matrix_encoding(ElementKind::Uint8, 5),
        Err(Error::UnsupportedEncoding { code: 0, channels: 5 })
    );
    assert_eq!(
        tensor_to_matrix_encoding(ElementKind::Float64, 0),
        Err(Error::UnsupportedEncoding { code: 6, channels: 0 })
    );
}

#[test]
fn element_sizes() {
    assert_eq!(ElementKind::Uint8.elem_size(), 1);
    assert_eq!(ElementKind::Int8.elem_size(), 1);
    assert_eq!(ElementKind::Int16.elem_size(), 2);
    assert_eq!(ElementKind::Half.elem_size(), 2);
    assert_eq!(ElementKind::Int32.elem_size(), 4);
    assert_eq!(ElementKind::Float32.elem_size(), 4);
    assert_eq!(ElementKind::Float64.elem_size(), 8);
}

#[test]
fn strides_are_suffix_products() {
    let (shape, strides) = cv_convert::layout::compute_nd_shape_and_strides(&vec![4usize, 5], 3);
    assert_eq!(shape, vec![4usize, 5, 3]);
    assert_eq!(strides, vec![15usize, 3, 1]);

    let (shape2, strides2) = cv_convert::layout::compute_nd_shape_and_strides(&vec![7usize], 1);
    assert_eq!(shape2, vec![7usize, 1]);
    assert_eq!(strides2, vec![1usize, 1]);
}

#[test]
fn resolve_table_rank2() {
    for (conv, perm, flip) in [
        (ShapeConvention::Whc, vec![1usize, 0], true),
        (ShapeConvention::Hwc, vec![0usize, 1], false),
        (ShapeConvention::Cwh, vec![1usize, 0], true),
        (ShapeConvention::Chw, vec![0usize, 1], false),
    ] {
        let r = resolve(&vec![10usize, 20], conv).expect("rank 2");
        assert_eq!(r.perm, perm);
        assert_eq!(r.channels, 1);
        if flip {
            assert_eq!((r.height, r.width), (20, 10));
        } else {
            assert_eq!((r.height, r.width), (10, 20));
        }
    }
}

#[test]
fn resolve_table_rank3() {
    let shape = vec![10usize, 20, 30];
    let r = resolve(&shape, ShapeConvention::Whc).expect("rank 3");
    assert_eq!((r.perm.clone(), r.channels, r.height, r.width), (vec![1usize, 0, 2], 30, 20, 10));
    let r = resolve(&shape, ShapeConvention::Hwc).expect("rank 3");
    assert_eq!((r.perm.clone(), r.channels, r.height, r.width), (vec![0usize, 1, 2], 30, 10, 20));
    let r = resolve(&shape, ShapeConvention::Cwh).expect("rank 3");
    assert_eq!((r.perm.clone(), r.channels, r.height, r.width), (vec![2usize, 1, 0], 10, 30, 20));
    let r = resolve(&shape, ShapeConvention::Chw).expect("rank 3");
    assert_eq!((r.perm.clone(), r.channels, r.height, r.width), (vec![1usize, 2, 0], 10, 20, 30));
}

#[test]
fn resolve_rejects_rank4() {
    let shape = vec![2usize, 3, 4, 5];
    match resolve(&shape, ShapeConvention::Chw) {
        Err(Error::UnsupportedShape { shape: s }) => assert_eq!(s, shape),
        other => panic!("expected UnsupportedShape, got {:?}", other),
    }
}

#[test]
fn tensor_as_image_rejects_rank4() {
    let t = f32_tensor(vec![1usize, 1, 1, 1], &pattern(1));
    match TensorAsImage::new(t, ShapeConvention::Hwc) {
        Err(Error::UnsupportedRank { rank }) => assert_eq!(rank, 4),
        other => panic!("expected UnsupportedRank, got {:?}", other),
    }
}

#[test]
fn non_contiguous_matrix_is_rejected() {
    // a matrix declared non-contiguous: the zero-copy path must refuse it
    let code = tensor_to_matrix_encoding(ElementKind::Uint8, 1).unwrap();
    let m = Matrix::from_parts(code, vec![2usize, 2], false, vec![0u8; 4]).expect("construct");
    assert_eq!(matrix_to_tensor_copy(&m), Err(Error::NonContiguousBuffer));
    match matrix_into_tensor_view(m) {
        Err(e) => assert_eq!(e, Error::NonContiguousBuffer),
        Ok(_) => panic!("a view of a non-contiguous matrix must not exist"),
    }
}

#[test]
fn buffer_too_small_is_rejected() {
    // 2 x 2 of 3-channel bytes needs 12 bytes, not 11
    let code = tensor_to_matrix_encoding(ElementKind::Uint8, 3).unwrap();
    match Matrix::from_parts(code, vec![2usize, 2], true, vec![0u8; 11]) {
        Err(Error::BufferTooSmall) => {},
        other => panic!("expected BufferTooSmall, got {:?}", other),
    }
    match Tensor::new(ElementKind::Int32, vec![2usize, 2], vec![0u8; 15]) {
        Err(Error::BufferTooSmall) => {},
        other => panic!("expected BufferTooSmall, got {:?}", other),
    }
    match Matrix::from_parts(2, vec![1usize], true, vec![0u8]) {
        Err(Error::UnsupportedEncoding { code: 2, channels: 0 }) => {},
        other => panic!("expected UnsupportedEncoding, got {:?}", other),
    }
}

#[test]
fn zero_copy_view_matches_matrix() {
    // 2 x 2 pixels of 2 channels, one byte each: bytes 0..8 in row-major order
    let code = tensor_to_matrix_encoding(ElementKind::Uint8, 2).unwrap();
    let data: Vec<u8> = (0u8..8).collect();
    let m = Matrix::from_parts(code, vec![2usize, 2], true, data).expect("construct");
    let direct = m.clone();
    let expected: Vec<Vec<u8>> = (0u8..8).map(|b| vec![b]).collect();

    let view = matrix_into_tensor_view(m).expect("contiguous");
    assert_eq!(view.shape_vec(), vec![2usize, 2, 2]);
    assert_eq!(view.strides_vec(), vec![4usize, 2, 1]);
    let mut i: usize = 0;
    for row in 0..2usize {
        for col in 0..2usize {
            for ch in 0..2usize {
                let idx = vec![row, col, ch];
                // the view reads the very byte the matrix holds at that index
                assert_eq!(view.read_element(&idx), expected[i]);
                assert_eq!(view.read_element(&idx), direct.read_element(&idx));
                i += 1;
            }
        }
    }
}

#[test]
fn view_owns_and_releases_its_matrix_once() {
    let code = tensor_to_matrix_encoding(ElementKind::Int16, 1).unwrap();
    let data: Vec<u8> = (0u8..12).collect();
    let m = Matrix::from_parts(code, vec![3usize, 2], true, data.clone()).expect("construct");
    let view = matrix_into_tensor_view(m).expect("contiguous");
    // the view is the sole owner; handing the matrix back consumes the view,
    // and the buffer comes back untouched
    let back = view.into_matrix();
    assert_eq!(back.data, data);
    assert_eq!(back.dims, vec![3usize, 2]);
    assert!(back.contiguous);
}

#[test]
fn rawcopy_round_trip_int16() {
    let data: Vec<u8> = (0u8..12).collect();
    let t = Tensor::new(ElementKind::Int16, vec![2usize, 3], data.clone()).expect("tensor");
    let m = tensor_to_matrix_rawcopy(&t).expect("raw copy");
    assert_eq!(m.data, data);
    let t2 = matrix_to_tensor_copy(&m).expect("copy back");
    assert_eq!(t2.kind, ElementKind::Int16);
    assert_eq!(t2.shape, vec![2usize, 3, 1]);
    assert_eq!(t2.data, data);
}

#[test]
fn chw_convention_pixel_values() {
    // shape [channels=3, height=16, width=8], the scenario of the convention
    let c = 3usize;
    let h = 16usize;
    let w = 8usize;
    let values = pattern(c * h * w);
    let before = f32_tensor(vec![c, h, w], &values);
    let img = TensorAsImage::new(before.clone(), ShapeConvention::Chw).expect("rank 3");
    let mat = tensor_to_matrix_copy(&img).expect("conversion");

    assert_eq!(mat.dims, vec![h, w]);
    let (kind, channels) = mat.kind_channels();
    assert_eq!(kind, ElementKind::Float32);
    assert_eq!(channels, 3);

    for row in 0..h {
        for col in 0..w {
            for k in 0..c {
                let got = f32_of(&mat.read_element(&vec![row, col, k]));
                let want = values[(k * h + row) * w + col];
                assert_eq!(got, want, "value mismatch");
            }
        }
    }
}

#[test]
fn rank2_conventions_transpose() {
    // a 2 x 3 height-first tensor under a width-first convention transposes
    let values = pattern(6);
    let t = f32_tensor(vec![2usize, 3], &values);
    let img = TensorAsImage::new(t.clone(), ShapeConvention::Whc).expect("rank 2");
    let mat = tensor_to_matrix_copy(&img).expect("conversion");
    assert_eq!(mat.dims, vec![3usize, 2]);
    let (_, channels) = mat.kind_channels();
    assert_eq!(channels, 1);
    for a in 0..2usize {
        for b in 0..3usize {
            let got = f32_of(&mat.read_element(&vec![b, a, 0]));
            let want = values[a * 3 + b];
            assert_eq!(got, want, "value mismatch");
        }
    }
}

#[test]
fn too_many_channels_is_unsupported_encoding() {
    // 7 channels in front: resolves, but the type table has no column for it
    let t = f32_tensor(vec![7usize, 2, 2], &pattern(28));
    let img = TensorAsImage::new(t, ShapeConvention::Chw).expect("rank 3");
    match tensor_to_matrix_copy(&img) {
        Err(Error::UnsupportedEncoding { channels: 7, .. }) => {},
        other => panic!("expected UnsupportedEncoding, got {:?}", other),
    }
}

#[test]
fn into_inner_returns_the_tensor() {
    let t = f32_tensor(vec![2usize, 2], &pattern(4));
    let img = TensorAsImage::new(t.clone(), ShapeConvention::Hwc).expect("rank 2");
    assert_eq!(img.into_inner(), t);
}

#[test]
fn write_through_view_updates_one_element() {
    let code = tensor_to_matrix_encoding(ElementKind::Uint8, 2).unwrap();
    let data: Vec<u8> = (10u8..18).collect();
    let m = Matrix::from_parts(code, vec![2usize, 2], true, data.clone()).expect("construct");
    let mut view = matrix_into_tensor_view(m).expect("contiguous");

    view.write_element(&vec![1usize, 0, 1], &vec![99u8]);
    assert_eq!(view.read_element(&vec![1usize, 0, 1]), vec![99u8]);

    // every other element is untouched
    let mut flat = 0usize;
    for row in 0..2usize {
        for col in 0..2usize {
            for ch in 0..2usize {
                if (row, col, ch) != (1, 0, 1) {
                    assert_eq!(view.read_element(&vec![row, col, ch]), vec![data[flat]]);
                }
                flat += 1;
            }
        }
    }

    // the mutation went into the borrowed matrix buffer itself
    let back = view.into_matrix();
    assert_eq!(back.data[5], 99u8);
}

#[test]
fn overflowing_permuted_strides_are_rejected() {
    // an empty tensor whose permuted layout would need a stride no machine
    // word can hold: the convention path must refuse it, not wrap around
    let big = 1usize << 40;
    let t = Tensor::new(ElementKind::Uint8, vec![big, 0, big], Vec::new()).expect("empty tensor");
    let img = TensorAsImage::new(t, ShapeConvention::Chw).expect("rank 3");
    assert_eq!(tensor_to_matrix_copy(&img), Err(Error::BufferTooSmall));
}
