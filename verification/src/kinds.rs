use vstd::prelude::*;

use crate::error::Error;

verus! {

/// Fixed-width scalar encodings shared by both representations. The matrix
/// side additionally packs a channel count (1 to 4) beside the kind into a
/// single type code; the tensor side carries the channel count as a trailing
/// shape axis instead.
#[derive(Debug, Clone, Copy, PartialEq, Eq, Structural)]
pub enum ElementKind {
    Uint8,
    Int8,
    Int16,
    Half,
    Int32,
    Float32,
    Float64,
}

// Matrix-side type codes: `depth + (channels - 1) * 8`, where the depth digit
// selects the scalar kind. The unsigned 16-bit depth digit (2) has no tensor
// counterpart and is absent from the table.
pub const MAT_8UC1: i32 = 0;
pub const MAT_8UC2: i32 = 8;
pub const MAT_8UC3: i32 = 16;
pub const MAT_8UC4: i32 = 24;
pub const MAT_8SC1: i32 = 1;
pub const MAT_8SC2: i32 = 9;
pub const MAT_8SC3: i32 = 17;
pub const MAT_8SC4: i32 = 25;
pub const MAT_16SC1: i32 = 3;
pub const MAT_16SC2: i32 = 11;
pub const MAT_16SC3: i32 = 19;
pub const MAT_16SC4: i32 = 27;
pub const MAT_16FC1: i32 = 7;
pub const MAT_16FC2: i32 = 15;
pub const MAT_16FC3: i32 = 23;
pub const MAT_16FC4: i32 = 31;
pub const MAT_32SC1: i32 = 4;
pub const MAT_32SC2: i32 = 12;
pub const MAT_32SC3: i32 = 20;
pub const MAT_32SC4: i32 = 28;
pub const MAT_32FC1: i32 = 5;
pub const MAT_32FC2: i32 = 13;
pub const MAT_32FC3: i32 = 21;
pub const MAT_32FC4: i32 = 29;
pub const MAT_64FC1: i32 = 6;
pub const MAT_64FC2: i32 = 14;
pub const MAT_64FC3: i32 = 22;
pub const MAT_64FC4: i32 = 30;

/// Scalar kind selected by a depth digit, if the digit is in the table.
pub open spec fn spec_kind_of_depth(depth: int) -> Option<ElementKind> {
    if depth == 0 {
        Some(ElementKind::Uint8)
    } else if depth == 1 {
        Some(ElementKind::Int8)
    } else if depth == 3 {
        Some(ElementKind::Int16)
    } else if depth == 7 {
        Some(ElementKind::Half)
    } else if depth == 4 {
        Some(ElementKind::Int32)
    } else if depth == 5 {
        Some(ElementKind::Float32)
    } else if depth == 6 {
        Some(ElementKind::Float64)
    } else {
        None
    }
}

/// Depth digit of a scalar kind; inverse of `spec_kind_of_depth` on the table.
pub open spec fn spec_depth_of_kind(kind: ElementKind) -> int {
    match kind {
        ElementKind::Uint8 => 0,
        ElementKind::Int8 => 1,
        ElementKind::Int16 => 3,
        ElementKind::Half => 7,
        ElementKind::Int32 => 4,
        ElementKind::Float32 => 5,
        ElementKind::Float64 => 6,
    }
}

/// A matrix type code is in the table: one of the 28 codes packing a listed
/// scalar kind with a channel count from 1 to 4.
pub open spec fn spec_code_supported(code: int) -> bool {
    0 <= code < 32 && spec_kind_of_depth(code % 8) is Some
}

pub open spec fn spec_code_kind(code: int) -> ElementKind
    recommends
        spec_code_supported(code),
{
    spec_kind_of_depth(code % 8).unwrap()
}

pub open spec fn spec_code_channels(code: int) -> int
    recommends
        spec_code_supported(code),
{
    code / 8 + 1
}

/// Matrix type code packing a scalar kind with a channel count.
pub open spec fn spec_encode(kind: ElementKind, channels: int) -> int {
    spec_depth_of_kind(kind) + (channels - 1) * 8
}

/// Width of one scalar of the kind, in bytes.
pub open spec fn spec_elem_size(kind: ElementKind) -> int {
    match kind {
        ElementKind::Uint8 => 1,
        ElementKind::Int8 => 1,
        ElementKind::Int16 => 2,
        ElementKind::Half => 2,
        ElementKind::Int32 => 4,
        ElementKind::Float32 => 4,
        ElementKind::Float64 => 8,
    }
}

impl ElementKind {
    /// Width of one scalar of this kind, in bytes.
    pub fn elem_size(&self) -> (r: usize)
        ensures
            r == spec_elem_size(*self),
            1 <= r <= 8,
    {
        match self {
            ElementKind::Uint8 => 1,
            ElementKind::Int8 => 1,
            ElementKind::Int16 => 2,
            ElementKind::Half => 2,
            ElementKind::Int32 => 4,
            ElementKind::Float32 => 4,
            ElementKind::Float64 => 8,
        }
    }
}

/// Matrix side of the type table: splits a packed matrix type code into the
/// tensor-side scalar kind and the channel count, or reports the code as
/// absent from the table.
pub fn matrix_to_tensor_kind(code: i32) -> (r: Result<(ElementKind, usize), Error>)
    ensures
        spec_code_supported(code as int) ==> r == Ok::<_, Error>(
            (spec_code_kind(code as int), spec_code_channels(code as int) as usize),
        ),
        !spec_code_supported(code as int) ==> r == Err::<(ElementKind, usize), _>(
            Error::UnsupportedEncoding { code, channels: 0usize },
        ),
{
    if code < 0 || code >= 32 {
        return Err(Error::UnsupportedEncoding { code, channels: 0 });
    }
    let depth = code % 8;
    let channels: usize = (code / 8 + 1) as usize;
    let kind = if depth == 0 {
        ElementKind::Uint8
    } else if depth == 1 {
        ElementKind::Int8
    } else if depth == 3 {
        ElementKind::Int16
    } else if depth == 7 {
        ElementKind::Half
    } else if depth == 4 {
        ElementKind::Int32
    } else if depth == 5 {
        ElementKind::Float32
    } else if depth == 6 {
        ElementKind::Float64
    } else {
        return Err(Error::UnsupportedEncoding { code, channels: 0 });
    };
    Ok((kind, channels))
}

/// Tensor side of the type table: packs a scalar kind and a channel count
/// into the matrix type code, or reports the pair as absent from the table
/// (every listed kind supports exactly the channel counts 1 to 4).
pub fn tensor_to_matrix_encoding(kind: ElementKind, channels: usize) -> (r: Result<i32, Error>)
    ensures
        1 <= channels <= 4 ==> r == Ok::<_, Error>(spec_encode(kind, channels as int) as i32),
        !(1 <= channels <= 4) ==> r == Err::<i32, _>(
            Error::UnsupportedEncoding { code: spec_encode(kind, 1) as i32, channels },
        ),
{
    let depth: i32 = match kind {
        ElementKind::Uint8 => 0,
        ElementKind::Int8 => 1,
        ElementKind::Int16 => 3,
        ElementKind::Half => 7,
        ElementKind::Int32 => 4,
        ElementKind::Float32 => 5,
        ElementKind::Float64 => 6,
    };
    if channels < 1 || channels > 4 {
        return Err(Error::UnsupportedEncoding { code: depth, channels });
    }
    Ok(depth + (channels as i32 - 1) * 8)
}

/// The table is a bijection: packing a listed kind with a channel count from
/// 1 to 4 and splitting the code again returns the same pair.
pub proof fn lemma_encode_then_decode(kind: ElementKind, channels: int)
    requires
        1 <= channels <= 4,
    ensures
        spec_code_supported(spec_encode(kind, channels)),
        spec_code_kind(spec_encode(kind, channels)) == kind,
        spec_code_channels(spec_encode(kind, channels)) == channels,
{
}

/// The table is a bijection: splitting a supported code and packing the
/// parts again returns the same code.
pub proof fn lemma_decode_then_encode(code: int)
    requires
        spec_code_supported(code),
    ensures
        1 <= spec_code_channels(code) <= 4,
        spec_encode(spec_code_kind(code), spec_code_channels(code)) == code,
{
}

} // verus!
