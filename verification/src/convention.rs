use vstd::prelude::*;

use crate::buffers::{clone_dims, Tensor};
use crate::error::Error;
use crate::permute::{perm_image, valid_perm};

verus! {

/// Declared axis order of a rank-2 or rank-3 image tensor: which axes hold
/// width, height and channel. A rank-2 tensor has no channel axis and an
/// implied channel count of 1.
#[derive(Debug, Clone, Copy, PartialEq, Eq, Structural)]
pub enum ShapeConvention {
    Whc,
    Hwc,
    Chw,
    Cwh,
}

/// Axis rearrangement that carries a declared layout to the canonical
/// height-width-channel order, with the canonical extents read off the shape.
#[derive(Debug)]
pub struct ResolvedLayout {
    pub perm: Vec<usize>,
    pub channels: usize,
    pub height: usize,
    pub width: usize,
}

/// The convention table: for each declared rank and axis order, the
/// permutation reaching canonical height-width(-channel) order and the
/// canonical channel, height and width extents; nothing for other ranks.
pub open spec fn spec_resolve(shape: Seq<usize>, convention: ShapeConvention) -> Option<
    (Seq<usize>, usize, usize, usize),
> {
    if shape.len() == 2 {
        match convention {
            ShapeConvention::Whc => Some((seq![1usize, 0usize], 1usize, shape[1], shape[0])),
            ShapeConvention::Hwc => Some((seq![0usize, 1usize], 1usize, shape[0], shape[1])),
            ShapeConvention::Cwh => Some((seq![1usize, 0usize], 1usize, shape[1], shape[0])),
            ShapeConvention::Chw => Some((seq![0usize, 1usize], 1usize, shape[0], shape[1])),
        }
    } else if shape.len() == 3 {
        match convention {
            ShapeConvention::Whc => Some((seq![1usize, 0usize, 2usize], shape[2], shape[1], shape[0])),
            ShapeConvention::Hwc => Some((seq![0usize, 1usize, 2usize], shape[2], shape[0], shape[1])),
            ShapeConvention::Cwh => Some((seq![2usize, 1usize, 0usize], shape[0], shape[2], shape[1])),
            ShapeConvention::Chw => Some((seq![1usize, 2usize, 0usize], shape[0], shape[1], shape[2])),
        }
    } else {
        None
    }
}

/// The table always hands back a genuine permutation that carries the shape
/// to `[height, width]` (rank 2) or `[height, width, channels]` (rank 3).
pub proof fn lemma_resolve_canonical(shape: Seq<usize>, convention: ShapeConvention)
    requires
        spec_resolve(shape, convention) is Some,
    ensures
        2 <= shape.len() <= 3,
        valid_perm(spec_resolve(shape, convention).unwrap().0, shape.len() as int),
        shape.len() == 2 ==> perm_image(shape, spec_resolve(shape, convention).unwrap().0) =~= seq![
            spec_resolve(shape, convention).unwrap().2,
            spec_resolve(shape, convention).unwrap().3,
        ],
        shape.len() == 3 ==> perm_image(shape, spec_resolve(shape, convention).unwrap().0) =~= seq![
            spec_resolve(shape, convention).unwrap().2,
            spec_resolve(shape, convention).unwrap().3,
            spec_resolve(shape, convention).unwrap().1,
        ],
{
}

/// Looks the declared convention up in the table: the permutation carrying
/// the tensor shape to canonical height-width-channel order and the canonical
/// channel count, height and width. Applies only to single images, so any
/// rank but 2 and 3 fails with `UnsupportedShape` naming the shape.
pub fn resolve(shape: &Vec<usize>, convention: ShapeConvention) -> (r: Result<
    ResolvedLayout,
    Error,
>)
    ensures
        match r {
            Ok(res) => {
                &&& spec_resolve(shape@, convention) is Some
                &&& res.perm@ == spec_resolve(shape@, convention).unwrap().0
                &&& res.channels == spec_resolve(shape@, convention).unwrap().1
                &&& res.height == spec_resolve(shape@, convention).unwrap().2
                &&& res.width == spec_resolve(shape@, convention).unwrap().3
            },
            Err(e) => {
                &&& spec_resolve(shape@, convention) is None
                &&& e matches Error::UnsupportedShape { shape: s } && s@ == shape@
            },
        },
{
    let rank = shape.len();
    if rank != 2 && rank != 3 {
        return Err(Error::UnsupportedShape { shape: clone_dims(shape) });
    }
    let mut perm: Vec<usize> = Vec::new();
    let (channels, height, width): (usize, usize, usize);
    if rank == 2 {
        match convention {
            ShapeConvention::Whc | ShapeConvention::Cwh => {
                perm.push(1);
                perm.push(0);
                channels = 1;
                height = shape[1];
                width = shape[0];
            },
            ShapeConvention::Hwc | ShapeConvention::Chw => {
                perm.push(0);
                perm.push(1);
                channels = 1;
                height = shape[0];
                width = shape[1];
            },
        }
    } else {
        match convention {
            ShapeConvention::Whc => {
                perm.push(1);
                perm.push(0);
                perm.push(2);
                channels = shape[2];
                height = shape[1];
                width = shape[0];
            },
            ShapeConvention::Hwc => {
                perm.push(0);
                perm.push(1);
                perm.push(2);
                channels = shape[2];
                height = shape[0];
                width = shape[1];
            },
            ShapeConvention::Cwh => {
                perm.push(2);
                perm.push(1);
                perm.push(0);
                channels = shape[0];
                height = shape[2];
                width = shape[1];
            },
            ShapeConvention::Chw => {
                perm.push(1);
                perm.push(2);
                perm.push(0);
                channels = shape[0];
                height = shape[1];
                width = shape[2];
            },
        }
    }
    proof {
        assert(perm@ =~= spec_resolve(shape@, convention).unwrap().0);
    }
    Ok(ResolvedLayout { perm, channels, height, width })
}

/// A tensor together with the convention declaring how its axes map onto
/// image height, width and channel. Construction pins the rank to 2 or 3, the
/// only ranks a convention describes.
#[derive(Debug, PartialEq, Eq)]
pub struct TensorAsImage {
    pub tensor: Tensor,
    pub convention: ShapeConvention,
}

impl TensorAsImage {
    pub open spec fn wf(self) -> bool {
        &&& self.tensor.wf()
        &&& 2 <= self.tensor.shape@.len() <= 3
    }

    /// Wraps a tensor with its declared convention. Fails with
    /// `UnsupportedRank` on any rank but 2 and 3.
    pub fn new(tensor: Tensor, convention: ShapeConvention) -> (r: Result<TensorAsImage, Error>)
        requires
            tensor.wf(),
        ensures
            match r {
                Ok(img) => {
                    &&& 2 <= tensor.shape@.len() <= 3
                    &&& img == (TensorAsImage { tensor, convention })
                    &&& img.wf()
                },
                Err(e) => {
                    &&& !(2 <= tensor.shape@.len() <= 3)
                    &&& e == (Error::UnsupportedRank { rank: tensor.shape@.len() as usize })
                },
            },
    {
        let rank = tensor.shape.len();
        if rank == 2 || rank == 3 {
            Ok(TensorAsImage { tensor, convention })
        } else {
            Err(Error::UnsupportedRank { rank })
        }
    }

    /// Hands the wrapped tensor back.
    pub fn into_inner(self) -> (r: Tensor)
        ensures
            r == self.tensor,
    {
        self.tensor
    }
}

} // verus!
