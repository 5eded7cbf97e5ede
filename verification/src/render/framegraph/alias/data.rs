//! What a pass declares of an image that it needs to exist.

use crate::image::{CompositeImageKey, CompositeImageViewKey, ImageLifetime};
use crate::render::framegraph::graph::ImageAlias;
use crate::vk::{ImageUsageFlags, SampleCountFlags};
use vstd::prelude::*;

verus! {

/// Logical category of a texel format, made concrete at resolution.
#[derive(Clone, Copy, PartialEq, Eq, Debug, Structural)]
pub enum ImageFormat {
    /// The format of the presentation surface.
    SwapchainColor,
    Depth,
    HDRColor,
}

impl ImageFormat {
    /// The category's name.
    pub fn name(&self) -> (name: &'static str)
        ensures
            name@ == match *self {
                ImageFormat::SwapchainColor => "SwapchainColor"@,
                ImageFormat::Depth => "Depth"@,
                ImageFormat::HDRColor => "HDRColor"@,
            },
    {
        match self {
            ImageFormat::SwapchainColor => "SwapchainColor",
            ImageFormat::Depth => "Depth",
            ImageFormat::HDRColor => "HDRColor",
        }
    }
}

/// A scale factor as an exact fraction.
#[derive(Clone, Copy, PartialEq, Eq, Debug, Structural)]
pub struct Scale {
    pub numerator: u32,
    pub denominator: u32,
}

/// Logical size of an image, made concrete at resolution.
#[derive(Clone, Copy, PartialEq, Eq, Debug, Structural)]
pub enum ImageSize {
    Absolute { width: u32, height: u32 },
    /// The size of the presentation surface, scaled.
    SwapchainRelative { scale: Scale },
    /// The resolved size of another alias, scaled.
    Relative(ImageAlias, Scale),
}

/// Description of an image, declared by whichever pass first needs it.
#[derive(Copy, Clone, PartialEq, Eq, Debug, Structural)]
pub struct ImageDesc {
    pub format: ImageFormat,
    pub size: ImageSize,
    pub usage: ImageUsageFlags,
    pub lifetime: ImageLifetime,
    pub samples: SampleCountFlags,
}

/// The composite keys of an image and of its view.
#[derive(Copy, Clone, PartialEq, Eq, Debug, Structural)]
pub struct ImageKeys {
    pub image: CompositeImageKey,
    pub view: CompositeImageViewKey,
}

/// One dimension scaled by a fraction, rounded down and held to the range
/// of the dimension's type. A zero denominator scales anything but zero
/// beyond every bound.
pub open spec fn scaled_dimension(base: u32, scale: Scale) -> u32 {
    let product = base as int * scale.numerator as int;
    if scale.denominator == 0 {
        if product == 0 {
            0
        } else {
            u32::MAX
        }
    } else if product / (scale.denominator as int) > u32::MAX {
        u32::MAX
    } else {
        (product / (scale.denominator as int)) as u32
    }
}

impl Scale {
    /// The factor one.
    pub fn one() -> (scale: Scale)
        ensures
            scale == (Scale { numerator: 1, denominator: 1 }),
    {
        Scale { numerator: 1, denominator: 1 }
    }

    /// `base` scaled by this factor.
    pub fn apply(&self, base: u32) -> (scaled: u32)
        ensures
            scaled == scaled_dimension(base, *self),
    {
        assert(base as u64 * self.numerator as u64 <= 0xffff_ffff * 0xffff_ffff) by (nonlinear_arith)
            requires
                base <= 0xffff_ffff,
                self.numerator <= 0xffff_ffff,
        ;
        let product: u64 = base as u64 * self.numerator as u64;
        if self.denominator == 0 {
            if product == 0 {
                0
            } else {
                u32::MAX
            }
        } else {
            let quotient: u64 = product / (self.denominator as u64);
            if quotient > u32::MAX as u64 {
                u32::MAX
            } else {
                quotient as u32
            }
        }
    }
}

} // verus!
