//! What a pass requires of an image: which one, in what state, and whether
//! it has to be created.

use crate::render::framegraph::alias::ImageDesc;
use crate::render::framegraph::graph::ImageAlias;
use crate::render::framegraph::layouts::ImageState;
use crate::vk::{ImageAspectFlags, ImageSubresourceRange};
use vstd::prelude::*;

verus! {

/// How the physical instance of an image is picked on a given frame.
#[derive(Copy, Clone, Debug, PartialEq, Eq, Structural)]
pub enum ImageIndexing {
    /// The one instance there is.
    Global,
    /// One instance per index of the given kind.
    PerFrame(FrameIndexKind),
}

/// Which index picks the instance of a replicated image.
#[derive(Copy, Clone, Debug, PartialEq, Eq, Structural)]
pub enum FrameIndexKind {
    /// The index of the frame slot.
    Frame,
    /// The index of the presentation image.
    Swapchain,
}

/// Whether a requirement brings the image into being.
#[derive(Copy, Clone, PartialEq, Eq, Debug, Structural)]
pub enum ImageCreation {
    Declare(ImageDesc),
    UseExisting,
}

/// The state a pass wants an image in, and the aspects it touches.
#[derive(Clone, Copy, PartialEq, Eq, Debug, Structural)]
pub struct ImageUsage {
    pub state: ImageState,
    pub aspects: ImageAspectFlags,
}

impl ImageUsage {
    /// The first mip level and array layer of the aspects touched.
    pub open spec fn spec_subresource_range(self) -> ImageSubresourceRange {
        ImageSubresourceRange {
            aspect_mask: self.aspects,
            base_mip_level: 0,
            level_count: 1,
            base_array_layer: 0,
            layer_count: 1,
        }
    }

    #[verifier::when_used_as_spec(spec_subresource_range)]
    pub fn subresource_range(self) -> (range: ImageSubresourceRange)
        ensures
            range == self.spec_subresource_range(),
    {
        ImageSubresourceRange {
            aspect_mask: self.aspects,
            base_mip_level: 0,
            level_count: 1,
            base_array_layer: 0,
            layer_count: 1,
        }
    }
}

/// One access of a pass to an image.
#[derive(Clone, Copy, Debug, PartialEq, Eq, Structural)]
pub struct ImageAccess {
    pub alias: ImageAlias,
    pub usage: ImageUsage,
    pub indexing: ImageIndexing,
}

/// One requirement of a pass: an access, and whether it declares the image.
#[derive(Clone, Copy, Debug, PartialEq, Eq, Structural)]
pub struct ImageRequirement {
    pub access: ImageAccess,
    pub creation: ImageCreation,
}

} // verus!
