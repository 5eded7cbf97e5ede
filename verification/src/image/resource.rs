//! The physical resources that the image registry holds.

use crate::vk::Handle;
use vstd::prelude::*;

use super::spec::{ImageSpec, ImageViewSpec};

verus! {

/// What the registry keeps of an image that it owns: the token of its
/// backing memory allocation and the description it was created from.
#[derive(Debug)]
pub struct OwnedImageInfo {
    pub allocation: u64,
    pub spec: ImageSpec,
}

/// A GPU image. One that the registry does not own carries no allocation
/// and is never handed out for destruction.
#[derive(Debug)]
pub struct Image {
    pub vk_image: Handle,
    pub owned: Option<OwnedImageInfo>,
}

impl Image {
    pub fn vk_image(&self) -> (handle: Handle)
        ensures
            handle == self.vk_image,
    {
        self.vk_image
    }
}

/// What the registry keeps of an image view that it owns.
#[derive(Clone, Copy, Debug)]
pub struct OwnedImageViewInfo {
    pub spec: ImageViewSpec,
    pub debug_name: Option<&'static str>,
}

/// A GPU image view.
#[derive(Clone, Copy, Debug)]
pub struct ImageView {
    pub vk_image_view: Handle,
    pub owned: Option<OwnedImageViewInfo>,
}

} // verus!
