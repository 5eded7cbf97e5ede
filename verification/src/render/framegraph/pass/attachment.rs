//! Finding the image view that a pass attaches for an alias.

use crate::image::{FrameIndex, ImageManager};
use crate::render::framegraph::alias::ResolvedRegistry;
use crate::render::framegraph::graph::{GraphError, ImageAlias};
use crate::vk::Handle;
use vstd::prelude::*;

verus! {

/// What the views of a frame are found with.
pub struct AttachmentResolver<'a> {
    pub registry: &'a ResolvedRegistry,
    pub image_manager: &'a ImageManager,
    pub frame_index: u32,
    pub swapchain_image_index: u32,
}

/// The index that picks the instance of `alias` on a frame: that of the
/// presentation image for the presentation alias, that of the frame slot
/// for every other.
pub open spec fn attachment_index(
    alias: ImageAlias,
    frame_index: u32,
    swapchain_image_index: u32,
) -> FrameIndex {
    if alias == ImageAlias::SwapchainImage {
        FrameIndex::Swapchain(swapchain_image_index)
    } else {
        FrameIndex::Frame(frame_index)
    }
}

impl<'a> AttachmentResolver<'a> {
    /// The view to attach for `alias` on this frame.
    pub fn image_view(&self, alias: ImageAlias) -> (view: Result<Handle, GraphError>)
        requires
            self.image_manager.wf(),
        ensures
            view == (if !self.registry.image_views@.contains_key(alias) {
                Err::<Handle, GraphError>(GraphError::UnknownAlias(alias))
            } else {
                match self.image_manager.resolved_image_view(
                    self.registry.image_views@[alias],
                    attachment_index(alias, self.frame_index, self.swapchain_image_index),
                ) {
                    Some(found) => Ok(found.vk_image_view),
                    None => Err(GraphError::InvalidKey(alias)),
                }
            }),
    {
        let index = if alias == ImageAlias::SwapchainImage {
            FrameIndex::Swapchain(self.swapchain_image_index)
        } else {
            FrameIndex::Frame(self.frame_index)
        };
        let key = match self.registry.image_views.get(alias) {
            Some(key) => *key,
            None => {
                return Err(GraphError::UnknownAlias(alias));
            },
        };
        match self.image_manager.resolve_image_view(key, index) {
            Ok(view) => Ok(view.vk_image_view),
            Err(_) => Err(GraphError::InvalidKey(alias)),
        }
    }
}

} // verus!
