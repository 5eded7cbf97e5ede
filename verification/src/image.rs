//! Images and image views: their creation descriptions and their registry.

pub mod keys;
pub mod manager;
pub mod resource;
pub mod spec;

pub use keys::{ImageKey, ImageViewKey, LogicalImageKey, LogicalImageViewKey};
pub use manager::{
    CompositeImageKey, CompositeImageViewKey, FrameIndex, ImageBacking, ImageManager,
    ReleasedImages,
};
pub use resource::{Image, ImageView, OwnedImageInfo, OwnedImageViewInfo};
pub use spec::{ImageLifetime, ImageSpec, ImageViewCreateInfo, ImageViewSpec, ResizePolicy};
