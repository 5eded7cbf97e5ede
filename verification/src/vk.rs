//! Plain-value models of the GPU API's handles, enumerations and flag sets.
//!
//! Every value here is the number the GPU API itself uses, so that a caller
//! holding the API's own typed value converts with its raw accessor and back.

use vstd::prelude::*;

verus! {

/// Raw value of an opaque GPU object handle (image, view, buffer, fence, ...).
pub type Handle = u64;

/// Numeric value of an image layout.
pub type ImageLayout = i32;

/// Bit set of pipeline stages.
pub type PipelineStageFlags2 = u64;

/// Bit set of memory access kinds.
pub type AccessFlags2 = u64;

/// Bit set of image aspects (color, depth, stencil).
pub type ImageAspectFlags = u32;

/// Bit set of image usages.
pub type ImageUsageFlags = u32;

/// Bit set of sample counts.
pub type SampleCountFlags = u32;

/// Numeric value of a texel format.
pub type Format = i32;

/// Numeric value of an image view dimensionality.
pub type ImageViewType = i32;

/// Numeric value of a primitive topology.
pub type PrimitiveTopology = i32;

/// Numeric value of a presentation mode.
pub type PresentMode = i32;

/// Numeric value of a color space.
pub type ColorSpace = i32;

pub const IMAGE_LAYOUT_UNDEFINED: ImageLayout = 0;

pub const IMAGE_LAYOUT_GENERAL: ImageLayout = 1;

pub const IMAGE_LAYOUT_COLOR_ATTACHMENT_OPTIMAL: ImageLayout = 2;

pub const IMAGE_LAYOUT_SHADER_READ_ONLY_OPTIMAL: ImageLayout = 5;

pub const IMAGE_LAYOUT_TRANSFER_SRC_OPTIMAL: ImageLayout = 6;

pub const IMAGE_LAYOUT_TRANSFER_DST_OPTIMAL: ImageLayout = 7;

pub const IMAGE_LAYOUT_PRESENT_SRC: ImageLayout = 1000001002;

pub const IMAGE_LAYOUT_DEPTH_ATTACHMENT_OPTIMAL: ImageLayout = 1000241000;

pub const PIPELINE_STAGE_2_NONE: PipelineStageFlags2 = 0;

pub const PIPELINE_STAGE_2_TOP_OF_PIPE: PipelineStageFlags2 = 0x1;

pub const PIPELINE_STAGE_2_FRAGMENT_SHADER: PipelineStageFlags2 = 0x80;

pub const PIPELINE_STAGE_2_EARLY_FRAGMENT_TESTS: PipelineStageFlags2 = 0x100;

pub const PIPELINE_STAGE_2_COLOR_ATTACHMENT_OUTPUT: PipelineStageFlags2 = 0x400;

pub const PIPELINE_STAGE_2_COMPUTE_SHADER: PipelineStageFlags2 = 0x800;

pub const PIPELINE_STAGE_2_TRANSFER: PipelineStageFlags2 = 0x1000;

pub const PIPELINE_STAGE_2_BOTTOM_OF_PIPE: PipelineStageFlags2 = 0x2000;

pub const ACCESS_2_NONE: AccessFlags2 = 0;

pub const ACCESS_2_SHADER_READ: AccessFlags2 = 0x20;

pub const ACCESS_2_SHADER_WRITE: AccessFlags2 = 0x40;

pub const ACCESS_2_COLOR_ATTACHMENT_READ: AccessFlags2 = 0x80;

pub const ACCESS_2_COLOR_ATTACHMENT_WRITE: AccessFlags2 = 0x100;

pub const ACCESS_2_DEPTH_STENCIL_ATTACHMENT_WRITE: AccessFlags2 = 0x400;

pub const ACCESS_2_TRANSFER_READ: AccessFlags2 = 0x800;

pub const ACCESS_2_TRANSFER_WRITE: AccessFlags2 = 0x1000;

pub const ACCESS_2_MEMORY_WRITE: AccessFlags2 = 0x10000;

pub const IMAGE_ASPECT_COLOR: ImageAspectFlags = 0x1;

pub const IMAGE_ASPECT_DEPTH: ImageAspectFlags = 0x2;

pub const IMAGE_ASPECT_STENCIL: ImageAspectFlags = 0x4;

pub const IMAGE_ASPECT_DEPTH_STENCIL: ImageAspectFlags = 0x6;

pub const IMAGE_USAGE_SAMPLED: ImageUsageFlags = 0x4;

pub const IMAGE_USAGE_COLOR_ATTACHMENT: ImageUsageFlags = 0x10;

pub const IMAGE_USAGE_DEPTH_STENCIL_ATTACHMENT: ImageUsageFlags = 0x20;

pub const SAMPLE_COUNT_1: SampleCountFlags = 0x1;

pub const FORMAT_UNDEFINED: Format = 0;

pub const FORMAT_B8G8R8A8_UNORM: Format = 44;

pub const FORMAT_B8G8R8A8_SRGB: Format = 50;

pub const FORMAT_R16G16B16A16_SFLOAT: Format = 97;

pub const FORMAT_D16_UNORM: Format = 124;

pub const FORMAT_D32_SFLOAT: Format = 126;

pub const FORMAT_D24_UNORM_S8_UINT: Format = 129;

pub const FORMAT_D32_SFLOAT_S8_UINT: Format = 130;

pub const IMAGE_VIEW_TYPE_2D: ImageViewType = 1;

pub const IMAGE_VIEW_TYPE_2D_ARRAY: ImageViewType = 5;

pub const PRIMITIVE_TOPOLOGY_TRIANGLE_LIST: PrimitiveTopology = 3;

pub const PRESENT_MODE_IMMEDIATE: PresentMode = 0;

pub const PRESENT_MODE_MAILBOX: PresentMode = 1;

pub const PRESENT_MODE_FIFO: PresentMode = 2;

pub const COLOR_SPACE_SRGB_NONLINEAR: ColorSpace = 0;

/// Width and height of a two-dimensional image region.
#[derive(Clone, Copy, Debug, PartialEq, Eq, Hash, Structural)]
pub struct Extent2D {
    pub width: u32,
    pub height: u32,
}

/// Width, height and depth of an image.
#[derive(Clone, Copy, Debug, PartialEq, Eq, Hash, Structural)]
pub struct Extent3D {
    pub width: u32,
    pub height: u32,
    pub depth: u32,
}

/// The aspects, mip levels and array layers of an image that an operation covers.
#[derive(Clone, Copy, Debug, PartialEq, Eq, Hash, Structural)]
pub struct ImageSubresourceRange {
    pub aspect_mask: ImageAspectFlags,
    pub base_mip_level: u32,
    pub level_count: u32,
    pub base_array_layer: u32,
    pub layer_count: u32,
}

/// Whether two access sets have a bit in common.
pub open spec fn access_intersects(flags: AccessFlags2, other: AccessFlags2) -> bool {
    flags & other != 0
}

/// Whether an access set holds every bit of another.
pub open spec fn access_contains(flags: AccessFlags2, other: AccessFlags2) -> bool {
    flags & other == other
}

/// Whether a stage set holds every bit of another.
pub open spec fn stage_contains(flags: PipelineStageFlags2, other: PipelineStageFlags2) -> bool {
    flags & other == other
}

} // verus!
