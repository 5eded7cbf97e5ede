//! The forward pass: renders the scene into the forward color target, with
//! a depth buffer of its own. It declares both.

use crate::image::ImageLifetime;
use crate::render::framegraph::alias::{ImageDesc, ImageFormat, ImageSize, Scale};
use crate::render::framegraph::graph::{ImageAlias, RenderingFormats, RenderingInfo};
use crate::render::framegraph::image::{
    FrameIndexKind, ImageAccess, ImageCreation, ImageIndexing, ImageRequirement, ImageUsage,
};
use crate::render::framegraph::layouts::ImageState;
use crate::render::framegraph::pass::{
    color_rendering, image_precursors_of, triangle_pipeline, BufferBarrierPrecursor,
    ImageBarrierPrecursor, RenderPass,
};
use crate::render::pipeline::{GraphicsPipelineDesc, PipelineShape};
use crate::render::shader::ShaderId;
use crate::vk::{
    ACCESS_2_DEPTH_STENCIL_ATTACHMENT_WRITE, FORMAT_B8G8R8A8_SRGB, IMAGE_ASPECT_COLOR,
    IMAGE_ASPECT_DEPTH, IMAGE_LAYOUT_DEPTH_ATTACHMENT_OPTIMAL, IMAGE_USAGE_DEPTH_STENCIL_ATTACHMENT,
    PIPELINE_STAGE_2_EARLY_FRAGMENT_TESTS, PRIMITIVE_TOPOLOGY_TRIANGLE_LIST, SAMPLE_COUNT_1,
};
use vstd::prelude::*;

verus! {

/// The identity of the forward pass.
pub const FORWARD_PASS_ID: u32 = 1;

/// The usages of the forward color target: written as a color attachment,
/// then sampled.
pub const FORWARD_COLOR_USAGE: u32 = 0x14;

/// The depth buffer that the forward pass declares and writes.
pub open spec fn forward_depth_requirement() -> ImageRequirement {
    ImageRequirement {
        access: ImageAccess {
            alias: ImageAlias::DepthBuffer,
            usage: ImageUsage {
                state: ImageState {
                    layout: IMAGE_LAYOUT_DEPTH_ATTACHMENT_OPTIMAL,
                    stage: PIPELINE_STAGE_2_EARLY_FRAGMENT_TESTS,
                    access: ACCESS_2_DEPTH_STENCIL_ATTACHMENT_WRITE,
                },
                aspects: IMAGE_ASPECT_DEPTH,
            },
            indexing: ImageIndexing::PerFrame(FrameIndexKind::Frame),
        },
        creation: ImageCreation::Declare(
            ImageDesc {
                format: ImageFormat::Depth,
                size: ImageSize::SwapchainRelative { scale: Scale { numerator: 1, denominator: 1 } },
                usage: IMAGE_USAGE_DEPTH_STENCIL_ATTACHMENT,
                lifetime: ImageLifetime::PerFrame,
                samples: SAMPLE_COUNT_1,
            },
        ),
    }
}

/// The color target that the forward pass declares and writes.
pub open spec fn forward_color_requirement() -> ImageRequirement {
    ImageRequirement {
        access: ImageAccess {
            alias: ImageAlias::ForwardColor,
            usage: ImageUsage {
                state: ImageState::spec_color_attachment_write(),
                aspects: IMAGE_ASPECT_COLOR,
            },
            indexing: ImageIndexing::PerFrame(FrameIndexKind::Frame),
        },
        creation: ImageCreation::Declare(
            ImageDesc {
                format: ImageFormat::SwapchainColor,
                size: ImageSize::SwapchainRelative { scale: Scale { numerator: 1, denominator: 1 } },
                usage: FORWARD_COLOR_USAGE,
                lifetime: ImageLifetime::PerFrame,
                samples: SAMPLE_COUNT_1,
            },
        ),
    }
}

/// The forward pass.
#[derive(Debug)]
pub struct ForwardPass {
    image_requirements: Vec<ImageRequirement>,
}

impl Default for ForwardPass {
    fn default() -> (pass: Self)
        ensures
            pass.pass_id() == FORWARD_PASS_ID,
            pass.requirements() == seq![forward_depth_requirement(), forward_color_requirement()],
    {
        let mut image_requirements: Vec<ImageRequirement> = Vec::new();
        image_requirements.push(
            ImageRequirement {
                access: ImageAccess {
                    alias: ImageAlias::DepthBuffer,
                    usage: ImageUsage {
                        state: ImageState {
                            layout: IMAGE_LAYOUT_DEPTH_ATTACHMENT_OPTIMAL,
                            stage: PIPELINE_STAGE_2_EARLY_FRAGMENT_TESTS,
                            access: ACCESS_2_DEPTH_STENCIL_ATTACHMENT_WRITE,
                        },
                        aspects: IMAGE_ASPECT_DEPTH,
                    },
                    indexing: ImageIndexing::PerFrame(FrameIndexKind::Frame),
                },
                creation: ImageCreation::Declare(
                    ImageDesc {
                        format: ImageFormat::Depth,
                        size: ImageSize::SwapchainRelative { scale: Scale::one() },
                        usage: IMAGE_USAGE_DEPTH_STENCIL_ATTACHMENT,
                        lifetime: ImageLifetime::PerFrame,
                        samples: SAMPLE_COUNT_1,
                    },
                ),
            },
        );
        image_requirements.push(
            ImageRequirement {
                access: ImageAccess {
                    alias: ImageAlias::ForwardColor,
                    usage: ImageUsage {
                        state: ImageState::color_attachment_write(),
                        aspects: IMAGE_ASPECT_COLOR,
                    },
                    indexing: ImageIndexing::PerFrame(FrameIndexKind::Frame),
                },
                creation: ImageCreation::Declare(
                    ImageDesc {
                        format: ImageFormat::SwapchainColor,
                        size: ImageSize::SwapchainRelative { scale: Scale::one() },
                        usage: FORWARD_COLOR_USAGE,
                        lifetime: ImageLifetime::PerFrame,
                        samples: SAMPLE_COUNT_1,
                    },
                ),
            },
        );
        let pass = ForwardPass { image_requirements };
        assert(pass.requirements() =~= seq![
            forward_depth_requirement(),
            forward_color_requirement(),
        ]);
        pass
    }
}

impl RenderPass for ForwardPass {
    open spec fn pass_id(&self) -> u32 {
        FORWARD_PASS_ID
    }

    closed spec fn requirements(&self) -> Seq<ImageRequirement> {
        self.image_requirements@
    }

    open spec fn buffer_accesses(&self) -> Seq<BufferBarrierPrecursor> {
        Seq::empty()
    }

    open spec fn rendering(&self) -> RenderingFormats {
        color_rendering(FORMAT_B8G8R8A8_SRGB)
    }

    open spec fn pipeline(&self) -> PipelineShape {
        triangle_pipeline(ShaderId::ForwardVert, ShaderId::ForwardFrag)
    }

    fn id(&self) -> (id: u32) {
        FORWARD_PASS_ID
    }

    fn image_requirements(&self) -> (requirements: &[ImageRequirement]) {
        self.image_requirements.as_slice()
    }

    fn image_precursors(&self) -> (precursors: Vec<ImageBarrierPrecursor>) {
        image_precursors_of(self.image_requirements.as_slice())
    }

    fn buffer_precursors(&self) -> (precursors: Vec<BufferBarrierPrecursor>) {
        Vec::new()
    }

    fn rendering_info(&self) -> (info: RenderingInfo) {
        let mut color_formats = Vec::new();
        color_formats.push(FORMAT_B8G8R8A8_SRGB);
        RenderingInfo { color_formats, depth_format: None, stencil_format: None }
    }

    fn pipeline_desc(&self) -> (desc: GraphicsPipelineDesc) {
        GraphicsPipelineDesc {
            vertex_id: ShaderId::ForwardVert,
            fragment_id: ShaderId::ForwardFrag,
            topology: PRIMITIVE_TOPOLOGY_TRIANGLE_LIST,
            color_formats: Vec::new(),
            depth_format: None,
        }
    }
}

} // verus!
