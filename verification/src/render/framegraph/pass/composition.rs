//! The composition pass: reads the forward color target and writes the
//! frame's presentation image.

use crate::render::framegraph::graph::{ImageAlias, RenderingFormats, RenderingInfo};
use crate::render::framegraph::image::{
    FrameIndexKind, ImageAccess, ImageCreation, ImageIndexing, ImageRequirement, ImageUsage,
};
use crate::render::framegraph::layouts::ImageState;
use crate::render::framegraph::pass::{
    color_rendering, image_precursors_of, triangle_pipeline, BufferBarrierPrecursor,
    ImageBarrierPrecursor, RenderPass,
};
use crate::render::pipeline::{GraphicsPipelineDesc, PipelineShape};
use crate::render::shader::ShaderId;
use crate::vk::{FORMAT_B8G8R8A8_SRGB, IMAGE_ASPECT_COLOR, PRIMITIVE_TOPOLOGY_TRIANGLE_LIST};
use vstd::prelude::*;

verus! {

/// The identity of the composition pass.
pub const COMPOSITION_PASS_ID: u32 = 2;

/// The presentation image that the composition pass writes.
pub open spec fn composition_target_requirement() -> ImageRequirement {
    ImageRequirement {
        access: ImageAccess {
            alias: ImageAlias::SwapchainImage,
            usage: ImageUsage {
                state: ImageState::spec_color_attachment_write(),
                aspects: IMAGE_ASPECT_COLOR,
            },
            indexing: ImageIndexing::PerFrame(FrameIndexKind::Swapchain),
        },
        creation: ImageCreation::UseExisting,
    }
}

/// The forward color target that the composition pass uses.
pub open spec fn composition_source_requirement() -> ImageRequirement {
    ImageRequirement {
        access: ImageAccess {
            alias: ImageAlias::ForwardColor,
            usage: ImageUsage {
                state: ImageState::spec_color_attachment_write(),
                aspects: IMAGE_ASPECT_COLOR,
            },
            indexing: ImageIndexing::PerFrame(FrameIndexKind::Frame),
        },
        creation: ImageCreation::UseExisting,
    }
}

/// The composition pass.
#[derive(Debug)]
pub struct CompositionPass {
    image_requirements: Vec<ImageRequirement>,
}

impl Default for CompositionPass {
    fn default() -> (pass: Self)
        ensures
            pass.pass_id() == COMPOSITION_PASS_ID,
            pass.requirements() == seq![
                composition_target_requirement(),
                composition_source_requirement(),
            ],
    {
        let mut image_requirements: Vec<ImageRequirement> = Vec::new();
        image_requirements.push(
            ImageRequirement {
                access: ImageAccess {
                    alias: ImageAlias::SwapchainImage,
                    usage: ImageUsage {
                        state: ImageState::color_attachment_write(),
                        aspects: IMAGE_ASPECT_COLOR,
                    },
                    indexing: ImageIndexing::PerFrame(FrameIndexKind::Swapchain),
                },
                creation: ImageCreation::UseExisting,
            },
        );
        image_requirements.push(
            ImageRequirement {
                access: ImageAccess {
                    alias: ImageAlias::ForwardColor,
                    usage: ImageUsage {
                        state: ImageState::color_attachment_write(),
                        aspects: IMAGE_ASPECT_COLOR,
                    },
                    indexing: ImageIndexing::PerFrame(FrameIndexKind::Frame),
                },
                creation: ImageCreation::UseExisting,
            },
        );
        let pass = CompositionPass { image_requirements };
        assert(pass.requirements() =~= seq![
            composition_target_requirement(),
            composition_source_requirement(),
        ]);
        pass
    }
}

impl RenderPass for CompositionPass {
    open spec fn pass_id(&self) -> u32 {
        COMPOSITION_PASS_ID
    }

    closed spec fn requirements(&self) -> Seq<ImageRequirement> {
        self.image_requirements@
    }

    open spec fn buffer_accesses(&self) -> Seq<BufferBarrierPrecursor> {
        Seq::empty()
    }

    open spec fn rendering(&self) -> RenderingFormats {
        color_rendering(FORMAT_B8G8R8A8_SRGB)
    }

    open spec fn pipeline(&self) -> PipelineShape {
        triangle_pipeline(ShaderId::CompositionVert, ShaderId::CompositionFrag)
    }

    fn id(&self) -> (id: u32) {
        COMPOSITION_PASS_ID
    }

    fn image_requirements(&self) -> (requirements: &[ImageRequirement]) {
        self.image_requirements.as_slice()
    }

    fn image_precursors(&self) -> (precursors: Vec<ImageBarrierPrecursor>) {
        image_precursors_of(self.image_requirements.as_slice())
    }

    fn buffer_precursors(&self) -> (precursors: Vec<BufferBarrierPrecursor>) {
        Vec::new()
    }

    fn rendering_info(&self) -> (info: RenderingInfo) {
        let mut color_formats = Vec::new();
        color_formats.push(FORMAT_B8G8R8A8_SRGB);
        RenderingInfo { color_formats, depth_format: None, stencil_format: None }
    }

    fn pipeline_desc(&self) -> (desc: GraphicsPipelineDesc) {
        GraphicsPipelineDesc {
            vertex_id: ShaderId::CompositionVert,
            fragment_id: ShaderId::CompositionFrag,
            topology: PRIMITIVE_TOPOLOGY_TRIANGLE_LIST,
            color_formats: Vec::new(),
            depth_format: None,
        }
    }
}

} // verus!
