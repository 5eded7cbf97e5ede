//! The present pass: hands the frame over for presentation; it touches no image.

use crate::render::framegraph::graph::{RenderingFormats, RenderingInfo};
use crate::render::framegraph::image::ImageRequirement;
use crate::render::framegraph::pass::{
    image_precursors_of, no_rendering, triangle_pipeline, BufferBarrierPrecursor,
    ImageBarrierPrecursor, RenderPass,
};
use crate::render::pipeline::{GraphicsPipelineDesc, PipelineShape};
use crate::render::shader::ShaderId;
use crate::vk::PRIMITIVE_TOPOLOGY_TRIANGLE_LIST;
use vstd::prelude::*;

verus! {

/// The identity of the present pass.
pub const PRESENT_PASS_ID: u32 = 4;

/// The present pass.
#[derive(Debug)]
pub struct PresentPass {
    image_requirements: Vec<ImageRequirement>,
}

impl PresentPass {
    pub fn new() -> (pass: Self)
        ensures
            pass.pass_id() == PRESENT_PASS_ID,
            pass.requirements() == Seq::<ImageRequirement>::empty(),
    {
        PresentPass { image_requirements: Vec::new() }
    }
}

impl RenderPass for PresentPass {
    open spec fn pass_id(&self) -> u32 {
        PRESENT_PASS_ID
    }

    closed spec fn requirements(&self) -> Seq<ImageRequirement> {
        self.image_requirements@
    }

    open spec fn buffer_accesses(&self) -> Seq<BufferBarrierPrecursor> {
        Seq::empty()
    }

    open spec fn rendering(&self) -> RenderingFormats {
        no_rendering()
    }

    open spec fn pipeline(&self) -> PipelineShape {
        triangle_pipeline(ShaderId::ForwardVert, ShaderId::ForwardFrag)
    }

    fn id(&self) -> (id: u32) {
        PRESENT_PASS_ID
    }

    fn image_requirements(&self) -> (requirements: &[ImageRequirement]) {
        self.image_requirements.as_slice()
    }

    fn image_precursors(&self) -> (precursors: Vec<ImageBarrierPrecursor>) {
        image_precursors_of(self.image_requirements.as_slice())
    }

    fn buffer_precursors(&self) -> (precursors: Vec<BufferBarrierPrecursor>) {
        Vec::new()
    }

    fn rendering_info(&self) -> (info: RenderingInfo) {
        RenderingInfo { color_formats: Vec::new(), depth_format: None, stencil_format: None }
    }

    fn pipeline_desc(&self) -> (desc: GraphicsPipelineDesc) {
        GraphicsPipelineDesc {
            vertex_id: ShaderId::ForwardVert,
            fragment_id: ShaderId::ForwardFrag,
            topology: PRIMITIVE_TOPOLOGY_TRIANGLE_LIST,
            color_formats: Vec::new(),
            depth_format: None,
        }
    }
}

} // verus!
