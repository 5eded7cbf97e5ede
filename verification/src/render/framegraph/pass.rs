//! The contract that every render pass implements, and the passes there are.

pub mod attachment;
pub mod composition;
pub mod culling;
pub mod forward;
pub mod present;

pub use attachment::AttachmentResolver;
pub use composition::CompositionPass;
pub use culling::CullingPass;
pub use forward::ForwardPass;
pub use present::PresentPass;

use crate::render::framegraph::graph::{RenderingFormats, RenderingInfo};
use crate::render::framegraph::image::{ImageAccess, ImageRequirement};
use crate::render::pipeline::{GraphicsPipelineDesc, PipelineShape};
use crate::render::shader::ShaderId;
use crate::vk::{
    access_intersects, AccessFlags2, Format, PipelineStageFlags2, ACCESS_2_COLOR_ATTACHMENT_WRITE,
    ACCESS_2_DEPTH_STENCIL_ATTACHMENT_WRITE, ACCESS_2_MEMORY_WRITE, ACCESS_2_SHADER_WRITE,
    ACCESS_2_TRANSFER_WRITE, PRIMITIVE_TOPOLOGY_TRIANGLE_LIST,
};
use vstd::prelude::*;

verus! {

/// The stable logical names by which passes refer to buffers.
#[derive(Clone, Copy, PartialEq, Eq, Hash, Debug, Structural)]
pub enum BufferAlias {
    Placeholder,
}

/// A pass described by data alone.
#[derive(Debug)]
pub struct PassDescription {
    pub id: u32,
    pub name: String,
    pub image_requirements: Vec<ImageRequirement>,
    pub depends_on: Vec<String>,
}

/// What a barrier before a buffer access is made from.
#[derive(Clone, Copy, Debug, PartialEq, Eq, Structural)]
pub struct BufferBarrierPrecursor {
    pub alias: BufferAlias,
    pub access_flags: AccessFlags2,
    pub pipeline_stage_flags: PipelineStageFlags2,
}

/// What a barrier before an image access is made from.
#[derive(Clone, Copy, Debug, PartialEq, Eq, Structural)]
pub struct ImageBarrierPrecursor {
    pub access: ImageAccess,
    pub is_write: bool,
}

/// The access kinds that write.
pub const WRITE_ACCESS: AccessFlags2 = 0x11540;

/// Whether an access set holds a kind that writes.
pub open spec fn spec_is_write_access(flags: AccessFlags2) -> bool {
    access_intersects(flags, WRITE_ACCESS)
}

#[inline]
#[verifier::when_used_as_spec(spec_is_write_access)]
pub fn is_write_access(flags: AccessFlags2) -> (writes: bool)
    ensures
        writes == spec_is_write_access(flags),
{
    let write_flags = ACCESS_2_COLOR_ATTACHMENT_WRITE | ACCESS_2_DEPTH_STENCIL_ATTACHMENT_WRITE
        | ACCESS_2_TRANSFER_WRITE | ACCESS_2_SHADER_WRITE | ACCESS_2_MEMORY_WRITE;
    assert(0x100u64 | 0x400u64 | 0x1000u64 | 0x40u64 | 0x10000u64 == 0x11540u64) by (bit_vector);
    flags & write_flags != 0
}

/// The precursor of the barrier before one requirement's access.
pub open spec fn precursor_of(requirement: ImageRequirement) -> ImageBarrierPrecursor {
    ImageBarrierPrecursor {
        access: requirement.access,
        is_write: spec_is_write_access(requirement.access.usage.state.access),
    }
}

/// The precursors of the barriers before a pass's accesses, in order.
pub open spec fn precursors_of(requirements: Seq<ImageRequirement>) -> Seq<ImageBarrierPrecursor> {
    Seq::new(requirements.len(), |i: int| precursor_of(requirements[i]))
}

/// The accesses that a list of requirements makes, in order.
pub open spec fn accesses_of(requirements: Seq<ImageRequirement>) -> Seq<ImageAccess> {
    Seq::new(requirements.len(), |i: int| requirements[i].access)
}

/// The precursors of the barriers before the accesses of `requirements`.
pub fn image_precursors_of(requirements: &[ImageRequirement]) -> (precursors: Vec<
    ImageBarrierPrecursor,
>)
    ensures
        precursors@ == precursors_of(requirements@),
{
    let mut precursors: Vec<ImageBarrierPrecursor> = Vec::new();
    let mut i: usize = 0;
    while i < requirements.len()
        invariant
            0 <= i <= requirements@.len(),
            precursors@ == precursors_of(requirements@.take(i as int)),
        decreases requirements@.len() - i,
    {
        let requirement = requirements[i];
        precursors.push(
            ImageBarrierPrecursor {
                access: requirement.access,
                is_write: is_write_access(requirement.access.usage.state.access),
            },
        );
        proof {
            assert(precursors@ =~= precursors_of(requirements@.take(i as int + 1)));
        }
        i += 1;
    }
    proof {
        assert(requirements@.take(i as int) =~= requirements@);
    }
    precursors
}

/// What every render pass states of itself. A pass records its work
/// against a command target outside this library; here it declares what it
/// needs in order to do so.
pub trait RenderPass {
    /// The pass's stable small identity.
    spec fn pass_id(&self) -> u32;

    /// The images the pass requires, in the order in which it declares them.
    spec fn requirements(&self) -> Seq<ImageRequirement>;

    /// The buffer accesses of the pass, in order.
    spec fn buffer_accesses(&self) -> Seq<BufferBarrierPrecursor>;

    /// The attachment formats that the pass renders to.
    spec fn rendering(&self) -> RenderingFormats;

    /// What the pipeline of the pass is compiled from.
    spec fn pipeline(&self) -> PipelineShape;

    fn id(&self) -> (id: u32)
        ensures
            id == self.pass_id(),
    ;

    fn image_requirements(&self) -> (requirements: &[ImageRequirement])
        ensures
            requirements@ == self.requirements(),
    ;

    fn image_precursors(&self) -> (precursors: Vec<ImageBarrierPrecursor>)
        ensures
            precursors@ == precursors_of(self.requirements()),
    ;

    fn buffer_precursors(&self) -> (precursors: Vec<BufferBarrierPrecursor>)
        ensures
            precursors@ == self.buffer_accesses(),
    ;

    fn rendering_info(&self) -> (info: RenderingInfo)
        ensures
            info@ == self.rendering(),
    ;

    fn pipeline_desc(&self) -> (desc: GraphicsPipelineDesc)
        ensures
            desc@ == self.pipeline(),
    ;
}

/// The pipeline of a pass that draws triangles with the shaders given and
/// leaves its attachment formats to the graph.
pub open spec fn triangle_pipeline(vertex_id: ShaderId, fragment_id: ShaderId) -> PipelineShape {
    PipelineShape {
        vertex_id,
        fragment_id,
        topology: PRIMITIVE_TOPOLOGY_TRIANGLE_LIST,
        color_formats: Seq::empty(),
        depth_format: None,
    }
}

/// The formats of a pass that renders to one color attachment.
pub open spec fn color_rendering(format: Format) -> RenderingFormats {
    RenderingFormats { color_formats: seq![format], depth_format: None, stencil_format: None }
}

/// The formats of a pass that renders to nothing.
pub open spec fn no_rendering() -> RenderingFormats {
    RenderingFormats { color_formats: Seq::empty(), depth_format: None, stencil_format: None }
}

impl RenderPass for PassDescription {
    open spec fn pass_id(&self) -> u32 {
        self.id
    }

    open spec fn requirements(&self) -> Seq<ImageRequirement> {
        self.image_requirements@
    }

    open spec fn buffer_accesses(&self) -> Seq<BufferBarrierPrecursor> {
        Seq::empty()
    }

    open spec fn rendering(&self) -> RenderingFormats {
        no_rendering()
    }

    open spec fn pipeline(&self) -> PipelineShape {
        triangle_pipeline(ShaderId::ForwardVert, ShaderId::ForwardFrag)
    }

    fn id(&self) -> (id: u32) {
        self.id
    }

    fn image_requirements(&self) -> (requirements: &[ImageRequirement]) {
        self.image_requirements.as_slice()
    }

    fn image_precursors(&self) -> (precursors: Vec<ImageBarrierPrecursor>) {
        image_precursors_of(self.image_requirements.as_slice())
    }

    fn buffer_precursors(&self) -> (precursors: Vec<BufferBarrierPrecursor>) {
        Vec::new()
    }

    fn rendering_info(&self) -> (info: RenderingInfo) {
        RenderingInfo { color_formats: Vec::new(), depth_format: None, stencil_format: None }
    }

    fn pipeline_desc(&self) -> (desc: GraphicsPipelineDesc) {
        GraphicsPipelineDesc {
            vertex_id: ShaderId::ForwardVert,
            fragment_id: ShaderId::ForwardFrag,
            topology: PRIMITIVE_TOPOLOGY_TRIANGLE_LIST,
            color_formats: Vec::new(),
            depth_format: None,
        }
    }
}

/// The passes there are, as one type, so that a graph can hold any of them.
#[derive(Debug)]
pub enum Pass {
    Forward(ForwardPass),
    Composition(CompositionPass),
    Culling(CullingPass),
    Present(PresentPass),
}

impl RenderPass for Pass {
    open spec fn pass_id(&self) -> u32 {
        match self {
            Pass::Forward(pass) => pass.pass_id(),
            Pass::Composition(pass) => pass.pass_id(),
            Pass::Culling(pass) => pass.pass_id(),
            Pass::Present(pass) => pass.pass_id(),
        }
    }

    open spec fn requirements(&self) -> Seq<ImageRequirement> {
        match self {
            Pass::Forward(pass) => pass.requirements(),
            Pass::Composition(pass) => pass.requirements(),
            Pass::Culling(pass) => pass.requirements(),
            Pass::Present(pass) => pass.requirements(),
        }
    }

    open spec fn buffer_accesses(&self) -> Seq<BufferBarrierPrecursor> {
        match self {
            Pass::Forward(pass) => pass.buffer_accesses(),
            Pass::Composition(pass) => pass.buffer_accesses(),
            Pass::Culling(pass) => pass.buffer_accesses(),
            Pass::Present(pass) => pass.buffer_accesses(),
        }
    }

    open spec fn rendering(&self) -> RenderingFormats {
        match self {
            Pass::Forward(pass) => pass.rendering(),
            Pass::Composition(pass) => pass.rendering(),
            Pass::Culling(pass) => pass.rendering(),
            Pass::Present(pass) => pass.rendering(),
        }
    }

    open spec fn pipeline(&self) -> PipelineShape {
        match self {
            Pass::Forward(pass) => pass.pipeline(),
            Pass::Composition(pass) => pass.pipeline(),
            Pass::Culling(pass) => pass.pipeline(),
            Pass::Present(pass) => pass.pipeline(),
        }
    }

    fn id(&self) -> (id: u32) {
        match self {
            Pass::Forward(pass) => pass.id(),
            Pass::Composition(pass) => pass.id(),
            Pass::Culling(pass) => pass.id(),
            Pass::Present(pass) => pass.id(),
        }
    }

    fn image_requirements(&self) -> (requirements: &[ImageRequirement]) {
        match self {
            Pass::Forward(pass) => pass.image_requirements(),
            Pass::Composition(pass) => pass.image_requirements(),
            Pass::Culling(pass) => pass.image_requirements(),
            Pass::Present(pass) => pass.image_requirements(),
        }
    }

    fn image_precursors(&self) -> (precursors: Vec<ImageBarrierPrecursor>) {
        match self {
            Pass::Forward(pass) => pass.image_precursors(),
            Pass::Composition(pass) => pass.image_precursors(),
            Pass::Culling(pass) => pass.image_precursors(),
            Pass::Present(pass) => pass.image_precursors(),
        }
    }

    fn buffer_precursors(&self) -> (precursors: Vec<BufferBarrierPrecursor>) {
        match self {
            Pass::Forward(pass) => pass.buffer_precursors(),
            Pass::Composition(pass) => pass.buffer_precursors(),
            Pass::Culling(pass) => pass.buffer_precursors(),
            Pass::Present(pass) => pass.buffer_precursors(),
        }
    }

    fn rendering_info(&self) -> (info: RenderingInfo) {
        match self {
            Pass::Forward(pass) => pass.rendering_info(),
            Pass::Composition(pass) => pass.rendering_info(),
            Pass::Culling(pass) => pass.rendering_info(),
            Pass::Present(pass) => pass.rendering_info(),
        }
    }

    fn pipeline_desc(&self) -> (desc: GraphicsPipelineDesc) {
        match self {
            Pass::Forward(pass) => pass.pipeline_desc(),
            Pass::Composition(pass) => pass.pipeline_desc(),
            Pass::Culling(pass) => pass.pipeline_desc(),
            Pass::Present(pass) => pass.pipeline_desc(),
        }
    }
}

} // verus!
