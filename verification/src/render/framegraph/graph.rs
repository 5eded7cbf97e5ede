//! The frame graph and its execution, frame by frame.

use std::collections::HashMap;

use crate::image::{CompositeImageKey, CompositeImageViewKey, FrameIndex, ImageManager};
use crate::render::frame::Frame;
use crate::render::framegraph::alias::ResolvedRegistry;
use crate::render::framegraph::barrier::{present_transition, BarrierPlan, ImageBarrierDesc};
use crate::render::framegraph::pass::RenderPass;
use crate::render::pipeline::{PipelineEntry, PipelineKey, PipelineManager};
use crate::vk::Extent2D;
use crate::render::framegraph::image::{FrameIndexKind, ImageIndexing};
use crate::render::framegraph::layouts::ImageState;
use crate::vk::{Format, Handle, ImageSubresourceRange};
use vstd::prelude::*;
use vstd::std_specs::hash::*;

verus! {

/// The stable logical names by which passes refer to images.
#[derive(Clone, Copy, PartialEq, Eq, Hash, Debug, Structural)]
pub enum ImageAlias {
    /// The image of the presentation surface that the frame renders to.
    SwapchainImage,
    /// The color target of the forward pass.
    ForwardColor,
    /// The depth target of the forward pass.
    DepthBuffer,
}

/// The number of image aliases.
pub const IMAGE_ALIAS_COUNT: usize = 3;

impl ImageAlias {
    /// The alias's position among the aliases.
    pub open spec fn spec_index(self) -> usize {
        match self {
            ImageAlias::SwapchainImage => 0,
            ImageAlias::ForwardColor => 1,
            ImageAlias::DepthBuffer => 2,
        }
    }

    #[verifier::when_used_as_spec(spec_index)]
    pub fn index(self) -> (index: usize)
        ensures
            index == self.spec_index(),
            index < IMAGE_ALIAS_COUNT,
    {
        match self {
            ImageAlias::SwapchainImage => 0,
            ImageAlias::ForwardColor => 1,
            ImageAlias::DepthBuffer => 2,
        }
    }

    /// The alias at a position, if the position is one.
    pub fn from_index(index: usize) -> (alias: Option<ImageAlias>)
        ensures
            match alias {
                Some(a) => a.spec_index() == index,
                None => index >= IMAGE_ALIAS_COUNT,
            },
    {
        if index == 0 {
            Some(ImageAlias::SwapchainImage)
        } else if index == 1 {
            Some(ImageAlias::ForwardColor)
        } else if index == 2 {
            Some(ImageAlias::DepthBuffer)
        } else {
            None
        }
    }

    /// The alias's name.
    pub fn name(&self) -> (name: &'static str)
        ensures
            name@ == match *self {
                ImageAlias::SwapchainImage => "SwapchainImage"@,
                ImageAlias::ForwardColor => "ForwardColor"@,
                ImageAlias::DepthBuffer => "DepthBuffer"@,
            },
    {
        match self {
            ImageAlias::SwapchainImage => "SwapchainImage",
            ImageAlias::ForwardColor => "ForwardColor",
            ImageAlias::DepthBuffer => "DepthBuffer",
        }
    }
}

/// The aliases among `known`, in the order of the aliases, each once.
pub open spec fn listed_aliases(known: Set<ImageAlias>) -> Seq<ImageAlias> {
    let first = if known.contains(ImageAlias::SwapchainImage) {
        seq![ImageAlias::SwapchainImage]
    } else {
        Seq::empty()
    };
    let second = if known.contains(ImageAlias::ForwardColor) {
        first.push(ImageAlias::ForwardColor)
    } else {
        first
    };
    if known.contains(ImageAlias::DepthBuffer) {
        second.push(ImageAlias::DepthBuffer)
    } else {
        second
    }
}

/// The listed aliases are exactly the known ones, each once.
pub proof fn lemma_listed_aliases(known: Set<ImageAlias>)
    ensures
        forall|alias: ImageAlias| listed_aliases(known).contains(alias) <==> known.contains(alias),
        listed_aliases(known).no_duplicates(),
{
    let listed = listed_aliases(known);
    assert forall|alias: ImageAlias| listed.contains(alias) <==> known.contains(alias) by {
        if known.contains(alias) {
            match alias {
                ImageAlias::SwapchainImage => {
                    assert(listed[0] == alias);
                },
                ImageAlias::ForwardColor => {
                    if known.contains(ImageAlias::SwapchainImage) {
                        assert(listed[1] == alias);
                    } else {
                        assert(listed[0] == alias);
                    }
                },
                ImageAlias::DepthBuffer => {
                    assert(listed[listed.len() - 1] == alias);
                },
            }
        }
    }
}

/// Lists the aliases of which `known` holds, in the order of the aliases.
pub(crate) fn list_aliases(known: [bool; 3], Ghost(set): Ghost<Set<ImageAlias>>) -> (aliases: Vec<ImageAlias>)
    requires
        known[0] == set.contains(ImageAlias::SwapchainImage),
        known[1] == set.contains(ImageAlias::ForwardColor),
        known[2] == set.contains(ImageAlias::DepthBuffer),
    ensures
        aliases@ == listed_aliases(set),
{
    let mut aliases: Vec<ImageAlias> = Vec::new();
    if known[0] {
        aliases.push(ImageAlias::SwapchainImage);
    }
    if known[1] {
        aliases.push(ImageAlias::ForwardColor);
    }
    if known[2] {
        aliases.push(ImageAlias::DepthBuffer);
    }
    assert(aliases@ =~= listed_aliases(set));
    aliases
}

/// Failure to build or to run a frame graph.
#[derive(Clone, Copy, Debug, PartialEq, Eq, Structural)]
pub enum GraphError {
    /// A pass refers to an image that nobody declared or registered.
    UnknownAlias(ImageAlias),
    /// The registry does not hold the image that an alias resolved to, or
    /// not at the index that the frame asks for.
    InvalidKey(ImageAlias),
    /// No pipeline was compiled for the pass with this identity.
    MissingPipeline(u32),
    /// The frame has no command target for the pass at this position.
    MissingCommandTarget(usize),
}

/// The attachment formats that a pass renders to.
#[derive(Clone, Debug)]
pub struct RenderingInfo {
    pub color_formats: Vec<Format>,
    pub depth_format: Option<Format>,
    pub stencil_format: Option<Format>,
}

/// The attachment formats that a pass renders to, as values.
pub struct RenderingFormats {
    pub color_formats: Seq<Format>,
    pub depth_format: Option<Format>,
    pub stencil_format: Option<Format>,
}

impl View for RenderingInfo {
    type V = RenderingFormats;

    open spec fn view(&self) -> RenderingFormats {
        RenderingFormats {
            color_formats: self.color_formats@,
            depth_format: self.depth_format,
            stencil_format: self.stencil_format,
        }
    }
}

/// Which physical instance of an image a frame touches.
#[derive(PartialEq, Eq, Hash, Clone, Copy, Debug, Structural)]
pub enum PhysicalImageInstance {
    /// The replica of a frame slot.
    Frame(u32),
    /// A presentation image.
    Swapchain(u32),
    /// The one instance of a global image.
    Global,
}

/// Identity of one physical image: the composite key it is reached by and
/// the instance behind that key.
pub type PhysicalImageKey = (CompositeImageKey, PhysicalImageInstance);

/// The physical images that some frame has used since they were allocated.
/// They are a handful per frame slot, so they are kept in a list and found
/// by a scan; what counts of the list is the set of images in it.
#[derive(Debug)]
pub struct GraphFirstUse {
    seen: Vec<PhysicalImageKey>,
}

impl View for GraphFirstUse {
    type V = Set<PhysicalImageKey>;

    closed spec fn view(&self) -> Set<PhysicalImageKey> {
        self.seen@.to_set()
    }
}

impl GraphFirstUse {
    /// No image has been used.
    pub fn new() -> (first_use: Self)
        ensures
            first_use@ == Set::<PhysicalImageKey>::empty(),
    {
        let first_use = GraphFirstUse { seen: Vec::new() };
        assert(first_use@ =~= Set::<PhysicalImageKey>::empty());
        first_use
    }

    /// Whether the image has been used.
    pub fn contains(&self, key: PhysicalImageKey) -> (used: bool)
        ensures
            used == self@.contains(key),
    {
        let mut i: usize = 0;
        while i < self.seen.len()
            invariant
                0 <= i <= self.seen@.len(),
                forall|j: int| 0 <= j < i ==> self.seen@[j] != key,
            decreases self.seen@.len() - i,
        {
            if self.seen[i].0 == key.0 && self.seen[i].1 == key.1 {
                assert(self.seen@[i as int] == key);
                assert(self.seen@.contains(key));
                return true;
            }
            i += 1;
        }
        assert(!self.seen@.contains(key));
        false
    }

    /// Marks the image as used and says whether this is its first use.
    pub fn is_first_use(&mut self, key: PhysicalImageKey) -> (first: bool)
        ensures
            first == !old(self)@.contains(key),
            final(self)@ == old(self)@.insert(key),
    {
        if self.contains(key) {
            assert(final(self)@ =~= old(self)@.insert(key));
            false
        } else {
            self.seen.push(key);
            proof {
                assert forall|other: PhysicalImageKey|
                    final(self).seen@.contains(other) <==> old(self).seen@.contains(other) || other
                        == key by {
                    if final(self).seen@.contains(other) {
                        let at = choose|at: int|
                            0 <= at < final(self).seen@.len() && final(self).seen@[at] == other;
                        if at < old(self).seen@.len() {
                            assert(old(self).seen@[at] == other);
                        }
                    }
                    if old(self).seen@.contains(other) {
                        let at = choose|at: int|
                            0 <= at < old(self).seen@.len() && old(self).seen@[at] == other;
                        assert(final(self).seen@[at] == other);
                    }
                    assert(final(self).seen@[old(self).seen@.len() as int] == key);
                }
                assert(final(self)@ =~= old(self)@.insert(key));
            }
            true
        }
    }

    /// A copy that holds the same images.
    pub fn duplicate(&self) -> (copy: Self)
        ensures
            copy@ == self@,
    {
        let mut seen: Vec<PhysicalImageKey> = Vec::new();
        let mut i: usize = 0;
        while i < self.seen.len()
            invariant
                0 <= i <= self.seen@.len(),
                seen@ == self.seen@.take(i as int),
            decreases self.seen@.len() - i,
        {
            seen.push(self.seen[i]);
            proof {
                assert(seen@ =~= self.seen@.take(i as int + 1));
            }
            i += 1;
        }
        proof {
            assert(self.seen@.take(i as int) =~= self.seen@);
        }
        GraphFirstUse { seen }
    }
}

/// One state transition of one physical image, ready to be recorded.
#[derive(Clone, Copy, Debug, PartialEq, Eq, Structural)]
pub struct ImageTransition {
    pub image: Handle,
    pub range: ImageSubresourceRange,
    pub old: ImageState,
    pub new: ImageState,
}

/// The instance that an access touches on the frame that runs in slot
/// `frame_index` and renders to presentation image `swapchain_image_index`.
pub open spec fn physical_instance(
    indexing: ImageIndexing,
    frame_index: u32,
    swapchain_image_index: u32,
) -> PhysicalImageInstance {
    match indexing {
        ImageIndexing::Global => PhysicalImageInstance::Global,
        ImageIndexing::PerFrame(FrameIndexKind::Frame) => PhysicalImageInstance::Frame(frame_index),
        ImageIndexing::PerFrame(FrameIndexKind::Swapchain) => PhysicalImageInstance::Swapchain(
            swapchain_image_index,
        ),
    }
}

/// The physical image that a planned transition is about on a given frame:
/// its identity and its handle. The alias must resolve, a global access
/// must meet a global key, and the registry must hold the instance.
pub open spec fn barrier_target(
    desc: ImageBarrierDesc,
    registry: Map<ImageAlias, CompositeImageKey>,
    image_manager: &ImageManager,
    frame_index: u32,
    swapchain_image_index: u32,
) -> Result<(PhysicalImageKey, Handle), GraphError> {
    if !registry.contains_key(desc.alias) {
        Err(GraphError::UnknownAlias(desc.alias))
    } else {
        let key = registry[desc.alias];
        let instance = physical_instance(desc.indexing, frame_index, swapchain_image_index);
        let image = match desc.indexing {
            ImageIndexing::Global => match key {
                CompositeImageKey::Global(_) => image_manager.resolved_image(
                    key,
                    FrameIndex::Frame(0),
                ),
                CompositeImageKey::PerFrame(_) => None,
            },
            ImageIndexing::PerFrame(FrameIndexKind::Frame) => image_manager.resolved_image(
                key,
                FrameIndex::Frame(frame_index),
            ),
            ImageIndexing::PerFrame(FrameIndexKind::Swapchain) => image_manager.resolved_image(
                key,
                FrameIndex::Swapchain(swapchain_image_index),
            ),
        };
        match image {
            Some(image) => Ok(((key, instance), image.vk_image)),
            None => Err(GraphError::InvalidKey(desc.alias)),
        }
    }
}

/// The state that a transition starts from at execution time: what the
/// plan recorded for an image that has been used, the undefined baseline
/// for one that has not.
pub open spec fn effective_old_state(
    seen: Set<PhysicalImageKey>,
    key: PhysicalImageKey,
    planned: ImageState,
) -> ImageState {
    if seen.contains(key) {
        planned
    } else {
        ImageState::spec_undefined()
    }
}

/// A physical image that has never been used starts its transition from
/// the undefined baseline, whatever the plan recorded.
pub proof fn lemma_first_use_starts_undefined(
    seen: Set<PhysicalImageKey>,
    key: PhysicalImageKey,
    planned: ImageState,
)
    requires
        !seen.contains(key),
    ensures
        effective_old_state(seen, key, planned) == ImageState::spec_undefined(),
{
}

/// First use is told apart instance by instance: the use of one replica
/// or presentation image of a composite key leaves every other instance of
/// that key unused.
pub proof fn lemma_first_use_is_per_instance(
    seen: Set<PhysicalImageKey>,
    key: CompositeImageKey,
    used: PhysicalImageInstance,
    other: PhysicalImageInstance,
    planned: ImageState,
)
    requires
        used != other,
        !seen.contains((key, other)),
    ensures
        !seen.insert((key, used)).contains((key, other)),
        effective_old_state(seen.insert((key, used)), (key, other), planned)
            == ImageState::spec_undefined(),
{
}

/// An image that has been used starts its transition from the state that
/// the plan recorded.
pub proof fn lemma_later_use_follows_plan(
    seen: Set<PhysicalImageKey>,
    key: PhysicalImageKey,
    planned: ImageState,
)
    requires
        seen.contains(key),
    ensures
        effective_old_state(seen, key, planned) == planned,
{
}

/// The transitions that the first `n` of `descs` turn into on a frame, and
/// the images used once they are recorded, starting from the images `seen`.
/// The first transition that has no target fails the whole batch.
pub open spec fn batch_upto(
    descs: Seq<ImageBarrierDesc>,
    n: int,
    registry: Map<ImageAlias, CompositeImageKey>,
    image_manager: &ImageManager,
    frame_index: u32,
    swapchain_image_index: u32,
    seen: Set<PhysicalImageKey>,
) -> Result<(Seq<ImageTransition>, Set<PhysicalImageKey>), GraphError>
    decreases n,
{
    if n <= 0 {
        Ok((Seq::empty(), seen))
    } else {
        match batch_upto(
            descs,
            n - 1,
            registry,
            image_manager,
            frame_index,
            swapchain_image_index,
            seen,
        ) {
            Err(error) => Err(error),
            Ok((transitions, used)) => match barrier_target(
                descs[n - 1],
                registry,
                image_manager,
                frame_index,
                swapchain_image_index,
            ) {
                Err(error) => Err(error),
                Ok((key, image)) => Ok(
                    (
                        transitions.push(
                            ImageTransition {
                                image,
                                range: descs[n - 1].subresource_range,
                                old: effective_old_state(used, key, descs[n - 1].old_state),
                                new: descs[n - 1].new_state,
                            },
                        ),
                        used.insert(key),
                    ),
                ),
            },
        }
    }
}

/// The images used once a batch of the first `n` of `descs` has been gone
/// through: those of `seen` and the images of the transitions ahead of the
/// first one that has no target.
pub open spec fn marked_upto(
    descs: Seq<ImageBarrierDesc>,
    n: int,
    registry: Map<ImageAlias, CompositeImageKey>,
    image_manager: &ImageManager,
    frame_index: u32,
    swapchain_image_index: u32,
    seen: Set<PhysicalImageKey>,
) -> Set<PhysicalImageKey>
    decreases n,
{
    if n <= 0 {
        seen
    } else {
        match batch_upto(
            descs,
            n,
            registry,
            image_manager,
            frame_index,
            swapchain_image_index,
            seen,
        ) {
            Ok((_, used)) => used,
            Err(_) => marked_upto(
                descs,
                n - 1,
                registry,
                image_manager,
                frame_index,
                swapchain_image_index,
                seen,
            ),
        }
    }
}

/// One step of the recording of a frame, in the order in which the steps
/// are to be performed.
#[derive(Clone, Copy, Debug, PartialEq, Eq, Structural)]
pub enum FrameCommand {
    /// Open the frame's primary command target.
    BeginPrimary { cmd: Handle },
    /// Record one image state transition.
    Transition { cmd: Handle, transition: ImageTransition },
    /// Open the secondary command target of the pass at position `pass`.
    BeginSecondary { cmd: Handle, pass: usize },
    /// Let the pass at position `pass` record its work with its pipeline.
    ExecutePass { cmd: Handle, pass: usize, pass_id: u32, pipeline: Handle },
    /// Close a secondary command target.
    EndSecondary { cmd: Handle },
    /// Run a secondary command target from the primary one.
    ExecuteCommands { primary: Handle, secondary: Handle },
    /// Close the frame's primary command target.
    EndPrimary { cmd: Handle },
}

/// What one frame is executed with.
pub struct FrameExecutionContext<'a> {
    pub frame: &'a Frame,
    pub image_manager: &'a ImageManager,
    pub pipeline_manager: &'a PipelineManager,
    pub swapchain_extent: Extent2D,
}

/// The pipeline of the pass with identity `id`, if one was compiled for it
/// and the registry still holds it.
pub open spec fn pass_pipeline(
    pipelines: Map<u32, PipelineKey>,
    entries: Map<u64, PipelineEntry>,
    id: u32,
) -> Option<Handle> {
    if pipelines.contains_key(id) && entries.contains_key(pipelines[id].0) {
        Some(entries[pipelines[id].0].pipeline)
    } else {
        None
    }
}

/// The commands that record `transitions` into `cmd`, in order.
pub open spec fn transition_commands(cmd: Handle, transitions: Seq<ImageTransition>) -> Seq<
    FrameCommand,
> {
    Seq::new(
        transitions.len(),
        |i: int| FrameCommand::Transition { cmd, transition: transitions[i] },
    )
}

/// The commands that run the pass at position `pass` after its barriers.
pub open spec fn pass_commands(
    primary: Handle,
    secondary: Handle,
    pass: usize,
    pass_id: u32,
    pipeline: Handle,
) -> Seq<FrameCommand> {
    seq![
        FrameCommand::BeginSecondary { cmd: secondary, pass },
        FrameCommand::ExecutePass { cmd: secondary, pass, pass_id, pipeline },
        FrameCommand::EndSecondary { cmd: secondary },
        FrameCommand::ExecuteCommands { primary, secondary },
    ]
}

/// The recording of a frame up to and with the pass at position `n - 1`, and
/// the images used by then: the primary target is opened; then, pass by
/// pass in the declared order, the pass's barriers are recorded and the
/// pass is run. The first pass that cannot be run fails the frame.
pub open spec fn frame_upto<P: RenderPass>(
    passes: Seq<P>,
    n: int,
    plan: &BarrierPlan,
    pipelines: Map<u32, PipelineKey>,
    entries: Map<u64, PipelineEntry>,
    registry: Map<ImageAlias, CompositeImageKey>,
    image_manager: &ImageManager,
    frame: &Frame,
    seen: Set<PhysicalImageKey>,
) -> Result<(Seq<FrameCommand>, Set<PhysicalImageKey>), GraphError>
    decreases n,
{
    if n <= 0 {
        Ok((seq![FrameCommand::BeginPrimary { cmd: frame.primary_cmd }], seen))
    } else {
        match frame_upto(
            passes,
            n - 1,
            plan,
            pipelines,
            entries,
            registry,
            image_manager,
            frame,
            seen,
        ) {
            Err(error) => Err(error),
            Ok((commands, used)) => {
                let id = passes[n - 1].pass_id();
                match batch_upto(
                    plan.barriers(id),
                    plan.barriers(id).len() as int,
                    registry,
                    image_manager,
                    frame.index as u32,
                    frame.swapchain_image_index,
                    used,
                ) {
                    Err(error) => Err(error),
                    Ok((transitions, used_after)) => if n - 1 >= frame.secondary_cmds@.len() {
                        Err(GraphError::MissingCommandTarget((n - 1) as usize))
                    } else {
                        match pass_pipeline(pipelines, entries, id) {
                            None => Err(GraphError::MissingPipeline(id)),
                            Some(pipeline) => Ok(
                                (
                                    commands + transition_commands(frame.primary_cmd, transitions)
                                        + pass_commands(
                                        frame.primary_cmd,
                                        frame.secondary_cmds@[n - 1],
                                        (n - 1) as usize,
                                        id,
                                        pipeline,
                                    ),
                                    used_after,
                                ),
                            ),
                        }
                    },
                }
            },
        }
    }
}

/// The whole recording of a frame and the images used after it: every pass
/// in the declared order, then the transition that returns the frame's
/// presentation image to a presentable layout, then the closing of the
/// primary target.
pub open spec fn frame_result<P: RenderPass>(
    passes: Seq<P>,
    plan: &BarrierPlan,
    pipelines: Map<u32, PipelineKey>,
    entries: Map<u64, PipelineEntry>,
    registry: Map<ImageAlias, CompositeImageKey>,
    image_manager: &ImageManager,
    frame: &Frame,
    seen: Set<PhysicalImageKey>,
) -> Result<(Seq<FrameCommand>, Set<PhysicalImageKey>), GraphError> {
    match frame_upto(
        passes,
        passes.len() as int,
        plan,
        pipelines,
        entries,
        registry,
        image_manager,
        frame,
        seen,
    ) {
        Err(error) => Err(error),
        Ok((commands, used)) => match present_transition(
            registry,
            image_manager,
            frame.swapchain_image_index,
        ) {
            Err(error) => Err(error),
            Ok(transition) => Ok(
                (
                    commands + seq![
                        FrameCommand::Transition { cmd: frame.primary_cmd, transition },
                        FrameCommand::EndPrimary { cmd: frame.primary_cmd },
                    ],
                    used,
                ),
            ),
        },
    }
}

/// A recording that fails at some pass fails, in the same way, at every
/// later pass.
proof fn lemma_frame_error_stays<P: RenderPass>(
    passes: Seq<P>,
    n: int,
    m: int,
    plan: &BarrierPlan,
    pipelines: Map<u32, PipelineKey>,
    entries: Map<u64, PipelineEntry>,
    registry: Map<ImageAlias, CompositeImageKey>,
    image_manager: &ImageManager,
    frame: &Frame,
    seen: Set<PhysicalImageKey>,
)
    requires
        0 <= n <= m,
        frame_upto(passes, n, plan, pipelines, entries, registry, image_manager, frame, seen) is Err,
    ensures
        frame_upto(passes, m, plan, pipelines, entries, registry, image_manager, frame, seen)
            == frame_upto(passes, n, plan, pipelines, entries, registry, image_manager, frame, seen),
    decreases m - n,
{
    if n < m {
        lemma_frame_error_stays(
            passes,
            n,
            m - 1,
            plan,
            pipelines,
            entries,
            registry,
            image_manager,
            frame,
            seen,
        );
    }
}

/// A frame graph: the passes in their declared order, the pipeline of each,
/// the resolved aliases, the barrier plan, and the images used so far.
pub struct FrameGraph<P: RenderPass> {
    render_passes: Vec<P>,
    pass_pipelines: HashMap<u32, PipelineKey>,
    registry: ResolvedRegistry,
    barrier_plan: BarrierPlan,
    graph_first_use: GraphFirstUse,
}

impl<P: RenderPass> FrameGraph<P> {
    /// The passes, in their declared order.
    pub closed spec fn passes(&self) -> Seq<P> {
        self.render_passes@
    }

    /// The key of each pass's pipeline, by pass identity.
    pub closed spec fn pipelines(&self) -> Map<u32, PipelineKey> {
        self.pass_pipelines@
    }

    /// The composite key of each alias's image.
    pub closed spec fn images(&self) -> Map<ImageAlias, CompositeImageKey> {
        self.registry.images@
    }

    /// The composite key of each alias's image view.
    pub closed spec fn views(&self) -> Map<ImageAlias, CompositeImageViewKey> {
        self.registry.image_views@
    }

    /// The barrier plan.
    pub closed spec fn plan(&self) -> &BarrierPlan {
        &self.barrier_plan
    }

    /// The physical images that have been used.
    pub closed spec fn used(&self) -> Set<PhysicalImageKey> {
        self.graph_first_use@
    }

    /// A graph in which no image has been used yet.
    pub fn new(
        render_passes: Vec<P>,
        pass_pipelines: HashMap<u32, PipelineKey>,
        registry: ResolvedRegistry,
        barrier_plan: BarrierPlan,
    ) -> (graph: Self)
        ensures
            graph.passes() == render_passes@,
            graph.pipelines() == pass_pipelines@,
            graph.images() == registry.images@,
            graph.views() == registry.image_views@,
            *graph.plan() == barrier_plan,
            graph.used() == Set::<PhysicalImageKey>::empty(),
    {
        FrameGraph {
            render_passes,
            pass_pipelines,
            registry,
            barrier_plan,
            graph_first_use: GraphFirstUse::new(),
        }
    }

    /// The resolved aliases of the graph.
    pub fn registry(&self) -> (registry: &ResolvedRegistry)
        ensures
            registry.images@ == self.images(),
            registry.image_views@ == self.views(),
    {
        &self.registry
    }

    /// The passes of the graph, in their declared order.
    pub fn render_passes(&self) -> (passes: &Vec<P>)
        ensures
            passes@ == self.passes(),
    {
        &self.render_passes
    }

    /// Lays out the recording of one frame: the commands to perform, in
    /// order. Before each pass its barriers are recorded, each starting from
    /// the undefined baseline where its physical image has never been used;
    /// after the last pass the presentation image is returned to a
    /// presentable layout. The images that the frame touches count as used
    /// from then on. A frame that cannot be laid out leaves the graph as it
    /// was.
    pub fn execute(&mut self, ctx: &FrameExecutionContext) -> (commands: Result<
        Vec<FrameCommand>,
        GraphError,
    >)
        requires
            ctx.image_manager.wf(),
            ctx.pipeline_manager.wf(),
            ctx.frame.index <= u32::MAX,
        ensures
            final(self).passes() == old(self).passes(),
            final(self).pipelines() == old(self).pipelines(),
            final(self).images() == old(self).images(),
            final(self).views() == old(self).views(),
            final(self).plan() == old(self).plan(),
            match commands {
                Ok(recorded) => frame_result(
                    old(self).passes(),
                    old(self).plan(),
                    old(self).pipelines(),
                    ctx.pipeline_manager.entries(),
                    old(self).images(),
                    ctx.image_manager,
                    ctx.frame,
                    old(self).used(),
                ) == Ok::<(Seq<FrameCommand>, Set<PhysicalImageKey>), GraphError>(
                    (recorded@, final(self).used()),
                ),
                Err(error) => {
                    &&& frame_result(
                        old(self).passes(),
                        old(self).plan(),
                        old(self).pipelines(),
                        ctx.pipeline_manager.entries(),
                        old(self).images(),
                        ctx.image_manager,
                        ctx.frame,
                        old(self).used(),
                    ) == Err::<(Seq<FrameCommand>, Set<PhysicalImageKey>), GraphError>(error)
                    &&& final(self).used() == old(self).used()
                },
            },
    {
        broadcast use group_hash_axioms;

        let frame = ctx.frame;
        let frame_index = frame.index as u32;
        let mut used = self.graph_first_use.duplicate();
        let mut commands: Vec<FrameCommand> = Vec::new();
        commands.push(FrameCommand::BeginPrimary { cmd: frame.primary_cmd });
        let ghost seen = self.graph_first_use@;
        let ghost entries = ctx.pipeline_manager.entries();
        let mut i: usize = 0;
        while i < self.render_passes.len()
            invariant
                0 <= i <= self.render_passes@.len(),
                *self == *old(self),
                frame == ctx.frame,
                frame_index == frame.index as u32,
                seen == old(self).graph_first_use@,
                entries == ctx.pipeline_manager.entries(),
                ctx.image_manager.wf(),
                ctx.pipeline_manager.wf(),
                frame_upto(
                    self.render_passes@,
                    i as int,
                    &self.barrier_plan,
                    self.pass_pipelines@,
                    entries,
                    self.registry.images@,
                    ctx.image_manager,
                    frame,
                    seen,
                ) == Ok::<(Seq<FrameCommand>, Set<PhysicalImageKey>), GraphError>(
                    (commands@, used@),
                ),
            decreases self.render_passes@.len() - i,
        {
            let id = self.render_passes[i].id();
            let ghost before = commands@;
            let ghost next = frame_upto(
                self.render_passes@,
                i as int + 1,
                &self.barrier_plan,
                self.pass_pipelines@,
                entries,
                self.registry.images@,
                ctx.image_manager,
                frame,
                seen,
            );
            proof {
                assert(self.render_passes@[i as int + 1 - 1].pass_id() == id);
                if next is Err {
                    lemma_frame_error_stays(
                        self.render_passes@,
                        i as int + 1,
                        self.render_passes@.len() as int,
                        &self.barrier_plan,
                        self.pass_pipelines@,
                        entries,
                        self.registry.images@,
                        ctx.image_manager,
                        frame,
                        seen,
                    );
                }
            }
            let batch = self.barrier_plan.emit_pre_pass_barriers(
                frame_index,
                frame.swapchain_image_index,
                ctx.image_manager,
                &self.registry,
                id,
                &mut used,
            );
            let transitions = match batch {
                Ok(transitions) => transitions,
                Err(error) => {
                    return Err(error);
                },
            };
            let mut t: usize = 0;
            while t < transitions.len()
                invariant
                    0 <= t <= transitions@.len(),
                    commands@ == before + transition_commands(frame.primary_cmd, transitions@).take(
                        t as int,
                    ),
                decreases transitions@.len() - t,
            {
                commands.push(
                    FrameCommand::Transition { cmd: frame.primary_cmd, transition: transitions[t] },
                );
                proof {
                    assert(commands@ =~= before + transition_commands(
                        frame.primary_cmd,
                        transitions@,
                    ).take(t as int + 1));
                }
                t += 1;
            }
            proof {
                assert(transition_commands(frame.primary_cmd, transitions@).take(t as int)
                    =~= transition_commands(frame.primary_cmd, transitions@));
            }
            if i >= frame.secondary_cmds.len() {
                return Err(GraphError::MissingCommandTarget(i));
            }
            let secondary = frame.secondary_cmds[i];
            let pipeline_key = match self.pass_pipelines.get(&id) {
                Some(key) => *key,
                None => {
                    return Err(GraphError::MissingPipeline(id));
                },
            };
            let pipeline = match ctx.pipeline_manager.get_pipeline(&pipeline_key) {
                Some(pipeline) => pipeline,
                None => {
                    return Err(GraphError::MissingPipeline(id));
                },
            };
            let ghost recorded = commands@;
            commands.push(FrameCommand::BeginSecondary { cmd: secondary, pass: i });
            commands.push(
                FrameCommand::ExecutePass { cmd: secondary, pass: i, pass_id: id, pipeline },
            );
            commands.push(FrameCommand::EndSecondary { cmd: secondary });
            commands.push(FrameCommand::ExecuteCommands { primary: frame.primary_cmd, secondary });
            proof {
                assert(commands@ =~= recorded + pass_commands(
                    frame.primary_cmd,
                    secondary,
                    i,
                    id,
                    pipeline,
                ));
            }
            i += 1;
        }
        let transition = match self.barrier_plan.emit_post_pass_barriers(
            frame.swapchain_image_index,
            ctx.image_manager,
            &self.registry,
        ) {
            Ok(transition) => transition,
            Err(error) => {
                return Err(error);
            },
        };
        let ghost recorded = commands@;
        commands.push(FrameCommand::Transition { cmd: frame.primary_cmd, transition });
        commands.push(FrameCommand::EndPrimary { cmd: frame.primary_cmd });
        proof {
            assert(commands@ =~= recorded + seq![
                FrameCommand::Transition { cmd: frame.primary_cmd, transition },
                FrameCommand::EndPrimary { cmd: frame.primary_cmd },
            ]);
        }
        self.graph_first_use = used;
        Ok(commands)
    }
}

} // verus!
