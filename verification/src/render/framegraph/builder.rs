//! Building a frame graph from its passes.

use std::collections::HashMap;

use crate::image::ImageManager;
use crate::render::framegraph::alias::registry::{
    declared_with, AliasError, AliasRegistry, ImageResolveContext,
};
use crate::render::framegraph::alias::resolver::{
    extends, held_by, held_with, resolve_error, resolved_as, ResourceBacking,
};
use crate::render::framegraph::alias::{AliasTable, ImageDesc, ImageKeys};
use crate::render::framegraph::barrier::{
    accesses_before, all_known, compiled, is_first_unknown, BarrierPlan,
};
use crate::render::framegraph::graph::{
    listed_aliases, FrameGraph, GraphError, ImageAlias, PhysicalImageKey,
};
use crate::render::framegraph::image::{ImageCreation, ImageRequirement};
use crate::render::framegraph::pass::RenderPass;
use crate::render::pipeline::{GraphicsPipelineDesc, PipelineKey, PipelineShape};
use crate::vk::Format;
use vstd::prelude::*;

verus! {

/// Failure to build a frame graph.
#[derive(Clone, Copy, Debug, PartialEq, Eq, Structural)]
pub enum BuildError {
    /// The declarations of the passes do not resolve.
    Alias(AliasError),
    /// The passes do not fit the resolved aliases.
    Graph(GraphError),
}

/// The requirements of the first `n` passes, in the order of the passes
/// and, within a pass, of its requirements.
pub open spec fn requirements_before<P: RenderPass>(passes: Seq<P>, n: int) -> Seq<ImageRequirement>
    decreases n,
{
    if n <= 0 {
        Seq::empty()
    } else {
        requirements_before(passes, n - 1) + passes[n - 1].requirements()
    }
}

/// What the first `n` of `requirements` declare, on top of `declared`: each
/// requirement that declares an image adds its description under its
/// alias; one that declares an alias anew with another description is in
/// conflict, and the first such conflict is the outcome.
pub open spec fn declare_all(
    declared: Map<ImageAlias, ImageDesc>,
    requirements: Seq<ImageRequirement>,
    n: int,
) -> Result<Map<ImageAlias, ImageDesc>, AliasError>
    decreases n,
{
    if n <= 0 {
        Ok(declared)
    } else {
        match declare_all(declared, requirements, n - 1) {
            Err(error) => Err(error),
            Ok(so_far) => match requirements[n - 1].creation {
                ImageCreation::UseExisting => Ok(so_far),
                ImageCreation::Declare(desc) => declared_with(
                    so_far,
                    requirements[n - 1].access.alias,
                    desc,
                ),
            },
        }
    }
}

/// Declarations that fail at some length fail, in the same way, at every
/// greater length.
proof fn lemma_declare_error_stays(
    declared: Map<ImageAlias, ImageDesc>,
    requirements: Seq<ImageRequirement>,
    n: int,
    m: int,
)
    requires
        0 <= n <= m,
        declare_all(declared, requirements, n) is Err,
    ensures
        declare_all(declared, requirements, m) == declare_all(declared, requirements, n),
    decreases m - n,
{
    if n < m {
        lemma_declare_error_stays(declared, requirements, n, m - 1);
    }
}

/// Declares with `registry` what the requirements of `passes` declare, in
/// order. The first conflict ends the declarations.
pub fn compile_resources<P: RenderPass>(passes: &[P], registry: &mut AliasRegistry) -> (outcome:
    Result<(), AliasError>)
    ensures
        final(registry).externals() == old(registry).externals(),
        match outcome {
            Ok(()) => declare_all(
                old(registry).declared(),
                requirements_before(passes@, passes@.len() as int),
                requirements_before(passes@, passes@.len() as int).len() as int,
            ) == Ok::<Map<ImageAlias, ImageDesc>, AliasError>(final(registry).declared()),
            Err(error) => {
                &&& declare_all(
                    old(registry).declared(),
                    requirements_before(passes@, passes@.len() as int),
                    requirements_before(passes@, passes@.len() as int).len() as int,
                ) == Err::<Map<ImageAlias, ImageDesc>, AliasError>(error)
                &&& exists|n: int|
                    0 <= n && #[trigger] declare_all(
                        old(registry).declared(),
                        requirements_before(passes@, passes@.len() as int),
                        n,
                    ) == Ok::<Map<ImageAlias, ImageDesc>, AliasError>(final(registry).declared())
            },
        },
{
    let ghost start = registry.declared();
    let ghost all = requirements_before(passes@, passes@.len() as int);
    let mut n: usize = 0;
    while n < passes.len()
        invariant
            0 <= n <= passes@.len(),
            start == old(registry).declared(),
            all == requirements_before(passes@, passes@.len() as int),
            registry.externals() == old(registry).externals(),
            requirements_before(passes@, n as int).len() <= all.len(),
            all.take(requirements_before(passes@, n as int).len() as int) == requirements_before(
                passes@,
                n as int,
            ),
            declare_all(start, all, requirements_before(passes@, n as int).len() as int) == Ok::<
                Map<ImageAlias, ImageDesc>,
                AliasError,
            >(registry.declared()),
        decreases passes@.len() - n,
    {
        let requirements = passes[n].image_requirements();
        let ghost before = requirements_before(passes@, n as int);
        let ghost offset = before.len() as int;
        proof {
            lemma_requirements_prefix(passes@, n as int + 1, passes@.len() as int);
            assert(requirements_before(passes@, n as int + 1) == before + requirements@);
        }
        let mut r: usize = 0;
        while r < requirements.len()
            invariant
                0 <= r <= requirements@.len(),
                start == old(registry).declared(),
                all == requirements_before(passes@, passes@.len() as int),
                registry.externals() == old(registry).externals(),
                offset == before.len(),
                offset + requirements@.len() <= all.len(),
                all.take(offset + requirements@.len()) == before + requirements@,
                declare_all(start, all, offset + r) == Ok::<Map<ImageAlias, ImageDesc>, AliasError>(
                    registry.declared(),
                ),
            decreases requirements@.len() - r,
        {
            let requirement = requirements[r];
            proof {
                assert(all[offset + r] == all.take(offset + requirements@.len())[offset + r]);
                assert((before + requirements@)[offset + r] == requirements@[r as int]);
                assert(all[offset + r + 1 - 1] == requirement);
            }
            match requirement.creation {
                ImageCreation::Declare(desc) => {
                    match registry.declare_image(requirement.access.alias, desc) {
                        Ok(()) => {},
                        Err(error) => {
                            proof {
                                lemma_declare_error_stays(
                                    start,
                                    all,
                                    offset + r + 1,
                                    all.len() as int,
                                );
                                assert(declare_all(start, all, offset + r) == Ok::<
                                    Map<ImageAlias, ImageDesc>,
                                    AliasError,
                                >(registry.declared()));
                            }
                            return Err(error);
                        },
                    }
                },
                ImageCreation::UseExisting => {},
            }
            r += 1;
        }
        n += 1;
    }
    proof {
        assert(all.take(all.len() as int) =~= all);
    }
    Ok(())
}

/// The requirements of the first `n` passes begin those of the first `m`.
proof fn lemma_requirements_prefix<P: RenderPass>(passes: Seq<P>, n: int, m: int)
    requires
        0 <= n <= m,
    ensures
        requirements_before(passes, n).len() <= requirements_before(passes, m).len(),
        requirements_before(passes, m).take(requirements_before(passes, n).len() as int)
            == requirements_before(passes, n),
    decreases m - n,
{
    if n == m {
        assert(requirements_before(passes, m).take(requirements_before(passes, n).len() as int)
            =~= requirements_before(passes, n));
    } else {
        lemma_requirements_prefix(passes, n, m - 1);
        assert(requirements_before(passes, m).take(requirements_before(passes, n).len() as int)
            =~= requirements_before(passes, m - 1).take(
            requirements_before(passes, n).len() as int,
        ));
    }
}

/// The plan of the barriers for `passes` over the images that `aliases` name.
pub fn build_barrier_plans<P: RenderPass>(passes: &[P], aliases: &[ImageAlias]) -> (plan: Result<
    BarrierPlan,
    GraphError,
>)
    ensures
        match plan {
            Ok(plan) => {
                &&& all_known(accesses_before(passes@, passes@.len() as int), aliases@)
                &&& forall|id: u32| plan.barriers(id) == compiled(passes@, passes@.len() as int, id)
            },
            Err(error) => exists|i: int|
                {
                    &&& #[trigger] is_first_unknown(
                        accesses_before(passes@, passes@.len() as int),
                        aliases@,
                        i,
                    )
                    &&& error == GraphError::UnknownAlias(
                        accesses_before(passes@, passes@.len() as int)[i].alias,
                    )
                },
        },
{
    BarrierPlan::from_passes(passes, aliases)
}

/// What is gathered of a frame graph before it is built: its passes, in
/// the order in which they run, and the formats they render to.
pub struct FramegraphBuilder<P: RenderPass> {
    render_passes: Vec<P>,
    swapchain_formats: Vec<Format>,
    depth_format: Format,
}

impl<P: RenderPass> FramegraphBuilder<P> {
    /// The passes added so far, in order.
    pub closed spec fn passes(&self) -> Seq<P> {
        self.render_passes@
    }

    /// The color formats of the presentation surface.
    pub closed spec fn formats(&self) -> Seq<Format> {
        self.swapchain_formats@
    }

    /// A builder without passes.
    pub fn new(swapchain_formats: Vec<Format>, depth_format: Format) -> (builder: Self)
        ensures
            builder.passes() == Seq::<P>::empty(),
            builder.formats() == swapchain_formats@,
    {
        FramegraphBuilder { render_passes: Vec::new(), swapchain_formats, depth_format }
    }

    /// Adds `pass` behind the passes added so far.
    pub fn add_pass(self, pass: P) -> (builder: Self)
        ensures
            builder.passes() == self.passes().push(pass),
            builder.formats() == self.formats(),
    {
        let mut builder = self;
        builder.render_passes.push(pass);
        builder
    }

    /// The passes added so far, in order.
    pub fn render_passes(&self) -> (passes: &Vec<P>)
        ensures
            passes@ == self.passes(),
    {
        &self.render_passes
    }

    /// What the pipeline of the pass at `position` is compiled from: the
    /// pass's own description, rendering to the presentation surface.
    pub fn pipeline_desc(&self, position: usize) -> (desc: GraphicsPipelineDesc)
        requires
            position < self.passes().len(),
        ensures
            desc@ == (PipelineShape {
                color_formats: self.formats(),
                ..self.passes()[position as int].pipeline()
            }),
    {
        let mut desc = self.render_passes[position].pipeline_desc();
        let mut formats: Vec<Format> = Vec::new();
        let mut i: usize = 0;
        while i < self.swapchain_formats.len()
            invariant
                0 <= i <= self.swapchain_formats@.len(),
                formats@ == self.swapchain_formats@.take(i as int),
            decreases self.swapchain_formats@.len() - i,
        {
            formats.push(self.swapchain_formats[i]);
            proof {
                assert(formats@ =~= self.swapchain_formats@.take(i as int + 1));
            }
            i += 1;
        }
        proof {
            assert(self.swapchain_formats@.take(i as int) =~= self.swapchain_formats@);
        }
        desc.color_formats = formats;
        desc
    }

    /// The aliases of the graph: the presentation image as an external
    /// alias behind `keys`, and what the passes declare.
    pub fn declare(&self, keys: ImageKeys) -> (registry: Result<AliasRegistry, AliasError>)
        ensures
            match registry {
                Ok(registry) => {
                    &&& registry.externals() == Map::<ImageAlias, ImageKeys>::empty().insert(
                        ImageAlias::SwapchainImage,
                        keys,
                    )
                    &&& declare_all(
                        Map::empty(),
                        requirements_before(self.passes(), self.passes().len() as int),
                        requirements_before(self.passes(), self.passes().len() as int).len() as int,
                    ) == Ok::<Map<ImageAlias, ImageDesc>, AliasError>(registry.declared())
                },
                Err(error) => declare_all(
                    Map::empty(),
                    requirements_before(self.passes(), self.passes().len() as int),
                    requirements_before(self.passes(), self.passes().len() as int).len() as int,
                ) == Err::<Map<ImageAlias, ImageDesc>, AliasError>(error),
            },
    {
        let mut registry = AliasRegistry::default();
        let _ = registry.declare_external_image(ImageAlias::SwapchainImage, keys);
        match compile_resources(self.render_passes.as_slice(), &mut registry) {
            Ok(()) => Ok(registry),
            Err(error) => Err(error),
        }
    }

    /// Builds the graph: declares the aliases, compiles the barrier plan
    /// over them, resolves them into the image registry with the GPU
    /// objects in `backing`, and puts the graph together, with no image
    /// used yet. The first step that fails is the outcome; the image
    /// registry is then as it was.
    pub fn build(
        self,
        image_manager: &mut ImageManager,
        ctx: &ImageResolveContext,
        keys: ImageKeys,
        backing: &AliasTable<ResourceBacking>,
        pass_pipelines: HashMap<u32, PipelineKey>,
    ) -> (graph: Result<FrameGraph<P>, BuildError>)
        requires
            old(image_manager).wf(),
        ensures
            final(image_manager).wf(),
            extends(*old(image_manager), *final(image_manager)),
            match graph {
                Ok(graph) => {
                    &&& graph.passes() == self.passes()
                    &&& graph.pipelines() == pass_pipelines@
                    &&& graph.used() == Set::<PhysicalImageKey>::empty()
                    &&& forall|id: u32|
                        graph.plan().barriers(id) == compiled(
                            self.passes(),
                            self.passes().len() as int,
                            id,
                        )
                    &&& declare_all(
                        Map::empty(),
                        requirements_before(self.passes(), self.passes().len() as int),
                        requirements_before(self.passes(), self.passes().len() as int).len() as int,
                    ) matches Ok(declared) && resolved_as(
                        declared,
                        Map::<ImageAlias, ImageKeys>::empty().insert(ImageAlias::SwapchainImage, keys),
                        *ctx,
                        backing@,
                        *final(image_manager),
                        graph.images(),
                        graph.views(),
                    ) && resolve_error(declared, *ctx, backing@, held_by(*old(image_manager)))
                        is None && held_by(*final(image_manager)) == held_with(
                        held_by(*old(image_manager)),
                        declared,
                        *ctx,
                        Set::empty(),
                    ) && all_known(
                        accesses_before(self.passes(), self.passes().len() as int),
                        listed_aliases(declared.dom().insert(ImageAlias::SwapchainImage)),
                    )
                },
                Err(BuildError::Alias(error)) => {
                    &&& final(image_manager).images() == old(image_manager).images()
                    &&& final(image_manager).logical_images() == old(image_manager).logical_images()
                    &&& final(image_manager).image_views() == old(image_manager).image_views()
                    &&& final(image_manager).logical_image_views() == old(
                        image_manager,
                    ).logical_image_views()
                    &&& match declare_all(
                        Map::empty(),
                        requirements_before(self.passes(), self.passes().len() as int),
                        requirements_before(self.passes(), self.passes().len() as int).len() as int,
                    ) {
                        Err(conflict) => error == conflict,
                        Ok(declared) => resolve_error(
                            declared,
                            *ctx,
                            backing@,
                            held_by(*old(image_manager)),
                        ) == Some(error) && all_known(
                            accesses_before(self.passes(), self.passes().len() as int),
                            listed_aliases(declared.dom().insert(ImageAlias::SwapchainImage)),
                        ),
                    }
                },
                Err(BuildError::Graph(error)) => {
                    &&& final(image_manager).images() == old(image_manager).images()
                    &&& final(image_manager).logical_images() == old(image_manager).logical_images()
                    &&& final(image_manager).image_views() == old(image_manager).image_views()
                    &&& final(image_manager).logical_image_views() == old(
                        image_manager,
                    ).logical_image_views()
                    &&& declare_all(
                        Map::empty(),
                        requirements_before(self.passes(), self.passes().len() as int),
                        requirements_before(self.passes(), self.passes().len() as int).len() as int,
                    ) matches Ok(declared) && exists|i: int|
                        {
                            &&& #[trigger] is_first_unknown(
                                accesses_before(self.passes(), self.passes().len() as int),
                                listed_aliases(declared.dom().insert(ImageAlias::SwapchainImage)),
                                i,
                            )
                            &&& error == GraphError::UnknownAlias(
                                accesses_before(self.passes(), self.passes().len() as int)[i].alias,
                            )
                        }
                },
            },
    {
        let registry = match self.declare(keys) {
            Ok(registry) => registry,
            Err(error) => {
                return Err(BuildError::Alias(error));
            },
        };
        let aliases = registry.aliases();
        proof {
            assert(registry.known() =~= registry.declared().dom().insert(
                ImageAlias::SwapchainImage,
            ));
        }
        let barrier_plan = match build_barrier_plans(
            self.render_passes.as_slice(),
            aliases.as_slice(),
        ) {
            Ok(plan) => plan,
            Err(error) => {
                return Err(BuildError::Graph(error));
            },
        };
        let resolved = match registry.resolve(image_manager, ctx, backing) {
            Ok(resolved) => resolved,
            Err(error) => {
                return Err(BuildError::Alias(error));
            },
        };
        Ok(FrameGraph::new(self.render_passes, pass_pipelines, resolved, barrier_plan))
    }
}

} // verus!
