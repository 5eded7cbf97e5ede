use std::collections::HashMap;

use arbor::image::{
    CompositeImageKey, FrameIndex, ImageBacking, ImageKey, ImageLifetime, ImageManager,
};
use arbor::render::framegraph::alias::{
    AliasError, AliasTable, ImageDesc, ImageFormat, ImageKeys, ImageResolveContext, ImageSize,
    ResolvedRegistry, ResourceBacking, Scale,
};
use arbor::render::framegraph::barrier::BarrierPlan;
use arbor::render::framegraph::builder::{build_barrier_plans, compile_resources, BuildError};
use arbor::render::framegraph::graph::{
    FrameCommand, FrameExecutionContext, GraphError, GraphFirstUse, ImageTransition,
    PhysicalImageInstance,
};
use arbor::render::framegraph::image::{
    FrameIndexKind, ImageAccess, ImageCreation, ImageIndexing, ImageRequirement, ImageUsage,
};
use arbor::render::framegraph::layouts::color_range;
use arbor::render::framegraph::pass::PassDescription;
use arbor::render::framegraph::{FrameGraph, FramegraphBuilder, ImageAlias, ImageState};
use arbor::render::pipeline::{PipelineEntry, PipelineKey, PipelineManager};
use arbor::render::Frame;
use arbor::vk::Extent2D;

const FRAME_COUNT: u32 = 2;
const PRESENTATION_IMAGES: u32 = 3;

fn ctx() -> ImageResolveContext {
    ImageResolveContext {
        swapchain_extent: Extent2D { width: 800, height: 600 },
        swapchain_format: 50,
        default_resize_policy: arbor::image::ResizePolicy::Swapchain,
        default_initial_layout: 0,
        frame_count: FRAME_COUNT,
    }
}

fn sampled() -> ImageState {
    ImageState { layout: 5, stage: 0x80, access: 0x20 }
}

fn color_desc() -> ImageDesc {
    ImageDesc {
        format: ImageFormat::SwapchainColor,
        size: ImageSize::SwapchainRelative { scale: Scale::one() },
        usage: 0x14,
        lifetime: ImageLifetime::PerFrame,
        samples: 1,
    }
}

fn access(alias: ImageAlias, state: ImageState, indexing: ImageIndexing) -> ImageAccess {
    ImageAccess { alias, usage: ImageUsage { state, aspects: 1 }, indexing }
}

fn color_pass() -> PassDescription {
    PassDescription {
        id: 1,
        name: "color".to_string(),
        image_requirements: vec![ImageRequirement {
            access: access(
                ImageAlias::ForwardColor,
                ImageState::color_attachment_write(),
                ImageIndexing::PerFrame(FrameIndexKind::Frame),
            ),
            creation: ImageCreation::Declare(color_desc()),
        }],
        depends_on: vec![],
    }
}

fn presentation_pass() -> PassDescription {
    PassDescription {
        id: 2,
        name: "presentation".to_string(),
        image_requirements: vec![
            ImageRequirement {
                access: access(
                    ImageAlias::ForwardColor,
                    sampled(),
                    ImageIndexing::PerFrame(FrameIndexKind::Frame),
                ),
                creation: ImageCreation::UseExisting,
            },
            ImageRequirement {
                access: access(
                    ImageAlias::SwapchainImage,
                    ImageState::color_attachment_write(),
                    ImageIndexing::PerFrame(FrameIndexKind::Swapchain),
                ),
                creation: ImageCreation::UseExisting,
            },
        ],
        depends_on: vec![],
    }
}

fn frame(index: usize, swapchain_image_index: u32) -> Frame {
    let mut frame =
        Frame::new(index, 900 + index as u64, 910 + index as u64, 920 + index as u64, vec![
            930 + 10 * index as u64,
            931 + 10 * index as u64,
        ]);
    frame.swapchain_image_index = swapchain_image_index;
    frame
}

struct World {
    images: ImageManager,
    pipelines: PipelineManager,
    graph: FrameGraph<PassDescription>,
}

fn world() -> World {
    let mut images = ImageManager::default();
    let (presentation, presentation_views) =
        images.register_external_per_frame(&[11, 12, 13], &[21, 22, 23]).unwrap();
    let mut pipelines = PipelineManager::new();
    let first = pipelines.insert(PipelineEntry { pipeline: 71, layout: 81, generation: 1 }).unwrap();
    let second =
        pipelines.insert(PipelineEntry { pipeline: 72, layout: 82, generation: 1 }).unwrap();
    let mut pass_pipelines = HashMap::new();
    pass_pipelines.insert(1u32, first);
    pass_pipelines.insert(2u32, second);
    let mut backing: AliasTable<ResourceBacking> = AliasTable::new();
    backing.insert(
        ImageAlias::ForwardColor,
        ResourceBacking {
            images: vec![
                ImageBacking { vk_image: 100, allocation: 1 },
                ImageBacking { vk_image: 101, allocation: 2 },
            ],
            views: vec![200, 201],
        },
    );
    let graph = FramegraphBuilder::new(vec![50], 126)
        .add_pass(color_pass())
        .add_pass(presentation_pass())
        .build(
            &mut images,
            &ctx(),
            ImageKeys { image: presentation, view: presentation_views },
            &backing,
            pass_pipelines,
        )
        .unwrap();
    World { images, pipelines, graph }
}

fn run(world: &mut World, frame: &Frame) -> Result<Vec<FrameCommand>, GraphError> {
    let context = FrameExecutionContext {
        frame,
        image_manager: &world.images,
        pipeline_manager: &world.pipelines,
        swapchain_extent: Extent2D { width: 800, height: 600 },
    };
    world.graph.execute(&context)
}

fn transitions_before_pass(commands: &[FrameCommand], pass: usize) -> Vec<ImageTransition> {
    let mut found = Vec::new();
    for command in commands {
        match command {
            FrameCommand::Transition { transition, .. } => found.push(*transition),
            FrameCommand::BeginSecondary { pass: begun, .. } => {
                if *begun == pass {
                    return found;
                }
                found.clear();
            }
            _ => found.clear(),
        }
    }
    panic!("the pass was not run");
}

#[test]
fn five_frames_present_five_times_with_two_barriers_before_each_presentation_pass() {
    let mut world = world();
    let write = ImageState::color_attachment_write();
    let mut presentations = 0;
    for number in 0..5u32 {
        let slot = (number % FRAME_COUNT) as usize;
        let image_index = number % PRESENTATION_IMAGES;
        let frame = frame(slot, image_index);
        let commands = run(&mut world, &frame).unwrap();

        let presents: Vec<&FrameCommand> = commands
            .iter()
            .filter(|c| {
                matches!(c, FrameCommand::Transition { transition, .. }
                    if transition.new == ImageState::present())
            })
            .collect();
        assert_eq!(presents.len(), 1);
        presentations += presents.len();
        assert_eq!(
            commands[commands.len() - 2],
            FrameCommand::Transition {
                cmd: frame.primary_cmd,
                transition: ImageTransition {
                    image: 11 + image_index as u64,
                    range: color_range(),
                    old: write,
                    new: ImageState::present(),
                },
            }
        );
        assert_eq!(commands[commands.len() - 1], FrameCommand::EndPrimary { cmd: frame.primary_cmd });
        assert_eq!(commands[0], FrameCommand::BeginPrimary { cmd: frame.primary_cmd });

        let before_color = transitions_before_pass(&commands, 0);
        assert_eq!(before_color.len(), 1);
        assert_eq!(before_color[0].image, 100 + slot as u64);
        if number < FRAME_COUNT {
            assert_eq!(before_color[0].old, ImageState::undefined());
        } else {
            assert_eq!(before_color[0].old, ImageState::unused());
        }
        assert_eq!(before_color[0].new, write);

        let before_presentation = transitions_before_pass(&commands, 1);
        assert_eq!(before_presentation.len(), 2);
        assert_eq!(before_presentation[0].image, 100 + slot as u64);
        assert_eq!(before_presentation[0].old, write);
        assert_ne!(before_presentation[0].old, ImageState::undefined());
        assert_eq!(before_presentation[0].new, sampled());
        assert_eq!(before_presentation[1].image, 11 + image_index as u64);
        assert_eq!(before_presentation[1].new, write);
        if number < PRESENTATION_IMAGES {
            assert_eq!(before_presentation[1].old, ImageState::undefined());
        } else {
            assert_eq!(before_presentation[1].old, ImageState::presentation_ready());
        }
    }
    assert_eq!(presentations, 5);
}

#[test]
fn a_frame_is_laid_out_command_by_command() {
    let mut world = world();
    let frame = frame(1, 2);
    let commands = run(&mut world, &frame).unwrap();
    let write = ImageState::color_attachment_write();
    let range = color_range();
    let expected = vec![
        FrameCommand::BeginPrimary { cmd: 921 },
        FrameCommand::Transition {
            cmd: 921,
            transition: ImageTransition {
                image: 101,
                range,
                old: ImageState::undefined(),
                new: write,
            },
        },
        FrameCommand::BeginSecondary { cmd: 940, pass: 0 },
        FrameCommand::ExecutePass { cmd: 940, pass: 0, pass_id: 1, pipeline: 71 },
        FrameCommand::EndSecondary { cmd: 940 },
        FrameCommand::ExecuteCommands { primary: 921, secondary: 940 },
        FrameCommand::Transition {
            cmd: 921,
            transition: ImageTransition { image: 101, range, old: write, new: sampled() },
        },
        FrameCommand::Transition {
            cmd: 921,
            transition: ImageTransition {
                image: 13,
                range,
                old: ImageState::undefined(),
                new: write,
            },
        },
        FrameCommand::BeginSecondary { cmd: 941, pass: 1 },
        FrameCommand::ExecutePass { cmd: 941, pass: 1, pass_id: 2, pipeline: 72 },
        FrameCommand::EndSecondary { cmd: 941 },
        FrameCommand::ExecuteCommands { primary: 921, secondary: 941 },
        FrameCommand::Transition {
            cmd: 921,
            transition: ImageTransition { image: 13, range, old: write, new: ImageState::present() },
        },
        FrameCommand::EndPrimary { cmd: 921 },
    ];
    assert_eq!(commands, expected);
}

#[test]
fn first_use_is_told_apart_replica_by_replica_and_image_by_image() {
    let mut world = world();
    let first = run(&mut world, &frame(0, 0)).unwrap();
    assert_eq!(transitions_before_pass(&first, 1)[1].old, ImageState::undefined());
    let other_image = run(&mut world, &frame(0, 1)).unwrap();
    assert_eq!(transitions_before_pass(&other_image, 1)[1].image, 12);
    assert_eq!(transitions_before_pass(&other_image, 1)[1].old, ImageState::undefined());
    let other_replica = run(&mut world, &frame(1, 0)).unwrap();
    assert_eq!(transitions_before_pass(&other_replica, 0)[0].image, 101);
    assert_eq!(transitions_before_pass(&other_replica, 0)[0].old, ImageState::undefined());
    assert_eq!(
        transitions_before_pass(&other_replica, 1)[1].old,
        ImageState::presentation_ready()
    );
    let third_image = run(&mut world, &frame(1, 2)).unwrap();
    assert_eq!(transitions_before_pass(&third_image, 1)[1].old, ImageState::undefined());
}

#[test]
fn first_use_marks_each_image_once() {
    let mut first_use = GraphFirstUse::new();
    let key = CompositeImageKey::Global(ImageKey(1));
    let other = CompositeImageKey::Global(ImageKey(2));
    assert!(!first_use.contains((key, PhysicalImageInstance::Frame(0))));
    assert!(first_use.is_first_use((key, PhysicalImageInstance::Frame(0))));
    assert!(!first_use.is_first_use((key, PhysicalImageInstance::Frame(0))));
    assert!(first_use.is_first_use((key, PhysicalImageInstance::Frame(1))));
    assert!(first_use.is_first_use((key, PhysicalImageInstance::Swapchain(0))));
    assert!(first_use.is_first_use((key, PhysicalImageInstance::Global)));
    assert!(first_use.is_first_use((other, PhysicalImageInstance::Frame(0))));
    assert!(first_use.contains((key, PhysicalImageInstance::Frame(1))));
    let copy = first_use.duplicate();
    assert!(copy.contains((other, PhysicalImageInstance::Frame(0))));
    assert!(!copy.contains((other, PhysicalImageInstance::Frame(1))));
}

#[test]
fn a_frame_that_cannot_be_laid_out_leaves_no_image_used() {
    let mut world = world();
    let mut short = frame(0, 0);
    short.secondary_cmds = vec![930];
    assert_eq!(run(&mut world, &short).err(), Some(GraphError::MissingCommandTarget(1)));
    let commands = run(&mut world, &frame(0, 0)).unwrap();
    assert_eq!(transitions_before_pass(&commands, 0)[0].old, ImageState::undefined());
    assert_eq!(transitions_before_pass(&commands, 1)[1].old, ImageState::undefined());

    assert_eq!(
        run(&mut world, &frame(0, PRESENTATION_IMAGES)).err(),
        Some(GraphError::InvalidKey(ImageAlias::SwapchainImage))
    );
    assert_eq!(
        run(&mut world, &frame(FRAME_COUNT as usize, 0)).err(),
        Some(GraphError::InvalidKey(ImageAlias::ForwardColor))
    );
}

#[test]
fn a_pass_without_pipeline_fails_the_frame() {
    let mut images = ImageManager::default();
    let (presentation, presentation_views) =
        images.register_external_per_frame(&[11], &[21]).unwrap();
    let mut pipelines = PipelineManager::new();
    let only = pipelines.insert(PipelineEntry { pipeline: 71, layout: 81, generation: 1 }).unwrap();
    let passes = vec![presentation_pass_on_swapchain_only(5), presentation_pass_on_swapchain_only(6)];
    let plan = BarrierPlan::from_passes(&passes, &[ImageAlias::SwapchainImage]).unwrap();
    let mut registry = ResolvedRegistry::new();
    registry.images.insert(ImageAlias::SwapchainImage, presentation);
    registry.image_views.insert(ImageAlias::SwapchainImage, presentation_views);
    let mut pass_pipelines = HashMap::new();
    pass_pipelines.insert(5u32, only);
    pass_pipelines.insert(7u32, PipelineKey(12345));
    let mut graph = FrameGraph::new(passes, pass_pipelines, registry, plan);
    let frame = frame(0, 0);
    let context = FrameExecutionContext {
        frame: &frame,
        image_manager: &images,
        pipeline_manager: &pipelines,
        swapchain_extent: Extent2D { width: 1, height: 1 },
    };
    assert_eq!(graph.execute(&context).err(), Some(GraphError::MissingPipeline(6)));
    assert_eq!(graph.render_passes().len(), 2);
    assert!(graph.registry().images.contains_key(ImageAlias::SwapchainImage));
}

fn presentation_pass_on_swapchain_only(id: u32) -> PassDescription {
    PassDescription {
        id,
        name: "target".to_string(),
        image_requirements: vec![ImageRequirement {
            access: access(
                ImageAlias::SwapchainImage,
                ImageState::color_attachment_write(),
                ImageIndexing::PerFrame(FrameIndexKind::Swapchain),
            ),
            creation: ImageCreation::UseExisting,
        }],
        depends_on: vec![],
    }
}

#[test]
fn a_graph_without_presentation_image_cannot_return_it() {
    let images = ImageManager::default();
    let pipelines = PipelineManager::new();
    let passes: Vec<PassDescription> = vec![];
    let plan = BarrierPlan::from_passes(&passes, &[]).unwrap();
    let mut graph = FrameGraph::new(passes, HashMap::new(), ResolvedRegistry::new(), plan);
    let frame = frame(0, 0);
    let context = FrameExecutionContext {
        frame: &frame,
        image_manager: &images,
        pipeline_manager: &pipelines,
        swapchain_extent: Extent2D { width: 1, height: 1 },
    };
    assert_eq!(
        graph.execute(&context).err(),
        Some(GraphError::UnknownAlias(ImageAlias::SwapchainImage))
    );
}

#[test]
fn global_access_needs_a_global_key() {
    let mut images = ImageManager::default();
    let (presentation, _) = images.register_external_per_frame(&[11], &[21]).unwrap();
    let global = images
        .create_image(
            arbor::image::ImageSpec::default(),
            1,
            &[ImageBacking { vk_image: 55, allocation: 1 }],
        )
        .unwrap();
    let passes = vec![PassDescription {
        id: 1,
        name: "global".to_string(),
        image_requirements: vec![ImageRequirement {
            access: access(ImageAlias::DepthBuffer, sampled(), ImageIndexing::Global),
            creation: ImageCreation::UseExisting,
        }],
        depends_on: vec![],
    }];
    let plan = BarrierPlan::from_passes(&passes, &[ImageAlias::DepthBuffer]).unwrap();
    let mut first_use = GraphFirstUse::new();

    let mut registry = ResolvedRegistry::new();
    registry.images.insert(ImageAlias::DepthBuffer, global);
    let batch = plan.emit_pre_pass_barriers(0, 0, &images, &registry, 1, &mut first_use).unwrap();
    assert_eq!(batch.len(), 1);
    assert_eq!(batch[0].image, 55);
    assert_eq!(batch[0].old, ImageState::undefined());
    let again = plan.emit_pre_pass_barriers(1, 4, &images, &registry, 1, &mut first_use).unwrap();
    assert_eq!(again[0].old, ImageState::unused());
    assert_eq!(again[0].new, sampled());
    assert!(plan.emit_pre_pass_barriers(0, 0, &images, &registry, 9, &mut first_use)
        .unwrap()
        .is_empty());

    let mut wrong = ResolvedRegistry::new();
    wrong.images.insert(ImageAlias::DepthBuffer, presentation);
    assert_eq!(
        plan.emit_pre_pass_barriers(0, 0, &images, &wrong, 1, &mut first_use).err(),
        Some(GraphError::InvalidKey(ImageAlias::DepthBuffer))
    );
    let empty = ResolvedRegistry::new();
    assert_eq!(
        plan.emit_pre_pass_barriers(0, 0, &images, &empty, 1, &mut first_use).err(),
        Some(GraphError::UnknownAlias(ImageAlias::DepthBuffer))
    );
    assert_eq!(
        plan.emit_post_pass_barriers(0, &images, &empty).err(),
        Some(GraphError::UnknownAlias(ImageAlias::SwapchainImage))
    );
    wrong.images.insert(ImageAlias::SwapchainImage, presentation);
    assert_eq!(plan.emit_post_pass_barriers(0, &images, &wrong).unwrap().image, 11);
    assert_eq!(
        plan.emit_post_pass_barriers(1, &images, &wrong).err(),
        Some(GraphError::InvalidKey(ImageAlias::SwapchainImage))
    );
}

#[test]
fn building_declares_plans_and_resolves() {
    let world = world();
    let color = *world.graph.registry().images.get(ImageAlias::ForwardColor).unwrap();
    assert!(matches!(color, CompositeImageKey::PerFrame(_)));
    assert_eq!(world.images.resolve_image(color, FrameIndex::Frame(1)).unwrap().vk_image, 101);
    assert!(world.images.resolve_image(color, FrameIndex::Frame(2)).is_err());
    assert!(world.graph.registry().image_views.contains_key(ImageAlias::ForwardColor));
    assert_eq!(world.graph.render_passes().len(), 2);

    let builder = FramegraphBuilder::new(vec![44, 50], 126).add_pass(color_pass());
    assert_eq!(builder.render_passes().len(), 1);
    assert_eq!(builder.pipeline_desc(0).color_formats, vec![44, 50]);
    let keys = ImageKeys {
        image: CompositeImageKey::Global(ImageKey(1)),
        view: arbor::image::CompositeImageViewKey::Global(arbor::image::ImageViewKey(1)),
    };
    let registry = builder.declare(keys).unwrap();
    assert_eq!(registry.description(ImageAlias::ForwardColor), Some(color_desc()));
    assert_eq!(registry.external(ImageAlias::SwapchainImage), Some(keys));
    assert_eq!(registry.description(ImageAlias::SwapchainImage), None);
}

#[test]
fn building_reports_the_first_step_that_fails() {
    let keys_of = |images: &mut ImageManager| {
        let (image, view) = images.register_external_per_frame(&[11], &[21]).unwrap();
        ImageKeys { image, view }
    };
    let mut conflicting = color_pass();
    conflicting.id = 3;
    if let ImageCreation::Declare(desc) = &mut conflicting.image_requirements[0].creation {
        desc.samples = 4;
    }
    let mut images = ImageManager::default();
    let keys = keys_of(&mut images);
    let backing: AliasTable<ResourceBacking> = AliasTable::new();
    let conflict = FramegraphBuilder::new(vec![50], 126)
        .add_pass(color_pass())
        .add_pass(conflicting)
        .build(&mut images, &ctx(), keys, &backing, HashMap::new());
    assert_eq!(
        conflict.err(),
        Some(BuildError::Alias(AliasError::ConflictingDeclaration(ImageAlias::ForwardColor)))
    );

    let unknown = FramegraphBuilder::new(vec![50], 126)
        .add_pass(presentation_pass())
        .build(&mut images, &ctx(), keys, &backing, HashMap::new());
    assert_eq!(
        unknown.err(),
        Some(BuildError::Graph(GraphError::UnknownAlias(ImageAlias::ForwardColor)))
    );

    let unbacked = FramegraphBuilder::new(vec![50], 126)
        .add_pass(color_pass())
        .add_pass(presentation_pass())
        .build(&mut images, &ctx(), keys, &backing, HashMap::new());
    assert_eq!(
        unbacked.err(),
        Some(BuildError::Alias(AliasError::BackingMismatch(ImageAlias::ForwardColor)))
    );
    assert_eq!(images.occupancy(), (1, 1, 1, 1));
}

#[test]
fn declarations_and_plans_are_compiled_from_the_passes() {
    let passes = vec![color_pass(), presentation_pass()];
    let mut registry = arbor::render::framegraph::alias::AliasRegistry::default();
    assert_eq!(compile_resources(&passes, &mut registry), Ok(()));
    assert_eq!(registry.description(ImageAlias::ForwardColor), Some(color_desc()));
    assert_eq!(registry.description(ImageAlias::SwapchainImage), None);
    assert_eq!(compile_resources(&passes, &mut registry), Ok(()));
    let plan = build_barrier_plans(
        &passes,
        &[ImageAlias::ForwardColor, ImageAlias::SwapchainImage],
    )
    .unwrap();
    assert_eq!(plan.image_barriers(2).unwrap().len(), 2);
    assert_eq!(
        build_barrier_plans(&passes, &[ImageAlias::ForwardColor]).err(),
        Some(GraphError::UnknownAlias(ImageAlias::SwapchainImage))
    );
}

#[test]
fn rebuild_after_a_resize_replaces_the_per_frame_resources() {
    let mut world = world();
    run(&mut world, &frame(0, 0)).unwrap();
    let before = world.images.occupancy();
    assert_eq!(before, (5, 2, 5, 2));

    let released = world.images.cleanup_per_frames();
    assert_eq!(released.images.len(), FRAME_COUNT as usize);
    assert_eq!(released.image_views.len(), FRAME_COUNT as usize);
    assert_eq!(world.images.occupancy(), (3, 1, 3, 1));
    let presentation = *world.graph.registry().images.get(ImageAlias::SwapchainImage).unwrap();
    for i in 0..PRESENTATION_IMAGES {
        assert_eq!(
            world.images.resolve_image(presentation, FrameIndex::Swapchain(i)).unwrap().vk_image,
            11 + i as u64
        );
    }
    assert_eq!(
        run(&mut world, &frame(0, 0)).err(),
        Some(GraphError::InvalidKey(ImageAlias::ForwardColor))
    );

    let presentation_views =
        *world.graph.registry().image_views.get(ImageAlias::SwapchainImage).unwrap();
    let mut backing: AliasTable<ResourceBacking> = AliasTable::new();
    backing.insert(
        ImageAlias::ForwardColor,
        ResourceBacking {
            images: vec![
                ImageBacking { vk_image: 300, allocation: 3 },
                ImageBacking { vk_image: 301, allocation: 4 },
            ],
            views: vec![400, 401],
        },
    );
    let mut pass_pipelines = HashMap::new();
    pass_pipelines.insert(1u32, PipelineKey(0));
    let rebuilt = FramegraphBuilder::new(vec![50], 126)
        .add_pass(color_pass())
        .add_pass(presentation_pass())
        .build(
            &mut world.images,
            &ctx(),
            ImageKeys { image: presentation, view: presentation_views },
            &backing,
            pass_pipelines,
        )
        .unwrap();
    assert_eq!(world.images.occupancy(), (5, 2, 5, 2));
    let color = *rebuilt.registry().images.get(ImageAlias::ForwardColor).unwrap();
    assert_eq!(world.images.resolve_image(color, FrameIndex::Frame(0)).unwrap().vk_image, 300);
}

#[test]
fn a_failed_batch_keeps_the_marks_of_the_transitions_ahead_of_the_failure() {
    let mut images = ImageManager::default();
    let global = images
        .create_image(
            arbor::image::ImageSpec::default(),
            1,
            &[ImageBacking { vk_image: 55, allocation: 1 }],
        )
        .unwrap();
    let passes = vec![PassDescription {
        id: 1,
        name: "both".to_string(),
        image_requirements: vec![
            ImageRequirement {
                access: access(ImageAlias::DepthBuffer, sampled(), ImageIndexing::Global),
                creation: ImageCreation::UseExisting,
            },
            ImageRequirement {
                access: access(
                    ImageAlias::ForwardColor,
                    sampled(),
                    ImageIndexing::PerFrame(FrameIndexKind::Frame),
                ),
                creation: ImageCreation::UseExisting,
            },
        ],
        depends_on: vec![],
    }];
    let plan =
        BarrierPlan::from_passes(&passes, &[ImageAlias::DepthBuffer, ImageAlias::ForwardColor])
            .unwrap();
    let mut registry = ResolvedRegistry::new();
    registry.images.insert(ImageAlias::DepthBuffer, global);

    let mut first_use = GraphFirstUse::new();
    assert!(!first_use.contains((global, PhysicalImageInstance::Global)));
    assert_eq!(
        plan.emit_pre_pass_barriers(0, 0, &images, &registry, 1, &mut first_use).err(),
        Some(GraphError::UnknownAlias(ImageAlias::ForwardColor))
    );
    assert!(first_use.contains((global, PhysicalImageInstance::Global)));
    assert!(!first_use.contains((global, PhysicalImageInstance::Frame(0))));

    let mut untouched = GraphFirstUse::new();
    let empty = ResolvedRegistry::new();
    assert_eq!(
        plan.emit_pre_pass_barriers(0, 0, &images, &empty, 1, &mut untouched).err(),
        Some(GraphError::UnknownAlias(ImageAlias::DepthBuffer))
    );
    assert!(!untouched.contains((global, PhysicalImageInstance::Global)));
}
