use arbor::image::{
    CompositeImageKey, CompositeImageViewKey, FrameIndex, ImageBacking, ImageKey, ImageLifetime,
    ImageManager, ImageViewKey, ResizePolicy,
};
use arbor::render::framegraph::alias::registry::{
    create_image_spec, create_image_view_spec, derive_aspect_mask, derive_view_type, replica_count,
};
use arbor::render::framegraph::alias::{
    AliasError, AliasRegistry, AliasTable, ImageDesc, ImageFormat, ImageKeys, ImageResolveContext,
    ImageSize, ResolvedRegistry, ResourceBacking, Scale,
};
use arbor::render::framegraph::ImageAlias;
use arbor::vk::Extent2D;

fn ctx(frame_count: u32) -> ImageResolveContext {
    ImageResolveContext {
        swapchain_extent: Extent2D { width: 800, height: 600 },
        swapchain_format: 50,
        default_resize_policy: ResizePolicy::Swapchain,
        default_initial_layout: 0,
        frame_count,
    }
}

fn desc(size: ImageSize, lifetime: ImageLifetime) -> ImageDesc {
    ImageDesc { format: ImageFormat::SwapchainColor, size, usage: 0x10, lifetime, samples: 1 }
}

fn half() -> Scale {
    Scale { numerator: 1, denominator: 2 }
}

fn given(first_image: u64, first_view: u64, count: u64) -> ResourceBacking {
    ResourceBacking {
        images: (0..count)
            .map(|i| ImageBacking { vk_image: first_image + i, allocation: 1000 + first_image + i })
            .collect(),
        views: (0..count).map(|i| first_view + i).collect(),
    }
}

#[test]
fn declaring_twice_with_the_same_description_changes_nothing() {
    let mut registry = AliasRegistry::default();
    let color = desc(ImageSize::SwapchainRelative { scale: Scale::one() }, ImageLifetime::PerFrame);
    assert_eq!(registry.declare_image(ImageAlias::ForwardColor, color), Ok(()));
    assert_eq!(registry.declare_image(ImageAlias::ForwardColor, color), Ok(()));
    assert_eq!(registry.declare_image(ImageAlias::ForwardColor, color), Ok(()));
    assert_eq!(registry.description(ImageAlias::ForwardColor), Some(color));
    assert_eq!(registry.aliases(), vec![ImageAlias::ForwardColor]);
    let plan = registry.plan(&ctx(2)).unwrap();
    assert_eq!(plan.len(), 1);
    assert_eq!(plan[0].alias, ImageAlias::ForwardColor);

    let mut manager = ImageManager::default();
    let mut backing: AliasTable<ResourceBacking> = AliasTable::new();
    backing.insert(ImageAlias::ForwardColor, given(100, 200, 2));
    let resolved = registry.resolve(&mut manager, &ctx(2), &backing).unwrap();
    assert!(resolved.images.contains_key(ImageAlias::ForwardColor));
}

#[test]
fn declaring_with_another_description_is_a_conflict() {
    let mut registry = AliasRegistry::default();
    let first = desc(ImageSize::SwapchainRelative { scale: Scale::one() }, ImageLifetime::PerFrame);
    let second = desc(ImageSize::SwapchainRelative { scale: half() }, ImageLifetime::PerFrame);
    assert_eq!(registry.declare_image(ImageAlias::ForwardColor, first), Ok(()));
    assert_eq!(
        registry.declare_image(ImageAlias::ForwardColor, second),
        Err(AliasError::ConflictingDeclaration(ImageAlias::ForwardColor))
    );
    assert_eq!(registry.description(ImageAlias::ForwardColor), Some(first));
    assert_eq!(registry.declare_image(ImageAlias::DepthBuffer, second), Ok(()));
}

#[test]
fn scales_round_down_and_saturate() {
    assert_eq!(half().apply(800), 400);
    assert_eq!(half().apply(3), 1);
    assert_eq!(half().apply(0), 0);
    assert_eq!(Scale::one().apply(u32::MAX), u32::MAX);
    assert_eq!(Scale { numerator: 3, denominator: 4 }.apply(400), 300);
    assert_eq!(Scale { numerator: 2, denominator: 1 }.apply(u32::MAX), u32::MAX);
    assert_eq!(Scale { numerator: 2, denominator: 1 }.apply(0x8000_0000), u32::MAX);
    assert_eq!(Scale { numerator: 2, denominator: 1 }.apply(0x7fff_ffff), 0xffff_fffe);
    assert_eq!(Scale { numerator: 1, denominator: 0 }.apply(5), u32::MAX);
    assert_eq!(Scale { numerator: 0, denominator: 0 }.apply(5), 0);
    assert_eq!(Scale { numerator: 7, denominator: 0 }.apply(0), 0);
    assert_eq!(Scale { numerator: u32::MAX, denominator: u32::MAX }.apply(12345), 12345);
}

#[test]
fn logical_formats_and_sizes_become_concrete() {
    let context = ctx(2);
    let color = create_image_spec(
        &desc(ImageSize::SwapchainRelative { scale: half() }, ImageLifetime::PerFrame),
        &context,
        Extent2D { width: 400, height: 300 },
    );
    assert_eq!(color.format, 50);
    assert_eq!((color.extent.width, color.extent.height, color.extent.depth), (400, 300, 1));
    assert_eq!(color.usage, 0x10);
    assert_eq!(color.samples, 1);
    assert_eq!(color.mips, 1);
    assert_eq!(color.layers, 1);
    assert_eq!(color.resize_policy, ResizePolicy::Swapchain);
    assert_eq!(color.lifetime, ImageLifetime::PerFrame);
    assert_eq!(color.initial_layout, 0);

    let depth = create_image_spec(
        &ImageDesc {
            format: ImageFormat::Depth,
            size: ImageSize::Absolute { width: 64, height: 32 },
            usage: 0x20,
            lifetime: ImageLifetime::Global,
            samples: 1,
        },
        &context,
        Extent2D { width: 64, height: 32 },
    );
    assert_eq!(depth.format, 126);
    assert_eq!(depth.resize_policy, ResizePolicy::Fixed);
    let hdr = create_image_spec(
        &ImageDesc {
            format: ImageFormat::HDRColor,
            size: ImageSize::Relative(ImageAlias::ForwardColor, half()),
            usage: 0x10,
            lifetime: ImageLifetime::Global,
            samples: 1,
        },
        &context,
        Extent2D { width: 1, height: 1 },
    );
    assert_eq!(hdr.format, 97);
    assert_eq!(hdr.resize_policy, ResizePolicy::Swapchain);
}

#[test]
fn view_shape_follows_format_and_layers() {
    assert_eq!(derive_aspect_mask(126), 2);
    assert_eq!(derive_aspect_mask(124), 2);
    assert_eq!(derive_aspect_mask(129), 6);
    assert_eq!(derive_aspect_mask(130), 6);
    assert_eq!(derive_aspect_mask(50), 1);
    assert_eq!(derive_aspect_mask(0), 1);
    assert_eq!(derive_view_type(1), 1);
    assert_eq!(derive_view_type(0), 5);
    assert_eq!(derive_view_type(6), 5);
    assert_eq!(replica_count(ImageLifetime::Global, 3), 1);
    assert_eq!(replica_count(ImageLifetime::PerFrame, 3), 3);
    assert_eq!(replica_count(ImageLifetime::External, 3), 0);

    let key = CompositeImageKey::Global(ImageKey(1));
    let spec = create_image_spec(
        &ImageDesc {
            format: ImageFormat::Depth,
            size: ImageSize::Absolute { width: 4, height: 4 },
            usage: 0x20,
            lifetime: ImageLifetime::Global,
            samples: 1,
        },
        &ctx(2),
        Extent2D { width: 4, height: 4 },
    );
    let view = create_image_view_spec(key, &spec);
    assert_eq!(view.image_key, key);
    assert_eq!(view.view_type, 1);
    assert_eq!(view.format, 126);
    assert_eq!(view.aspect_mask, 2);
    assert_eq!((view.base_mip_level, view.level_count), (0, 1));
    assert_eq!((view.base_array_layer, view.layer_count), (0, 1));
}

#[test]
fn plan_puts_every_alias_after_the_alias_its_size_hangs_on() {
    let mut registry = AliasRegistry::default();
    registry
        .declare_image(
            ImageAlias::SwapchainImage,
            desc(ImageSize::Relative(ImageAlias::DepthBuffer, half()), ImageLifetime::Global),
        )
        .unwrap();
    registry
        .declare_image(
            ImageAlias::ForwardColor,
            desc(ImageSize::SwapchainRelative { scale: half() }, ImageLifetime::PerFrame),
        )
        .unwrap();
    registry
        .declare_image(
            ImageAlias::DepthBuffer,
            desc(
                ImageSize::Relative(ImageAlias::ForwardColor, Scale { numerator: 3, denominator: 4 }),
                ImageLifetime::PerFrame,
            ),
        )
        .unwrap();
    let plan = registry.plan(&ctx(2)).unwrap();
    let order: Vec<ImageAlias> = plan.iter().map(|p| p.alias).collect();
    assert_eq!(
        order,
        vec![ImageAlias::ForwardColor, ImageAlias::DepthBuffer, ImageAlias::SwapchainImage]
    );
    assert_eq!((plan[0].spec.extent.width, plan[0].spec.extent.height), (400, 300));
    assert_eq!((plan[1].spec.extent.width, plan[1].spec.extent.height), (300, 225));
    assert_eq!((plan[2].spec.extent.width, plan[2].spec.extent.height), (150, 112));
    assert_eq!(plan[0].replicas, 2);
    assert_eq!(plan[1].replicas, 2);
    assert_eq!(plan[2].replicas, 1);
    assert_eq!(plan[0].view_type, 1);
    assert_eq!(plan[0].aspect_mask, 1);
}

#[test]
fn plan_keeps_the_order_of_the_aliases_where_nothing_hangs_on_anything() {
    let mut registry = AliasRegistry::default();
    registry
        .declare_image(
            ImageAlias::DepthBuffer,
            desc(ImageSize::Absolute { width: 8, height: 4 }, ImageLifetime::Global),
        )
        .unwrap();
    registry
        .declare_image(
            ImageAlias::ForwardColor,
            desc(ImageSize::SwapchainRelative { scale: Scale::one() }, ImageLifetime::Global),
        )
        .unwrap();
    let plan = registry.plan(&ctx(1)).unwrap();
    let order: Vec<ImageAlias> = plan.iter().map(|p| p.alias).collect();
    assert_eq!(order, vec![ImageAlias::ForwardColor, ImageAlias::DepthBuffer]);
    assert_eq!((plan[0].spec.extent.width, plan[0].spec.extent.height), (800, 600));
    assert_eq!((plan[1].spec.extent.width, plan[1].spec.extent.height), (8, 4));
    assert!(AliasRegistry::default().plan(&ctx(1)).unwrap().is_empty());
}

#[test]
fn sizes_that_run_in_a_circle_do_not_resolve() {
    let mut registry = AliasRegistry::default();
    registry
        .declare_image(
            ImageAlias::ForwardColor,
            desc(ImageSize::Relative(ImageAlias::DepthBuffer, half()), ImageLifetime::Global),
        )
        .unwrap();
    registry
        .declare_image(
            ImageAlias::DepthBuffer,
            desc(ImageSize::Relative(ImageAlias::ForwardColor, half()), ImageLifetime::Global),
        )
        .unwrap();
    assert_eq!(
        registry.plan(&ctx(2)).err(),
        Some(AliasError::UnresolvableSizeDependency(ImageAlias::ForwardColor))
    );
    let mut manager = ImageManager::default();
    let backing: AliasTable<ResourceBacking> = AliasTable::new();
    assert_eq!(
        registry.resolve(&mut manager, &ctx(2), &backing).err(),
        Some(AliasError::UnresolvableSizeDependency(ImageAlias::ForwardColor))
    );
    assert_eq!(manager.occupancy(), (0, 0, 0, 0));
}

#[test]
fn sizes_that_hang_on_themselves_or_on_nothing_do_not_resolve() {
    let mut own = AliasRegistry::default();
    own.declare_image(
        ImageAlias::DepthBuffer,
        desc(ImageSize::Relative(ImageAlias::DepthBuffer, half()), ImageLifetime::Global),
    )
    .unwrap();
    assert_eq!(
        own.plan(&ctx(2)).err(),
        Some(AliasError::UnresolvableSizeDependency(ImageAlias::DepthBuffer))
    );

    let mut missing = AliasRegistry::default();
    missing
        .declare_image(
            ImageAlias::ForwardColor,
            desc(ImageSize::Relative(ImageAlias::SwapchainImage, half()), ImageLifetime::Global),
        )
        .unwrap();
    missing
        .declare_external_image(
            ImageAlias::SwapchainImage,
            ImageKeys {
                image: CompositeImageKey::Global(ImageKey(1)),
                view: CompositeImageViewKey::Global(ImageViewKey(1)),
            },
        )
        .unwrap();
    assert_eq!(
        missing.plan(&ctx(2)).err(),
        Some(AliasError::UnresolvableSizeDependency(ImageAlias::ForwardColor))
    );
}

#[test]
fn resolution_stores_what_was_created_and_copies_external_aliases_through() {
    let context = ctx(2);
    let mut manager = ImageManager::default();
    let (presentation, presentation_views) =
        manager.register_external_per_frame(&[11, 12, 13], &[21, 22, 23]).unwrap();
    let mut registry = AliasRegistry::default();
    registry
        .declare_external_image(
            ImageAlias::SwapchainImage,
            ImageKeys { image: presentation, view: presentation_views },
        )
        .unwrap();
    registry
        .declare_image(
            ImageAlias::ForwardColor,
            desc(ImageSize::SwapchainRelative { scale: Scale::one() }, ImageLifetime::PerFrame),
        )
        .unwrap();
    registry
        .declare_image(
            ImageAlias::DepthBuffer,
            desc(ImageSize::Absolute { width: 16, height: 16 }, ImageLifetime::Global),
        )
        .unwrap();
    assert!(registry.knows(ImageAlias::SwapchainImage));
    assert_eq!(
        registry.aliases(),
        vec![ImageAlias::SwapchainImage, ImageAlias::ForwardColor, ImageAlias::DepthBuffer]
    );
    assert_eq!(
        registry.external(ImageAlias::SwapchainImage),
        Some(ImageKeys { image: presentation, view: presentation_views })
    );
    assert_eq!(registry.external(ImageAlias::ForwardColor), None);

    let mut backing: AliasTable<ResourceBacking> = AliasTable::new();
    backing.insert(ImageAlias::ForwardColor, given(100, 200, 2));
    backing.insert(ImageAlias::DepthBuffer, given(300, 400, 1));
    let resolved: ResolvedRegistry = registry.resolve(&mut manager, &context, &backing).unwrap();

    assert_eq!(
        resolved.aliases(),
        vec![ImageAlias::SwapchainImage, ImageAlias::ForwardColor, ImageAlias::DepthBuffer]
    );
    assert_eq!(resolved.images.get(ImageAlias::SwapchainImage), Some(&presentation));
    assert_eq!(resolved.image_views.get(ImageAlias::SwapchainImage), Some(&presentation_views));

    let color = *resolved.images.get(ImageAlias::ForwardColor).unwrap();
    let color_views = *resolved.image_views.get(ImageAlias::ForwardColor).unwrap();
    assert!(matches!(color, CompositeImageKey::PerFrame(_)));
    for i in 0..2u32 {
        let image = manager.resolve_image(color, FrameIndex::Frame(i)).unwrap();
        assert_eq!(image.vk_image, 100 + i as u64);
        let owned = image.owned.as_ref().unwrap();
        assert_eq!(owned.allocation, 1100 + i as u64);
        assert_eq!((owned.spec.extent.width, owned.spec.extent.height), (800, 600));
        assert_eq!(owned.spec.format, 50);
        let view = manager.resolve_image_view(color_views, FrameIndex::Frame(i)).unwrap();
        assert_eq!(view.vk_image_view, 200 + i as u64);
        assert_eq!(view.owned.unwrap().spec.image_key, color);
    }
    assert!(manager.resolve_image(color, FrameIndex::Frame(2)).is_err());

    let depth = *resolved.images.get(ImageAlias::DepthBuffer).unwrap();
    let depth_view = *resolved.image_views.get(ImageAlias::DepthBuffer).unwrap();
    assert!(matches!(depth, CompositeImageKey::Global(_)));
    assert_eq!(manager.resolve_image(depth, FrameIndex::Frame(1)).unwrap().vk_image, 300);
    assert_eq!(
        manager.resolve_image_view(depth_view, FrameIndex::Frame(1)).unwrap().vk_image_view,
        400
    );
    assert_eq!(manager.occupancy(), (6, 2, 6, 2));
}

#[test]
fn an_external_alias_wins_over_a_declaration_of_the_same_alias() {
    let mut manager = ImageManager::default();
    let (presentation, presentation_views) =
        manager.register_external_per_frame(&[11], &[21]).unwrap();
    let mut registry = AliasRegistry::default();
    registry
        .declare_image(
            ImageAlias::SwapchainImage,
            desc(ImageSize::Absolute { width: 4, height: 4 }, ImageLifetime::Global),
        )
        .unwrap();
    registry
        .declare_external_image(
            ImageAlias::SwapchainImage,
            ImageKeys { image: presentation, view: presentation_views },
        )
        .unwrap();
    let mut backing: AliasTable<ResourceBacking> = AliasTable::new();
    backing.insert(ImageAlias::SwapchainImage, given(100, 200, 1));
    let resolved = registry.resolve(&mut manager, &ctx(2), &backing).unwrap();
    assert_eq!(resolved.images.get(ImageAlias::SwapchainImage), Some(&presentation));
    assert_eq!(resolved.image_views.get(ImageAlias::SwapchainImage), Some(&presentation_views));
}

#[test]
fn resolution_refuses_backing_that_does_not_match_and_changes_nothing() {
    let mut registry = AliasRegistry::default();
    registry
        .declare_image(
            ImageAlias::ForwardColor,
            desc(ImageSize::SwapchainRelative { scale: Scale::one() }, ImageLifetime::PerFrame),
        )
        .unwrap();
    registry
        .declare_image(
            ImageAlias::DepthBuffer,
            desc(ImageSize::Absolute { width: 16, height: 16 }, ImageLifetime::Global),
        )
        .unwrap();
    let mut manager = ImageManager::default();

    let none: AliasTable<ResourceBacking> = AliasTable::new();
    assert_eq!(
        registry.resolve(&mut manager, &ctx(2), &none).err(),
        Some(AliasError::BackingMismatch(ImageAlias::ForwardColor))
    );

    let mut short: AliasTable<ResourceBacking> = AliasTable::new();
    short.insert(ImageAlias::ForwardColor, given(100, 200, 2));
    short.insert(ImageAlias::DepthBuffer, given(300, 400, 2));
    assert_eq!(
        registry.resolve(&mut manager, &ctx(2), &short).err(),
        Some(AliasError::BackingMismatch(ImageAlias::DepthBuffer))
    );

    let mut views_missing: AliasTable<ResourceBacking> = AliasTable::new();
    views_missing.insert(
        ImageAlias::ForwardColor,
        ResourceBacking {
            images: vec![
                ImageBacking { vk_image: 1, allocation: 1 },
                ImageBacking { vk_image: 2, allocation: 2 },
            ],
            views: vec![9],
        },
    );
    views_missing.insert(ImageAlias::DepthBuffer, given(300, 400, 1));
    assert_eq!(
        registry.resolve(&mut manager, &ctx(2), &views_missing).err(),
        Some(AliasError::BackingMismatch(ImageAlias::ForwardColor))
    );
    assert_eq!(manager.occupancy(), (0, 0, 0, 0));

    let mut foreign = AliasRegistry::default();
    foreign
        .declare_image(
            ImageAlias::ForwardColor,
            desc(ImageSize::SwapchainRelative { scale: Scale::one() }, ImageLifetime::External),
        )
        .unwrap();
    let mut empty: AliasTable<ResourceBacking> = AliasTable::new();
    empty.insert(ImageAlias::ForwardColor, given(1, 1, 0));
    assert_eq!(
        foreign.resolve(&mut manager, &ctx(2), &empty).err(),
        Some(AliasError::BackingMismatch(ImageAlias::ForwardColor))
    );
}

#[test]
fn alias_table_holds_one_value_per_alias() {
    let mut table: AliasTable<u32> = AliasTable::new();
    assert_eq!(table.get(ImageAlias::ForwardColor), None);
    assert!(!table.contains_key(ImageAlias::ForwardColor));
    table.insert(ImageAlias::ForwardColor, 1);
    table.insert(ImageAlias::DepthBuffer, 2);
    table.insert(ImageAlias::ForwardColor, 3);
    assert_eq!(table.get(ImageAlias::ForwardColor), Some(&3));
    assert_eq!(table.get(ImageAlias::DepthBuffer), Some(&2));
    assert_eq!(table.get(ImageAlias::SwapchainImage), None);
}

#[test]
fn aliases_have_names_and_positions() {
    assert_eq!(ImageAlias::SwapchainImage.name(), "SwapchainImage");
    assert_eq!(ImageAlias::ForwardColor.name(), "ForwardColor");
    assert_eq!(ImageAlias::DepthBuffer.name(), "DepthBuffer");
    for (i, alias) in
        [ImageAlias::SwapchainImage, ImageAlias::ForwardColor, ImageAlias::DepthBuffer]
            .into_iter()
            .enumerate()
    {
        assert_eq!(alias.index(), i);
        assert_eq!(ImageAlias::from_index(i), Some(alias));
    }
    assert_eq!(ImageAlias::from_index(3), None);
    assert_eq!(ImageFormat::SwapchainColor.name(), "SwapchainColor");
    assert_eq!(ImageFormat::Depth.name(), "Depth");
    assert_eq!(ImageFormat::HDRColor.name(), "HDRColor");
    assert_eq!(ResizePolicy::Swapchain.name(), "Swapchain");
    assert_eq!(ResizePolicy::Fixed.name(), "Fixed");
}
