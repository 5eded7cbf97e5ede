use arbor::image::{FrameIndex, ImageBacking, ImageLifetime, ImageManager, ImageSpec, ImageViewSpec};
use arbor::label::{frame_label, numbered_label};
use arbor::render::framegraph::alias::ResolvedRegistry;
use arbor::render::framegraph::graph::GraphError;
use arbor::render::framegraph::pass::AttachmentResolver;
use arbor::render::framegraph::ImageAlias;

#[test]
fn labels_carry_the_index_in_decimal() {
    assert_eq!(frame_label("Color", 0), "Color(Frame 0)");
    assert_eq!(frame_label("Color", 7), "Color(Frame 7)");
    assert_eq!(frame_label("Color", 10), "Color(Frame 10)");
    assert_eq!(frame_label("PrimaryCommandBuffer", 123), "PrimaryCommandBuffer(Frame 123)");
    assert_eq!(frame_label("", 4294967295), "(Frame 4294967295)");
    assert_eq!(frame_label("x", 1000), "x(Frame 1000)");
    assert_eq!(frame_label("x", 90210), format!("x(Frame {:?})", 90210u32));
    assert_eq!(numbered_label("SwapchainImage", 2), "SwapchainImage(#2)");
    assert_eq!(numbered_label("SwapchainImageView", 19), "SwapchainImageView(#19)");
    for index in [0u32, 9, 10, 11, 99, 100, 101, 65535, 65536, 999_999_999, 1_000_000_000] {
        assert_eq!(numbered_label("n", index), format!("n(#{:?})", index));
    }
}

#[test]
fn attachments_are_found_by_alias_and_frame() {
    let mut manager = ImageManager::default();
    let (presentation, presentation_views) =
        manager.register_external_per_frame(&[11, 12, 13], &[21, 22, 23]).unwrap();
    let color = manager
        .create_image(
            ImageSpec::default().lifetime(ImageLifetime::PerFrame),
            2,
            &[
                ImageBacking { vk_image: 100, allocation: 1 },
                ImageBacking { vk_image: 101, allocation: 2 },
            ],
        )
        .unwrap();
    let color_views = manager.create_image_view(ImageViewSpec::new(color), 2, &[200, 201]).unwrap();
    assert_eq!(
        manager.resolve_image_view(color_views, FrameIndex::Frame(0)).unwrap().vk_image_view,
        200
    );
    let mut registry = ResolvedRegistry::new();
    registry.images.insert(ImageAlias::SwapchainImage, presentation);
    registry.image_views.insert(ImageAlias::SwapchainImage, presentation_views);
    registry.images.insert(ImageAlias::ForwardColor, color);
    registry.image_views.insert(ImageAlias::ForwardColor, color_views);

    let resolver = AttachmentResolver {
        registry: &registry,
        image_manager: &manager,
        frame_index: 1,
        swapchain_image_index: 2,
    };
    assert_eq!(resolver.image_view(ImageAlias::SwapchainImage), Ok(23));
    assert_eq!(resolver.image_view(ImageAlias::ForwardColor), Ok(201));
    assert_eq!(
        resolver.image_view(ImageAlias::DepthBuffer),
        Err(GraphError::UnknownAlias(ImageAlias::DepthBuffer))
    );
    let late = AttachmentResolver {
        registry: &registry,
        image_manager: &manager,
        frame_index: 2,
        swapchain_image_index: 3,
    };
    assert_eq!(
        late.image_view(ImageAlias::SwapchainImage),
        Err(GraphError::InvalidKey(ImageAlias::SwapchainImage))
    );
    assert_eq!(
        late.image_view(ImageAlias::ForwardColor),
        Err(GraphError::InvalidKey(ImageAlias::ForwardColor))
    );
}
