use arbor::arena::Arena;
use arbor::buffer::{
    AllocationStrategy, BufferBacking, BufferLifetime, BufferManager, BufferSpec, BufferUsage,
    CompositeBufferKey,
};
use arbor::error::RegistryError;
use arbor::image::{
    CompositeImageKey, CompositeImageViewKey, FrameIndex, ImageBacking, ImageKey, ImageLifetime,
    ImageManager, ImageSpec, ImageViewSpec, LogicalImageKey,
};
use arbor::pool::{CompositeKey, Pool};
use arbor::render::pipeline::{PipelineEntry, PipelineKey, PipelineManager};

fn spec(lifetime: ImageLifetime) -> ImageSpec {
    ImageSpec::default().lifetime(lifetime)
}

fn backing(count: u64) -> Vec<ImageBacking> {
    (0..count).map(|i| ImageBacking { vk_image: 100 + i, allocation: 200 + i }).collect()
}

fn buffer_spec(lifetime: BufferLifetime) -> BufferSpec {
    BufferSpec {
        allocation_strategy: AllocationStrategy::Linear,
        lifetime,
        usage: BufferUsage::Uniform,
        initial_size: 256,
        item_stride: 16,
        debug_name: Some("camera".to_string()),
    }
}

#[test]
fn arena_keys_are_fresh_and_values_found_again() {
    let mut arena: Arena<u32> = Arena::new();
    let a = arena.insert(10);
    let b = arena.insert(20);
    let c = arena.insert(30);
    assert_ne!(a, b);
    assert_ne!(b, c);
    assert_ne!(a, c);
    assert_eq!(arena.len(), 3);
    assert_eq!(arena.get(a), Some(&10));
    assert_eq!(arena.get(b), Some(&20));
    assert_eq!(arena.get(c), Some(&30));
    assert!(arena.contains_key(b));
}

#[test]
fn arena_remove_is_a_one_shot_take() {
    let mut arena: Arena<u32> = Arena::new();
    let a = arena.insert(10);
    let b = arena.insert(20);
    assert_eq!(arena.remove(a), Some(10));
    assert_eq!(arena.remove(a), None);
    assert_eq!(arena.get(a), None);
    assert!(!arena.contains_key(a));
    assert_eq!(arena.len(), 1);
    assert_eq!(arena.get(b), Some(&20));
}

#[test]
fn arena_stale_key_does_not_alias_a_reused_slot() {
    let mut arena: Arena<u32> = Arena::new();
    let a = arena.insert(10);
    assert_eq!(arena.remove(a), Some(10));
    let b = arena.insert(99);
    assert_ne!(a, b);
    assert_eq!(arena.get(a), None);
    assert_eq!(arena.get(b), Some(&99));
}

#[test]
fn arena_rejects_values_that_are_no_keys() {
    let mut arena: Arena<u32> = Arena::new();
    let a = arena.insert(10);
    let even_generation = a & !(1u64 << 32);
    assert_eq!(arena.get(even_generation), None);
    assert_eq!(arena.remove(even_generation), None);
    assert_eq!(arena.get(0), None);
    assert_eq!(arena.get(u64::MAX), None);
    assert_eq!(arena.len(), 1);
}

#[test]
fn arena_keys_lists_each_key_once() {
    let mut arena: Arena<u32> = Arena::new();
    let a = arena.insert(1);
    let b = arena.insert(2);
    let c = arena.insert(3);
    arena.remove(b);
    let mut keys = arena.keys();
    keys.sort();
    let mut expected = vec![a, c];
    expected.sort();
    assert_eq!(keys, expected);
}

#[test]
fn arena_drain_hands_out_everything_and_leaves_nothing() {
    let mut arena: Arena<u32> = Arena::new();
    let a = arena.insert(1);
    let b = arena.insert(2);
    let mut drained = arena.drain();
    drained.sort();
    let mut expected = vec![(a, 1), (b, 2)];
    expected.sort();
    assert_eq!(drained, expected);
    assert_eq!(arena.len(), 0);
    assert_eq!(arena.get(a), None);
    assert!(arena.drain().is_empty());
}

#[test]
fn pool_resolves_global_and_replicated_keys() {
    let mut pool: Pool<u32> = Pool::new();
    let g = pool.insert_global(7).unwrap();
    let l = pool.insert_replicated(vec![1, 2, 3], false).unwrap();
    assert_eq!(pool.physical_len(), 4);
    assert_eq!(pool.logical_len(), 1);
    assert_eq!(pool.resolve(CompositeKey::Global(g), 0), Some(&7));
    assert_eq!(pool.resolve(CompositeKey::Global(g), 5), Some(&7));
    assert_eq!(pool.resolve(CompositeKey::PerFrame(l), 0), Some(&1));
    assert_eq!(pool.resolve(CompositeKey::PerFrame(l), 2), Some(&3));
    assert_eq!(pool.resolve(CompositeKey::PerFrame(l), 3), None);
    assert_eq!(pool.resolve(CompositeKey::PerFrame(l + 1), 0), None);
    assert_eq!(pool.resolve(CompositeKey::Global(0), 0), None);
    assert_eq!(pool.replica_count(l), Some(3));
    assert_eq!(pool.replica_count(l + 1), None);
}

#[test]
fn pool_release_spares_external_and_global() {
    let mut pool: Pool<u32> = Pool::new();
    let g = pool.insert_global(7).unwrap();
    let own = pool.insert_replicated(vec![1, 2], false).unwrap();
    let foreign = pool.insert_replicated(vec![8, 9], true).unwrap();
    let mut released: Vec<u32> = pool.release_per_frame().into_iter().map(|p| p.1).collect();
    released.sort();
    assert_eq!(released, vec![1, 2]);
    assert_eq!(pool.physical_len(), 3);
    assert_eq!(pool.logical_len(), 1);
    assert_eq!(pool.resolve(CompositeKey::PerFrame(own), 0), None);
    assert_eq!(pool.resolve(CompositeKey::PerFrame(foreign), 1), Some(&9));
    assert_eq!(pool.resolve(CompositeKey::Global(g), 0), Some(&7));
    assert!(pool.release_per_frame().is_empty());
}

#[test]
fn per_frame_image_resolves_within_frame_count_only() {
    let mut manager = ImageManager::default();
    let key = manager.create_image(spec(ImageLifetime::PerFrame), 3, &backing(3)).unwrap();
    assert!(matches!(key, CompositeImageKey::PerFrame(_)));
    assert_eq!(manager.image_count(key), Ok(3));
    for i in 0..3u32 {
        let image = manager.resolve_image(key, FrameIndex::Frame(i)).unwrap();
        assert_eq!(image.vk_image, 100 + i as u64);
        assert_eq!(image.vk_image(), 100 + i as u64);
        assert_eq!(image.owned.as_ref().unwrap().allocation, 200 + i as u64);
    }
    for i in 3..6u32 {
        assert_eq!(
            manager.resolve_image(key, FrameIndex::Frame(i)).err(),
            Some(RegistryError::InvalidKey)
        );
    }
    assert_eq!(
        manager.resolve_image(key, FrameIndex::Frame(u32::MAX)).err(),
        Some(RegistryError::InvalidKey)
    );
}

#[test]
fn global_image_resolves_at_any_index() {
    let mut manager = ImageManager::default();
    let key = manager.create_image(spec(ImageLifetime::Global), 2, &backing(1)).unwrap();
    let image_key = match key {
        CompositeImageKey::Global(k) => k,
        CompositeImageKey::PerFrame(_) => panic!("a global image gets a global key"),
    };
    assert_eq!(manager.image_global(image_key).vk_image, 100);
    assert_eq!(manager.resolve_image(key, FrameIndex::Frame(0)).unwrap().vk_image, 100);
    assert_eq!(manager.resolve_image(key, FrameIndex::Swapchain(9)).unwrap().vk_image, 100);
    assert_eq!(manager.image_count(key), Ok(1));
    let stored = manager.resolve_image(key, FrameIndex::Frame(0)).unwrap();
    assert_eq!(stored.owned.as_ref().unwrap().spec.lifetime, ImageLifetime::Global);
    assert_eq!(stored.owned.as_ref().unwrap().spec.mips, 1);
}

#[test]
fn create_image_refuses_wrong_backing_and_changes_nothing() {
    let mut manager = ImageManager::default();
    assert_eq!(
        manager.create_image(spec(ImageLifetime::PerFrame), 3, &backing(2)).err(),
        Some(RegistryError::BackingMismatch)
    );
    assert_eq!(
        manager.create_image(spec(ImageLifetime::Global), 3, &backing(3)).err(),
        Some(RegistryError::BackingMismatch)
    );
    assert_eq!(
        manager.create_image(spec(ImageLifetime::Global), 3, &backing(0)).err(),
        Some(RegistryError::BackingMismatch)
    );
    assert_eq!(
        manager.create_image(spec(ImageLifetime::External), 1, &backing(1)).err(),
        Some(RegistryError::BackingMismatch)
    );
    assert_eq!(manager.occupancy(), (0, 0, 0, 0));
}

#[test]
fn unknown_keys_are_invalid() {
    let mut manager = ImageManager::default();
    manager.create_image(spec(ImageLifetime::Global), 1, &backing(1)).unwrap();
    let bogus = CompositeImageKey::Global(ImageKey(12345));
    assert_eq!(
        manager.resolve_image(bogus, FrameIndex::Frame(0)).err(),
        Some(RegistryError::InvalidKey)
    );
    let bogus_list = CompositeImageKey::PerFrame(LogicalImageKey(1u64 << 32));
    assert_eq!(
        manager.resolve_image(bogus_list, FrameIndex::Frame(0)).err(),
        Some(RegistryError::InvalidKey)
    );
    assert_eq!(manager.image_count(bogus), Err(RegistryError::InvalidKey));
    assert_eq!(manager.image_count(bogus_list), Err(RegistryError::InvalidKey));
}

#[test]
fn external_images_register_as_lists() {
    let mut manager = ImageManager::default();
    let (images, views) =
        manager.register_external_per_frame(&[11, 12, 13], &[21, 22, 23]).unwrap();
    assert!(matches!(images, CompositeImageKey::PerFrame(_)));
    assert!(matches!(views, CompositeImageViewKey::PerFrame(_)));
    for i in 0..3u32 {
        let image = manager.resolve_image(images, FrameIndex::Swapchain(i)).unwrap();
        assert_eq!(image.vk_image, 11 + i as u64);
        assert!(image.owned.is_none());
        let view = manager.resolve_image_view(views, FrameIndex::Swapchain(i)).unwrap();
        assert_eq!(view.vk_image_view, 21 + i as u64);
        assert!(view.owned.is_none());
    }
    assert!(manager.resolve_image(images, FrameIndex::Swapchain(3)).is_err());
    assert!(manager.resolve_image_view(views, FrameIndex::Swapchain(3)).is_err());
    assert_eq!(manager.occupancy(), (3, 1, 3, 1));
}

#[test]
fn views_follow_the_images_they_target() {
    let mut manager = ImageManager::default();
    let global = manager.create_image(spec(ImageLifetime::Global), 2, &backing(1)).unwrap();
    let per_frame = manager.create_image(spec(ImageLifetime::PerFrame), 2, &backing(2)).unwrap();
    let view = manager.create_image_view(ImageViewSpec::new(global), 2, &[500]).unwrap();
    assert!(matches!(view, CompositeImageViewKey::Global(_)));
    assert_eq!(
        manager.resolve_image_view(view, FrameIndex::Frame(1)).unwrap().vk_image_view,
        500
    );
    let views = manager.create_image_view(ImageViewSpec::new(per_frame), 2, &[600, 601]).unwrap();
    assert_eq!(
        manager.resolve_image_view(views, FrameIndex::Frame(1)).unwrap().vk_image_view,
        601
    );
    assert!(manager.resolve_image_view(views, FrameIndex::Frame(2)).is_err());
    let stored = manager.resolve_image_view(views, FrameIndex::Frame(0)).unwrap();
    assert_eq!(stored.owned.unwrap().spec.image_key, per_frame);
}

#[test]
fn create_image_view_names_each_refusal() {
    let mut manager = ImageManager::default();
    let per_frame = manager.create_image(spec(ImageLifetime::PerFrame), 2, &backing(2)).unwrap();
    let global = manager.create_image(spec(ImageLifetime::Global), 2, &backing(1)).unwrap();
    let missing = CompositeImageKey::Global(ImageKey(77));
    assert_eq!(
        manager.create_image_view(ImageViewSpec::new(missing), 1, &[1]).err(),
        Some(RegistryError::InvalidKey)
    );
    assert_eq!(
        manager.create_image_view(ImageViewSpec::new(per_frame), 3, &[1, 2, 3]).err(),
        Some(RegistryError::InvalidKey)
    );
    assert_eq!(
        manager.create_image_view(ImageViewSpec::new(per_frame), 2, &[1]).err(),
        Some(RegistryError::BackingMismatch)
    );
    assert_eq!(
        manager.create_image_view(ImageViewSpec::new(global), 2, &[1, 2]).err(),
        Some(RegistryError::BackingMismatch)
    );
    assert_eq!(manager.occupancy(), (3, 1, 0, 0));
}

#[test]
fn view_creation_parameters_come_from_the_targeted_image() {
    let mut manager = ImageManager::default();
    let per_frame = manager.create_image(spec(ImageLifetime::PerFrame), 2, &backing(2)).unwrap();
    let global = manager.create_image(spec(ImageLifetime::Global), 2, &backing(1)).unwrap();
    let shape = ImageViewSpec::new(per_frame).format(44).aspect(2).mip_range(1, 3).layers(2, 4);
    let info = shape.to_vk(&manager, Some(1)).unwrap();
    assert_eq!(info.image, 101);
    assert_eq!(info.format, 44);
    assert_eq!(info.view_type, 1);
    assert_eq!(info.subresource_range.aspect_mask, 2);
    assert_eq!(info.subresource_range.base_mip_level, 1);
    assert_eq!(info.subresource_range.level_count, 3);
    assert_eq!(info.subresource_range.base_array_layer, 2);
    assert_eq!(info.subresource_range.layer_count, 4);
    assert_eq!(shape.to_vk(&manager, Some(2)).err(), Some(RegistryError::InvalidKey));
    assert_eq!(shape.to_vk(&manager, None).err(), Some(RegistryError::InvalidKey));
    assert_eq!(ImageViewSpec::new(global).to_vk(&manager, None).unwrap().image, 100);
}

#[test]
fn rebuild_destroys_per_frame_resources_and_spares_external_ones() {
    let frames = 3u32;
    let mut manager = ImageManager::default();
    let (presentation, presentation_views) =
        manager.register_external_per_frame(&[11, 12], &[21, 22]).unwrap();
    let global = manager.create_image(spec(ImageLifetime::Global), frames, &backing(1)).unwrap();
    let color = manager
        .create_image(spec(ImageLifetime::PerFrame), frames, &backing(frames as u64))
        .unwrap();
    let color_views =
        manager.create_image_view(ImageViewSpec::new(color), frames, &[31, 32, 33]).unwrap();
    assert_eq!(manager.occupancy(), (6, 2, 5, 2));

    let released = manager.cleanup_per_frames();

    assert_eq!(released.images.len(), frames as usize);
    assert_eq!(released.image_views.len(), frames as usize);
    let mut handles: Vec<u64> = released.images.iter().map(|p| p.1.vk_image).collect();
    handles.sort();
    assert_eq!(handles, vec![100, 101, 102]);
    assert!(released.images.iter().all(|p| p.1.owned.is_some()));
    let mut view_handles: Vec<u64> =
        released.image_views.iter().map(|p| p.1.vk_image_view).collect();
    view_handles.sort();
    assert_eq!(view_handles, vec![31, 32, 33]);

    assert_eq!(manager.occupancy(), (3, 1, 2, 1));
    for i in 0..2u32 {
        assert_eq!(
            manager.resolve_image(presentation, FrameIndex::Swapchain(i)).unwrap().vk_image,
            11 + i as u64
        );
        assert_eq!(
            manager
                .resolve_image_view(presentation_views, FrameIndex::Swapchain(i))
                .unwrap()
                .vk_image_view,
            21 + i as u64
        );
    }
    assert_eq!(manager.resolve_image(global, FrameIndex::Frame(0)).unwrap().vk_image, 100);
    assert!(manager.resolve_image(color, FrameIndex::Frame(0)).is_err());
    assert!(manager.resolve_image_view(color_views, FrameIndex::Frame(0)).is_err());

    let again = manager.cleanup_per_frames();
    assert!(again.images.is_empty());
    assert!(again.image_views.is_empty());
}

#[test]
fn buffers_replicate_per_frame() {
    let mut manager = BufferManager::default();
    let per_frame = manager
        .create_buffer(
            buffer_spec(BufferLifetime::PerFrame),
            2,
            vec![
                BufferBacking { vk_buffer: 1, allocation: 10 },
                BufferBacking { vk_buffer: 2, allocation: 20 },
            ],
        )
        .unwrap();
    let global = manager
        .create_buffer(
            buffer_spec(BufferLifetime::Global),
            2,
            vec![BufferBacking { vk_buffer: 3, allocation: 30 }],
        )
        .unwrap();
    assert!(matches!(per_frame, CompositeBufferKey::PerFrame(_)));
    assert!(matches!(global, CompositeBufferKey::Global(_)));
    assert_eq!(manager.resolve_buffer(per_frame, 1).unwrap().vk_buffer, 2);
    assert_eq!(manager.resolve_buffer(per_frame, 1).unwrap().allocation, 20);
    assert_eq!(
        manager.resolve_buffer(per_frame, 1).unwrap().spec.debug_name.as_deref(),
        Some("camera")
    );
    assert_eq!(manager.resolve_buffer(per_frame, 2).err(), Some(RegistryError::InvalidKey));
    assert_eq!(manager.resolve_buffer(global, 7).unwrap().vk_buffer, 3);
    if let CompositeBufferKey::PerFrame(list) = per_frame {
        assert_eq!(manager.buffer_per_frame(list, 0).vk_buffer, 1);
    }
    if let CompositeBufferKey::Global(key) = global {
        assert_eq!(manager.buffer_global(key).vk_buffer, 3);
    }
    assert_eq!(
        manager
            .create_buffer(buffer_spec(BufferLifetime::PerFrame), 2, vec![])
            .err(),
        Some(RegistryError::BackingMismatch)
    );
    let mut released: Vec<u64> =
        manager.cleanup_per_frames().into_iter().map(|p| p.1.vk_buffer).collect();
    released.sort();
    assert_eq!(released, vec![1, 2]);
    assert!(manager.resolve_buffer(per_frame, 0).is_err());
    assert_eq!(manager.resolve_buffer(global, 0).unwrap().vk_buffer, 3);
}

#[test]
fn pipelines_are_found_by_key_until_destroyed() {
    let mut manager = PipelineManager::new();
    let entry = PipelineEntry { pipeline: 7, layout: 8, generation: 1 };
    let key = manager.insert(entry).unwrap();
    assert_eq!(manager.get_pipeline(&key), Some(7));
    assert_eq!(manager.get_pipeline_layout(&key), Some(8));
    assert_eq!(manager.get_pipeline(&PipelineKey(3)), None);
    let released = manager.destroy();
    assert_eq!(released, vec![(key.0, entry)]);
    assert_eq!(manager.get_pipeline(&key), None);
    assert_eq!(manager.get_pipeline_layout(&key), None);
}

#[test]
fn frame_index_raw_is_the_index_whichever_kind() {
    assert_eq!(FrameIndex::Frame(3).raw(), 3);
    assert_eq!(FrameIndex::Swapchain(5).raw(), 5);
    assert_eq!(FrameIndex::Frame(u32::MAX).raw(), u32::MAX as usize);
}

#[test]
fn image_spec_builders_set_one_field_each() {
    let spec = ImageSpec::default();
    assert_eq!(spec.mips, 1);
    assert_eq!(spec.layers, 1);
    assert_eq!(spec.format, 0);
    assert_eq!(spec.lifetime, ImageLifetime::Global);
    assert!(spec.debug_name.is_none());
    let spec = spec.format(44).usage(0x10).samples(1).initial_layout(2).debug_name("color");
    assert_eq!(spec.format, 44);
    assert_eq!(spec.usage, 0x10);
    assert_eq!(spec.samples, 1);
    assert_eq!(spec.initial_layout, 2);
    assert_eq!(spec.debug_name.as_deref(), Some("color"));
    let copy = spec.clone();
    assert_eq!(copy.debug_name.as_deref(), Some("color"));
    assert_eq!(copy.format, 44);
}

#[test]
fn a_released_key_stays_dead_when_new_resources_take_its_place() {
    let frames = 2u32;
    let mut manager = ImageManager::default();
    let old_color = manager
        .create_image(spec(ImageLifetime::PerFrame), frames, &backing(frames as u64))
        .unwrap();
    let old_views =
        manager.create_image_view(ImageViewSpec::new(old_color), frames, &[31, 32]).unwrap();
    assert!(manager.resolve_image(old_color, FrameIndex::Frame(1)).is_ok());

    for round in 0..4u64 {
        let released = manager.cleanup_per_frames();
        assert_eq!(released.images.len(), frames as usize);
        assert_eq!(manager.occupancy(), (0, 0, 0, 0));
        let color = manager
            .create_image(spec(ImageLifetime::PerFrame), frames, &backing(frames as u64))
            .unwrap();
        let views = manager
            .create_image_view(ImageViewSpec::new(color), frames, &[41 + round, 51 + round])
            .unwrap();
        assert_eq!(manager.occupancy(), (2, 1, 2, 1));
        assert_ne!(color, old_color);
        assert_ne!(views, old_views);
        for i in 0..frames {
            assert_eq!(
                manager.resolve_image(old_color, FrameIndex::Frame(i)).err(),
                Some(RegistryError::InvalidKey)
            );
            assert_eq!(
                manager.resolve_image_view(old_views, FrameIndex::Frame(i)).err(),
                Some(RegistryError::InvalidKey)
            );
            assert!(manager.resolve_image(color, FrameIndex::Frame(i)).is_ok());
            assert_eq!(
                manager.resolve_image_view(views, FrameIndex::Frame(i)).unwrap().vk_image_view,
                41 + round + 10 * i as u64
            );
        }
        assert_eq!(manager.image_count(old_color), Err(RegistryError::InvalidKey));
    }
}
