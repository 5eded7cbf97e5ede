use std::sync::Arc;

use arbor::gameplay::{gameplay_step, GameplayStep};
use arbor::messages::{
    EngineControl, RenderRequest, ShutdownPhase, UploadComplete, UploadRequest,
};
use arbor::upload::{upload_continues, upload_polls, upload_turn, Forwarded, UploadTurn};
use arbor::vulkan::physical::{find_queue_families, is_device_suitable, QueueFamily};
use arbor::vulkan::swapchain::{SurfaceCapabilities, SurfaceFormat};
use arbor::vulkan::{QueueFamiliesIndices, SwapchainProperties, SwapchainSupportDetails};
use arbor::vk::Extent2D;

const PHASES: [ShutdownPhase; 4] = [
    ShutdownPhase::Running,
    ShutdownPhase::StopGameplay,
    ShutdownPhase::StopUpload,
    ShutdownPhase::StopRender,
];

#[test]
fn phases_survive_the_way_through_their_numbers() {
    for (raw, phase) in PHASES.into_iter().enumerate() {
        assert_eq!(phase.to_raw(), raw as u8);
        assert_eq!(ShutdownPhase::from_raw(raw as u8), phase);
        assert_eq!(ShutdownPhase::from_raw(phase.to_raw()), phase);
    }
    assert_eq!(ShutdownPhase::from_raw(4), ShutdownPhase::StopRender);
    assert_eq!(ShutdownPhase::from_raw(255), ShutdownPhase::StopRender);
}

#[test]
fn shutdown_goes_through_the_phases_in_order() {
    assert_eq!(ShutdownPhase::Running.next(), ShutdownPhase::StopGameplay);
    assert_eq!(ShutdownPhase::StopGameplay.next(), ShutdownPhase::StopUpload);
    assert_eq!(ShutdownPhase::StopUpload.next(), ShutdownPhase::StopRender);
    assert_eq!(ShutdownPhase::StopRender.next(), ShutdownPhase::StopRender);
}

#[test]
fn engine_control_publishes_the_phase() {
    let control = Arc::new(EngineControl::new());
    assert_eq!(control.phase(), ShutdownPhase::Running);
    for phase in PHASES {
        control.set_phase(phase);
        assert_eq!(control.phase(), phase);
    }
    let shared = control.clone();
    shared.set_phase(ShutdownPhase::StopUpload);
    assert_eq!(control.phase(), ShutdownPhase::StopUpload);
}

#[test]
fn gameplay_asks_for_assets_while_the_engine_runs() {
    assert_eq!(
        gameplay_step(ShutdownPhase::Running, 1),
        GameplayStep::Request { request: UploadRequest { asset_id: 1 }, next_asset: 2 }
    );
    assert_eq!(
        gameplay_step(ShutdownPhase::Running, u32::MAX),
        GameplayStep::Request { request: UploadRequest { asset_id: u32::MAX }, next_asset: 0 }
    );
    assert_eq!(gameplay_step(ShutdownPhase::StopGameplay, 1), GameplayStep::Stop);
    assert_eq!(gameplay_step(ShutdownPhase::StopUpload, 1), GameplayStep::Stop);
    assert_eq!(gameplay_step(ShutdownPhase::StopRender, 1), GameplayStep::Stop);
}

#[test]
fn upload_drains_what_is_in_flight_before_it_stops() {
    assert!(upload_continues(ShutdownPhase::Running, 0));
    assert!(upload_continues(ShutdownPhase::StopGameplay, 0));
    assert!(upload_continues(ShutdownPhase::StopUpload, 1));
    assert!(!upload_continues(ShutdownPhase::StopUpload, 0));
    assert!(upload_continues(ShutdownPhase::StopRender, 0));
    assert!(upload_polls(ShutdownPhase::Running));
    assert!(!upload_polls(ShutdownPhase::StopGameplay));
    assert!(!upload_polls(ShutdownPhase::StopUpload));
}

#[test]
fn an_upload_turn_passes_a_request_on_and_completes_one_upload() {
    let request = Some(UploadRequest { asset_id: 9 });
    let forwarded = Some(Forwarded {
        render: RenderRequest { asset_id: 9 },
        complete: UploadComplete { asset_id: 9 },
    });
    assert_eq!(
        upload_turn(ShutdownPhase::Running, 0, request),
        UploadTurn { in_flight: 0, forward: forwarded }
    );
    assert_eq!(
        upload_turn(ShutdownPhase::Running, 3, request),
        UploadTurn { in_flight: 3, forward: forwarded }
    );
    assert_eq!(
        upload_turn(ShutdownPhase::Running, usize::MAX, request),
        UploadTurn { in_flight: usize::MAX - 1, forward: forwarded }
    );
    assert_eq!(
        upload_turn(ShutdownPhase::Running, 3, None),
        UploadTurn { in_flight: 2, forward: None }
    );
    assert_eq!(
        upload_turn(ShutdownPhase::Running, 0, None),
        UploadTurn { in_flight: 0, forward: None }
    );
    assert_eq!(
        upload_turn(ShutdownPhase::StopUpload, 2, request),
        UploadTurn { in_flight: 1, forward: None }
    );
    assert_eq!(
        upload_turn(ShutdownPhase::StopGameplay, 0, request),
        UploadTurn { in_flight: 0, forward: None }
    );
}

fn family(graphics: bool, present_support: Option<bool>) -> QueueFamily {
    QueueFamily { graphics, present_support }
}

#[test]
fn queue_families_are_the_first_that_will_do() {
    assert_eq!(find_queue_families(&[]), (None, None));
    assert_eq!(
        find_queue_families(&[family(false, Some(false)), family(true, None), family(true, Some(true))]),
        (Some(1), Some(2))
    );
    assert_eq!(
        find_queue_families(&[family(true, Some(true)), family(true, Some(true))]),
        (Some(0), Some(0))
    );
    assert_eq!(
        find_queue_families(&[family(false, Some(true)), family(false, None)]),
        (None, Some(0))
    );
    assert_eq!(
        find_queue_families(&[family(false, Some(true)), family(false, None), family(true, None)]),
        (Some(2), Some(0))
    );
    let indices = QueueFamiliesIndices { graphics_index: 2, present_index: 0 };
    assert_ne!(indices.graphics_index, indices.present_index);
}

#[test]
fn a_device_is_suitable_when_nothing_is_missing() {
    assert!(is_device_suitable(Some(0), Some(1), true, true, true));
    assert!(!is_device_suitable(None, Some(1), true, true, true));
    assert!(!is_device_suitable(Some(0), None, true, true, true));
    assert!(!is_device_suitable(Some(0), Some(1), false, true, true));
    assert!(!is_device_suitable(Some(0), Some(1), true, false, true));
    assert!(!is_device_suitable(Some(0), Some(1), true, true, false));
}

fn capabilities(current_width: u32) -> SurfaceCapabilities {
    SurfaceCapabilities {
        min_image_count: 2,
        max_image_count: 3,
        current_extent: Extent2D { width: current_width, height: 480 },
        min_image_extent: Extent2D { width: 100, height: 100 },
        max_image_extent: Extent2D { width: 700, height: 1000 },
    }
}

#[test]
fn swapchain_properties_are_chosen_among_what_the_surface_offers() {
    let preferred = SurfaceFormat { format: 44, color_space: 0 };
    let srgb = SurfaceFormat { format: 50, color_space: 0 };
    let other = SurfaceFormat { format: 37, color_space: 0 };
    assert_eq!(SwapchainSupportDetails::choose_swapchain_surface_format(&[srgb, preferred]), preferred);
    assert_eq!(SwapchainSupportDetails::choose_swapchain_surface_format(&[srgb, other]), srgb);
    assert_eq!(
        SwapchainSupportDetails::choose_swapchain_surface_format(&[SurfaceFormat {
            format: 0,
            color_space: 5
        }]),
        preferred
    );
    assert_eq!(
        SwapchainSupportDetails::choose_swapchain_surface_format(&[
            SurfaceFormat { format: 44, color_space: 1 },
            other
        ]),
        SurfaceFormat { format: 44, color_space: 1 }
    );

    assert_eq!(SwapchainSupportDetails::choose_swapchain_surface_present_mode(&[2, 1, 0]), 1);
    assert_eq!(SwapchainSupportDetails::choose_swapchain_surface_present_mode(&[0, 2]), 2);
    assert_eq!(SwapchainSupportDetails::choose_swapchain_surface_present_mode(&[3]), 0);
    assert_eq!(SwapchainSupportDetails::choose_swapchain_surface_present_mode(&[]), 0);

    assert_eq!(
        SwapchainSupportDetails::choose_swapchain_extent(capabilities(640), [800, 600]),
        Extent2D { width: 640, height: 480 }
    );
    assert_eq!(
        SwapchainSupportDetails::choose_swapchain_extent(capabilities(u32::MAX), [800, 600]),
        Extent2D { width: 700, height: 600 }
    );
    assert_eq!(
        SwapchainSupportDetails::choose_swapchain_extent(capabilities(u32::MAX), [50, 2000]),
        Extent2D { width: 100, height: 1000 }
    );

    let details = SwapchainSupportDetails {
        capabilities: capabilities(u32::MAX),
        formats: vec![srgb, preferred],
        present_modes: vec![2, 0],
    };
    assert_eq!(
        details.get_ideal_swapchain_properties([800, 600]),
        SwapchainProperties {
            format: preferred,
            present_mode: 2,
            extent: Extent2D { width: 700, height: 600 },
        }
    );
    assert_eq!(details.image_count(), 3);
}

#[test]
fn the_swapchain_asks_for_one_image_more_than_the_minimum() {
    let count = |min: u32, max: u32| {
        let mut caps = capabilities(640);
        caps.min_image_count = min;
        caps.max_image_count = max;
        SwapchainSupportDetails { capabilities: caps, formats: vec![], present_modes: vec![] }
            .image_count()
    };
    assert_eq!(count(2, 0), 3);
    assert_eq!(count(2, 8), 3);
    assert_eq!(count(2, 2), 2);
    assert_eq!(count(3, 3), 3);
    assert_eq!(count(u32::MAX, 0), u32::MAX);
    assert_eq!(count(u32::MAX, 4), 4);
}

#[test]
fn the_device_reports_each_request_with_its_number_and_the_owner() {
    let device = arbor::device::Device::new(0);
    assert_eq!(device.id(), 0);
    assert_eq!(device.create_command_pool("upload"), "Device 0: create command pool for upload");
    assert_eq!(device.submit("upload"), "Device 0: submit from upload");
    let other = arbor::device::Device::new(4294967295);
    assert_eq!(other.submit(""), "Device 4294967295: submit from ");
    assert_eq!(other.create_command_pool("render"), format!("Device {}: create command pool for render", u32::MAX));
}
