//! The choice of the properties of the presentation surface's swapchain.

use crate::vk::{
    ColorSpace, Extent2D, Format, PresentMode, COLOR_SPACE_SRGB_NONLINEAR, FORMAT_B8G8R8A8_UNORM,
    FORMAT_UNDEFINED, PRESENT_MODE_FIFO, PRESENT_MODE_IMMEDIATE, PRESENT_MODE_MAILBOX,
};
use vstd::prelude::*;

verus! {

/// A format and color space that a surface supports.
#[derive(Clone, Copy, Debug, PartialEq, Eq, Structural)]
pub struct SurfaceFormat {
    pub format: Format,
    pub color_space: ColorSpace,
}

/// What a surface can do, as far as the choices here go by it.
#[derive(Clone, Copy, Debug, PartialEq, Eq, Structural)]
pub struct SurfaceCapabilities {
    pub min_image_count: u32,
    pub max_image_count: u32,
    pub current_extent: Extent2D,
    pub min_image_extent: Extent2D,
    pub max_image_extent: Extent2D,
}

/// The properties chosen for a swapchain.
#[derive(Clone, Copy, Debug, PartialEq, Eq, Structural)]
pub struct SwapchainProperties {
    pub format: SurfaceFormat,
    pub present_mode: PresentMode,
    pub extent: Extent2D,
}

/// What a physical device supports on a surface.
#[derive(Debug)]
pub struct SwapchainSupportDetails {
    pub capabilities: SurfaceCapabilities,
    pub formats: Vec<SurfaceFormat>,
    pub present_modes: Vec<PresentMode>,
}

/// The surface format that is preferred.
pub open spec fn preferred_format() -> SurfaceFormat {
    SurfaceFormat { format: FORMAT_B8G8R8A8_UNORM, color_space: COLOR_SPACE_SRGB_NONLINEAR }
}

/// The surface format chosen among `available`: the preferred one where
/// the surface leaves the choice open or offers it, else the first offered.
pub open spec fn chosen_format(available: Seq<SurfaceFormat>) -> SurfaceFormat {
    if (available.len() == 1 && available[0].format == FORMAT_UNDEFINED) || available.contains(
        preferred_format(),
    ) {
        preferred_format()
    } else {
        available[0]
    }
}

/// The present mode chosen among `available`: mailbox before fifo before
/// immediate.
pub open spec fn chosen_present_mode(available: Seq<PresentMode>) -> PresentMode {
    if available.contains(PRESENT_MODE_MAILBOX) {
        PRESENT_MODE_MAILBOX
    } else if available.contains(PRESENT_MODE_FIFO) {
        PRESENT_MODE_FIFO
    } else {
        PRESENT_MODE_IMMEDIATE
    }
}

/// `preferred`, held to at most `max` and then to at least `min`.
pub open spec fn clamped(preferred: u32, min: u32, max: u32) -> u32 {
    let capped = if preferred < max {
        preferred
    } else {
        max
    };
    if capped > min {
        capped
    } else {
        min
    }
}

/// The extent chosen: the surface's own where it has one, else the
/// preferred dimensions, held to what the surface allows.
pub open spec fn chosen_extent(capabilities: SurfaceCapabilities, preferred: [u32; 2]) -> Extent2D {
    if capabilities.current_extent.width != u32::MAX {
        capabilities.current_extent
    } else {
        Extent2D {
            width: clamped(
                preferred[0],
                capabilities.min_image_extent.width,
                capabilities.max_image_extent.width,
            ),
            height: clamped(
                preferred[1],
                capabilities.min_image_extent.height,
                capabilities.max_image_extent.height,
            ),
        }
    }
}

/// The number of images asked of the swapchain: one more than the
/// surface's minimum, but no more than its maximum, where it has one.
pub open spec fn chosen_image_count(capabilities: SurfaceCapabilities) -> u32 {
    let preferred = if capabilities.min_image_count == u32::MAX {
        u32::MAX
    } else {
        (capabilities.min_image_count + 1) as u32
    };
    if capabilities.max_image_count > 0 && preferred > capabilities.max_image_count {
        capabilities.max_image_count
    } else {
        preferred
    }
}

/// Holds `preferred` to at most `max` and then to at least `min`.
fn clamp(preferred: u32, min: u32, max: u32) -> (held: u32)
    ensures
        held == clamped(preferred, min, max),
{
    let capped = if preferred < max {
        preferred
    } else {
        max
    };
    if capped > min {
        capped
    } else {
        min
    }
}

impl SwapchainSupportDetails {
    /// The properties of the swapchain to create, for a window of the
    /// preferred dimensions. The surface must offer a format.
    pub fn get_ideal_swapchain_properties(&self, preferred_dimensions: [u32; 2]) -> (properties:
        SwapchainProperties)
        requires
            self.formats@.len() > 0,
        ensures
            properties == (SwapchainProperties {
                format: chosen_format(self.formats@),
                present_mode: chosen_present_mode(self.present_modes@),
                extent: chosen_extent(self.capabilities, preferred_dimensions),
            }),
    {
        let format = Self::choose_swapchain_surface_format(self.formats.as_slice());
        let present_mode = Self::choose_swapchain_surface_present_mode(
            self.present_modes.as_slice(),
        );
        let extent = Self::choose_swapchain_extent(self.capabilities, preferred_dimensions);
        SwapchainProperties { format, present_mode, extent }
    }

    /// The surface format to use, of those offered, which must be at
    /// least one.
    pub fn choose_swapchain_surface_format(available_formats: &[SurfaceFormat]) -> (format:
        SurfaceFormat)
        requires
            available_formats@.len() > 0,
        ensures
            format == chosen_format(available_formats@),
    {
        let preferred = SurfaceFormat {
            format: FORMAT_B8G8R8A8_UNORM,
            color_space: COLOR_SPACE_SRGB_NONLINEAR,
        };
        if available_formats.len() == 1 && available_formats[0].format == FORMAT_UNDEFINED {
            return preferred;
        }
        let mut i: usize = 0;
        while i < available_formats.len()
            invariant
                0 <= i <= available_formats@.len(),
                preferred == preferred_format(),
                forall|j: int| 0 <= j < i ==> available_formats@[j] != preferred,
            decreases available_formats@.len() - i,
        {
            if available_formats[i].format == preferred.format && available_formats[i].color_space
                == preferred.color_space {
                assert(available_formats@[i as int] == preferred);
                assert(available_formats@.contains(preferred));
                return preferred;
            }
            i += 1;
        }
        assert(!available_formats@.contains(preferred));
        available_formats[0]
    }

    /// The present mode to use, of those offered.
    pub fn choose_swapchain_surface_present_mode(available_present_modes: &[PresentMode]) -> (mode:
        PresentMode)
        ensures
            mode == chosen_present_mode(available_present_modes@),
    {
        if offers(available_present_modes, PRESENT_MODE_MAILBOX) {
            PRESENT_MODE_MAILBOX
        } else if offers(available_present_modes, PRESENT_MODE_FIFO) {
            PRESENT_MODE_FIFO
        } else {
            PRESENT_MODE_IMMEDIATE
        }
    }

    /// The extent of the swapchain's images.
    pub fn choose_swapchain_extent(capabilities: SurfaceCapabilities, preferred_dimensions: [u32; 2]) -> (extent:
        Extent2D)
        ensures
            extent == chosen_extent(capabilities, preferred_dimensions),
    {
        if capabilities.current_extent.width != u32::MAX {
            return capabilities.current_extent;
        }
        let min = capabilities.min_image_extent;
        let max = capabilities.max_image_extent;
        Extent2D {
            width: clamp(preferred_dimensions[0], min.width, max.width),
            height: clamp(preferred_dimensions[1], min.height, max.height),
        }
    }

    /// The number of images to ask of the swapchain.
    pub fn image_count(&self) -> (count: u32)
        ensures
            count == chosen_image_count(self.capabilities),
    {
        let max = self.capabilities.max_image_count;
        let preferred = if self.capabilities.min_image_count == u32::MAX {
            u32::MAX
        } else {
            self.capabilities.min_image_count + 1
        };
        if max > 0 && preferred > max {
            max
        } else {
            preferred
        }
    }
}

/// Whether `modes` holds `mode`.
fn offers(modes: &[PresentMode], mode: PresentMode) -> (offered: bool)
    ensures
        offered == modes@.contains(mode),
{
    let mut i: usize = 0;
    while i < modes.len()
        invariant
            0 <= i <= modes@.len(),
            forall|j: int| 0 <= j < i ==> modes@[j] != mode,
        decreases modes@.len() - i,
    {
        if modes[i] == mode {
            assert(modes@[i as int] == mode);
            return true;
        }
        i += 1;
    }
    false
}

} // verus!
