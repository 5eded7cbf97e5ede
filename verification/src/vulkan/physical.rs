//! The choice of the queue families of a physical device.

use vstd::prelude::*;

verus! {

/// The queue families that the engine submits to.
#[derive(Clone, Copy, Debug, PartialEq, Eq, Structural)]
pub struct QueueFamiliesIndices {
    pub graphics_index: u32,
    pub present_index: u32,
}

/// What is known of one queue family that has queues: whether it takes
/// graphics work, and whether it can present to the surface, as far as the
/// query for that went through.
#[derive(Clone, Copy, Debug, PartialEq, Eq, Structural)]
pub struct QueueFamily {
    pub graphics: bool,
    pub present_support: Option<bool>,
}

/// Whether the family at `i` is the first that takes graphics work.
pub open spec fn is_first_graphics(families: Seq<QueueFamily>, i: int) -> bool {
    &&& 0 <= i < families.len()
    &&& families[i].graphics
    &&& forall|j: int| 0 <= j < i ==> !(#[trigger] families[j]).graphics
}

/// Whether the family at `i` is the first that can present.
pub open spec fn is_first_present(families: Seq<QueueFamily>, i: int) -> bool {
    &&& 0 <= i < families.len()
    &&& families[i].present_support == Some(true)
    &&& forall|j: int| 0 <= j < i ==> (#[trigger] families[j]).present_support != Some(true)
}

/// The first family that takes graphics work and the first that can
/// present to the surface, by position, each if there is one.
pub fn find_queue_families(families: &[QueueFamily]) -> (found: (Option<u32>, Option<u32>))
    requires
        families@.len() <= u32::MAX,
    ensures
        match found.0 {
            Some(index) => is_first_graphics(families@, index as int),
            None => forall|j: int| 0 <= j < families@.len() ==> !(#[trigger] families@[j]).graphics,
        },
        match found.1 {
            Some(index) => is_first_present(families@, index as int),
            None => forall|j: int|
                0 <= j < families@.len() ==> (#[trigger] families@[j]).present_support != Some(true),
        },
{
    let mut graphics: Option<u32> = None;
    let mut present: Option<u32> = None;
    let mut i: usize = 0;
    while i < families.len() && !(graphics.is_some() && present.is_some())
        invariant
            0 <= i <= families@.len(),
            families@.len() <= u32::MAX,
            match graphics {
                Some(index) => is_first_graphics(families@, index as int),
                None => forall|j: int| 0 <= j < i ==> !(#[trigger] families@[j]).graphics,
            },
            match present {
                Some(index) => is_first_present(families@, index as int),
                None => forall|j: int|
                    0 <= j < i ==> (#[trigger] families@[j]).present_support != Some(true),
            },
        decreases families@.len() - i,
    {
        let family = families[i];
        if family.graphics && graphics.is_none() {
            graphics = Some(i as u32);
        }
        match family.present_support {
            Some(true) => {
                if present.is_none() {
                    present = Some(i as u32);
                }
            },
            _ => {},
        }
        i += 1;
    }
    (graphics, present)
}

/// Whether a physical device will do: it has a graphics and a present
/// family, supports the extensions needed, offers a surface format and a
/// present mode, and filters anisotropically.
pub fn is_device_suitable(
    graphics: Option<u32>,
    present: Option<u32>,
    extension_support: bool,
    swapchain_adequate: bool,
    sampler_anisotropy: bool,
) -> (suitable: bool)
    ensures
        suitable == (graphics is Some && present is Some && extension_support && swapchain_adequate
            && sampler_anisotropy),
{
    graphics.is_some() && present.is_some() && extension_support && swapchain_adequate
        && sampler_anisotropy
}

} // verus!
