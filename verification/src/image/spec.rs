//! Creation descriptions of images and image views.

use crate::vk::{
    Extent3D, Format, Handle, ImageAspectFlags, ImageLayout, ImageSubresourceRange,
    ImageUsageFlags, ImageViewType, SampleCountFlags, FORMAT_UNDEFINED, IMAGE_ASPECT_COLOR,
    IMAGE_LAYOUT_UNDEFINED, IMAGE_VIEW_TYPE_2D,
};
use vstd::prelude::*;

use super::manager::CompositeImageKey;

verus! {

/// How long an image lives and who owns it.
#[derive(Debug, PartialEq, Eq, Clone, Copy, Structural)]
pub enum ImageLifetime {
    /// One instance, shared by all frames.
    Global,
    /// One instance per frame-pipeline slot.
    PerFrame,
    /// Instances of a foreign owner, never created or destroyed here.
    External,
}

/// Whether an image follows the size of the presentation surface.
#[derive(Debug, PartialEq, Eq, Clone, Copy, Structural)]
pub enum ResizePolicy {
    Swapchain,
    Fixed,
}

impl ResizePolicy {
    /// The policy's name.
    pub fn name(&self) -> (name: &'static str)
        ensures
            name@ == match *self {
                ResizePolicy::Swapchain => "Swapchain"@,
                ResizePolicy::Fixed => "Fixed"@,
            },
    {
        match self {
            ResizePolicy::Swapchain => "Swapchain",
            ResizePolicy::Fixed => "Fixed",
        }
    }
}

/// Concrete description from which an image is created.
#[derive(Debug)]
pub struct ImageSpec {
    pub format: Format,
    pub extent: Extent3D,
    pub usage: ImageUsageFlags,
    pub mips: u32,
    pub layers: u32,
    pub samples: SampleCountFlags,
    pub resize_policy: ResizePolicy,
    pub lifetime: ImageLifetime,
    pub initial_layout: ImageLayout,
    pub debug_name: Option<String>,
}

impl Default for ImageSpec {
    fn default() -> (spec: Self)
        ensures
            spec == (ImageSpec {
                format: FORMAT_UNDEFINED,
                extent: Extent3D { width: 0, height: 0, depth: 0 },
                usage: 0,
                mips: 1,
                layers: 1,
                samples: 0,
                resize_policy: ResizePolicy::Fixed,
                lifetime: ImageLifetime::Global,
                initial_layout: IMAGE_LAYOUT_UNDEFINED,
                debug_name: None,
            }),
    {
        ImageSpec {
            format: FORMAT_UNDEFINED,
            extent: Extent3D { width: 0, height: 0, depth: 0 },
            usage: 0,
            mips: 1,
            layers: 1,
            samples: 0,
            resize_policy: ResizePolicy::Fixed,
            lifetime: ImageLifetime::Global,
            initial_layout: IMAGE_LAYOUT_UNDEFINED,
            debug_name: None,
        }
    }
}

impl Clone for ImageSpec {
    fn clone(&self) -> (copy: Self)
        ensures
            copy == *self,
    {
        ImageSpec {
            format: self.format,
            extent: self.extent,
            usage: self.usage,
            mips: self.mips,
            layers: self.layers,
            samples: self.samples,
            resize_policy: self.resize_policy,
            lifetime: self.lifetime,
            initial_layout: self.initial_layout,
            debug_name: match &self.debug_name {
                Some(name) => Some(name.clone()),
                None => None,
            },
        }
    }
}

impl ImageSpec {
    pub fn format(self, format: Format) -> (spec: Self)
        ensures
            spec == (ImageSpec { format, ..self }),
    {
        let mut spec = self;
        spec.format = format;
        spec
    }

    pub fn extent(self, extent: Extent3D) -> (spec: Self)
        ensures
            spec == (ImageSpec { extent, ..self }),
    {
        let mut spec = self;
        spec.extent = extent;
        spec
    }

    pub fn usage(self, usage: ImageUsageFlags) -> (spec: Self)
        ensures
            spec == (ImageSpec { usage, ..self }),
    {
        let mut spec = self;
        spec.usage = usage;
        spec
    }

    pub fn samples(self, samples: SampleCountFlags) -> (spec: Self)
        ensures
            spec == (ImageSpec { samples, ..self }),
    {
        let mut spec = self;
        spec.samples = samples;
        spec
    }

    pub fn resize_policy(self, resize_policy: ResizePolicy) -> (spec: Self)
        ensures
            spec == (ImageSpec { resize_policy, ..self }),
    {
        let mut spec = self;
        spec.resize_policy = resize_policy;
        spec
    }

    pub fn lifetime(self, lifetime: ImageLifetime) -> (spec: Self)
        ensures
            spec == (ImageSpec { lifetime, ..self }),
    {
        let mut spec = self;
        spec.lifetime = lifetime;
        spec
    }

    pub fn initial_layout(self, layout: ImageLayout) -> (spec: Self)
        ensures
            spec == (ImageSpec { initial_layout: layout, ..self }),
    {
        let mut spec = self;
        spec.initial_layout = layout;
        spec
    }

    pub fn debug_name(self, debug_name: &str) -> (spec: Self)
        ensures
            spec.debug_name matches Some(name) && name@ == debug_name@,
            spec == (ImageSpec { debug_name: spec.debug_name, ..self }),
    {
        let mut spec = self;
        spec.debug_name = Some(debug_name.to_owned());
        spec
    }
}

/// Description from which a view of an image is created.
#[derive(Clone, Copy, Debug)]
pub struct ImageViewSpec {
    pub image_key: CompositeImageKey,
    pub view_type: ImageViewType,
    pub format: Format,
    pub aspect_mask: ImageAspectFlags,
    pub base_mip_level: u32,
    pub level_count: u32,
    pub base_array_layer: u32,
    pub layer_count: u32,
    pub debug_name: Option<&'static str>,
}

/// What the GPU API needs to create one view: the image and the view's shape.
#[derive(Clone, Copy, Debug, PartialEq, Eq, Structural)]
pub struct ImageViewCreateInfo {
    pub image: Handle,
    pub view_type: ImageViewType,
    pub format: Format,
    pub subresource_range: ImageSubresourceRange,
}

impl ImageViewSpec {
    /// A two-dimensional color view of the first mip level and layer.
    pub fn new(image_key: CompositeImageKey) -> (spec: Self)
        ensures
            spec == (ImageViewSpec {
                image_key,
                view_type: IMAGE_VIEW_TYPE_2D,
                format: FORMAT_UNDEFINED,
                aspect_mask: IMAGE_ASPECT_COLOR,
                base_mip_level: 0,
                level_count: 1,
                base_array_layer: 0,
                layer_count: 1,
                debug_name: None,
            }),
    {
        ImageViewSpec {
            image_key,
            view_type: IMAGE_VIEW_TYPE_2D,
            format: FORMAT_UNDEFINED,
            aspect_mask: IMAGE_ASPECT_COLOR,
            base_mip_level: 0,
            level_count: 1,
            base_array_layer: 0,
            layer_count: 1,
            debug_name: None,
        }
    }

    pub fn view_type(self, view_type: ImageViewType) -> (spec: Self)
        ensures
            spec == (ImageViewSpec { view_type, ..self }),
    {
        let mut spec = self;
        spec.view_type = view_type;
        spec
    }

    pub fn format(self, format: Format) -> (spec: Self)
        ensures
            spec == (ImageViewSpec { format, ..self }),
    {
        let mut spec = self;
        spec.format = format;
        spec
    }

    pub fn aspect(self, aspect: ImageAspectFlags) -> (spec: Self)
        ensures
            spec == (ImageViewSpec { aspect_mask: aspect, ..self }),
    {
        let mut spec = self;
        spec.aspect_mask = aspect;
        spec
    }

    pub fn mip_range(self, base: u32, count: u32) -> (spec: Self)
        ensures
            spec == (ImageViewSpec { base_mip_level: base, level_count: count, ..self }),
    {
        let mut spec = self;
        spec.base_mip_level = base;
        spec.level_count = count;
        spec
    }

    pub fn layers(self, base: u32, count: u32) -> (spec: Self)
        ensures
            spec == (ImageViewSpec { base_array_layer: base, layer_count: count, ..self }),
    {
        let mut spec = self;
        spec.base_array_layer = base;
        spec.layer_count = count;
        spec
    }

    /// The creation parameters of a view of `image` with this shape.
    pub open spec fn create_info(self, image: Handle) -> ImageViewCreateInfo {
        ImageViewCreateInfo {
            image,
            view_type: self.view_type,
            format: self.format,
            subresource_range: ImageSubresourceRange {
                aspect_mask: self.aspect_mask,
                base_mip_level: self.base_mip_level,
                level_count: self.level_count,
                base_array_layer: self.base_array_layer,
                layer_count: self.layer_count,
            },
        }
    }
}

} // verus!
