//! Creation descriptions of buffers.

use vstd::prelude::*;

verus! {

#[derive(Clone, Copy, PartialEq, Eq, Hash, Debug, Structural)]
pub enum AllocationStrategy {
    Linear,
    Resizable,
    Arena,
}

#[derive(Clone, Copy, PartialEq, Eq, Hash, Debug, Structural)]
pub enum BufferLifetime {
    /// One instance per frame-pipeline slot.
    PerFrame,
    /// One instance, shared by all frames.
    Global,
}

#[derive(Clone, Copy, PartialEq, Eq, Hash, Debug, Structural)]
pub enum BufferType {
    DeviceArena,
    Device,
    HostTransient,
    IndirectCommand,
}

#[derive(Clone, Copy, PartialEq, Eq, Hash, Debug, Structural)]
pub enum BufferUsage {
    Storage,
    Uniform,
    Transfer,
}

/// Description from which a buffer is created.
#[derive(Debug)]
pub struct BufferSpec {
    pub allocation_strategy: AllocationStrategy,
    pub lifetime: BufferLifetime,
    pub usage: BufferUsage,
    pub initial_size: usize,
    pub item_stride: usize,
    pub debug_name: Option<String>,
}

impl Clone for BufferSpec {
    fn clone(&self) -> (copy: Self)
        ensures
            copy == *self,
    {
        BufferSpec {
            allocation_strategy: self.allocation_strategy,
            lifetime: self.lifetime,
            usage: self.usage,
            initial_size: self.initial_size,
            item_stride: self.item_stride,
            debug_name: match &self.debug_name {
                Some(name) => Some(name.clone()),
                None => None,
            },
        }
    }
}

} // verus!
