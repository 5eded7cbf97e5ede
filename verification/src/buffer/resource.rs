//! The physical resource that the buffer registry holds.

use crate::vk::Handle;
use vstd::prelude::*;

use super::spec::BufferSpec;

verus! {

/// A GPU buffer with the token of its backing memory allocation and the
/// description it was created from.
#[derive(Debug)]
pub struct Buffer {
    pub vk_buffer: Handle,
    pub allocation: u64,
    pub spec: BufferSpec,
}

} // verus!
