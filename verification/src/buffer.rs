//! Buffers: their creation descriptions and their registry.

pub mod keys;
pub mod manager;
pub mod resource;
pub mod spec;

pub use keys::{BufferKey, LogicalBufferKey};
pub use manager::{BufferBacking, BufferManager, CompositeBufferKey};
pub use resource::Buffer;
pub use spec::{AllocationStrategy, BufferLifetime, BufferSpec, BufferType, BufferUsage};
