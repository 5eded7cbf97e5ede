//! Resource-dependency and synchronization core of a real-time GPU renderer.

pub mod arena;
pub mod buffer;
pub mod device;
pub mod error;
pub mod gameplay;
pub mod image;
pub mod label;
pub mod messages;
pub mod pool;
pub mod render;
pub mod upload;
pub mod vk;
pub mod vulkan;
