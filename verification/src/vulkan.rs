//! The decisions taken when the device and the presentation surface are
//! set up.

pub mod physical;
pub mod swapchain;

pub use physical::QueueFamiliesIndices;
pub use swapchain::{SwapchainProperties, SwapchainSupportDetails};
