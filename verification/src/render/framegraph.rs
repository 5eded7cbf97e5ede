//! The frame graph: passes, the resources they name, and the barriers
//! between them.

pub mod alias;
pub mod barrier;
pub mod builder;
pub mod graph;
pub mod image;
pub mod layouts;
pub mod pass;

pub use builder::FramegraphBuilder;
pub use graph::{FrameGraph, ImageAlias};
pub use pass::{CompositionPass, ForwardPass};
pub use layouts::ImageState;
