//! The per-frame machinery: the frame graph and the ring of frame slots.

pub mod frame;
pub mod frame_ring;
pub mod framegraph;
pub mod pipeline;
pub mod shader;

pub use frame::{Frame, SlotState};
pub use frame_ring::FrameRing;
