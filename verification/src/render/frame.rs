//! One slot of the frame pipeline and the GPU objects that belong to it.

use crate::vk::Handle;
use vstd::prelude::*;

verus! {

/// Where a frame slot stands in its cycle.
#[derive(Clone, Copy, Debug, PartialEq, Eq, Structural)]
pub enum SlotState {
    /// No work of the slot is pending.
    Idle,
    /// Handed out by the ring; the wait for its earlier work is over.
    Acquired,
    /// Commands are being recorded into it.
    Recording,
    /// Its work is submitted and in flight.
    Submitted,
}

/// One slot of the frame pipeline: its place in the ring, the number of the
/// frame it carries, its synchronization objects and command targets, and
/// the presentation image that the frame renders to.
#[derive(Debug)]
pub struct Frame {
    pub index: usize,
    pub number: u64,
    pub fence: Handle,
    pub image_available: Handle,
    pub primary_cmd: Handle,
    pub secondary_cmds: Vec<Handle>,
    pub swapchain_image_index: u32,
    pub state: SlotState,
}

impl Frame {
    /// An idle slot at place `index` of the ring, around GPU objects that
    /// were created for it.
    pub fn new(
        index: usize,
        fence: Handle,
        image_available: Handle,
        primary_cmd: Handle,
        secondary_cmds: Vec<Handle>,
    ) -> (frame: Self)
        ensures
            frame == (Frame {
                index,
                number: 0,
                fence,
                image_available,
                primary_cmd,
                secondary_cmds,
                swapchain_image_index: 0,
                state: SlotState::Idle,
            }),
    {
        Frame {
            index,
            number: 0,
            fence,
            image_available,
            primary_cmd,
            secondary_cmds,
            swapchain_image_index: 0,
            state: SlotState::Idle,
        }
    }

    pub fn index(&self) -> (index: usize)
        ensures
            index == self.index,
    {
        self.index
    }
}

} // verus!
