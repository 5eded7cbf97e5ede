//! The ring of frame slots: the one mechanism that bounds how many frames
//! are in flight.

use crate::vk::Handle;
use vstd::prelude::*;

use super::frame::{Frame, SlotState};

verus! {

/// How the wait for the completion fence of a slot ended.
#[derive(Clone, Copy, Debug, PartialEq, Eq, Structural)]
pub enum FenceWait {
    /// The fence is signaled: the slot's earlier work is complete.
    Signaled,
    /// The wait failed.
    Failed,
}

/// What happens to a slot that the ring has handed out.
#[derive(Clone, Copy, Debug, PartialEq, Eq, Structural)]
pub enum SlotEvent {
    /// Recording into the slot begins.
    BeginRecording,
    /// The recording is submitted, with the slot's fence reset.
    Submit,
    /// The frame is given up and what was recorded is discarded.
    Abort,
}

/// Failure of a ring operation.
#[derive(Clone, Copy, Debug, PartialEq, Eq, Structural)]
pub enum RingError {
    /// The wait for the slot's earlier work failed.
    WaitFailed,
    /// The slot is handed out already and not submitted yet.
    SlotBusy,
    /// The ring has no slot at this place.
    NoSuchSlot,
    /// The slot is not in a state in which this may happen to it.
    InvalidTransition,
}

/// Why the slot in state `state` cannot be handed out, if it cannot: no
/// slot is handed out after a wait that failed, and a slot that was handed
/// out and not submitted is busy.
pub open spec fn acquire_error(state: SlotState, waited: FenceWait) -> Option<RingError> {
    if waited == FenceWait::Failed {
        Some(RingError::WaitFailed)
    } else {
        match state {
            SlotState::Idle => None,
            SlotState::Submitted => None,
            SlotState::Acquired => Some(RingError::SlotBusy),
            SlotState::Recording => Some(RingError::SlotBusy),
        }
    }
}

/// The state that `event` brings a slot in state `state` into, if it may
/// happen to it.
pub open spec fn slot_after(state: SlotState, event: SlotEvent) -> Option<SlotState> {
    match (state, event) {
        (SlotState::Acquired, SlotEvent::BeginRecording) => Some(SlotState::Recording),
        (SlotState::Recording, SlotEvent::Submit) => Some(SlotState::Submitted),
        (SlotState::Acquired, SlotEvent::Abort) => Some(SlotState::Idle),
        (SlotState::Recording, SlotEvent::Abort) => Some(SlotState::Idle),
        _ => None,
    }
}

/// The place after `place` in a ring of `depth` slots.
pub open spec fn next_place(place: int, depth: int) -> int {
    if place + 1 == depth {
        0
    } else {
        place + 1
    }
}

/// The frame number after `number`.
pub open spec fn next_number(number: u64) -> u64 {
    if number == u64::MAX {
        0
    } else {
        (number + 1) as u64
    }
}

/// The number of slots among the first `n` that are not idle.
pub open spec fn outstanding_upto(frames: Seq<Frame>, n: int) -> nat
    decreases n,
{
    if n <= 0 {
        0
    } else {
        outstanding_upto(frames, n - 1) + if frames[n - 1].state == SlotState::Idle {
            0nat
        } else {
            1nat
        }
    }
}

/// The ring of frame slots.
#[derive(Debug)]
pub struct FrameRing {
    frames: Vec<Frame>,
    index: usize,
    number: u64,
}

impl FrameRing {
    /// The slots, in ring order.
    pub closed spec fn frames(&self) -> Seq<Frame> {
        self.frames@
    }

    /// The place of the slot that is handed out next.
    pub closed spec fn cursor(&self) -> int {
        self.index as int
    }

    /// The number that the next frame handed out carries.
    pub closed spec fn issued(&self) -> u64 {
        self.number
    }

    /// The ring has a slot, and its cursor is at one.
    pub closed spec fn wf(&self) -> bool {
        0 <= self.index < self.frames@.len()
    }

    /// The number of frames that are handed out or in flight.
    pub open spec fn outstanding(&self) -> nat {
        outstanding_upto(self.frames(), self.frames().len() as int)
    }

    /// In a well-formed ring the cursor is at a slot.
    pub proof fn lemma_wf(&self)
        requires
            self.wf(),
        ensures
            0 <= self.cursor() < self.frames().len(),
    {
    }

    /// A ring of the given slots, which must be at least one, with the
    /// cursor at the first.
    pub fn new(frames: Vec<Frame>) -> (ring: Self)
        requires
            frames@.len() > 0,
        ensures
            ring.wf(),
            ring.frames() == frames@,
            ring.cursor() == 0,
            ring.issued() == 0,
    {
        FrameRing { frames, index: 0, number: 0 }
    }

    /// The number that the next frame handed out carries.
    pub fn number(&self) -> (number: u64)
        ensures
            number == self.issued(),
    {
        self.number
    }

    /// The number of slots.
    pub fn len(&self) -> (depth: usize)
        ensures
            depth == self.frames().len(),
    {
        self.frames.len()
    }

    /// The fence to wait for before the next slot is acquired: that of the
    /// slot at the cursor. It is signaled while no work of the slot is in
    /// flight.
    pub fn pending_fence(&self) -> (fence: Handle)
        requires
            self.wf(),
        ensures
            fence == self.frames()[self.cursor()].fence,
    {
        self.frames[self.index].fence
    }

    /// The slot at place `slot`.
    pub fn frame(&self, slot: usize) -> (frame: Option<&Frame>)
        ensures
            match frame {
                Some(found) => slot < self.frames().len() && *found == self.frames()[slot as int],
                None => slot >= self.frames().len(),
            },
    {
        if slot < self.frames.len() {
            Some(&self.frames[slot])
        } else {
            None
        }
    }

    /// Hands out the slot at the cursor for the next frame and moves the
    /// cursor on, after the wait for the slot's fence ended as `waited`
    /// says. No slot is handed out after a wait that failed, and a slot
    /// that is handed out and not submitted is not handed out again. The
    /// slot handed out carries the next frame number. A refusal changes
    /// nothing.
    pub fn acquire_slot(&mut self, waited: FenceWait) -> (slot: Result<usize, RingError>)
        requires
            old(self).wf(),
        ensures
            final(self).wf(),
            final(self).frames().len() == old(self).frames().len(),
            match slot {
                Ok(place) => {
                    &&& place == old(self).cursor()
                    &&& acquire_error(old(self).frames()[place as int].state, waited) is None
                    &&& final(self).frames() == old(self).frames().update(
                        place as int,
                        (Frame {
                            number: old(self).issued(),
                            state: SlotState::Acquired,
                            ..old(self).frames()[place as int]
                        }),
                    )
                    &&& final(self).cursor() == next_place(
                        old(self).cursor(),
                        old(self).frames().len() as int,
                    )
                    &&& final(self).issued() == next_number(old(self).issued())
                },
                Err(error) => {
                    &&& acquire_error(old(self).frames()[old(self).cursor()].state, waited) == Some(
                        error,
                    )
                    &&& final(self).frames() == old(self).frames()
                    &&& final(self).cursor() == old(self).cursor()
                    &&& final(self).issued() == old(self).issued()
                },
            },
    {
        let place = self.index;
        if waited == FenceWait::Failed {
            return Err(RingError::WaitFailed);
        }
        match self.frames[place].state {
            SlotState::Idle => {},
            SlotState::Submitted => {},
            SlotState::Acquired => {
                return Err(RingError::SlotBusy);
            },
            SlotState::Recording => {
                return Err(RingError::SlotBusy);
            },
        }
        let len = self.frames.len();
        let frame = &mut self.frames[place];
        frame.number = self.number;
        frame.state = SlotState::Acquired;
        self.number = if self.number == u64::MAX {
            0
        } else {
            self.number + 1
        };
        self.index = if place + 1 == len {
            0
        } else {
            place + 1
        };
        proof {
            assert(final(self).frames@ =~= old(self).frames@.update(
                place as int,
                (Frame {
                    number: old(self).issued(),
                    state: SlotState::Acquired,
                    ..old(self).frames@[place as int]
                }),
            ));
        }
        Ok(place)
    }

    /// The slot at place `slot`, to fill in what the frame needs.
    pub fn set_swapchain_image_index(&mut self, slot: usize, image_index: u32) -> (outcome: Result<
        (),
        RingError,
    >)
        requires
            old(self).wf(),
        ensures
            final(self).wf(),
            final(self).cursor() == old(self).cursor(),
            final(self).issued() == old(self).issued(),
            match outcome {
                Ok(()) => slot < old(self).frames().len() && final(self).frames() == old(
                    self,
                ).frames().update(
                    slot as int,
                    (Frame { swapchain_image_index: image_index, ..old(self).frames()[slot as int] }),
                ),
                Err(error) => slot >= old(self).frames().len() && error == RingError::NoSuchSlot
                    && final(self).frames() == old(self).frames(),
            },
    {
        if slot >= self.frames.len() {
            return Err(RingError::NoSuchSlot);
        }
        let frame = &mut self.frames[slot];
        frame.swapchain_image_index = image_index;
        proof {
            assert(final(self).frames@ =~= old(self).frames@.update(
                slot as int,
                (Frame { swapchain_image_index: image_index, ..old(self).frames@[slot as int] }),
            ));
        }
        Ok(())
    }

    /// Records that `event` happened to the slot at place `slot`. An event
    /// that may not happen to the slot in its state changes nothing.
    pub fn apply(&mut self, slot: usize, event: SlotEvent) -> (outcome: Result<(), RingError>)
        requires
            old(self).wf(),
        ensures
            final(self).wf(),
            final(self).cursor() == old(self).cursor(),
            final(self).issued() == old(self).issued(),
            match outcome {
                Ok(()) => {
                    &&& slot < old(self).frames().len()
                    &&& slot_after(old(self).frames()[slot as int].state, event) matches Some(state)
                    &&& final(self).frames() == old(self).frames().update(
                        slot as int,
                        (Frame { state, ..old(self).frames()[slot as int] }),
                    )
                },
                Err(error) => {
                    &&& final(self).frames() == old(self).frames()
                    &&& if slot >= old(self).frames().len() {
                        error == RingError::NoSuchSlot
                    } else {
                        slot_after(old(self).frames()[slot as int].state, event) is None && error
                            == RingError::InvalidTransition
                    }
                },
            },
    {
        if slot >= self.frames.len() {
            return Err(RingError::NoSuchSlot);
        }
        let state = match (self.frames[slot].state, event) {
            (SlotState::Acquired, SlotEvent::BeginRecording) => SlotState::Recording,
            (SlotState::Recording, SlotEvent::Submit) => SlotState::Submitted,
            (SlotState::Acquired, SlotEvent::Abort) => SlotState::Idle,
            (SlotState::Recording, SlotEvent::Abort) => SlotState::Idle,
            _ => {
                return Err(RingError::InvalidTransition);
            },
        };
        let frame = &mut self.frames[slot];
        frame.state = state;
        proof {
            assert(final(self).frames@ =~= old(self).frames@.update(
                slot as int,
                (Frame { state, ..old(self).frames@[slot as int] }),
            ));
        }
        Ok(())
    }

    /// Hands out the slot at the cursor, as `acquire_slot` does, for the
    /// caller to fill.
    pub fn acquire(&mut self, waited: FenceWait) -> (frame: Result<&mut Frame, RingError>)
        requires
            old(self).wf(),
        ensures
            match frame {
                Ok(slot) => {
                    &&& acquire_error(old(self).frames()[old(self).cursor()].state, waited) is None
                    &&& *slot == (Frame {
                        number: old(self).issued(),
                        state: SlotState::Acquired,
                        ..old(self).frames()[old(self).cursor()]
                    })
                    &&& final(self).frames() == old(self).frames().update(
                        old(self).cursor(),
                        *final(slot),
                    )
                    &&& final(self).cursor() == next_place(
                        old(self).cursor(),
                        old(self).frames().len() as int,
                    )
                    &&& final(self).issued() == next_number(old(self).issued())
                },
                Err(error) => {
                    &&& acquire_error(old(self).frames()[old(self).cursor()].state, waited) == Some(
                        error,
                    )
                    &&& final(self).frames() == old(self).frames()
                    &&& final(self).cursor() == old(self).cursor()
                    &&& final(self).issued() == old(self).issued()
                },
            },
    {
        match self.acquire_slot(waited) {
            Ok(place) => Ok(&mut self.frames[place]),
            Err(error) => Err(error),
        }
    }

    /// Takes the ring apart and hands its slots out, in ring order, for
    /// their synchronization objects to be waited for and released.
    pub fn destroy(self) -> (frames: Vec<Frame>)
        ensures
            frames@ == self.frames(),
    {
        self.frames
    }
}

/// No more slots are outstanding than there are slots.
proof fn lemma_outstanding_bounded(frames: Seq<Frame>, n: int)
    requires
        0 <= n <= frames.len(),
    ensures
        outstanding_upto(frames, n) <= n,
    decreases n,
{
    if n > 0 {
        lemma_outstanding_bounded(frames, n - 1);
    }
}

/// Where as many slots are outstanding as there are slots, none is idle.
proof fn lemma_all_outstanding(frames: Seq<Frame>, n: int, i: int)
    requires
        0 <= i < n <= frames.len(),
        outstanding_upto(frames, n) == n,
    ensures
        frames[i].state != SlotState::Idle,
    decreases n,
{
    lemma_outstanding_bounded(frames, n - 1);
    if i < n - 1 {
        lemma_all_outstanding(frames, n - 1, i);
    }
}

/// The ring bounds the frames in flight by its depth: never are more
/// frames outstanding than it has slots; no slot is handed out before the
/// wait for its fence has succeeded, and a slot that is handed out is not
/// handed out again before it is submitted; so with every slot
/// outstanding, no frame is handed out until a fence is signaled.
pub proof fn lemma_ring_bounds_frames_in_flight(ring: &FrameRing, waited: FenceWait)
    requires
        ring.wf(),
    ensures
        ring.outstanding() <= ring.frames().len(),
        waited != FenceWait::Signaled ==> acquire_error(ring.frames()[ring.cursor()].state, waited)
            == Some(RingError::WaitFailed),
        ring.frames()[ring.cursor()].state == SlotState::Acquired || ring.frames()[ring.cursor()].state
            == SlotState::Recording ==> acquire_error(ring.frames()[ring.cursor()].state, waited)
            is Some,
        ring.outstanding() == ring.frames().len() && waited != FenceWait::Signaled ==> acquire_error(
            ring.frames()[ring.cursor()].state,
            waited,
        ) is Some,
{
    ring.lemma_wf();
    lemma_outstanding_bounded(ring.frames(), ring.frames().len() as int);
    if ring.outstanding() == ring.frames().len() {
        lemma_all_outstanding(ring.frames(), ring.frames().len() as int, ring.cursor());
    }
}

} // verus!
